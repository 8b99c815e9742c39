//! What is said where something is turned down: each cause has its own words.

use crate::commands::{tracking_objection, Tracker};
use crate::control::{authorization, url_objection, GateDecision, UrlParts};
use crate::gpu_monitor::{GpuMonitorManager, Monitors, StartGpuWatchInput};
use crate::gpu_protocol::{resolved, uuid_of_index, uuids, Message};
use crate::gpu_watch::{Ended, EndingView, Remote, RemoteInput, StepView};
use crate::patterns::regex_fault;
use crate::security::SecurityConfig;
use crate::shell::{background_at, comment_at};
use crate::statements::{
    ansi_c_quote_at, escape_at, grouping_at, has_command_string, syntax_objection,
};
use crate::text::views;
use crate::tools::item_objection;
use crate::web::{command_objection, key_objection, pane_id_objection};
use vstd::prelude::*;
use vstd::utf8::encode_utf8;

verus! {

/// Without an answer from an enabled approval gate the agent is told that the console cannot be
/// reached, and why.
pub proof fn unreachable_gate_is_reported(error: Seq<char>, was_enabled: bool, is_enabled: bool)
    ensures
        authorization(Err::<GateDecision, Seq<char>>(error), was_enabled, is_enabled)
            matches Err(message) ==> message
            == "Gate is enabled but the web control service is unavailable: "@ + error,
{
}

/// A command that cannot be tracked is told what in it stands in the way.
pub proof fn untrackable_commands_are_told_why(command: Seq<char>)
    ensures
        command.contains('\n') || command.contains('\r') ==> tracking_objection(command) == Some(
            "tracked commands cannot contain embedded newlines (\\n or \\r)"@,
        ),
        !command.contains('\n') && !command.contains('\r') && (exists|i: int|
            comment_at(command, i)) ==> tracking_objection(command) == Some(
            "tracked commands cannot contain unquoted shell comment markers (#)"@,
        ),
        !command.contains('\n') && !command.contains('\r') && !(exists|i: int|
            comment_at(command, i)) && (exists|i: int| background_at(command, i))
            ==> tracking_objection(command) == Some(
            "tracked commands cannot contain unquoted shell background operators (&)"@,
        ),
{
}

/// Who asks for a busy pane is told which command holds it, and not to go elsewhere.
pub proof fn busy_panes_are_named(pane_id: Seq<char>, owner: Seq<char>)
    ensures
        Tracker::busy_message(pane_id, owner) == "pane "@ + pane_id + " is busy with command "@
            + owner
            + "; do not retry in another window. If its state is uncertain, stop and report to the user"@,
{
}

/// Syntax that a command filter does not follow is named, the first kind of it that there is.
pub proof fn unfollowed_syntax_is_named(command: Seq<char>)
    ensures
        (exists|i: int| ansi_c_quote_at(command, i)) ==> syntax_objection(command) == Some(
            "command filter rejects ANSI-C quoted strings ($'...')"@,
        ),
        !(exists|i: int| ansi_c_quote_at(command, i)) && (exists|i: int| escape_at(command, i))
            ==> syntax_objection(command) == Some(
            "command filter rejects backslash escapes in command words"@,
        ),
        !(exists|i: int| ansi_c_quote_at(command, i)) && !(exists|i: int| escape_at(command, i)) && (
        exists|i: int| grouping_at(command, i)) ==> syntax_objection(command) == Some(
            "command filter rejects grouped shell commands"@,
        ),
        !(exists|i: int| ansi_c_quote_at(command, i)) && !(exists|i: int| escape_at(command, i))
            && !(exists|i: int| grouping_at(command, i)) && has_command_string(command)
            ==> syntax_objection(command) == Some("command filter rejects shell -c wrappers"@),
{
}

/// A pattern that does not compile is reported with its fault.
pub proof fn faulty_patterns_are_reported(config: SecurityConfig)
    requires
        config.command_filter.patterns@.len() > 0,
        regex_fault(config.command_filter.patterns@[0]@) is Some,
    ensures
        config.objection() == Some(
            "invalid regex pattern: "@ + regex_fault(config.command_filter.patterns@[0]@)->0,
        ),
{
    let all = views(config.command_filter.patterns@);
    assert(all[0] == config.command_filter.patterns@[0]@);
}

/// An item that is neither a tool nor a group is named.
pub proof fn unknown_items_are_named(item: Seq<char>)
    requires
        item_objection(item) is Some,
    ensures
        item.len() > 0,
        item[0] == '@' ==> item_objection(item)->0 == "unknown tool group '@"@ + item.skip(1)
            + "' in tool filter"@,
        item[0] != '@' ==> item_objection(item)->0 == "unknown tool '"@ + item
            + "' in tool filter"@,
{
}

/// Input from the console that is not accepted is told why.
pub proof fn refused_input_is_told_why(text: Seq<char>)
    ensures
        key_objection(text, true) is Some ==> key_objection(text, true)->0
            == "literal input exceeds 64 KiB"@,
        key_objection(text, false) is Some ==> key_objection(text, false)->0
            == "unsupported special key: "@ + text,
        (text.contains('\n') || text.contains('\r')) && command_objection(text) is Some
            ==> command_objection(text)->0 == "command must be a single line"@
            || command_objection(text)->0 == "command must not be empty"@,
        !text.contains('\n') && !text.contains('\r') && encode_utf8(text).len() <= 65_536
            && command_objection(text) is Some ==> command_objection(text)->0
            == "command must not be empty"@,
        encode_utf8(text).len() > 65_536 && command_objection(text) is Some
            ==> command_objection(text)->0 == "command must not exceed 65536 bytes"@
            || command_objection(text)->0 == "command must be a single line"@
            || command_objection(text)->0 == "command must not be empty"@,
        text.len() == 0 || text[0] != '%' ==> pane_id_objection(text) == Some(
            "pane id must start with '%'"@,
        ),
        text.len() > 0 && text[0] == '%' && pane_id_objection(text) is Some ==> pane_id_objection(
            text,
        )->0 == "pane id must be '%' followed by digits"@,
{
}

/// A URL that is not the console's is told why.
pub proof fn refused_urls_are_told_why(url: UrlParts, words: Seq<char>)
    ensures
        url_objection(Err::<UrlParts, Seq<char>>(words)) == Some("invalid web URL: "@ + words),
        url.scheme != "http"@ ==> url_objection(Ok::<UrlParts, Seq<char>>(url)) == Some(
            "web URL must use plain HTTP on loopback"@,
        ),
        url.scheme == "http"@ && (url.username.len() > 0 || url.password is Some)
            ==> url_objection(Ok::<UrlParts, Seq<char>>(url)) == Some(
            "web URL must not contain credentials"@,
        ),
        url.scheme == "http"@ && url.username.len() == 0 && url.password is None && url.host is None
            ==> url_objection(Ok::<UrlParts, Seq<char>>(url)) == Some(
            "web URL must include a loopback host"@,
        ),
        url.scheme == "http"@ && url.username.len() == 0 && url.password is None && url.host is Some
            && url_objection(Ok::<UrlParts, Seq<char>>(url)) is Some ==> url_objection(
            Ok::<UrlParts, Seq<char>>(url),
        )->0 == "web URL must use a loopback host"@,
{
}

/// A watch that cannot be started is told why: its times, its GPU, the missing connection, or
/// the watch that runs already.
pub proof fn refused_watches_are_told_why(
    state: Monitors,
    input: StartGpuWatchInput,
    enabled: bool,
)
    ensures
        !(60 <= input.idle_seconds <= 86_400) ==> input.objection() == Some(
            "idleSeconds must be between 60 and 86400"@,
        ),
        60 <= input.idle_seconds <= 86_400 && !(5 <= input.poll_seconds <= 60) ==> input.objection()
            == Some("pollSeconds must be between 5 and 60"@),
        60 <= input.idle_seconds <= 86_400 && 5 <= input.poll_seconds <= 60 && input.objection()
            is Some ==> input.objection()->0 == "gpu must be a numeric index or GPU UUID"@,
        ({
            let objection = GpuMonitorManager::start_objection(state, input, Ok(enabled));
            &&& input.objection() is Some ==> objection == input.objection()
            &&& input.objection() is None && !enabled ==> objection == Some(
                "GPU monitoring requires --ssh or TMUX_MCP_SSH"@,
            )
            &&& input.objection() is None && enabled && state.active is Some ==> objection == Some(
                "GPU watcher "@ + state.active->0.monitor_id + " is already active"@,
            )
            &&& objection is None <==> input.objection() is None && enabled && state.active is None
        }),
{
}

/// A GPU that is not in the inventory is named as it was asked for.
pub proof fn missing_gpus_are_named(
    value: Seq<char>,
    inventory: Seq<(Seq<char>, Seq<char>)>,
)
    ensures
        crate::text::all_digits(value) && uuid_of_index(inventory, value) is None ==> resolved(
            Some(value),
            inventory,
        ) == Err::<Seq<Seq<char>>, Seq<char>>("GPU index "@ + value + " not found"@),
        !crate::text::all_digits(value) && !uuids(inventory).contains(value) ==> resolved(
            Some(value),
            inventory,
        ) == Err::<Seq<Seq<char>>, Seq<char>>("GPU UUID "@ + value + " not found"@),
{
}

/// Once the remote process is known, an inventory that holds the requested GPUs makes the watch
/// ready for samples; one that does not ends it with the reason.
pub proof fn inventory_makes_the_watch_ready(
    remote: Remote,
    state: Monitors,
    inventory: Seq<(Seq<char>, Seq<char>)>,
    now: u64,
    now_ms: u64,
)
    requires
        remote.remote_pid is Some,
    ensures
        ({
            let (after, _, step) = remote.after_message(
                state,
                Message::Inventory(inventory),
                now,
                now_ms,
            );
            &&& resolved(remote.requested, inventory) matches Ok(targets) ==> after.ready
                && after.targets == targets && after.known == uuids(inventory) && after.remote_pid
                == remote.remote_pid && after.idle_since == remote.idle_since && step
                == (StepView::Continue { reset_heartbeat: true })
            &&& resolved(remote.requested, inventory) matches Err(words) ==> after == remote && step
                == StepView::End(Ended::Failed(words))
        }),
{
}

/// The end of a watch that the remote side caused is told in words.
pub proof fn remote_faults_are_told(
    remote: Remote,
    state: Monitors,
    id: Seq<char>,
    pid: u32,
    inventory: Seq<(Seq<char>, Seq<char>)>,
    active: Seq<Seq<char>>,
    now: u64,
    now_ms: u64,
)
    ensures
        id != remote.monitor_id ==> remote.after_message(
            state,
            Message::Ready { id, pid },
            now,
            now_ms,
        ).2 == (StepView::Terminate {
            pid: Some(pid),
            ending: EndingView::Settled(Ended::Failed("GPU watcher READY id mismatch"@)),
        }),
        remote.remote_pid is None ==> remote.after_message(
            state,
            Message::Inventory(inventory),
            now,
            now_ms,
        ).2 == StepView::End(Ended::Failed("GPU watcher INVENTORY arrived before READY"@)),
        !remote.ready ==> remote.after_message(
            state,
            Message::Sample { active },
            now,
            now_ms,
        ).2 == StepView::End(Ended::Failed("GPU watcher SAMPLE arrived before INVENTORY"@)),
        remote.ready && (exists|i: int|
            0 <= i < active.len() && !remote.known.contains(#[trigger] active[i]))
            ==> remote.after_message(state, Message::Sample { active }, now, now_ms).2
            == (StepView::Terminate {
            pid: remote.remote_pid,
            ending: EndingView::Settled(
                Ended::Failed("GPU process UUID does not map to physical inventory"@),
            ),
        }),
        remote.after_message(state, Message::Expired, now, now_ms).2 is AwaitExpired,
        remote.after_message(state, Message::Error(id), now, now_ms).2 == StepView::AwaitFailed(id),
{
}

/// Output that cannot be read, or a line that is too long, ends a watch, and it says so.
pub proof fn unreadable_output_is_told(
    remote: Remote,
    state: Monitors,
    text: String,
    now: u64,
    now_ms: u64,
)
    ensures
        remote.after(state, RemoteInput::OutputFailed(text), now, now_ms).2 == StepView::End(
            Ended::Failed("GPU watcher output: "@ + text@),
        ),
        encode_utf8(text@).len() > 4096 ==> remote.after(
            state,
            RemoteInput::Line(text),
            now,
            now_ms,
        ).2 == (StepView::Terminate {
            pid: remote.remote_pid,
            ending: EndingView::Settled(
                Ended::Failed("GPU watcher protocol line exceeds 4096 bytes"@),
            ),
        }),
{
}

} // verus!
