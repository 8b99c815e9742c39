//! What single decisions promise.

use crate::commands::{
    partial_capture_lines, shows_completion, Captured, CommandEventKind, CommandTracker, Event,
    Tracker, TrackingConfig, WaitStep,
};
use crate::control::{gate_mode_for, validate_token, GateMode};
use crate::errors::{Error, ErrorView};
use crate::gpu_watch::{signal_result, SignalResult};
use crate::hub::{react_to_event, EventReaction};
use crate::markers::{
    echoed, end_prefix, extract_output_between_markers, parse_command_output, parsed_match,
    start_marker, Bracketed, BracketedOutput,
};
use crate::security::SecurityPolicy;
use crate::shell::{single_quote_round_trip, single_quoted, unquoted, Quoting};
use crate::store::{
    framed, is_line, needs_newline, recover_compaction, should_compact, CompactionRecovery,
};
use crate::targets::{valid_alias, TargetsFile};
use crate::text::{
    contains_text, decimal, has_prefix, i32_number, lemma_encode_take, opt_str_view, trimmed,
    truncate_bytes, views,
};
use crate::text_laws::{decimal_is_read_back, exit_code_is_read_back};
use crate::tmux::tmux_prefix;
use crate::tools::{filter_objection, passes, CompiledToolFilter, ToolFilter};
use crate::types::{CommandExecution, CommandStatus, Session};
use crate::web::{
    authorize_pane_session, authorize_session_name, first_session, message_source,
    validate_bind_address, Access, MessageSource, PaneAccess, Topology,
};
use vstd::prelude::*;
use vstd::utf8::encode_utf8;

verus! {

/// The end of a command is recorded, that it was evicted makes it forgotten, and nothing else
/// does either.
pub proof fn ends_are_recorded_and_evictions_forgotten(
    kind: CommandEventKind,
    status: CommandStatus,
    r: EventReaction,
)
    requires
        call_ensures(react_to_event, (kind, status), r),
    ensures
        r is Forget <==> kind == CommandEventKind::Evicted,
        r is Record <==> kind == CommandEventKind::Terminal || (kind == CommandEventKind::Updated
            && status != CommandStatus::Running && status != CommandStatus::Queued),
        r matches EventReaction::Record { forget } ==> (forget <==> kind
            == CommandEventKind::Updated),
{
}

/// After an interrupted rewriting of the log, the log is kept where it is there; else what was
/// written completely takes its place, the new before the old; and what is there but is not
/// complete is not thrown away.
pub proof fn complete_logs_are_recovered(
    log_exists: bool,
    temporary: Option<bool>,
    backup: Option<bool>,
    r: CompactionRecovery,
)
    requires
        call_ensures(recover_compaction, (log_exists, temporary, backup), r),
    ensures
        log_exists <==> r == CompactionRecovery::RemoveLeftovers,
        r == CompactionRecovery::UseTemporary ==> temporary == Some(true),
        r == CompactionRecovery::UseBackup ==> backup == Some(true) && temporary != Some(true),
        !log_exists && temporary == Some(true) ==> r == CompactionRecovery::UseTemporary,
        !log_exists && temporary != Some(true) && backup == Some(true) ==> r
            == CompactionRecovery::UseBackup,
        r == CompactionRecovery::Nothing <==> !log_exists && temporary is None && backup is None,
        r == CompactionRecovery::Fail <==> !log_exists && temporary != Some(true) && backup != Some(
            true,
        ) && (temporary is Some || backup is Some),
{
}

/// What the remote script says of a signal: sent, the process is gone, or it is not ours.
pub proof fn signals_are_answered(exit_code: Option<i32>, r: SignalResult)
    requires
        call_ensures(signal_result, (exit_code,), r),
    ensures
        r == SignalResult::Sent <==> exit_code == Some(0i32),
        r == SignalResult::Gone <==> exit_code == Some(3i32),
        r == SignalResult::Mismatch <==> exit_code == Some(4i32),
{
}

/// A named mode is what the approval gate is set to; to enable it without a mode asks for
/// approval, and to disable it opens it.
pub proof fn gate_is_set_as_asked(mode: Option<GateMode>, enabled: Option<bool>, r: Option<GateMode>)
    requires
        call_ensures(gate_mode_for, (mode, enabled), r),
    ensures
        mode is Some ==> r == mode,
        mode is None && enabled == Some(true) ==> r == Some(GateMode::Approval),
        mode is None && enabled == Some(false) ==> r == Some(GateMode::Off),
        r is None <==> mode is None && enabled is None,
{
}

/// A log is rewritten once it is longer than four megabytes.
pub proof fn long_logs_are_rewritten(log_bytes: u64, r: bool)
    requires
        call_ensures(should_compact, (log_bytes,), r),
    ensures
        r <==> log_bytes > 4_194_304,
{
}

/// A log that does not end with a line break gets one before anything is added.
pub proof fn logs_end_with_a_line_break(last_byte: Option<u8>, r: bool)
    requires
        call_ensures(needs_newline, (last_byte,), r),
    ensures
        r <==> last_byte is Some && last_byte->0 != 10,
{
}

/// Partial output is captured within the bounds of the final capture, and at least one line.
pub proof fn partial_captures_are_bounded(tracking: &TrackingConfig, r: u32)
    requires
        call_ensures(partial_capture_lines, (tracking,), r),
    ensures
        r >= 1,
        tracking.capture_max_lines >= 1 ==> r <= tracking.capture_max_lines,
        tracking.capture_initial_lines >= 1 ==> r <= tracking.capture_initial_lines,
        tracking.capture_initial_lines >= 1 && tracking.capture_max_lines >= 1 ==> r
            == tracking.capture_initial_lines || r == tracking.capture_max_lines,
{
}

/// The console may listen on this machine only.
pub proof fn console_listens_here_only(is_loopback: bool, r: Result<(), String>)
    requires
        call_ensures(validate_bind_address, (is_loopback,), r),
    ensures
        r is Ok <==> is_loopback,
{
}

/// Of a pane that is there, what was done since the server started is shown; without a topology
/// all that is known; of a pane that is gone, nothing.
pub proof fn messages_are_those_of_the_running_server(
    pane_id: Option<&str>,
    topology: Option<&Topology>,
    r: MessageSource,
)
    requires
        call_ensures(message_source, (pane_id, topology), r),
    ensures
        pane_id is None ==> r is Nothing,
        pane_id is Some && topology is None ==> r is WholePane,
        pane_id is Some && topology is Some ==> (r is PaneSince <==> topology->0.shows(
            pane_id->0@,
        )),
        r matches MessageSource::PaneSince(since) ==> since == topology->0.server_started_at_ms,
        pane_id is Some && topology is Some && !topology->0.shows(pane_id->0@) ==> r is Nothing,
{
}

/// A token is read back as it was written, without white space around it, and nothing else is
/// one.
pub proof fn tokens_are_read_back(content: &str, r: Result<String, String>)
    requires
        call_ensures(validate_token, (content,), r),
    ensures
        r matches Ok(token) ==> token@ == trimmed(content@) && token@.len() == 64,
        r is Err ==> !crate::control::is_token(trimmed(content@)),
{
}

/// The markers of a command begin with fixed words and name the command.
pub proof fn markers_name_their_command(id: Seq<char>)
    ensures
        start_marker(id) == "TMUX_MCP_START_"@ + id,
        end_prefix(id) == "TMUX_MCP_DONE_"@ + id + "_"@,
{
}

/// What a DONE marker shows is the exit code where it is a number, with what stands before it as
/// the output.
pub proof fn marked_output_is_read(before: Seq<char>, digits: Seq<char>)
    ensures
        i32_number(digits) is Some ==> parsed_match(Some((before, digits))) == Some(
            (trimmed(before), i32_number(digits)->0),
        ),
        i32_number(digits) is None ==> parsed_match(Some((before, digits))) is None,
        parsed_match(None) is None,
{
}

/// Lines are written one after the other, each with its line break, and can be told apart again.
pub proof fn lines_can_be_told_apart(a: Seq<Seq<u8>>, b: Seq<Seq<u8>>)
    requires
        forall|i: int| 0 <= i < a.len() ==> is_line(#[trigger] a[i]),
        forall|i: int| 0 <= i < b.len() ==> is_line(#[trigger] b[i]),
        framed(a) == framed(b),
    ensures
        a == b,
    decreases a.len(),
{
    if a.len() == 0 || b.len() == 0 {
        lemma_framed(a);
        lemma_framed(b);
        assert(a =~= b);
    } else {
        let x = framed(a.drop_last());
        let y = framed(b.drop_last());
        let all = framed(a);
        lemma_framed(a.drop_last());
        lemma_framed(b.drop_last());
        assert(is_line(a[a.len() - 1]) && is_line(b[b.len() - 1]));
        assert(all =~= x + a.last() + seq![10u8]);
        assert(all =~= y + b.last() + seq![10u8]);
        assert(all.len() == x.len() + a.last().len() + 1);
        assert(all.len() == y.len() + b.last().len() + 1);
        if x.len() < y.len() {
            assert(all[y.len() - 1] == y.last());
            assert(all[y.len() - 1] == a.last()[y.len() - 1 - x.len()]);
            assert(a.last()[y.len() - 1 - x.len()] == 10u8);
            assert(a.last().contains(10u8));
        }
        if y.len() < x.len() {
            assert(all[x.len() - 1] == x.last());
            assert(all[x.len() - 1] == b.last()[x.len() - 1 - y.len()]);
            assert(b.last()[x.len() - 1 - y.len()] == 10u8);
            assert(b.last().contains(10u8));
        }
        assert(x =~= all.take(x.len() as int));
        assert(y =~= framed(b).take(y.len() as int));
        assert(a.last() =~= all.subrange(x.len() as int, all.len() - 1));
        assert(b.last() =~= framed(b).subrange(y.len() as int, framed(b).len() - 1));
        assert forall|i: int| 0 <= i < a.drop_last().len() implies is_line(
            #[trigger] a.drop_last()[i],
        ) by {
            assert(a.drop_last()[i] == a[i]);
        }
        assert forall|i: int| 0 <= i < b.drop_last().len() implies is_line(
            #[trigger] b.drop_last()[i],
        ) by {
            assert(b.drop_last()[i] == b[i]);
        }
        lines_can_be_told_apart(a.drop_last(), b.drop_last());
        assert(a =~= a.drop_last().push(a.last()));
        assert(b =~= b.drop_last().push(b.last()));
    }
}

proof fn lemma_framed(lines: Seq<Seq<u8>>)
    ensures
        lines.len() > 0 ==> framed(lines).len() > 0 && framed(lines).last() == 10u8,
        lines.len() == 0 ==> framed(lines).len() == 0,
{
}

/// Looking a command up recovers its completion exactly where it is tracked, runs, belongs to the
/// target, and both its exit code and the end of its output were found.
pub proof fn lookups_recover_only_what_is_certain(
    state: Tracker,
    id: Seq<char>,
    target: Option<Seq<char>>,
    probe: Option<(i32, Captured)>,
    now: u64,
)
    ensures
        state.looked_up(id, target, probe, now) != state ==> {
            &&& state.commands.dom().contains(id)
            &&& state.commands[id].target == target
            &&& state.commands[id].status == CommandStatus::Running || state.commands[id].status
                == CommandStatus::Queued
            &&& !state.commands[id].tracking_disabled && !state.commands[id].raw_mode
            &&& state.secrets.dom().contains(id)
            &&& probe is Some && (probe->0).1.output is Some && !(probe->0).1.truncated
            &&& state.looked_up(id, target, probe, now).commands[id].exit_code == Some(
                (probe->0).0,
            )
            &&& state.looked_up(id, target, probe, now).commands[id].status
                == CommandStatus::Completed <==> (probe->0).0 == 0
        },
        state.recoverable(id, target) && probe is Some && (probe->0).1.output is Some && !(
        probe->0).1.truncated ==> state.looked_up(id, target, probe, now).commands[id].result_ready
            && state.looked_up(id, target, probe, now).commands[id].output == (probe->0).1.output,
        shows_completion(probe) <==> probe is Some && (probe->0).1.output is Some && !(
        probe->0).1.truncated,
{
}

/// Of the ended records that count against the cap the oldest go first, and none goes before the
/// cap is reached.
pub proof fn oldest_records_go_first(
    before: Tracker,
    after: Tracker,
    now: u64,
    gone: Seq<char>,
    kept: Seq<char>,
)
    requires
        before.cleaned(after, now),
        before.commands.dom().contains(gone),
        !after.commands.dom().contains(gone),
        before.kept_by_age(gone, now),
    ensures
        before.tracking.completed_max_entries > 0,
        !before.occupied(gone),
        before.commands[gone].status != CommandStatus::Running,
        before.commands[gone].status != CommandStatus::Queued,
        after.commands.dom().contains(kept) && !before.occupied(kept)
            && before.commands[kept].status.terminal() && before.commands[kept].completed_at is Some
            ==> before.commands[gone].completed_at->0 <= before.commands[kept].completed_at->0,
{
    let capped = before.capped(now);
    assert(capped.contains(gone));
    if before.tracking.completed_max_entries == 0 {
        let left = capped.intersect(after.commands.dom());
        assert(left.subset_of(capped));
        assert(!left.contains(gone));
        vstd::set_lib::lemma_len_subset(left, capped.remove(gone));
        assert(false);
    }
    if after.commands.dom().contains(kept) && !before.occupied(kept)
        && before.commands[kept].status.terminal() && before.commands[kept].completed_at is Some {
        assert(before.kept_by_age(kept, now));
        assert(before.commands.dom().contains(kept));
        assert(capped.contains(kept));
    }
}

/// A cleanup changes no record: what is left is as it was, with its secret, and no pane changes
/// hands.
pub proof fn cleanup_only_removes(before: Tracker, after: Tracker, now: u64, id: Seq<char>)
    requires
        before.cleaned(after, now),
    ensures
        after.running == before.running,
        after.commands.dom().contains(id) ==> before.commands.dom().contains(id)
            && after.commands[id] == before.commands[id],
        after.commands.dom().contains(id) && before.secrets.dom().contains(id)
            ==> after.secrets.dom().contains(id) && after.secrets[id] == before.secrets[id],
        before.commands.dom().contains(id) && !after.commands.dom().contains(id)
            ==> !after.secrets.dom().contains(id),
{
}

/// Every record that was removed is reported once, as evicted, and no other is.
pub proof fn removals_are_reported(
    before: Tracker,
    after: Tracker,
    events: Seq<Event>,
    id: Seq<char>,
)
    requires
        before.evictions(after, events),
        before.commands.dom().contains(id),
    ensures
        !after.commands.dom().contains(id) <==> exists|i: int|
            0 <= i < events.len() && (#[trigger] events[i]).command_id == id && events[i].kind
                == CommandEventKind::Evicted,
{
    if !after.commands.dom().contains(id) {
        let i = choose|i: int| 0 <= i < events.len() && (#[trigger] events[i]).command_id == id;
        assert(events[i].kind == CommandEventKind::Evicted);
    }
}

/// What a command shows between its markers, each on a line of its own, is its output, whatever
/// stands before it, and the number in the DONE marker is its exit code.
pub proof fn output_stands_between_the_markers(
    captured: &str,
    id: &str,
    noise: Seq<char>,
    output: Seq<char>,
    code: i32,
    rest: Seq<char>,
    shown: BracketedOutput,
    parsed: Option<(String, i32)>,
)
    requires
        call_ensures(extract_output_between_markers, (captured, id), shown),
        call_ensures(parse_command_output, (captured, id), parsed),
        code >= 0,
        id@.len() <= 1000,
        !id@.contains('_'),
        !id@.contains('\n'),
        captured@ == noise + ("TMUX_MCP_START_"@ + id@) + seq!['\n'] + output + seq!['\n'] + (
        "TMUX_MCP_DONE_"@ + id@ + "_"@) + decimal(code as nat) + seq!['\n'] + rest,
        !contains_text(output, "TMUX_MCP_START_"@ + id@),
        !contains_text(rest, "TMUX_MCP_START_"@ + id@),
        !contains_text(rest, "TMUX_MCP_DONE_"@ + id@ + "_"@),
    ensures
        shown@ == Bracketed::Complete(trimmed(output)),
        parsed is Some,
        (parsed->0).0@ == trimmed(output),
        (parsed->0).1 == code,
{
    let digits = decimal(code as nat);
    decimal_is_read_back(code as nat);
    exit_code_is_read_back(code);
    assert(echoed(captured@, id@, noise, output, digits, rest));
}

/// Before its START marker is visible nothing counts as the output of a command.
pub proof fn nothing_is_shown_before_the_start(
    captured: &str,
    id: &str,
    shown: BracketedOutput,
)
    requires
        call_ensures(extract_output_between_markers, (captured, id), shown),
        id@.len() <= 1000,
    ensures
        shown is MissingStart <==> !contains_text(captured@, "TMUX_MCP_START_"@ + id@),
{
}

/// A text that is cut to a number of bytes keeps as much of its start as fits.
pub proof fn cutting_keeps_what_fits(text: &str, limit: usize, r: String, n: int)
    requires
        call_ensures(truncate_bytes, (text, limit), r),
        0 <= n <= text@.len(),
    ensures
        r@ == text@.take(r@.len() as int),
        encode_utf8(r@).len() <= limit,
        encode_utf8(text@.take(n)).len() <= limit ==> n <= r@.len(),
        encode_utf8(text@).len() <= limit ==> r@ == text@,
{
    let kept = r@.len() as int;
    if n > kept {
        let longer = text@.take(n);
        lemma_encode_take(longer, kept + 1);
        assert(longer.take(kept + 1) =~= text@.take(kept + 1));
    }
    if kept < text@.len() {
        lemma_encode_take(text@, kept + 1);
    } else {
        assert(text@.take(kept) =~= text@);
    }
}

/// An action on a pane needs its session to be allowed by id, or else by the name that the list
/// of sessions gives for the id; a session that is not there or cannot be found out is not
/// allowed.
pub proof fn panes_of_allowed_sessions_may_be_used(
    policy: &SecurityPolicy,
    id: &str,
    list: &Vec<Session>,
    by_id: PaneAccess,
    by_name: PaneAccess,
)
    requires
        call_ensures(authorize_pane_session, (policy, Ok::<&str, &str>(id)), by_id),
        call_ensures(authorize_session_name, (policy, id, Ok::<&Vec<Session>, &str>(list)), by_name),
    ensures
        by_id@ is Allowed <==> policy.config().session_denial(id@, None) is None,
        by_id@ is NeedsSessionName <==> policy.config().session_denial(id@, None) is Some,
        (forall|j: int| 0 <= j < list@.len() ==> (#[trigger] list@[j]).id@ != id@)
            ==> by_name@ is Denied,
        by_name@ is Allowed ==> exists|j: int|
            0 <= j < list@.len() && (#[trigger] list@[j]).id@ == id@
                && policy.config().session_denial(id@, Some(list@[j].name@)) is None,
        forall|j: int|
            0 <= j < list@.len() && (#[trigger] list@[j]).id@ == id@ && (forall|k: int|
                0 <= k < list@.len() && (#[trigger] list@[k]).id@ == id@ ==> k == j) ==> (by_name@
                is Allowed <==> policy.config().session_denial(id@, Some(list@[j].name@)) is None),
{
    if exists|i: int| #[trigger] first_session(list@, id@, i) {
        let i = choose|i: int| #[trigger] first_session(list@, id@, i);
        assert(list@[i].id@ == id@);
    }
}

/// Where the session of a pane, or the list of sessions, cannot be found out, the action is
/// refused.
pub proof fn unknown_sessions_are_refused(
    policy: &SecurityPolicy,
    id: &str,
    error: &str,
    by_id: PaneAccess,
    by_name: PaneAccess,
)
    requires
        call_ensures(authorize_pane_session, (policy, Err::<&str, &str>(error)), by_id),
        call_ensures(
            authorize_session_name,
            (policy, id, Err::<&Vec<Session>, &str>(error)),
            by_name,
        ),
    ensures
        by_id@ matches Access::Denied(answer) && answer.status == 403,
        by_name@ matches Access::Denied(answer) && answer.status == 403,
{
}

/// Whoever waits for a command gets it once its result is ready, is told where there is none, and
/// when the wait runs out gets it as it stands.
pub proof fn waiting_ends_with_the_command(
    tracker: &CommandTracker,
    id: &str,
    target: Option<&str>,
    step: WaitStep,
    expired: Option<(CommandExecution, bool)>,
)
    requires
        tracker.wf(),
        call_ensures(CommandTracker::poll_wait, (tracker, id, target), step),
        call_ensures(CommandTracker::wait_expired, (tracker, id, target), expired),
    ensures
        step is Missing <==> !(tracker@.commands.dom().contains(id@)
            && tracker@.commands[id@].target == opt_str_view(target)),
        step matches WaitStep::Ready(exec) ==> exec@ == tracker@.commands[id@],
        expired is Some <==> tracker@.commands.dom().contains(id@)
            && tracker@.commands[id@].target == opt_str_view(target),
        expired matches Some((exec, timed_out)) ==> exec@ == tracker@.commands[id@] && timed_out,
        step is Ready ==> tracker@.commands[id@].tracking_disabled || (
        tracker@.commands[id@].result_ready && tracker@.commands[id@].status
            != CommandStatus::Running && tracker@.commands[id@].status != CommandStatus::Queued),
        step is Pending ==> !tracker@.commands[id@].tracking_disabled && (
        !tracker@.commands[id@].result_ready || tracker@.commands[id@].status
            == CommandStatus::Running || tracker@.commands[id@].status == CommandStatus::Queued),
{
}

/// A socket is handed to tmux as the one word that its path is.
pub proof fn sockets_are_one_word(path: Seq<char>)
    ensures
        tmux_prefix(None) == "tmux"@,
        has_prefix(tmux_prefix(Some(path)), "tmux -S "@),
        unquoted(tmux_prefix(Some(path)).skip("tmux -S "@.len() as int), Quoting::none()) == path,
{
    let front = "tmux -S "@;
    single_quote_round_trip(path);
    assert(tmux_prefix(Some(path)).skip(front.len() as int) =~= single_quoted(path));
    assert(tmux_prefix(Some(path)).take(front.len() as int) =~= front);
}

/// A topology shows every pane of every window of every session in it, and no other.
pub proof fn topologies_show_their_panes(
    topology: Topology,
    s: int,
    w: int,
    p: int,
    pane_id: Seq<char>,
)
    ensures
        0 <= s < topology.sessions@.len() && 0 <= w < topology.sessions@[s].windows@.len() && 0 <= p
            < topology.sessions@[s].windows@[w].panes@.len() ==> topology.shows(
            topology.sessions@[s].windows@[w].panes@[p].id@,
        ),
        topology.sessions@.len() == 0 ==> !topology.shows(pane_id),
        topology.shows(pane_id) ==> exists|a: int, b: int, c: int|
            0 <= a < topology.sessions@.len() && 0 <= b < topology.sessions@[a].windows@.len() && 0
                <= c < topology.sessions@[a].windows@[b].panes@.len() && #[trigger]
            topology.sessions@[a].windows@[b].panes@[c].id@ == pane_id,
{
    if 0 <= s < topology.sessions@.len() && 0 <= w < topology.sessions@[s].windows@.len() && 0 <= p
        < topology.sessions@[s].windows@[w].panes@.len() {
        assert(topology.pane_at(s, w, p, topology.sessions@[s].windows@[w].panes@[p].id@));
    }
    if topology.shows(pane_id) {
        let (a, b, c) = choose|a: int, b: int, c: int| #[trigger]
            topology.pane_at(a, b, c, pane_id);
        assert(topology.sessions@[a].windows@[b].panes@[c].id@ == pane_id);
    }
}

/// A targets file is accepted, as it is, exactly where it names a target and every name is a
/// proper alias.
pub proof fn only_proper_targets_are_accepted(file: TargetsFile, r: Result<TargetsFile, Error>)
    requires
        call_ensures(TargetsFile::checked, (file,), r),
    ensures
        r is Ok <==> file.targets.keys().len() > 0 && forall|i: int|
            0 <= i < file.targets.keys().len() ==> valid_alias(#[trigger] file.targets.keys()[i]),
        r matches Ok(accepted) ==> accepted == file,
        r matches Err(e) ==> e@ is Config,
{
    if exists|i: int| #[trigger] TargetsFile::first_invalid(file.targets.keys(), i) {
        let i = choose|i: int| #[trigger] TargetsFile::first_invalid(file.targets.keys(), i);
        assert(!valid_alias(file.targets.keys()[i]));
    }
}

/// A compiled filter lets through what the filter that it was made of does, and a filter that
/// cannot be compiled is a fault of the configuration.
pub proof fn compiled_filters_filter(
    filter: &ToolFilter,
    compiled: Result<CompiledToolFilter, Error>,
    tool: &str,
    allowed: bool,
)
    requires
        call_ensures(CompiledToolFilter::compile, (filter,), compiled),
        compiled is Ok ==> call_ensures(
            CompiledToolFilter::allows,
            (&(compiled->Ok_0), tool),
            allowed,
        ),
    ensures
        compiled is Ok <==> filter_objection(views(filter.items@)) is None,
        compiled is Ok ==> (allowed <==> passes(filter.mode, views(filter.items@), tool@)),
        compiled matches Err(e) ==> e@ == ErrorView::Config(
            filter_objection(views(filter.items@))->0,
        ),
{
}

} // verus!
