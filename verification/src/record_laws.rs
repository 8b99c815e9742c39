//! What the records of actions, their log and the approval gate promise.

use crate::control::{
    action_status_of, aim_of, authorization, gate_text, is_token, joined, kind_of_tool,
    mode_of_gate, state_dir, ActionKind, ActionStatus, Args, Argument, GateDecision, GateFile,
    GateMode, Record, ACTION_SCHEMA_VERSION, AGENT_RECORD_MAX_BYTES,
};
use crate::hub::{all_approved, reconciled, Hub, Reconciliation};
use crate::store::{
    after_interruption, compacted, in_order, is_latest, is_listing, pane_view, shown, shown_in,
    with_line, Wanted, COMPACT_AT_BYTES, FULL_LOG_LIMIT, OPERATION_LIMIT, PER_PANE_LIMIT,
};
use crate::text::{has_prefix, is_digit, or_empty, text_less, trimmed};
use crate::types::{CommandStatus, Execution, Snapshot};
use vstd::prelude::*;
use vstd::utf8::encode_utf8;

verus! {

/// An answer of the approval gate is what the agent is told, whatever its setting is before
/// or after it: a rejection is never turned into an approval, nor an approval into a rejection.
pub proof fn answers_are_passed_on(
    decision: GateDecision,
    gate_was_enabled: bool,
    gate_is_enabled: bool,
)
    ensures
        authorization(Ok(decision), gate_was_enabled, gate_is_enabled) == Ok::<
            GateDecision,
            Seq<char>,
        >(decision),
{
}

/// Without an answer an action is approved exactly while the approval gate is off all along;
/// otherwise the agent is told what went wrong.
pub proof fn silence_approves_only_without_a_gate(
    error: Seq<char>,
    gate_was_enabled: bool,
    gate_is_enabled: bool,
)
    ensures
        ({
            let told = authorization(Err(error), gate_was_enabled, gate_is_enabled);
            &&& told is Ok <==> !gate_was_enabled && !gate_is_enabled
            &&& told is Ok ==> told == Ok::<GateDecision, Seq<char>>(GateDecision::Approved)
            &&& told matches Err(words) ==> words.len() >= error.len() && words.skip(
                words.len() - error.len(),
            ) == error
        }),
{
    if gate_was_enabled || gate_is_enabled {
        let words = "Gate is enabled but the web control service is unavailable: "@ + error;
        assert(words.skip(words.len() - error.len()) =~= error);
    }
}

/// An action is held exactly while the approval gate is enabled; else it is approved at once and
/// nothing waits. Nothing but its status and the time of the change is touched.
pub proof fn gate_holds_or_approves(hub: Hub, record: Record, gate_enabled: bool, now_ms: u64)
    ensures
        ({
            let (after, marked, decision) = hub.asked(record, gate_enabled, now_ms);
            &&& gate_enabled ==> decision is None && marked.status
                == ActionStatus::WaitingApproval && after.pending.dom().contains(record.id)
                && after.pending[record.id] == marked
            &&& !gate_enabled ==> decision == Some(GateDecision::Approved) && marked.status
                == ActionStatus::Approved && after.pending == hub.pending
            &&& forall|id: Seq<char>| #[trigger]
                hub.pending.dom().contains(id) && id != record.id ==> after.pending.dom().contains(
                    id,
                ) && after.pending[id] == hub.pending[id]
            &&& after.records == hub.records
            &&& marked.updated_at_ms == now_ms
            &&& (Record {
                status: record.status,
                updated_at_ms: record.updated_at_ms,
                ..marked
            }) == record
        }),
{
}

/// What a person decides is what becomes of the action: approved, rejected, or incomplete where
/// nobody waits for it any more.
pub proof fn decisions_are_carried_out(
    record: Record,
    decision: GateDecision,
    waiting: bool,
    now_ms: u64,
)
    ensures
        ({
            let after = Hub::decided(record, decision, waiting, now_ms);
            &&& after.status == ActionStatus::Approved <==> waiting && decision
                == GateDecision::Approved
            &&& after.status == ActionStatus::Rejected <==> waiting && decision
                == GateDecision::Rejected
            &&& after.status == ActionStatus::Incomplete <==> !waiting
            &&& after.updated_at_ms == now_ms
            &&& (Record {
                status: record.status,
                updated_at_ms: record.updated_at_ms,
                ..after
            }) == record
        }),
{
}

/// Opening the approval gate approves every action that waits, each as it is.
pub proof fn opening_approves_all(records: Seq<Record>, now_ms: u64, i: int)
    requires
        0 <= i < records.len(),
    ensures
        all_approved(records, now_ms).len() == records.len(),
        all_approved(records, now_ms)[i].status == ActionStatus::Approved,
        all_approved(records, now_ms)[i].id == records[i].id,
        all_approved(records, now_ms)[i].tool == records[i].tool,
        all_approved(records, now_ms)[i].arguments == records[i].arguments,
{
}

/// The approval gate is off only where its file is missing, and asks for tools alone only where
/// the file says so; whatever else the file says, or where it cannot be read, everything needs
/// approval.
pub proof fn gate_is_open_only_without_a_file(file: GateFile)
    ensures
        mode_of_gate(file) == GateMode::Off <==> file is Missing,
        mode_of_gate(file) == GateMode::Tools <==> (file matches GateFile::Content(text) && trimmed(
            text@,
        ) == "tools"@),
        file is Unreadable ==> mode_of_gate(file) == GateMode::Approval,
{
}

/// Only an open approval gate has no file.
pub proof fn only_an_open_gate_has_no_file(mode: GateMode)
    ensures
        gate_text(mode) is None <==> mode == GateMode::Off,
{
}

/// A token is sixty-four hexadecimal digits and nothing else.
pub proof fn tokens_are_hexadecimal(token: Seq<char>, i: int)
    requires
        is_token(token),
        0 <= i < token.len(),
    ensures
        token.len() == 64,
        is_digit(token[i]) || 'a' <= token[i] <= 'f' || 'A' <= token[i] <= 'F',
{
}

/// An action with a command is completed if and only if the command is, failed if and only if
/// the command ended in any other way, and running if and only if the command has not ended.
pub proof fn action_ends_as_its_command(record: Record, snapshot: Snapshot, now_ms: u64)
    ensures
        ({
            let after = record.with_command(snapshot, now_ms);
            let not_ended = snapshot.status == CommandStatus::Queued || snapshot.status
                == CommandStatus::Running;
            &&& after.status == ActionStatus::Completed <==> snapshot.status
                == CommandStatus::Completed
            &&& after.status == ActionStatus::Running <==> not_ended
            &&& after.status == ActionStatus::Failed <==> !not_ended && snapshot.status
                != CommandStatus::Completed
            &&& action_status_of(snapshot.status) == after.status
            &&& after.command_snapshot == Some(snapshot)
            &&& after.updated_at_ms == now_ms
            &&& after.id == record.id
            &&& after.source == record.source
            &&& after.tool == record.tool
            &&& after.kind == record.kind
            &&& after.target == record.target
            &&& after.result == record.result
            &&& after.requested_at_ms == record.requested_at_ms
            &&& after.read_only == record.read_only
        }),
{
}

/// The text of a command is not kept twice: it leaves the arguments where the snapshot has the
/// same, and only there, and no other argument changes.
pub proof fn command_text_is_kept_once(
    record: Record,
    snapshot: Snapshot,
    now_ms: u64,
    name: Seq<char>,
)
    ensures
        ({
            let after = record.with_command(snapshot, now_ms);
            &&& record.arguments.text("command"@) == Some(snapshot.command)
                ==> after.arguments.text("command"@) is None
            &&& record.arguments.text("command"@) != Some(snapshot.command) ==> after.arguments
                == record.arguments
            &&& name != "command"@ ==> after.arguments.text(name) == record.arguments.text(name)
        }),
{
}

/// A record that is too long for one message is shortened in its output alone: what is left is
/// a beginning of it, and it is marked as truncated. Any other record stays as it is.
pub proof fn long_records_lose_output_only(record: Record, encoded_len: usize, after: Record)
    requires
        record.limited(encoded_len, after),
    ensures
        encoded_len < 1_048_576 ==> after == record,
        after.id == record.id && after.status == record.status && after.tool == record.tool,
        after != record ==> {
            &&& encoded_len >= 1_048_576
            &&& after.command_snapshot is Some
            &&& record.command_snapshot is Some
            &&& after.command_snapshot->0.output_truncated
            &&& after.command_snapshot->0.output is Some
            &&& record.command_snapshot->0.output is Some
            &&& has_prefix(
                record.command_snapshot->0.output->0,
                after.command_snapshot->0.output->0,
            )
            &&& after.command_snapshot->0.exit_code == record.command_snapshot->0.exit_code
            &&& after.command_snapshot->0.status == record.command_snapshot->0.status
            &&& encode_utf8(after.command_snapshot->0.output->0).len() + encoded_len <= encode_utf8(
                record.command_snapshot->0.output->0,
            ).len() + 1_048_575 || encode_utf8(after.command_snapshot->0.output->0).len() == 0
        },
{
    if after != record {
        let output = record.command_snapshot->0.output->0;
        let kept = after.command_snapshot->0.output->0;
        assert(output.subrange(0, kept.len() as int) =~= output.take(kept.len() as int));
    }
}

/// Running a command is a command; keys, pasted text and what is typed on the console are input;
/// everything else is an operation.
pub proof fn kinds_follow_the_tool(tool: Seq<char>)
    ensures
        tool == "execute-command"@ ==> kind_of_tool(tool) == ActionKind::Command,
        kind_of_tool(tool) == ActionKind::Command ==> tool == "execute-command"@,
        has_prefix(tool, "send-"@) || tool == "paste-text"@ || tool == "web-input"@ ==> kind_of_tool(
            tool,
        ) == ActionKind::Input,
        kind_of_tool(tool) == ActionKind::Input ==> has_prefix(tool, "send-"@) || tool
            == "paste-text"@ || tool == "web-input"@,
{
    reveal_strlit("execute-command");
    reveal_strlit("send-");
    reveal_strlit("paste-text");
    reveal_strlit("web-input");
    assert("execute-command"@.len() == 15 && "paste-text"@.len() == 10 && "web-input"@.len() == 9);
    if has_prefix("execute-command"@, "send-"@) {
        assert("execute-command"@.subrange(0, 5)[0] == "send-"@[0]);
    }
}

/// A record is aimed at the panes that its arguments name, each once, and at no others; socket,
/// session and window are those that are named and not empty.
pub proof fn records_aim_at_what_is_named(arguments: Args, pane: Seq<char>)
    ensures
        aim_of(arguments).pane_ids.contains(pane) <==> pane.len() > 0 && (arguments.text(
            "paneId"@,
        ) == Some(pane) || arguments.text("sourcePaneId"@) == Some(pane) || arguments.text(
            "targetPaneId"@,
        ) == Some(pane)),
        aim_of(arguments).pane_ids.no_duplicates(),
        aim_of(arguments).pane_ids.len() <= 3,
        arguments.text("paneId"@) == Some(pane) && pane.len() > 0 ==> aim_of(arguments).pane_ids[0]
            == pane,
        aim_of(arguments).socket matches Some(text) ==> text.len() > 0 && arguments.text("socket"@)
            == Some(text),
        aim_of(arguments).socket is None ==> or_empty(arguments.text("socket"@)).len() == 0,
        aim_of(arguments).session_id matches Some(text) ==> text.len() > 0 && arguments.text(
            "sessionId"@,
        ) == Some(text),
        aim_of(arguments).session_id is None ==> or_empty(arguments.text("sessionId"@)).len() == 0,
        aim_of(arguments).window_id matches Some(text) ==> text.len() > 0 && arguments.text(
            "windowId"@,
        ) == Some(text),
        aim_of(arguments).window_id is None ==> or_empty(arguments.text("windowId"@)).len() == 0,
{
    let none = Seq::<Seq<char>>::empty();
    let a = crate::control::with_pane(none, arguments.filled("paneId"@));
    let b = crate::control::with_pane(a, arguments.filled("sourcePaneId"@));
    lemma_with_pane(none, arguments.filled("paneId"@), pane);
    lemma_with_pane(a, arguments.filled("sourcePaneId"@), pane);
    lemma_with_pane(b, arguments.filled("targetPaneId"@), pane);
}

proof fn lemma_with_pane(panes: Seq<Seq<char>>, added: Option<Seq<char>>, pane: Seq<char>)
    requires
        panes.no_duplicates(),
    ensures
        crate::control::with_pane(panes, added).contains(pane) <==> panes.contains(pane) || added
            == Some(pane),
        crate::control::with_pane(panes, added).no_duplicates(),
        crate::control::with_pane(panes, added).len() <= panes.len() + 1,
        panes.len() > 0 ==> crate::control::with_pane(panes, added)[0] == panes[0],
        panes.len() == 0 && added is Some ==> crate::control::with_pane(panes, added)[0]
            == added->0,
{
    if added is Some && !panes.contains(added->0) {
        crate::seqs::push_contains(panes, added->0);
    }
}

/// An argument that is set is there, and no other changes; one that is removed is gone.
pub proof fn arguments_are_kept_apart(
    arguments: Args,
    name: Seq<char>,
    text: Seq<char>,
    other: Seq<char>,
)
    ensures
        arguments.with(name, Argument::Text(text)).text(name) == Some(text),
        arguments is Named && other != name ==> arguments.with(name, Argument::Text(text)).text(
            other,
        ) == arguments.text(other),
        arguments.without(name).text(name) is None,
        other != name ==> arguments.without(name).text(other) == arguments.text(other),
{
}

/// A new record is a request by its source for its tool, with nothing done yet.
pub proof fn new_records_are_requests(
    id: Seq<char>,
    source: Seq<char>,
    tool: Seq<char>,
    arguments: Args,
    now_ms: u64,
)
    ensures
        ({
            let record = Record::fresh(id, source, tool, arguments, now_ms);
            &&& record.id == id && record.source == source && record.tool == tool
            &&& record.arguments == arguments
            &&& record.kind == kind_of_tool(tool)
            &&& record.target == aim_of(arguments)
            &&& record.status == ActionStatus::Requested
            &&& record.result is None && record.command_snapshot is None
            &&& !record.read_only
            &&& record.requested_at_ms == now_ms && record.updated_at_ms == now_ms
            &&& record.schema_version == 1
        }),
{
}

/// Marking a record changes its status and the time of its last change; ending it, its result
/// too. Everything else stays.
pub proof fn marks_change_nothing_else(
    record: Record,
    status: ActionStatus,
    result: Option<Seq<char>>,
    now_ms: u64,
)
    ensures
        record.marked(status, now_ms).status == status,
        record.marked(status, now_ms).updated_at_ms == now_ms,
        record.marked(status, now_ms).result == record.result,
        (Record {
            status: record.status,
            updated_at_ms: record.updated_at_ms,
            ..record.marked(status, now_ms)
        }) == record,
        record.ended(status, result, now_ms).status == status,
        record.ended(status, result, now_ms).result == result,
        record.ended(status, result, now_ms).updated_at_ms == now_ms,
        (Record {
            status: record.status,
            result: record.result,
            updated_at_ms: record.updated_at_ms,
            ..record.ended(status, result, now_ms)
        }) == record,
{
}

/// An action is open until it is completed, has failed, was rejected or was given up.
pub proof fn open_actions_have_not_ended(status: ActionStatus)
    ensures
        status.open_ended() <==> status != ActionStatus::Completed && status != ActionStatus::Failed
            && status != ActionStatus::Rejected && status != ActionStatus::Incomplete,
{
}

/// With a pane everything is shown that was sent to it or read through it, from the given time
/// on, and nothing that is aimed elsewhere.
pub proof fn panes_show_what_is_theirs(record: Record, pane: Seq<char>, since_ms: Option<u64>)
    ensures
        ({
            let reading = record.tool == "list-directory"@ || record.tool == "read-file"@
                || record.tool == "find-files"@ || record.tool == "search-text"@ || record.tool
                == "git-status"@ || record.tool == "git-diff"@ || record.tool == "git-log"@
                || record.tool == "git-show"@;
            Wanted::Pane { pane_id: pane, since_ms }.wants(record) <==> record.target.pane_ids.contains(
                pane,
            ) && (record.kind == ActionKind::Command || record.kind == ActionKind::Input || reading)
                && (since_ms is Some ==> record.requested_at_ms >= since_ms->0)
        }),
{
}

/// Among the operations is everything that is no command, no input and no mere reading; in the
/// full log, everything but commands and what was typed on the console.
pub proof fn views_show_what_they_are_for(record: Record)
    ensures
        Wanted::Operations.wants(record) <==> record.kind != ActionKind::Command && record.kind
            != ActionKind::Input && !record.read_only,
        Wanted::Log.wants(record) <==> !(record.tool == "execute-command"@ || record.tool
            == "web-input"@),
        Wanted::All.wants(record),
{
}

/// Two hundred records are shown of each pane, among the operations and in the log; a log of
/// more than four megabytes is rewritten; a record of a megabyte is too long for one message.
pub proof fn limits_of_the_log()
    ensures
        PER_PANE_LIMIT == 200 && OPERATION_LIMIT == 200 && FULL_LOG_LIMIT == 200,
        COMPACT_AT_BYTES == 4 * 1024 * 1024,
        AGENT_RECORD_MAX_BYTES == 1024 * 1024,
        ACTION_SCHEMA_VERSION == 1,
{
}

/// What is shown is in the order of the requests; of those made at the same time, in the order
/// of the last change, and then of the ids.
pub proof fn shown_in_order_of_request(list: Seq<Record>, i: int, j: int)
    requires
        in_order(list),
        0 <= i < j < list.len(),
    ensures
        list[i].requested_at_ms <= list[j].requested_at_ms,
        list[i].requested_at_ms == list[j].requested_at_ms ==> list[i].updated_at_ms
            <= list[j].updated_at_ms,
        list[i].requested_at_ms == list[j].requested_at_ms && list[i].updated_at_ms
            == list[j].updated_at_ms ==> text_less(list[i].id, list[j].id),
{
    assert(crate::store::record_less(list[i], list[j]));
}

/// A view leaves a wanted record out only where it is full, and then only one that was requested
/// no later than every record in it. What it shows is stored and wanted.
pub proof fn views_leave_out_the_oldest(
    records: Map<Seq<char>, Record>,
    wanted: Wanted,
    limit: nat,
    list: Seq<Record>,
    id: Seq<char>,
    i: int,
)
    requires
        is_latest(records, wanted, limit, list),
        0 <= i < list.len(),
    ensures
        list.len() <= limit,
        records.dom().contains(list[i].id) && records[list[i].id] == list[i] && wanted.wants(list[i]),
        records.dom().contains(id) && wanted.wants(records[id]) && list.len() < limit
            ==> list.contains(records[id]),
        records.dom().contains(id) && wanted.wants(records[id]) && !list.contains(records[id])
            ==> records[id].requested_at_ms <= list[i].requested_at_ms,
{
    assert(crate::store::stored(records, list[i]));
    if records.dom().contains(id) && wanted.wants(records[id]) && !list.contains(records[id]) {
        assert(crate::store::record_less(records[id], list[i]));
    }
}

/// A listing holds every wanted record of the store and no other.
pub proof fn listings_are_complete(
    records: Map<Seq<char>, Record>,
    wanted: Wanted,
    list: Seq<Record>,
    id: Seq<char>,
)
    requires
        is_listing(records, wanted, list),
        records.dom().contains(id),
        records[id].id == id,
    ensures
        list.contains(records[id]) <==> wanted.wants(records[id]),
{
    if list.contains(records[id]) {
        let i = choose|i: int| 0 <= i < list.len() && list[i] == records[id];
        assert(crate::store::stored(records, list[i]) && wanted.wants(list[i]));
    }
}

/// A line of the log in the current layout is taken over; one in another layout changes nothing.
pub proof fn only_current_lines_count(
    records: Map<Seq<char>, Record>,
    line: Record,
    other: Seq<char>,
)
    ensures
        line.schema_version == 1 ==> with_line(records, line).dom().contains(line.id) && with_line(
            records,
            line,
        )[line.id] == line,
        line.schema_version != 1 ==> with_line(records, line) == records,
        other != line.id ==> (with_line(records, line).dom().contains(other)
            <==> records.dom().contains(other)),
        other != line.id && records.dom().contains(other) ==> with_line(records, line)[other]
            == records[other],
{
}

/// What an interruption left open is incomplete; what had ended stays as it was.
pub proof fn interruption_ends_what_was_open(
    records: Map<Seq<char>, Record>,
    now_ms: u64,
    id: Seq<char>,
)
    requires
        records.dom().contains(id),
    ensures
        ({
            let after = after_interruption(records, now_ms);
            let ended = records[id].status == ActionStatus::Completed || records[id].status
                == ActionStatus::Failed || records[id].status == ActionStatus::Rejected
                || records[id].status == ActionStatus::Incomplete;
            &&& after.dom().contains(id)
            &&& ended ==> after[id] == records[id]
            &&& !ended ==> after[id].status == ActionStatus::Incomplete && after[id].updated_at_ms
                == now_ms && after[id].id == records[id].id && after[id].tool == records[id].tool
                && after[id].result == records[id].result
        }),
{
}

/// A command that was sent from the console is forgotten where the tracker has lost it, kept
/// while it runs, and recorded once it has ended; it is forgotten then, unless its output is
/// still to come.
pub proof fn console_commands_are_followed_to_their_end(exec: Option<Execution>)
    ensures
        reconciled(exec) is ForgetMissing <==> exec is None,
        reconciled(exec) is Keep <==> exec is Some && (exec->0.status == CommandStatus::Running
            || exec->0.status == CommandStatus::Queued),
        reconciled(exec) matches Reconciliation::Complete { forget } ==> (forget <==> exec->0.output
            is Some || !exec->0.output_truncated),
{
}

/// Typing adds what is typed: text as it is, Enter a line break, and a special key its name;
/// backspace takes the last character back, if there is one.
pub proof fn typing_adds_what_is_typed(text: Seq<char>, key: Seq<char>)
    ensures
        Hub::typed(text, key, true) == text + key,
        Hub::typed(text, "Enter"@, false) == text.push('\n'),
        text.len() > 0 ==> Hub::typed(text, "BSpace"@, false) == text.take(text.len() - 1),
        text.len() == 0 ==> Hub::typed(text, "BSpace"@, false) == text,
        key != "Enter"@ && key != "BSpace"@ ==> Hub::typed(text, key, false) == text + key,
{
    reveal_strlit("Enter");
    reveal_strlit("BSpace");
    assert("Enter"@.len() == 5 && "BSpace"@.len() == 6);
    if text.len() > 0 {
        assert(text.drop_last() =~= text.take(text.len() - 1));
    }
}

/// A key goes on with the record of what is being typed: the same action, with the longer text,
/// done at the time of the key.
pub proof fn keys_go_on_with_their_record(
    record: Record,
    key: Seq<char>,
    literal: bool,
    at_ms: u64,
)
    ensures
        ({
            let after = Hub::with_key(record, key, literal, at_ms);
            &&& after.id == record.id
            &&& after.source == record.source
            &&& after.tool == record.tool
            &&& after.requested_at_ms == record.requested_at_ms
            &&& after.updated_at_ms == at_ms
            &&& after.status == ActionStatus::Completed
            &&& after.target == record.target
            &&& after.arguments.text("text"@) == Some(
                Hub::typed(or_empty(record.arguments.text("text"@)), key, literal),
            )
            &&& record.arguments is Named ==> after.arguments.text("paneId"@)
                == record.arguments.text("paneId"@)
        }),
{
    reveal_strlit("text");
    reveal_strlit("literal");
    reveal_strlit("paneId");
    assert("text"@.len() == 4 && "literal"@.len() == 7 && "paneId"@.len() == 6);
}

/// Typing goes on with a record only in the pane that it was begun in.
pub proof fn typing_stays_in_its_pane(hub: Hub, pane_id: Seq<char>)
    ensures
        hub.continued(pane_id) is Some ==> hub.typing is Some && (hub.typing->0).1 == pane_id
            && hub.records.dom().contains((hub.typing->0).0) && hub.continued(pane_id)->0
            == hub.records[(hub.typing->0).0],
        hub.typing is Some && (hub.typing->0).1 == pane_id && hub.records.dom().contains(
            (hub.typing->0).0,
        ) ==> hub.continued(pane_id) is Some,
{
}

/// What is first typed into a pane is a new input of the person at the console, aimed at that
/// pane, with no text yet.
pub proof fn first_key_begins_a_record(
    id: Seq<char>,
    pane_id: Seq<char>,
    literal: bool,
    at_ms: u64,
)
    requires
        pane_id.len() > 0,
    ensures
        ({
            let record = Hub::fresh_input(id, pane_id, literal, at_ms);
            &&& record.id == id
            &&& record.source == "你"@
            &&& record.tool == "web-input"@
            &&& record.kind == ActionKind::Input
            &&& record.target.pane_ids == seq![pane_id]
            &&& record.arguments.text("text"@) == Some(Seq::<char>::empty())
            &&& record.requested_at_ms == at_ms
        }),
{
    reveal_strlit("text");
    reveal_strlit("literal");
    reveal_strlit("paneId");
    reveal_strlit("sourcePaneId");
    reveal_strlit("targetPaneId");
    assert("text"@.len() == 4 && "literal"@.len() == 7 && "paneId"@.len() == 6);
    assert("sourcePaneId"@.len() == 12 && "targetPaneId"@.len() == 12);
    kinds_follow_the_tool("web-input"@);
    let record = Hub::fresh_input(id, pane_id, literal, at_ms);
    assert(record.arguments.filled("sourcePaneId"@) is None);
    assert(record.arguments.filled("targetPaneId"@) is None);
    assert(record.arguments.filled("paneId"@) == Some(pane_id));
    assert(Seq::<Seq<char>>::empty().push(pane_id) =~= seq![pane_id]);
}

/// The state directory lies below the first of the given directories that is not empty, and is
/// named for this project.
pub proof fn state_directory_is_below_the_first_given(
    local_app_data: Option<Seq<char>>,
    xdg_state_home: Option<Seq<char>>,
    home: Option<Seq<char>>,
    temp_dir: Seq<char>,
)
    ensures
        ({
            let dir = state_dir(local_app_data, xdg_state_home, home, temp_dir);
            let first = or_empty(local_app_data);
            let second = or_empty(xdg_state_home);
            let third = or_empty(home);
            &&& first.len() > 0 ==> dir == joined(first, "tmux-mcp"@)
            &&& first.len() == 0 && second.len() > 0 ==> dir == joined(second, "tmux-mcp"@)
            &&& first.len() == 0 && second.len() == 0 && third.len() > 0 && third.last() != '/'
                ==> dir == third + "/.local/state/tmux-mcp"@
            &&& first.len() == 0 && second.len() == 0 && third.len() == 0 ==> dir == joined(
                temp_dir,
                "tmux-mcp"@,
            )
        }),
{
    let third = or_empty(home);
    reveal_strlit(".local");
    reveal_strlit("state");
    reveal_strlit("/");
    reveal_strlit("tmux-mcp");
    reveal_strlit("/.local/state/tmux-mcp");
    if or_empty(local_app_data).len() == 0 && or_empty(xdg_state_home).len() == 0 && third.len() > 0
        && third.last() != '/' {
        let a = third + "/"@ + ".local"@;
        assert(a.last() == 'l');
        let b = a + "/"@ + "state"@;
        assert(b.last() == 'e');
        assert(b + "/"@ + "tmux-mcp"@ =~= third + "/.local/state/tmux-mcp"@);
    }
}

/// A name is put below a directory with one slash between them.
pub proof fn names_are_put_below_directories(directory: Seq<char>, name: Seq<char>)
    ensures
        directory.len() == 0 ==> joined(directory, name) == name,
        directory.len() > 0 && directory.last() == '/' ==> joined(directory, name) == directory
            + name,
        directory.len() > 0 && directory.last() != '/' ==> joined(directory, name) == directory
            + seq!['/'] + name,
{
    reveal_strlit("/");
    assert("/"@ =~= seq!['/']);
}

/// What the file of the approval gate holds: a word on a line of its own, and no file where
/// approval is off.
pub proof fn gate_file_names_the_mode(mode: GateMode)
    ensures
        mode == GateMode::Off <==> gate_text(mode) is None,
        mode == GateMode::Tools ==> gate_text(mode)->0 == "tools\n"@,
        mode == GateMode::Approval ==> gate_text(mode)->0 == "approval\n"@,
{
}

/// Whether keys were typed as text is written down as a truth value.
pub proof fn records_tell_text_from_keys(
    id: Seq<char>,
    pane_id: Seq<char>,
    literal: bool,
    at_ms: u64,
)
    ensures
        Hub::fresh_input(id, pane_id, literal, at_ms).arguments matches Args::Named(values)
            && values.dom().contains("literal"@) && values["literal"@] == Argument::Encoded(
            if literal {
                "true"@
            } else {
                "false"@
            },
        ),
{
}

/// Rewriting the log drops what no view shows: a record that is kept is as it was, and is among
/// the latest operations, in the latest of the log, or among the latest messages of some pane.
pub proof fn rewriting_drops_what_is_not_shown(
    before: Map<Seq<char>, Record>,
    after: Map<Seq<char>, Record>,
    id: Seq<char>,
)
    requires
        compacted(before, after),
        after.dom().contains(id),
    ensures
        before.dom().contains(id),
        after[id] == before[id],
        (exists|list: Seq<Record>| #[trigger]
            is_latest(before, Wanted::Operations, 200, list) && list.contains(before[id])) || (
        exists|list: Seq<Record>| #[trigger]
            is_latest(before, Wanted::Log, 200, list) && list.contains(before[id])) || (exists|
            pane_id: Seq<char>,
            list: Seq<Record>,
        | #[trigger]
            is_latest(before, (Wanted::Pane { pane_id, since_ms: None }), 200, list)
                && list.contains(before[id])),
{
    assert(shown(before, id));
    if !shown_in(before, Wanted::Operations, 200, id) && !shown_in(before, Wanted::Log, 200, id) {
        let pane_id = choose|pane: Seq<char>| #[trigger]
            shown_in(before, pane_view(pane), PER_PANE_LIMIT as nat, id);
        let list = choose|list: Seq<Record>| #[trigger]
            is_latest(before, pane_view(pane_id), PER_PANE_LIMIT as nat, list) && list.contains(
                before[id],
            );
        assert(is_latest(before, (Wanted::Pane { pane_id, since_ms: None }), 200, list));
    }
}

} // verus!
