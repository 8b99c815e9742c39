//! What the tracker guarantees across its operations.

use crate::commands::{
    pane_key, status_of_exit, tracking_objection, Captured, CaptureProgress, CaptureDecision,
    CommandRequest, OutcomeView, Tracker, FINAL_OUTPUT_CAPTURE_ATTEMPTS,
};
use crate::errors::ErrorView;
use crate::markers::Bracketed;
use crate::text::or_empty;
use crate::types::{CommandStatus, Execution};
use crate::watch::{
    exit_outcome, Recovery, RecoveryStage, WatchInput, WatchStage, WatchStep, Watcher,
};
use vstd::prelude::*;

verus! {

/// One command per pane: while an accepted command occupies its pane, every further request
/// for that pane is rejected, tracked or not, also after a cleanup.
pub proof fn one_command_per_pane(
    before: Tracker,
    request: CommandRequest,
    id: Seq<char>,
    secret: Seq<char>,
    now: u64,
    after: Tracker,
    other: CommandRequest,
)
    requires
        before.accepted(request, id, secret, now).cleaned(after, now),
        other.key() == request.key(),
    ensures
        after.rejection(other) is Some,
        before.accepted(request, id, secret, now).rejection(other) is Some,
{
}

/// An accepted command is on record, and has its pane, after the cleanup that follows.
pub proof fn accepted_command_is_on_record(
    before: Tracker,
    request: CommandRequest,
    id: Seq<char>,
    secret: Seq<char>,
    now: u64,
    after: Tracker,
)
    requires
        before.accepted(request, id, secret, now).cleaned(after, now),
    ensures
        after.commands.dom().contains(id),
        after.commands[id] == request.record(id, now),
        after.running[request.key()] == id,
        !request.untracked() ==> after.secrets.dom().contains(id) && after.secrets[id] == secret,
{
    let accepted = before.accepted(request, id, secret, now);
    assert(accepted.running[request.key()] == id);
    assert(accepted.occupied(id));
    assert(accepted.kept_by_age(id, now));
    assert(!accepted.capped(now).contains(id));
}

/// A record that occupies a pane is never evicted, however old it is.
pub proof fn occupants_survive_cleanup(before: Tracker, after: Tracker, now: u64, id: Seq<char>)
    requires
        before.cleaned(after, now),
        before.commands.dom().contains(id),
        before.occupied(id),
    ensures
        after.commands.dom().contains(id),
        after.commands[id] == before.commands[id],
        after.occupied(id),
{
    assert(before.kept_by_age(id, now));
    assert(!before.capped(now).contains(id));
    let key = choose|key: Seq<char>|
        before.running.dom().contains(key) && #[trigger] before.running[key] == id;
    assert(after.running[key] == id);
}

/// After a cleanup no more terminal records than the cap are kept, beside those that occupy a
/// pane.
pub proof fn cleanup_keeps_to_the_cap(before: Tracker, after: Tracker, now: u64)
    requires
        before.cleaned(after, now),
        before.tracking.completed_max_entries > 0,
    ensures
        after.capped(now).len() <= before.tracking.completed_max_entries,
{
    assert forall|id: Seq<char>| after.occupied(id) == before.occupied(id) by {
        assert(after.running == before.running);
    }
    assert(after.capped(now) =~= before.capped(now).intersect(after.commands.dom())) by {
        assert forall|id: Seq<char>| after.capped(now).contains(id) == before.capped(
            now,
        ).intersect(after.commands.dom()).contains(id) by {
            if after.commands.dom().contains(id) {
                assert(before.commands.dom().contains(id));
                assert(after.commands[id] == before.commands[id]);
            }
        }
    }
}

/// Scrollback never ends a command: a refresh of partial output leaves every status, the
/// occupancy of every pane and every secret as they were.
pub proof fn scrollback_never_ends_a_command(
    before: Tracker,
    id: Seq<char>,
    captured: Captured,
    other: Seq<char>,
)
    requires
        before.commands.dom().contains(other),
    ensures
        before.refreshed(id, captured).commands[other].status == before.commands[other].status,
        before.refreshed(id, captured).commands[other].exit_code
            == before.commands[other].exit_code,
        before.refreshed(id, captured).running == before.running,
        before.refreshed(id, captured).secrets == before.secrets,
{
}

/// A terminal status is final: neither a late commit, nor a recovery, nor a refresh, nor the
/// final capture changes it.
pub proof fn terminal_status_is_final(
    before: Tracker,
    id: Seq<char>,
    outcome: OutcomeView,
    captured: Captured,
    key: Seq<char>,
    exit_code: i32,
    now: u64,
)
    requires
        before.commands.dom().contains(id),
        before.commands[id].status.terminal(),
    ensures
        before.terminal_committed(id, outcome, now).commands == before.commands,
        before.recovered(id, key, exit_code, captured, now) == before,
        before.refreshed(id, captured) == before,
        before.made_ready(id, captured).commands[id].status == before.commands[id].status,
        before.made_ready(id, captured).commands[id].exit_code == before.commands[id].exit_code,
{
}

/// Where delivery or tracking failed the pane stays occupied: whether the command runs is
/// uncertain, and nothing may be sent on top of it.
pub proof fn uncertainty_keeps_the_pane(
    before: Tracker,
    id: Seq<char>,
    error: ErrorView,
    outcome: OutcomeView,
    captured: Captured,
    key: Seq<char>,
    now: u64,
)
    ensures
        before.dispatch_uncertain(id, error, now).running == before.running,
        before.terminal_committed(id, outcome, now).running == before.running,
        before.made_ready(id, captured).released_unless_uncertain(
            key,
            id,
            CommandStatus::TrackingError,
        ).running == before.running,
{
}

/// Only the command that occupies a pane gives it free, and no other pane with it.
pub proof fn only_the_owner_releases(
    before: Tracker,
    key: Seq<char>,
    id: Seq<char>,
    other: Seq<char>,
)
    requires
        before.running.dom().contains(other),
        other != key || before.running[other] != id,
    ensures
        before.released(key, id).running.dom().contains(other),
        before.released(key, id).running[other] == before.running[other],
{
}

/// A pane that is purged is free, and records and panes elsewhere are untouched.
pub proof fn purge_is_scoped(
    before: Tracker,
    target: Option<Seq<char>>,
    pane_id: Seq<char>,
    socket: Option<Seq<char>>,
    id: Seq<char>,
    key: Seq<char>,
)
    ensures
        !before.purged(target, pane_id, socket).running.dom().contains(
            pane_key(target, socket, pane_id),
        ),
        before.commands.dom().contains(id) && !before.in_pane(id, target, pane_id, socket) ==> {
            &&& before.purged(target, pane_id, socket).commands.dom().contains(id)
            &&& before.purged(target, pane_id, socket).commands[id] == before.commands[id]
        },
        before.in_pane(id, target, pane_id, socket) ==> !before.purged(
            target,
            pane_id,
            socket,
        ).commands.dom().contains(id),
        before.running.dom().contains(key) && key != pane_key(target, socket, pane_id) ==> {
            &&& before.purged(target, pane_id, socket).running.dom().contains(key)
            &&& before.purged(target, pane_id, socket).running[key] == before.running[key]
        },
{
}

proof fn lemma_split_at_bar(a: Seq<char>, b: Seq<char>, x: Seq<char>, y: Seq<char>)
    requires
        !a.contains('|'),
        !b.contains('|'),
        a + seq!['|'] + x == b + seq!['|'] + y,
    ensures
        a == b,
        x == y,
{
    let left = a + seq!['|'] + x;
    let right = b + seq!['|'] + y;
    assert(left[a.len() as int] == '|');
    assert(right[b.len() as int] == '|');
    if a.len() < b.len() {
        assert(right[a.len() as int] == b[a.len() as int]);
        assert(b.contains('|'));
    }
    if b.len() < a.len() {
        assert(left[b.len() as int] == a[b.len() as int]);
        assert(a.contains('|'));
    }
    assert(a =~= left.take(a.len() as int));
    assert(b =~= right.take(b.len() as int));
    assert(x =~= left.skip(a.len() as int + 1));
    assert(y =~= right.skip(b.len() as int + 1));
}

/// Panes of different servers are different panes, though they have the same id: the occupancy
/// key tells target, socket and pane apart, as long as no target or socket holds a `|`.
pub proof fn pane_keys_are_distinct(
    target: Option<Seq<char>>,
    socket: Option<Seq<char>>,
    pane_id: Seq<char>,
    other_target: Option<Seq<char>>,
    other_socket: Option<Seq<char>>,
    other_pane: Seq<char>,
)
    requires
        !or_empty(target).contains('|'),
        !or_empty(socket).contains('|'),
        !or_empty(other_target).contains('|'),
        !or_empty(other_socket).contains('|'),
        pane_key(target, socket, pane_id) == pane_key(other_target, other_socket, other_pane),
    ensures
        or_empty(target) == or_empty(other_target),
        or_empty(socket) == or_empty(other_socket),
        pane_id == other_pane,
{
    reveal_strlit("|");
    assert("|"@ =~= seq!['|']);
    let x = or_empty(socket) + seq!['|'] + pane_id;
    let y = or_empty(other_socket) + seq!['|'] + other_pane;
    assert(pane_key(target, socket, pane_id) =~= or_empty(target) + seq!['|'] + x);
    assert(pane_key(other_target, other_socket, other_pane) =~= or_empty(other_target) + seq!['|']
        + y);
    lemma_split_at_bar(or_empty(target), or_empty(other_target), x, y);
    lemma_split_at_bar(or_empty(socket), or_empty(other_socket), pane_id, other_pane);
}

/// Only the side channel ends a command: a step of its watcher changes a status only when it
/// takes in an exit code, a failure to read it, or the loss of the signal.
pub proof fn only_the_side_channel_ends_a_command(
    watcher: Watcher,
    before: Tracker,
    input: WatchInput,
    now: u64,
    after: Tracker,
    stage: WatchStage,
    step: WatchStep,
    id: Seq<char>,
)
    requires
        watcher.steps_to(before, input, now, after, stage, step),
        before.commands.dom().contains(id),
        !(input is ExitCode) && !(input is ExitCodeFailed) && !(input is SignalFailed),
    ensures
        after.commands.dom().contains(id),
        after.commands[id].status == before.commands[id].status,
        after.commands[id].exit_code == before.commands[id].exit_code,
{
}

/// A command runs to its end: once its exit code is taken in and its final output captured, the
/// record says how it ended and is ready, its secret is gone, and its pane is free for any next
/// command that can be tracked.
pub proof fn ended_command_is_reported(
    before: Tracker,
    id: Seq<char>,
    exit_code: i32,
    captured: Captured,
    now: u64,
    next: CommandRequest,
)
    requires
        before.unresolved(id),
        before.running.dom().contains(before.commands[id].pane_key()),
        before.running[before.commands[id].pane_key()] == id,
        next.key() == before.commands[id].pane_key(),
    ensures
        ({
            let after = before.terminal_committed(id, exit_outcome(exit_code), now).made_ready(
                id,
                captured,
            ).released_unless_uncertain(next.key(), id, status_of_exit(exit_code));
            &&& after.commands.dom() == before.commands.dom()
            &&& after.commands[id] == (Execution {
                status: status_of_exit(exit_code),
                exit_code: Some(exit_code),
                output: if captured.output is Some {
                    captured.output
                } else {
                    before.commands[id].output
                },
                output_truncated: captured.truncated,
                result_ready: true,
                reason: None,
                completed_at: Some(now),
                ..before.commands[id]
            })
            &&& !after.secrets.dom().contains(id)
            &&& !after.running.dom().contains(next.key())
            &&& after.rejection(next) == (if next.untracked() {
                None
            } else {
                tracking_objection(next.command@)
            })
        }),
{
    assert(before.terminal_committed(id, exit_outcome(exit_code), now).commands.dom()
        =~= before.commands.dom());
    let after = before.terminal_committed(id, exit_outcome(exit_code), now).made_ready(
        id,
        captured,
    );
    assert(after.commands.dom() =~= before.commands.dom());
}

/// A recovery without an exit code, or without a visible end, leaves the tracker as it was.
pub proof fn recovery_needs_exit_code_and_end(
    recovery: Recovery,
    before: Tracker,
    input: WatchInput,
    now: u64,
    after: Tracker,
    stage: RecoveryStage,
    step: WatchStep,
)
    requires
        recovery.steps_to(before, input, now, after, stage, step),
        !(recovery.stage is Capturing),
    ensures
        after == before,
        stage is Capturing ==> recovery.stage is CheckingOutput && crate::watch::shows_end(
            input,
            recovery.command_id@,
        ),
{
}

/// The final output is settled after at most three captures.
pub proof fn final_capture_is_bounded(progress: CaptureProgress, capture: Option<Bracketed>)
    requires
        progress.attempts < FINAL_OUTPUT_CAPTURE_ATTEMPTS,
    ensures
        progress.after(capture) matches CaptureDecision::Retry(next) ==> progress.attempts
            < next.attempts < FINAL_OUTPUT_CAPTURE_ATTEMPTS,
{
}

/// Output that was isolated once is kept when a later capture isolates none.
pub proof fn isolated_output_is_kept(exec: Execution, captured: Captured)
    requires
        captured.output is None,
    ensures
        exec.with_captured(captured).output == exec.output,
        exec.with_captured(captured).output_truncated == captured.truncated,
{
}

} // verus!
