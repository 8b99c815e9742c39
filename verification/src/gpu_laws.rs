//! What watching GPUs promises.

use crate::gpu_monitor::{
    is_gpu_index, is_gpu_uuid, ConclusionView, GpuMonitorManager, GpuWatchStatus, Monitors,
    NotificationStatus, StartGpuWatchInput, Watch, HEARTBEAT_TIMEOUT_SECONDS,
    MAX_DIAGNOSTIC_BYTES, MAX_HISTORY, MAX_LIFETIME_SECONDS, MAX_PROTOCOL_LINE_BYTES,
    READY_TIMEOUT_SECONDS, REMOTE_CONTROL_TIMEOUT_SECONDS, STOP_GRACE_SECONDS,
};
use crate::gpu_protocol::{
    conclusion_of, due, entry_of, idle_after, inventory_of, max_samples, nonempty, parsed_line,
    resolved, uuid_of_index, uuids, Message, WatchOutcome,
};
use crate::gpu_watch::{
    Ended, EndingView, Remote, RemoteInput, SignalResult, StepView, Termination, TerminationInput,
};
use crate::text::{all_digits, decimal, is_digit, is_hex_digit, split_at_char, views};
use crate::text_laws::{
    decimal_is_read_back, first_index_is_first, joined_parts_are_split_again, joined_with,
};
use vstd::prelude::*;
use vstd::utf8::encode_utf8;

verus! {

/// A GPU that is requested by its UUID, and stands in the inventory, is watched and no other.
pub proof fn requested_uuid_is_watched(
    value: Seq<char>,
    inventory: Seq<(Seq<char>, Seq<char>)>,
    k: int,
)
    requires
        !all_digits(value),
        0 <= k < inventory.len(),
        inventory[k].1 == value,
    ensures
        resolved(Some(value), inventory) matches Ok(targets) && targets.len() == 1 && targets[0]
            == value,
{
    assert(uuids(inventory)[k] == value);
}

/// A GPU that is requested by an index is the one that the inventory gives for that index, and
/// no other is watched. Where an index stands twice the first counts.
pub proof fn requested_index_is_watched(
    value: Seq<char>,
    inventory: Seq<(Seq<char>, Seq<char>)>,
    k: int,
)
    requires
        all_digits(value),
        0 <= k < inventory.len(),
        inventory[k].0 == value,
        forall|j: int| 0 <= j < k ==> (#[trigger] inventory[j]).0 != value,
    ensures
        resolved(Some(value), inventory) matches Ok(targets) && targets.len() == 1 && targets[0]
            == inventory[k].1,
{
    lemma_index(value, inventory, k);
}

proof fn lemma_index(value: Seq<char>, inventory: Seq<(Seq<char>, Seq<char>)>, k: int)
    requires
        0 <= k < inventory.len(),
        inventory[k].0 == value,
        forall|j: int| 0 <= j < k ==> (#[trigger] inventory[j]).0 != value,
    ensures
        uuid_of_index(inventory, value) == Some(inventory[k].1),
    decreases k,
{
    if k > 0 {
        let rest = inventory.skip(1);
        assert forall|j: int| 0 <= j < k - 1 implies (#[trigger] rest[j]).0 != value by {
            assert(rest[j] == inventory[j + 1]);
        }
        assert(inventory[0].0 != value);
        lemma_index(value, rest, k - 1);
    }
}

proof fn lemma_no_index(value: Seq<char>, inventory: Seq<(Seq<char>, Seq<char>)>)
    requires
        forall|j: int| 0 <= j < inventory.len() ==> (#[trigger] inventory[j]).0 != value,
    ensures
        uuid_of_index(inventory, value) is None,
    decreases inventory.len(),
{
    if inventory.len() > 0 {
        let rest = inventory.skip(1);
        assert forall|j: int| 0 <= j < rest.len() implies (#[trigger] rest[j]).0 != value by {
            assert(rest[j] == inventory[j + 1]);
        }
        assert(inventory[0].0 != value);
        lemma_no_index(value, rest);
    }
}

/// A GPU that is not in the inventory cannot be watched; without a request all of the inventory
/// is watched, in its order. Nothing is watched that is not in the inventory.
pub proof fn only_the_inventory_is_watched(
    requested: Option<Seq<char>>,
    inventory: Seq<(Seq<char>, Seq<char>)>,
)
    ensures
        requested is None ==> resolved(requested, inventory) is Ok,
        requested is None ==> (resolved(requested, inventory) matches Ok(targets) ==> targets.len()
            == inventory.len() && forall|i: int|
            0 <= i < targets.len() ==> #[trigger] targets[i] == inventory[i].1),
        requested is Some && (forall|j: int|
            0 <= j < inventory.len() ==> (#[trigger] inventory[j]).0 != requested->0
                && inventory[j].1 != requested->0) ==> resolved(requested, inventory) is Err,
{
    if requested is Some && (forall|j: int|
        0 <= j < inventory.len() ==> (#[trigger] inventory[j]).0 != requested->0 && inventory[j].1
            != requested->0) {
        lemma_no_index(requested->0, inventory);
        if uuids(inventory).contains(requested->0) {
            let j = choose|j: int|
                0 <= j < uuids(inventory).len() && uuids(inventory)[j] == requested->0;
            assert(inventory[j].1 == requested->0);
        }
    }
}

/// A watch may be asked for with an idle time of a minute to a day, a sample every five to sixty
/// seconds, and one GPU or all of them.
pub proof fn accepted_watches_are_within_bounds(input: StartGpuWatchInput)
    ensures
        input.objection() is None <==> 60 <= input.idle_seconds <= 86_400 && 5
            <= input.poll_seconds <= 60 && (input.gpu is Some ==> is_gpu_index(input.gpu->0@)
            || is_gpu_uuid(input.gpu->0@)),
{
}

/// A GPU is named by an index, digits alone, or by a UUID: `GPU-` and hexadecimal digits with
/// dashes.
pub proof fn gpus_are_named_by_index_or_uuid(gpu: Seq<char>)
    ensures
        is_gpu_index(gpu) <==> gpu.len() > 0 && forall|i: int|
            0 <= i < gpu.len() ==> '0' <= #[trigger] gpu[i] <= '9',
        is_gpu_uuid(gpu) ==> gpu.len() > 4 && gpu[0] == 'G' && gpu[1] == 'P' && gpu[2] == 'U'
            && gpu[3] == '-',
        is_gpu_uuid(gpu) ==> forall|i: int|
            4 <= i < gpu.len() ==> '0' <= #[trigger] gpu[i] <= '9' || 'a' <= gpu[i] <= 'f' || 'A'
                <= gpu[i] <= 'F' || gpu[i] == '-',
{
    if is_gpu_index(gpu) {
        assert forall|i: int| 0 <= i < gpu.len() implies '0' <= #[trigger] gpu[i] <= '9' by {
            assert(is_digit(gpu[i]));
        }
    }
    reveal_strlit("GPU-");
    if is_gpu_uuid(gpu) {
        let front = gpu.subrange(0, 4);
        assert(front[0] == gpu[0] && front[1] == gpu[1] && front[2] == gpu[2] && front[3]
            == gpu[3]);
    }
}

/// No tab stands in a text.
pub open spec fn is_field(text: Seq<char>) -> bool {
    !text.contains('\t')
}

proof fn lemma_fields(fields: Seq<Seq<char>>)
    requires
        fields.len() > 0,
        forall|i: int| 0 <= i < fields.len() ==> is_field(#[trigger] fields[i]),
    ensures
        split_at_char(joined_with(fields, '\t'), '\t') == fields,
{
    joined_parts_are_split_again(fields, '\t');
}

proof fn lemma_words()
    ensures
        is_field("TMUX_MCP_GPU"@),
        is_field("READY"@),
        is_field("INVENTORY"@),
        is_field("SAMPLE"@),
        is_field("ERROR"@),
        is_field("EXPIRED"@),
        "READY"@.len() == 5 && "INVENTORY"@.len() == 9 && "SAMPLE"@.len() == 6 && "ERROR"@.len()
            == 5 && "EXPIRED"@.len() == 7,
        "READY"@ != "ERROR"@,
{
    reveal_strlit("TMUX_MCP_GPU");
    reveal_strlit("READY");
    reveal_strlit("INVENTORY");
    reveal_strlit("SAMPLE");
    reveal_strlit("ERROR");
    reveal_strlit("EXPIRED");
    assert("READY"@[0] != "ERROR"@[0]);
}

/// The watcher that says it is ready is understood: its id and its process.
pub proof fn ready_is_understood(id: Seq<char>, pid: u32)
    requires
        is_field(id),
    ensures
        parsed_line(
            joined_with(seq!["TMUX_MCP_GPU"@, "READY"@, id, decimal(pid as nat)], '\t'),
        ) == Ok::<Message, Seq<char>>(Message::Ready { id, pid }),
{
    lemma_words();
    decimal_is_read_back(pid as nat);
    let number = decimal(pid as nat);
    assert(is_field(number)) by {
        if number.contains('\t') {
            let i = choose|i: int| 0 <= i < number.len() && number[i] == '\t';
            assert(is_digit(number[i]));
        }
    }
    lemma_fields(seq!["TMUX_MCP_GPU"@, "READY"@, id, number]);
}

/// An inventory entry: an index and a UUID.
pub open spec fn entry_text(entry: (Seq<char>, Seq<char>)) -> Seq<char> {
    entry.0.push('=') + entry.1
}

/// The entries of an inventory as the watcher writes them.
pub open spec fn entry_texts(inventory: Seq<(Seq<char>, Seq<char>)>) -> Seq<Seq<char>> {
    Seq::new(inventory.len(), |i: int| entry_text(inventory[i]))
}

/// An index or a UUID holds none of the characters that an inventory is put together with.
pub open spec fn is_entry(entry: (Seq<char>, Seq<char>)) -> bool {
    &&& !entry.0.contains('=') && !entry.0.contains(';') && !entry.0.contains('\t')
    &&& !entry.1.contains(';') && !entry.1.contains('\t')
}

proof fn lemma_entry(entry: (Seq<char>, Seq<char>))
    requires
        is_entry(entry),
    ensures
        entry_of(entry_text(entry)) == Some(entry),
        !entry_text(entry).contains(';'),
        !entry_text(entry).contains('\t'),
        entry_text(entry).len() > 0,
{
    let text = entry_text(entry);
    let p = entry.0.len() as int;
    assert(text[p] == '=');
    first_index_is_first(text, '=');
    let first = crate::tools::first_index(text, '=');
    if first < p {
        assert(entry.0[first] == '=');
        assert(entry.0.contains('='));
    }
    assert(first == p);
    assert(text.take(p) =~= entry.0);
    assert(text.skip(p + 1) =~= entry.1);
    assert forall|c: char| (c == ';' || c == '\t') implies !text.contains(c) by {
        if text.contains(c) {
            let i = choose|i: int| 0 <= i < text.len() && text[i] == c;
            if i < p {
                assert(entry.0[i] == c);
            } else if i > p {
                assert(entry.1[i - p - 1] == c);
            }
        }
    }
}

proof fn lemma_inventory(inventory: Seq<(Seq<char>, Seq<char>)>)
    requires
        forall|i: int| 0 <= i < inventory.len() ==> is_entry(#[trigger] inventory[i]),
    ensures
        inventory_of(entry_texts(inventory)) == Some(inventory),
        nonempty(entry_texts(inventory)) == entry_texts(inventory),
    decreases inventory.len(),
{
    let texts = entry_texts(inventory);
    if inventory.len() == 0 {
        assert(inventory =~= Seq::empty());
        assert(texts =~= Seq::empty());
    } else {
        let front = inventory.drop_last();
        assert forall|i: int| 0 <= i < front.len() implies is_entry(#[trigger] front[i]) by {
            assert(front[i] == inventory[i]);
        }
        lemma_inventory(front);
        assert(texts.drop_last() =~= entry_texts(front));
        assert(texts.last() == entry_text(inventory.last()));
        assert(inventory.last() == inventory[inventory.len() - 1]);
        lemma_entry(inventory.last());
        assert(front.push(inventory.last()) =~= inventory);
        assert(texts.drop_last().push(texts.last()) =~= texts);
    }
}

/// An inventory is understood as it was written: every GPU, with its index, in order.
pub proof fn inventory_is_understood(inventory: Seq<(Seq<char>, Seq<char>)>)
    requires
        inventory.len() > 0,
        forall|i: int| 0 <= i < inventory.len() ==> is_entry(#[trigger] inventory[i]),
    ensures
        parsed_line(
            joined_with(
                seq!["TMUX_MCP_GPU"@, "INVENTORY"@, joined_with(entry_texts(inventory), ';')],
                '\t',
            ),
        ) == Ok::<Message, Seq<char>>(Message::Inventory(inventory)),
{
    lemma_words();
    lemma_inventory(inventory);
    let texts = entry_texts(inventory);
    assert forall|i: int| 0 <= i < texts.len() implies !(#[trigger] texts[i]).contains(';')
        && !texts[i].contains('\t') by {
        lemma_entry(inventory[i]);
    }
    joined_parts_are_split_again(texts, ';');
    let value = joined_with(texts, ';');
    lemma_joined_lacks(texts, ';', '\t');
    lemma_fields(seq!["TMUX_MCP_GPU"@, "INVENTORY"@, value]);
}

proof fn lemma_joined_lacks(parts: Seq<Seq<char>>, sep: char, c: char)
    requires
        sep != c,
        forall|i: int| 0 <= i < parts.len() ==> !(#[trigger] parts[i]).contains(c),
    ensures
        !joined_with(parts, sep).contains(c),
    decreases parts.len(),
{
    let all = joined_with(parts, sep);
    if parts.len() > 1 {
        let front = parts.drop_last();
        assert forall|i: int| 0 <= i < front.len() implies !(#[trigger] front[i]).contains(c) by {
            assert(front[i] == parts[i]);
        }
        lemma_joined_lacks(front, sep, c);
        if all.contains(c) {
            let i = choose|i: int| 0 <= i < all.len() && all[i] == c;
            let n = joined_with(front, sep).len() as int;
            assert(parts.last() == parts[parts.len() - 1]);
            if i < n {
                assert(joined_with(front, sep)[i] == c);
            } else if i > n {
                assert(parts.last()[i - n - 1] == c);
            }
        }
    }
}

proof fn lemma_all_nonempty(parts: Seq<Seq<char>>)
    requires
        forall|i: int| 0 <= i < parts.len() ==> (#[trigger] parts[i]).len() > 0,
    ensures
        nonempty(parts) == parts,
    decreases parts.len(),
{
    if parts.len() == 0 {
        assert(parts =~= Seq::empty());
    } else {
        let front = parts.drop_last();
        assert forall|i: int| 0 <= i < front.len() implies (#[trigger] front[i]).len() > 0 by {
            assert(front[i] == parts[i]);
        }
        lemma_all_nonempty(front);
        assert(parts.last() == parts[parts.len() - 1]);
        assert(front.push(parts.last()) =~= parts);
    }
}

/// A sample is understood as it was written: every GPU that is in use; and that none is.
pub proof fn sample_is_understood(time: Seq<char>, active: Seq<Seq<char>>)
    requires
        is_field(time),
        forall|i: int|
            0 <= i < active.len() ==> (#[trigger] active[i]).len() > 0 && !active[i].contains(',')
                && is_field(active[i]),
    ensures
        parsed_line(
            joined_with(
                seq!["TMUX_MCP_GPU"@, "SAMPLE"@, time, joined_with(active, ',')],
                '\t',
            ),
        ) == Ok::<Message, Seq<char>>(Message::Sample { active }),
{
    lemma_words();
    let value = joined_with(active, ',');
    lemma_joined_lacks(active, ',', '\t');
    lemma_fields(seq!["TMUX_MCP_GPU"@, "SAMPLE"@, time, value]);
    if active.len() > 0 {
        joined_parts_are_split_again(active, ',');
        lemma_all_nonempty(active);
    } else {
        assert(active =~= Seq::empty());
        let parts = split_at_char(value, ',');
        assert(parts =~= seq![Seq::<char>::empty()]);
        assert(parts.drop_last() =~= Seq::empty());
        reveal_with_fuel(nonempty, 2);
    }
}

/// A failure is passed on in the watcher's words, and the end of its time is told from it.
pub proof fn failure_and_expiry_are_understood(reason: Seq<char>)
    requires
        is_field(reason),
    ensures
        parsed_line(joined_with(seq!["TMUX_MCP_GPU"@, "ERROR"@, reason], '\t')) == Ok::<
            Message,
            Seq<char>,
        >(Message::Error(reason)),
        parsed_line(joined_with(seq!["TMUX_MCP_GPU"@, "EXPIRED"@, reason], '\t')) == Ok::<
            Message,
            Seq<char>,
        >(Message::Expired),
{
    lemma_words();
    lemma_fields(seq!["TMUX_MCP_GPU"@, "ERROR"@, reason]);
    lemma_fields(seq!["TMUX_MCP_GPU"@, "EXPIRED"@, reason]);
}

/// What does not come from the watcher is not understood.
pub proof fn other_output_is_not_understood(fields: Seq<Seq<char>>)
    requires
        fields.len() > 0,
        forall|i: int| 0 <= i < fields.len() ==> is_field(#[trigger] fields[i]),
        fields[0] != "TMUX_MCP_GPU"@ || fields.len() == 1 || (fields[1] != "READY"@ && fields[1]
            != "INVENTORY"@ && fields[1] != "SAMPLE"@ && fields[1] != "ERROR"@ && fields[1]
            != "EXPIRED"@),
    ensures
        parsed_line(joined_with(fields, '\t')) is Err,
{
    lemma_fields(fields);
}

/// A GPU is reported exactly where it is watched, not in use, and has been idle for the required
/// time since its timer started; one without a timer starts it now.
pub proof fn idle_gpus_are_reported(
    targets: Seq<Seq<char>>,
    active: Seq<Seq<char>>,
    idle_since: Map<Seq<char>, u64>,
    now: u64,
    required_seconds: u64,
    gpu: Seq<char>,
)
    requires
        idle_since.dom().contains(gpu) ==> idle_since[gpu] <= now,
        required_seconds > 0,
    ensures
        due(targets, active, idle_since, now, required_seconds).contains(gpu) <==> targets.contains(
            gpu,
        ) && !active.contains(gpu) && idle_since.dom().contains(gpu) && now - idle_since[gpu]
            >= required_seconds * 1_000_000_000,
    decreases targets.len(),
{
    if targets.len() > 0 {
        let front = targets.drop_last();
        idle_gpus_are_reported(front, active, idle_since, now, required_seconds, gpu);
        let rest = due(front, active, idle_since, now, required_seconds);
        crate::seqs::push_contains(rest, targets.last());
        crate::seqs::push_contains(front, targets.last());
        assert(front.push(targets.last()) =~= targets);
        assert(required_seconds * 1_000_000_000 > 0);
    }
}

/// The timer of an idle GPU starts with the first sample that shows it idle, goes on from there,
/// and ends with one that shows it in use. GPUs that are not watched are left alone.
pub proof fn timers_start_run_and_end(
    targets: Seq<Seq<char>>,
    active: Seq<Seq<char>>,
    idle_since: Map<Seq<char>, u64>,
    now: u64,
    gpu: Seq<char>,
)
    ensures
        ({
            let after = idle_after(targets, active, idle_since, now);
            &&& targets.contains(gpu) && active.contains(gpu) ==> !after.dom().contains(gpu)
            &&& targets.contains(gpu) && !active.contains(gpu) && !idle_since.dom().contains(gpu)
                ==> after.dom().contains(gpu) && after[gpu] == now
            &&& targets.contains(gpu) && !active.contains(gpu) && idle_since.dom().contains(gpu)
                ==> after.dom().contains(gpu) && after[gpu] == idle_since[gpu]
            &&& !targets.contains(gpu) ==> (after.dom().contains(gpu) <==> idle_since.dom().contains(
                gpu,
            ))
            &&& !targets.contains(gpu) && idle_since.dom().contains(gpu) ==> after[gpu]
                == idle_since[gpu]
        }),
{
}

/// A watch ends as it ran: with the idle GPUs where some were found, stopped, expired, or failed
/// with the reason; whether it is certain that it stopped is told apart.
pub proof fn watches_end_as_they_ran(result: Result<WatchOutcome, String>)
    ensures
        conclusion_of(result).status == GpuWatchStatus::Triggered <==> (result matches Ok(
            WatchOutcome::Triggered(_),
        )),
        result matches Ok(WatchOutcome::Triggered(gpus)) ==> conclusion_of(result).idle_gpus
            == views(gpus@),
        !(result matches Ok(WatchOutcome::Triggered(_))) ==> conclusion_of(result).idle_gpus.len()
            == 0,
        conclusion_of(result).status == GpuWatchStatus::Stopped <==> (result matches Ok(
            WatchOutcome::Stopped(true),
        )),
        conclusion_of(result).status == GpuWatchStatus::StopUnconfirmed <==> (result matches Ok(
            WatchOutcome::Stopped(false),
        )),
        conclusion_of(result).status == GpuWatchStatus::Expired <==> (result matches Ok(
            WatchOutcome::Expired,
        )),
        conclusion_of(result).status == GpuWatchStatus::Failed <==> result is Err,
        result matches Err(words) ==> conclusion_of(result).reason == Some(words@) && conclusion_of(
            result,
        ).diagnostic == Some(words@),
{
}

/// A watch that ends says how, which GPUs are idle and when, and is otherwise what it was; it
/// comes last in the history, and of more than thirty-two the oldest is forgotten.
pub proof fn ended_watch_is_recorded(
    state: Monitors,
    id: Seq<char>,
    conclusion: ConclusionView,
    now_ms: u64,
)
    requires
        state.is_active(id),
        state.history.len() <= 32,
    ensures
        ({
            let after = state.finished(id, conclusion, now_ms);
            &&& after.active is None
            &&& after.history.len() > 0
            &&& after.history.last().monitor_id == id
            &&& after.history.last().status == conclusion.status
            &&& after.history.last().idle_gpus == conclusion.idle_gpus
            &&& after.history.last().reason == conclusion.reason
            &&& after.history.last().diagnostic == conclusion.diagnostic
            &&& after.history.last().completed_at_ms == Some(now_ms)
            &&& after.history.last().target_gpus == state.active->0.target_gpus
            &&& state.history.len() < 32 ==> after.history == state.history.push(
                after.history.last(),
            )
            &&& state.history.len() == 32 ==> after.history == state.history.skip(1).push(
                after.history.last(),
            )
        }),
{
    let ended = state.active->0.concluded(conclusion, now_ms);
    let all = state.history.push(ended);
    if all.len() > 32 {
        assert(all.skip(1) =~= state.history.skip(1).push(ended));
    }
}

/// Only the watch that runs is changed by what becomes of it.
pub proof fn other_watches_are_left_alone(
    state: Monitors,
    id: Seq<char>,
    pid: Option<u32>,
    targets: Seq<Seq<char>>,
    conclusion: ConclusionView,
    now_ms: u64,
)
    ensures
        !state.is_active(id) ==> state.finished(id, conclusion, now_ms) == state && state.watching(
            id,
            pid,
            targets,
            now_ms,
        ) == state && state.sampled(id, now_ms) == state,
        state.is_active(id) ==> {
            let seen = state.watching(id, pid, targets, now_ms);
            &&& seen.active is Some
            &&& seen.active->0.status == GpuWatchStatus::Watching
            &&& seen.active->0.remote_pid == pid
            &&& seen.active->0.target_gpus == targets
            &&& seen.active->0.started_at_ms == Some(now_ms)
            &&& seen.active->0.monitor_id == id
            &&& seen.history == state.history
        },
        state.is_active(id) ==> {
            let sampled = state.sampled(id, now_ms);
            &&& sampled.active is Some
            &&& sampled.active->0.last_sample_at_ms == Some(now_ms)
            &&& sampled.active->0.status == state.active->0.status
            &&& sampled.history == state.history
        },
        state.is_active(id) <==> state.active is Some && state.active->0.monitor_id == id,
{
}

/// A watch starts exactly where what is asked for is in order, there is a remote host, and no
/// other watch runs.
pub proof fn watches_start_one_at_a_time(
    state: Monitors,
    input: StartGpuWatchInput,
    ssh_enabled: Result<bool, String>,
    id: Seq<char>,
    now_ms: u64,
)
    ensures
        GpuMonitorManager::start_objection(state, input, ssh_enabled) is None
            <==> input.objection() is None && (ssh_enabled matches Ok(true)) && state.active is None,
        Watch::fresh(input, id, now_ms).monitor_id == id,
        Watch::fresh(input, id, now_ms).status == GpuWatchStatus::Starting,
        Watch::fresh(input, id, now_ms).idle_seconds == input.idle_seconds,
        Watch::fresh(input, id, now_ms).poll_seconds == input.poll_seconds,
        Watch::fresh(input, id, now_ms).created_at_ms == now_ms,
        Watch::fresh(input, id, now_ms).requested_gpu == crate::text::opt_view(input.gpu),
        Watch::fresh(input, id, now_ms).idle_gpus.len() == 0,
        Watch::fresh(input, id, now_ms).notification_status == NotificationStatus::NotSent,
{
}

/// A notification that was sent counts as observed once it is asked for, and no other does.
pub proof fn sent_notifications_are_observed(watch: Watch)
    ensures
        watch.notification_status == NotificationStatus::TransportSent
            ==> watch.observed().notification_status == NotificationStatus::Observed,
        watch.notification_status != NotificationStatus::TransportSent ==> watch.observed()
            == watch,
        watch.observed().status == watch.status && watch.observed().idle_gpus == watch.idle_gpus,
{
}

/// A sample of a watch that is ready triggers it exactly where some watched GPU is due, and with
/// those that are. The process on the remote host is ended then.
pub proof fn samples_trigger_for_idle_gpus(
    remote: Remote,
    state: Monitors,
    active: Seq<Seq<char>>,
    now: u64,
    now_ms: u64,
)
    requires
        remote.ready,
        forall|i: int| 0 <= i < active.len() ==> remote.known.contains(#[trigger] active[i]),
    ensures
        ({
            let idle = due(remote.targets, active, remote.idle_since, now, remote.idle_seconds);
            let (after, _, step) = remote.after_message(
                state,
                Message::Sample { active },
                now,
                now_ms,
            );
            &&& idle.len() > 0 ==> step == (StepView::Terminate {
                pid: remote.remote_pid,
                ending: EndingView::Settled(Ended::Triggered(idle)),
            })
            &&& idle.len() == 0 ==> step == (StepView::Continue { reset_heartbeat: true })
            &&& after.idle_since == idle_after(remote.targets, active, remote.idle_since, now)
            &&& after.targets == remote.targets
            &&& after.ready
        }),
{
}

/// A watch is ready once its own watcher has reported, and its inventory is known; then it
/// watches what was asked for. Nothing that comes out of turn is acted on.
pub proof fn watches_become_ready_in_turn(
    remote: Remote,
    state: Monitors,
    message: Message,
    now: u64,
    now_ms: u64,
)
    ensures
        ({
            let (after, _, step) = remote.after_message(state, message, now, now_ms);
            &&& message matches Message::Ready { id, pid } ==> (if id == remote.monitor_id {
                after.remote_pid == Some(pid) && step is Continue
            } else {
                after == remote && (step matches StepView::Terminate { pid: ended, .. } && ended
                    == Some(pid))
            })
            &&& message matches Message::Inventory(inventory) ==> (after.ready && !remote.ready
                ==> remote.remote_pid is Some && resolved(remote.requested, inventory) == Ok::<
                Seq<Seq<char>>,
                Seq<char>,
            >(after.targets))
            &&& message is Inventory && remote.remote_pid is None ==> (step matches StepView::End(
                Ended::Failed(_),
            ))
            &&& message is Sample && !remote.ready ==> (step matches StepView::End(
                Ended::Failed(_),
            ))
            &&& !remote.ready && after.ready ==> message is Inventory
            &&& message is Expired ==> step is AwaitExpired
            &&& message matches Message::Error(reason) ==> step == StepView::AwaitFailed(reason)
        }),
{
}

/// A GPU in use that is not in the inventory ends the watch: it would go unnoticed.
pub proof fn unknown_gpus_end_the_watch(
    remote: Remote,
    state: Monitors,
    active: Seq<Seq<char>>,
    i: int,
    now: u64,
    now_ms: u64,
)
    requires
        remote.ready,
        0 <= i < active.len(),
        !remote.known.contains(active[i]),
    ensures
        remote.after_message(state, Message::Sample { active }, now, now_ms).2 matches
            StepView::Terminate { pid, ending: EndingView::Settled(Ended::Failed(_)) } && pid
            == remote.remote_pid,
{
}

/// A watch that is cancelled, or hears nothing for too long, ends its remote process; time runs
/// out for being ready before it is, and for samples after.
pub proof fn cancelled_and_silent_watches_are_ended(
    remote: Remote,
    state: Monitors,
    now: u64,
    now_ms: u64,
)
    ensures
        remote.after(state, RemoteInput::Cancelled, now, now_ms).2 == (StepView::Terminate {
            pid: remote.remote_pid,
            ending: EndingView::Stopped,
        }),
        !remote.ready ==> remote.after(state, RemoteInput::ReadyTimedOut, now, now_ms).2
            == (StepView::Terminate { pid: remote.remote_pid, ending: EndingView::ReadyTimedOut }),
        remote.ready ==> remote.after(state, RemoteInput::ReadyTimedOut, now, now_ms).2 is Continue,
        remote.ready ==> remote.after(state, RemoteInput::HeartbeatTimedOut, now, now_ms).2
            == (StepView::Terminate { pid: remote.remote_pid, ending: EndingView::SampleTimedOut }),
        !remote.ready ==> remote.after(state, RemoteInput::HeartbeatTimedOut, now, now_ms).2
            is Continue,
        remote.after(state, RemoteInput::OutputEnded, now, now_ms).2 is AwaitUnexpected,
{
}

/// A line that is too long or not understood ends the watch; any other is acted on.
pub proof fn lines_are_acted_on(
    remote: Remote,
    state: Monitors,
    line: String,
    now: u64,
    now_ms: u64,
)
    ensures
        encode_utf8(line@).len() > 4096 ==> (remote.after(
            state,
            RemoteInput::Line(line),
            now,
            now_ms,
        ).2 matches StepView::Terminate { pid, ending: EndingView::Settled(Ended::Failed(_)) }
            && pid == remote.remote_pid),
        encode_utf8(line@).len() <= 4096 ==> (parsed_line(line@) matches Ok(message)
            ==> remote.after(state, RemoteInput::Line(line), now, now_ms) == remote.after_message(
            state,
            message,
            now,
            now_ms,
        )),
        encode_utf8(line@).len() <= 4096 ==> (parsed_line(line@) matches Err(words)
            ==> remote.after(state, RemoteInput::Line(line), now, now_ms).2 == StepView::End(
            Ended::Failed(words),
        )),
{
}

/// How a watch ends is settled before its process is: only whether a stop is certain, and what a
/// timeout says of it, depends on whether the process is known to be gone.
pub proof fn endings_are_told_as_they_are(ending: EndingView, confirmed: bool)
    ensures
        ending is Stopped ==> ending.with(confirmed) == Ended::Stopped(confirmed),
        ending matches EndingView::Settled(end) ==> ending.with(confirmed) == end,
        ending is ReadyTimedOut || ending is SampleTimedOut ==> ending.with(confirmed) is Failed
            && ending.with(true) != ending.with(false),
{
    reveal_strlit("GPU watcher READY timed out");
    reveal_strlit("GPU watcher READY timed out; remote termination unconfirmed");
    reveal_strlit("GPU watcher sample timed out");
    reveal_strlit("GPU watcher sample timed out; remote termination unconfirmed");
    assert("GPU watcher READY timed out"@.len()
        != "GPU watcher READY timed out; remote termination unconfirmed"@.len());
    assert("GPU watcher sample timed out"@.len()
        != "GPU watcher sample timed out; remote termination unconfirmed"@.len());
}

/// A remote process counts as gone only where it was seen to exit. It is asked to end first, and
/// killed where it does not; one that is not known to be ours is never signalled again.
pub proof fn processes_are_ended_with_care(stage: Termination, input: TerminationInput)
    ensures
        stage.after(input) is Confirmed && !(stage is Confirmed) ==> input
            == TerminationInput::Exited(true) && (stage is AwaitGone || stage is AwaitTerm || stage
            is AwaitKill),
        (stage is AwaitGone || stage is AwaitTerm || stage is AwaitKill) && input
            == TerminationInput::Exited(true) ==> stage.after(input) is Confirmed,
        stage.after(input) is SendKill && !(stage is SendKill) ==> stage is AwaitTerm && input
            == TerminationInput::Exited(false),
        stage matches Termination::AwaitTerm { pid } ==> (input == TerminationInput::Exited(false)
            ==> stage.after(input) == (Termination::SendKill { pid })),
        stage matches Termination::SendTerm { pid } ==> (input == TerminationInput::Signalled(
            SignalResult::Sent,
        ) ==> stage.after(input) == (Termination::AwaitTerm { pid })),
        stage matches Termination::SendTerm { .. } ==> (input == TerminationInput::Signalled(
            SignalResult::Gone,
        ) ==> stage.after(input) is AwaitGone),
        (stage is SendTerm || stage is SendKill) && (input == TerminationInput::Signalled(
            SignalResult::Mismatch,
        ) || input == TerminationInput::Signalled(SignalResult::Failed)) ==> stage.after(input)
            is KillLocal,
        (stage is AwaitGone || stage is AwaitKill) && input == TerminationInput::Exited(false)
            ==> stage.after(input) is KillLocal,
        stage is SendKill && (input == TerminationInput::Signalled(SignalResult::Sent) || input
            == TerminationInput::Signalled(SignalResult::Gone)) ==> stage.after(input) is AwaitKill,
{
}

/// The remote script samples for a day, and not longer than one more interval.
pub proof fn remote_script_runs_for_a_day(poll_seconds: u64)
    requires
        poll_seconds > 0,
    ensures
        max_samples(poll_seconds) * poll_seconds >= 86_400,
        (max_samples(poll_seconds) - 1) * poll_seconds < 86_400,
{
    let poll = poll_seconds as int;
    let samples = (86_400 + poll - 1) / poll;
    assert(samples * poll >= 86_400 && (samples - 1) * poll < 86_400) by (nonlinear_arith)
        requires
            poll > 0,
            samples == (86_400 + poll - 1) / poll,
    ;
}

/// The limits that a watch keeps to.
pub proof fn limits_of_a_watch()
    ensures
        MAX_HISTORY == 32,
        MAX_DIAGNOSTIC_BYTES == 16 * 1024,
        MAX_PROTOCOL_LINE_BYTES == 4 * 1024,
        READY_TIMEOUT_SECONDS == 10,
        HEARTBEAT_TIMEOUT_SECONDS == 90,
        STOP_GRACE_SECONDS == 5,
        REMOTE_CONTROL_TIMEOUT_SECONDS == 5,
        MAX_LIFETIME_SECONDS == 24 * 60 * 60,
{
}

/// Every text of the form of a UUID names a GPU: `GPU-`, then at least one hexadecimal digit or
/// dash and nothing else.
pub proof fn well_formed_uuids_name_gpus(rest: Seq<char>)
    requires
        rest.len() > 0,
        forall|i: int|
            0 <= i < rest.len() ==> '0' <= #[trigger] rest[i] <= '9' || 'a' <= rest[i] <= 'f' || 'A'
                <= rest[i] <= 'F' || rest[i] == '-',
    ensures
        is_gpu_uuid("GPU-"@ + rest),
        !is_gpu_index("GPU-"@ + rest),
{
    reveal_strlit("GPU-");
    let gpu = "GPU-"@ + rest;
    assert("GPU-"@.len() == 4);
    assert(gpu.subrange(0, 4) =~= "GPU-"@);
    assert forall|i: int| 4 <= i < gpu.len() implies is_hex_digit(#[trigger] gpu[i]) || gpu[i]
        == '-' by {
        assert(gpu[i] == rest[i - 4]);
    }
    assert(gpu[0] == 'G');
    assert(!is_digit(gpu[0]));
}

/// An entry of the inventory is an index and a UUID with `=` between them; without it, it is no
/// entry.
pub proof fn entries_pair_index_and_uuid(index: Seq<char>, uuid: Seq<char>)
    requires
        !index.contains('='),
    ensures
        entry_of(index.push('=') + uuid) == Some((index, uuid)),
        entry_of(index) is None,
{
    let entry = index.push('=') + uuid;
    first_index_is_first(entry, '=');
    first_index_is_first(index, '=');
    assert(entry[index.len() as int] == '=');
    assert forall|i: int| 0 <= i < index.len() implies #[trigger] entry[i] != '=' by {
        assert(entry[i] == index[i]);
        assert(index.contains(index[i]));
    }
    assert(entry.take(index.len() as int) =~= index);
    assert(entry.skip(index.len() as int + 1) =~= uuid);
}

/// Asking for the state of the watches observes the one that runs and the last that ended, and
/// changes no other.
pub proof fn asking_observes_the_latest(state: Monitors, i: int)
    ensures
        state.all_observed().active is Some <==> state.active is Some,
        state.active is Some ==> state.all_observed().active->0 == state.active->0.observed(),
        state.all_observed().history.len() == state.history.len(),
        state.history.len() > 0 ==> state.all_observed().history.last()
            == state.history.last().observed(),
        0 <= i < state.history.len() - 1 ==> state.all_observed().history[i] == state.history[i],
{
}

/// A watch that has ended is found by its id, the earliest where several have it, exactly where
/// one is remembered.
pub proof fn ended_watches_are_found_by_id(state: Monitors, id: Seq<char>, i: int)
    ensures
        state.not_in_history(id) <==> !(exists|k: int|
            0 <= k < state.history.len() && (#[trigger] state.history[k]).monitor_id == id),
        state.first_with_id(id, i) ==> 0 <= i < state.history.len() && state.history[i].monitor_id
            == id,
        state.first_with_id(id, i) ==> forall|k: int|
            0 <= k < state.history.len() && (#[trigger] state.history[k]).monitor_id == id ==> i
                <= k,
{
}

/// Output of the remote script that is not understood is told what is wrong with it.
pub proof fn faults_of_the_script_are_named(fields: Seq<Seq<char>>)
    requires
        fields.len() > 0,
        forall|i: int| 0 <= i < fields.len() ==> is_field(#[trigger] fields[i]),
    ensures
        ({
            let line = parsed_line(joined_with(fields, '\t'));
            let says = |words: Seq<char>| line == Err::<Message, Seq<char>>(words);
            let begun = fields[0] == "TMUX_MCP_GPU"@;
            &&& !begun ==> says("unexpected GPU watcher output"@)
            &&& begun && (fields.len() == 1 || (fields[1] != "READY"@ && fields[1] != "INVENTORY"@
                && fields[1] != "SAMPLE"@ && fields[1] != "ERROR"@ && fields[1] != "EXPIRED"@))
                ==> says("unknown GPU watcher protocol message"@)
            &&& begun && fields.len() == 2 && fields[1] == "READY"@ ==> says(
                "GPU watcher READY missing id"@,
            )
            &&& begun && fields.len() == 3 && fields[1] == "READY"@ ==> says(
                "GPU watcher READY missing pid"@,
            )
            &&& begun && fields.len() == 2 && fields[1] == "SAMPLE"@ ==> says(
                "GPU watcher SAMPLE missing time"@,
            )
            &&& begun && fields.len() == 2 && fields[1] == "ERROR"@ ==> line == Ok::<
                Message,
                Seq<char>,
            >(Message::Error("remote watcher failed"@))
        }),
{
    lemma_fields(fields);
    lemma_words();
    assert("READY"@.len() == 5 && "SAMPLE"@.len() == 6 && "INVENTORY"@.len() == 9);
}

/// The history holds at most thirty-two watches.
pub proof fn history_is_bounded(state: Monitors)
    ensures
        state.bounded() <==> state.history.len() <= 32,
{
}

/// A watch that has ended gives its reason.
pub proof fn ended_watches_give_their_reason(gpus: Vec<String>)
    ensures
        conclusion_of(Ok(WatchOutcome::Triggered(gpus))).reason == Some("no_compute_process"@),
        conclusion_of(Ok(WatchOutcome::Stopped(true))).reason is None,
        conclusion_of(Ok(WatchOutcome::Stopped(false))).reason == Some(
            "remote termination unconfirmed"@,
        ),
        conclusion_of(Ok(WatchOutcome::Expired)).reason == Some("24-hour watcher limit reached"@),
{
}

} // verus!
