//! The lines of the remote GPU watcher, its idle timer, and the course of one watch.

use crate::commands::age;
use crate::gpu_monitor::{Conclusion, ConclusionView, GpuWatchStatus, MAX_LIFETIME_SECONDS};
use crate::keyed::Keyed;
use crate::seqs::take_contains;
use crate::shell::{shell_single_quote, single_quoted};
use crate::text::{
    all_digits, decimal, digit, from_range, is_digit, listed, opt_str_view, parse_u64, same, split,
    split_at_char, to_chars, u64_text, unsigned_number, views,
};
use crate::tools::{find_char, first_index};
use vstd::prelude::*;

verus! {

/// One line of the remote script.
#[derive(Debug, Clone, PartialEq, Eq)]
pub enum ProtocolMessage {
    Ready { id: String, pid: u32 },
    /// The physical GPUs, by index and UUID.
    Inventory(Vec<(String, String)>),
    /// The UUIDs of the GPUs that run something.
    Sample { active: Vec<String> },
    Error(String),
    Expired,
}

/// Index and UUID of each GPU as sequences of characters.
pub open spec fn inventory_views(inventory: Seq<(String, String)>) -> Seq<(Seq<char>, Seq<char>)> {
    Seq::new(inventory.len(), |i: int| (inventory[i].0@, inventory[i].1@))
}

/// A [`ProtocolMessage`] with its texts as sequences of characters.
#[verifier::ext_equal]
pub enum Message {
    Ready { id: Seq<char>, pid: u32 },
    Inventory(Seq<(Seq<char>, Seq<char>)>),
    Sample { active: Seq<Seq<char>> },
    Error(Seq<char>),
    Expired,
}

impl View for ProtocolMessage {
    type V = Message;

    open spec fn view(&self) -> Message {
        match self {
            ProtocolMessage::Ready { id, pid } => Message::Ready { id: id@, pid: *pid },
            ProtocolMessage::Inventory(inventory) => Message::Inventory(
                inventory_views(inventory@),
            ),
            ProtocolMessage::Sample { active } => Message::Sample { active: views(active@) },
            ProtocolMessage::Error(reason) => Message::Error(reason@),
            ProtocolMessage::Expired => Message::Expired,
        }
    }
}

/// The parts that are not empty.
pub open spec fn nonempty(parts: Seq<Seq<char>>) -> Seq<Seq<char>>
    decreases parts.len(),
{
    if parts.len() == 0 {
        Seq::empty()
    } else if parts.last().len() == 0 {
        nonempty(parts.drop_last())
    } else {
        nonempty(parts.drop_last()).push(parts.last())
    }
}

/// The parts of `text` between separators that are not empty.
fn nonempty_parts(text: &str, sep: char) -> (r: Vec<String>)
    ensures
        views(r@) == nonempty(split_at_char(text@, sep)),
{
    let parts = split(text, sep);
    let ghost all = views(parts@);
    let mut r: Vec<String> = Vec::new();
    let mut i: usize = 0;
    assert(views(r@) =~= nonempty(all.take(0)));
    while i < parts.len()
        invariant
            i <= parts@.len(),
            all == views(parts@),
            views(r@) == nonempty(all.take(i as int)),
        decreases parts@.len() - i,
    {
        let ghost before = views(r@);
        proof {
            assert(all.take(i as int + 1).drop_last() =~= all.take(i as int));
            assert(all.take(i as int + 1).last() == parts@[i as int]@);
        }
        if !parts[i].as_str().is_empty() {
            r.push(parts[i].clone());
            assert(views(r@) =~= before.push(parts@[i as int]@));
        }
        i += 1;
    }
    assert(all.take(all.len() as int) =~= all);
    r
}

/// Index and UUID of an inventory entry: what stands before and behind its first `=`.
pub open spec fn entry_of(entry: Seq<char>) -> Option<(Seq<char>, Seq<char>)> {
    let p = first_index(entry, '=');
    if p < entry.len() {
        Some((entry.take(p), entry.skip(p + 1)))
    } else {
        None
    }
}

/// The inventory that these entries make; none where one of them is malformed.
pub open spec fn inventory_of(entries: Seq<Seq<char>>) -> Option<Seq<(Seq<char>, Seq<char>)>>
    decreases entries.len(),
{
    if entries.len() == 0 {
        Some(Seq::empty())
    } else {
        match (inventory_of(entries.drop_last()), entry_of(entries.last())) {
            (Some(rest), Some(entry)) => Some(rest.push(entry)),
            _ => None,
        }
    }
}

proof fn lemma_malformed(entries: Seq<Seq<char>>, n: int)
    requires
        0 <= n <= entries.len(),
        inventory_of(entries.take(n)) is None,
    ensures
        inventory_of(entries) is None,
    decreases entries.len() - n,
{
    if n < entries.len() {
        assert(entries.take(n + 1).drop_last() =~= entries.take(n));
        lemma_malformed(entries, n + 1);
    } else {
        assert(entries.take(n) =~= entries);
    }
}

/// The inventory that these entries make; none where one of them is malformed.
fn parse_inventory(entries: &Vec<String>) -> (r: Option<Vec<(String, String)>>)
    ensures
        (match r {
            Some(list) => Some(inventory_views(list@)),
            None => None,
        }) == inventory_of(views(entries@)),
{
    let ghost all = views(entries@);
    let mut list: Vec<(String, String)> = Vec::new();
    let mut i: usize = 0;
    assert(inventory_views(list@) =~= Seq::<(Seq<char>, Seq<char>)>::empty());
    assert(all.take(0) =~= Seq::<Seq<char>>::empty());
    while i < entries.len()
        invariant
            i <= entries@.len(),
            all == views(entries@),
            inventory_of(all.take(i as int)) == Some(inventory_views(list@)),
        decreases entries@.len() - i,
    {
        let chars = to_chars(entries[i].as_str());
        let p: usize = find_char(&chars, '=');
        proof {
            assert(all.take(i as int + 1).drop_last() =~= all.take(i as int));
            assert(all.take(i as int + 1).last() == chars@);
        }
        if p == chars.len() {
            proof {
                lemma_malformed(all, i as int + 1);
            }
            return None;
        }
        let index = from_range(&chars, 0, p);
        let uuid = from_range(&chars, p + 1, chars.len());
        let ghost before = inventory_views(list@);
        proof {
            assert(index@ =~= chars@.take(p as int));
            assert(uuid@ =~= chars@.skip(p as int + 1));
        }
        list.push((index, uuid));
        assert(inventory_views(list@) =~= before.push((index@, uuid@)));
        i += 1;
    }
    assert(all.take(all.len() as int) =~= all);
    Some(list)
}

/// Field `i` of a line, if it has so many.
pub open spec fn field(fields: Seq<Seq<char>>, i: int) -> Option<Seq<char>> {
    if i < fields.len() {
        Some(fields[i])
    } else {
        None
    }
}

/// The number of a process, if the text writes one.
pub open spec fn process_id(text: Seq<char>) -> Option<u32> {
    match unsigned_number(text) {
        Some(n) => if n <= u32::MAX {
            Some(n as u32)
        } else {
            None
        },
        None => None,
    }
}

/// What a line of the remote script says.
pub open spec fn parsed_line(line: Seq<char>) -> Result<Message, Seq<char>> {
    let fields = split_at_char(line, '\t');
    if fields[0] != "TMUX_MCP_GPU"@ {
        Err("unexpected GPU watcher output"@)
    } else if field(fields, 1) == Some("READY"@) {
        if fields.len() < 3 {
            Err("GPU watcher READY missing id"@)
        } else if fields.len() < 4 {
            Err("GPU watcher READY missing pid"@)
        } else {
            match process_id(fields[3]) {
                Some(pid) => Ok(Message::Ready { id: fields[2], pid }),
                None => Err("GPU watcher READY has invalid pid"@),
            }
        }
    } else if field(fields, 1) == Some("INVENTORY"@) {
        let value = match field(fields, 2) {
            Some(v) => v,
            None => Seq::empty(),
        };
        match inventory_of(nonempty(split_at_char(value, ';'))) {
            None => Err("GPU watcher INVENTORY is malformed"@),
            Some(inventory) => if inventory.len() == 0 {
                Err("GPU watcher found no GPUs"@)
            } else {
                Ok(Message::Inventory(inventory))
            },
        }
    } else if field(fields, 1) == Some("SAMPLE"@) {
        let value = match field(fields, 3) {
            Some(v) => v,
            None => Seq::empty(),
        };
        if fields.len() < 3 {
            Err("GPU watcher SAMPLE missing time"@)
        } else {
            Ok(Message::Sample { active: nonempty(split_at_char(value, ',')) })
        }
    } else if field(fields, 1) == Some("ERROR"@) {
        Ok(
            Message::Error(
                match field(fields, 2) {
                    Some(reason) => reason,
                    None => "remote watcher failed"@,
                },
            ),
        )
    } else if field(fields, 1) == Some("EXPIRED"@) {
        Ok(Message::Expired)
    } else {
        Err("unknown GPU watcher protocol message"@)
    }
}

/// Outcome of parsing as sequences of characters.
pub open spec fn line_view(r: Result<ProtocolMessage, String>) -> Result<Message, Seq<char>> {
    match r {
        Ok(message) => Ok(message@),
        Err(words) => Err(words@),
    }
}

/// Read a line of the remote script.
pub fn parse_protocol_line(line: &str) -> (r: Result<ProtocolMessage, String>)
    ensures
        line_view(r) == parsed_line(line@),
{
    let fields = split(line, '\t');
    let ghost all = split_at_char(line@, '\t');
    assert forall|i: int| 0 <= i < all.len() implies #[trigger] all[i] == fields@[i]@ by {
        assert(views(fields@)[i] == fields@[i]@);
    }
    if !same(fields[0].as_str(), "TMUX_MCP_GPU") {
        return Err("unexpected GPU watcher output".to_owned());
    }
    if fields.len() < 2 {
        return Err("unknown GPU watcher protocol message".to_owned());
    }
    let kind = fields[1].as_str();
    if same(kind, "READY") {
        if fields.len() < 3 {
            return Err("GPU watcher READY missing id".to_owned());
        }
        if fields.len() < 4 {
            return Err("GPU watcher READY missing pid".to_owned());
        }
        match parse_u64(fields[3].as_str()) {
            Some(pid) => if pid <= 4_294_967_295 {
                Ok(ProtocolMessage::Ready { id: fields[2].clone(), pid: pid as u32 })
            } else {
                Err("GPU watcher READY has invalid pid".to_owned())
            },
            None => Err("GPU watcher READY has invalid pid".to_owned()),
        }
    } else if same(kind, "INVENTORY") {
        let value = if fields.len() > 2 {
            fields[2].clone()
        } else {
            String::new()
        };
        let entries = nonempty_parts(value.as_str(), ';');
        match parse_inventory(&entries) {
            None => Err("GPU watcher INVENTORY is malformed".to_owned()),
            Some(inventory) => if inventory.len() == 0 {
                Err("GPU watcher found no GPUs".to_owned())
            } else {
                Ok(ProtocolMessage::Inventory(inventory))
            },
        }
    } else if same(kind, "SAMPLE") {
        if fields.len() < 3 {
            return Err("GPU watcher SAMPLE missing time".to_owned());
        }
        let value = if fields.len() > 3 {
            fields[3].clone()
        } else {
            String::new()
        };
        Ok(ProtocolMessage::Sample { active: nonempty_parts(value.as_str(), ',') })
    } else if same(kind, "ERROR") {
        if fields.len() > 2 {
            Ok(ProtocolMessage::Error(fields[2].clone()))
        } else {
            Ok(ProtocolMessage::Error("remote watcher failed".to_owned()))
        }
    } else if same(kind, "EXPIRED") {
        Ok(ProtocolMessage::Expired)
    } else {
        Err("unknown GPU watcher protocol message".to_owned())
    }
}

/// The UUIDs of an inventory.
pub open spec fn uuids(inventory: Seq<(Seq<char>, Seq<char>)>) -> Seq<Seq<char>> {
    Seq::new(inventory.len(), |i: int| inventory[i].1)
}

/// UUID of the first GPU with this index.
pub open spec fn uuid_of_index(inventory: Seq<(Seq<char>, Seq<char>)>, value: Seq<char>) -> Option<
    Seq<char>,
>
    decreases inventory.len(),
{
    if inventory.len() == 0 {
        None
    } else if inventory[0].0 == value {
        Some(inventory[0].1)
    } else {
        uuid_of_index(inventory.skip(1), value)
    }
}

/// Which GPUs are watched: all of them, the one with the requested index, or the one with the
/// requested UUID.
pub open spec fn resolved(
    requested: Option<Seq<char>>,
    inventory: Seq<(Seq<char>, Seq<char>)>,
) -> Result<Seq<Seq<char>>, Seq<char>> {
    match requested {
        None => Ok(uuids(inventory)),
        Some(value) => if all_digits(value) {
            match uuid_of_index(inventory, value) {
                Some(uuid) => Ok(seq![uuid]),
                None => Err("GPU index "@ + value + " not found"@),
            }
        } else if uuids(inventory).contains(value) {
            Ok(seq![value])
        } else {
            Err("GPU UUID "@ + value + " not found"@)
        },
    }
}

/// Outcome of choosing GPUs as sequences of characters.
pub open spec fn targets_view(r: Result<Vec<String>, String>) -> Result<Seq<Seq<char>>, Seq<char>> {
    match r {
        Ok(targets) => Ok(views(targets@)),
        Err(words) => Err(words@),
    }
}

fn is_number(text: &str) -> (r: bool)
    ensures
        r == all_digits(text@),
{
    let chars = to_chars(text);
    let mut i: usize = 0;
    while i < chars.len()
        invariant
            i <= chars@.len(),
            chars@ == text@,
            forall|j: int| 0 <= j < i ==> is_digit(#[trigger] text@[j]),
        decreases chars@.len() - i,
    {
        if !digit(chars[i]) {
            assert(!is_digit(text@[i as int]));
            return false;
        }
        i += 1;
    }
    true
}

/// All UUIDs of an inventory.
pub(crate) fn all_uuids(inventory: &Vec<(String, String)>) -> (r: Vec<String>)
    ensures
        views(r@) == uuids(inventory_views(inventory@)),
{
    let ghost all = inventory_views(inventory@);
    let mut r: Vec<String> = Vec::new();
    let mut i: usize = 0;
    while i < inventory.len()
        invariant
            i <= inventory@.len(),
            all == inventory_views(inventory@),
            r@.len() == i,
            forall|j: int| 0 <= j < i ==> (#[trigger] r@[j])@ == all[j].1,
        decreases inventory@.len() - i,
    {
        r.push(inventory[i].1.clone());
        i += 1;
    }
    assert(views(r@) =~= uuids(all));
    r
}

/// Which GPUs are watched.
pub fn resolve_targets(requested: Option<&str>, inventory: &Vec<(String, String)>) -> (r: Result<
    Vec<String>,
    String,
>)
    ensures
        targets_view(r) == resolved(opt_str_view(requested), inventory_views(inventory@)),
{
    let ghost all = inventory_views(inventory@);
    match requested {
        None => Ok(all_uuids(inventory)),
        Some(value) => {
            let by_index = is_number(value);
            let mut i: usize = 0;
            assert(all.skip(0) =~= all);
            while i < inventory.len()
                invariant
                    i <= inventory@.len(),
                    all == inventory_views(inventory@),
                    requested matches Some(v) && v@ == value@,
                    by_index == all_digits(value@),
                    by_index ==> uuid_of_index(all, value@) == uuid_of_index(
                        all.skip(i as int),
                        value@,
                    ),
                    !by_index ==> forall|j: int| 0 <= j < i ==> (#[trigger] all[j]).1 != value@,
                decreases inventory@.len() - i,
            {
                proof {
                    assert(all[i as int] == (inventory@[i as int].0@, inventory@[i as int].1@));
                    assert(all.skip(i as int)[0] == all[i as int]);
                    assert(all.skip(i as int).skip(1) =~= all.skip(i as int + 1));
                }
                let hit = if by_index {
                    same(inventory[i].0.as_str(), value)
                } else {
                    same(inventory[i].1.as_str(), value)
                };
                if hit {
                    let mut r: Vec<String> = Vec::new();
                    r.push(inventory[i].1.clone());
                    proof {
                        assert(views(r@) =~= seq![all[i as int].1]);
                        if !by_index {
                            assert(uuids(all)[i as int] == value@);
                        }
                    }
                    return Ok(r);
                }
                i += 1;
            }
            proof {
                if !by_index && uuids(all).contains(value@) {
                    let j = choose|j: int| 0 <= j < uuids(all).len() && uuids(all)[j] == value@;
                    assert(all[j].1 == value@);
                }
            }
            let kind = if by_index {
                "GPU index ".to_owned()
            } else {
                "GPU UUID ".to_owned()
            };
            Err(kind.concat(value).concat(" not found"))
        },
    }
}

/// Since when each watched GPU is idle, after a sample at `now` with these GPUs active: activity
/// takes the timer away, and idleness starts it where it does not run.
pub open spec fn idle_after(
    targets: Seq<Seq<char>>,
    active: Seq<Seq<char>>,
    idle_since: Map<Seq<char>, u64>,
    now: u64,
) -> Map<Seq<char>, u64> {
    Map::new(
        |gpu: Seq<char>|
            if targets.contains(gpu) {
                !active.contains(gpu)
            } else {
                idle_since.dom().contains(gpu)
            },
        |gpu: Seq<char>|
            if idle_since.dom().contains(gpu) {
                idle_since[gpu]
            } else {
                now
            },
    )
}

/// The GPU has been idle long enough.
pub open spec fn is_due(
    gpu: Seq<char>,
    active: Seq<Seq<char>>,
    idle_since: Map<Seq<char>, u64>,
    now: u64,
    required_seconds: u64,
) -> bool {
    &&& !active.contains(gpu)
    &&& age(
        if idle_since.dom().contains(gpu) {
            idle_since[gpu]
        } else {
            now
        },
        now,
    ) >= required_seconds * 1_000_000_000
}

/// The watched GPUs that have been idle long enough, in order.
pub open spec fn due(
    targets: Seq<Seq<char>>,
    active: Seq<Seq<char>>,
    idle_since: Map<Seq<char>, u64>,
    now: u64,
    required_seconds: u64,
) -> Seq<Seq<char>>
    decreases targets.len(),
{
    if targets.len() == 0 {
        Seq::empty()
    } else {
        let rest = due(targets.drop_last(), active, idle_since, now, required_seconds);
        if is_due(targets.last(), active, idle_since, now, required_seconds) {
            rest.push(targets.last())
        } else {
            rest
        }
    }
}

/// Take in a sample: which watched GPUs have now been idle long enough.
pub fn update_idle_state(
    targets: &Vec<String>,
    active: &Vec<String>,
    idle_since: &mut Keyed<u64>,
    now: u64,
    required_seconds: u64,
) -> (r: Vec<String>)
    requires
        old(idle_since).wf(),
    ensures
        final(idle_since).wf(),
        final(idle_since)@ == idle_after(
            views(targets@),
            views(active@),
            old(idle_since)@,
            now,
        ),
        views(r@) == due(
            views(targets@),
            views(active@),
            old(idle_since)@,
            now,
            required_seconds,
        ),
{
    let ghost all = views(targets@);
    let ghost busy = views(active@);
    let ghost start = idle_since@;
    let mut triggered: Vec<String> = Vec::new();
    let mut i: usize = 0;
    proof {
        assert(all.take(0) =~= Seq::<Seq<char>>::empty());
        assert(views(triggered@) =~= Seq::<Seq<char>>::empty());
        assert(idle_since@ =~= idle_after(all.take(0), busy, start, now));
    }
    while i < targets.len()
        invariant
            i <= targets@.len(),
            all == views(targets@),
            busy == views(active@),
            idle_since.wf(),
            idle_since@ == idle_after(all.take(i as int), busy, start, now),
            views(triggered@) == due(all.take(i as int), busy, start, now, required_seconds),
        decreases targets@.len() - i,
    {
        let gpu = targets[i].as_str();
        let ghost before = views(triggered@);
        proof {
            take_contains(all, i as int);
            assert(all[i as int] == gpu@);
            assert(all.take(i as int + 1).drop_last() =~= all.take(i as int));
            assert(all.take(i as int + 1).last() == gpu@);
        }
        if listed(active, gpu) {
            let _ = idle_since.remove(gpu);
        } else {
            let since: u64 = match idle_since.get(gpu) {
                Some(since) => *since,
                None => now,
            };
            idle_since.insert(gpu.to_owned(), since);
            let elapsed: u64 = if now <= since {
                0
            } else {
                now - since
            };
            if elapsed as u128 >= required_seconds as u128 * 1_000_000_000 {
                triggered.push(gpu.to_owned());
                assert(views(triggered@) =~= before.push(gpu@));
            }
        }
        assert(idle_since@ =~= idle_after(all.take(i as int + 1), busy, start, now));
        i += 1;
    }
    assert(all.take(all.len() as int) =~= all);
    triggered
}

/// How the remote script ended, as far as the watch is concerned.
#[derive(Debug, Clone, PartialEq, Eq)]
pub enum WatchOutcome {
    /// These GPUs have been idle long enough.
    Triggered(Vec<String>),
    /// The watch was stopped; whether the remote process is known to have ended.
    Stopped(bool),
    /// The watch has lived its time.
    Expired,
}

/// How the watch concludes after the remote script has ended one way or another.
pub open spec fn conclusion_of(result: Result<WatchOutcome, String>) -> ConclusionView {
    match result {
        Ok(WatchOutcome::Triggered(gpus)) => ConclusionView {
            status: GpuWatchStatus::Triggered,
            idle_gpus: views(gpus@),
            reason: Some("no_compute_process"@),
            diagnostic: None,
        },
        Ok(WatchOutcome::Stopped(true)) => ConclusionView {
            status: GpuWatchStatus::Stopped,
            idle_gpus: Seq::empty(),
            reason: None,
            diagnostic: None,
        },
        Ok(WatchOutcome::Stopped(false)) => ConclusionView {
            status: GpuWatchStatus::StopUnconfirmed,
            idle_gpus: Seq::empty(),
            reason: Some("remote termination unconfirmed"@),
            diagnostic: None,
        },
        Ok(WatchOutcome::Expired) => ConclusionView {
            status: GpuWatchStatus::Expired,
            idle_gpus: Seq::empty(),
            reason: Some("24-hour watcher limit reached"@),
            diagnostic: None,
        },
        Err(error) => ConclusionView {
            status: GpuWatchStatus::Failed,
            idle_gpus: Seq::empty(),
            reason: Some(error@),
            diagnostic: Some(error@),
        },
    }
}

/// How the watch concludes after the remote script has ended one way or another.
pub fn conclude(result: Result<WatchOutcome, String>) -> (r: Conclusion)
    ensures
        r@ == conclusion_of(result),
{
    let nothing: Vec<String> = Vec::new();
    assert(views(nothing@) =~= Seq::<Seq<char>>::empty());
    match result {
        Ok(WatchOutcome::Triggered(gpus)) => Conclusion {
            status: GpuWatchStatus::Triggered,
            idle_gpus: gpus,
            reason: Some("no_compute_process".to_owned()),
            diagnostic: None,
        },
        Ok(WatchOutcome::Stopped(confirmed)) => if confirmed {
            Conclusion {
                status: GpuWatchStatus::Stopped,
                idle_gpus: nothing,
                reason: None,
                diagnostic: None,
            }
        } else {
            Conclusion {
                status: GpuWatchStatus::StopUnconfirmed,
                idle_gpus: nothing,
                reason: Some("remote termination unconfirmed".to_owned()),
                diagnostic: None,
            }
        },
        Ok(WatchOutcome::Expired) => Conclusion {
            status: GpuWatchStatus::Expired,
            idle_gpus: nothing,
            reason: Some("24-hour watcher limit reached".to_owned()),
            diagnostic: None,
        },
        Err(error) => Conclusion {
            status: GpuWatchStatus::Failed,
            idle_gpus: nothing,
            reason: Some(error.clone()),
            diagnostic: Some(error),
        },
    }
}

/// Samples after which the remote script ends by itself.
pub open spec fn max_samples(poll_seconds: u64) -> int {
    (MAX_LIFETIME_SECONDS + poll_seconds - 1) / (poll_seconds as int)
}

/// The command that starts the remote script. Every argument is one quoted shell word.
pub fn remote_watch_command(
    script: &str,
    monitor_id: &str,
    token: &str,
    poll_seconds: u64,
) -> (r: String)
    requires
        1 <= poll_seconds,
        MAX_LIFETIME_SECONDS + poll_seconds <= u64::MAX,
    ensures
        r@ == "env "@ + single_quoted("TMUX_MCP_GPU_WATCH_ID="@ + token@) + " /bin/sh -c "@
            + single_quoted(script@) + " -- "@ + single_quoted(monitor_id@) + " "@ + decimal(
            poll_seconds as nat,
        ) + " "@ + decimal(max_samples(poll_seconds) as nat),
{
    let samples: u64 = (MAX_LIFETIME_SECONDS + poll_seconds - 1) / poll_seconds;
    let variable = "TMUX_MCP_GPU_WATCH_ID=".to_owned().concat(token);
    let mut out = "env ".to_owned();
    out.append(shell_single_quote(variable.as_str()).as_str());
    out.append(" /bin/sh -c ");
    out.append(shell_single_quote(script).as_str());
    out.append(" -- ");
    out.append(shell_single_quote(monitor_id).as_str());
    out.append(" ");
    out.append(u64_text(poll_seconds).as_str());
    out.append(" ");
    out.append(u64_text(samples).as_str());
    out
}

/// The command that signals the remote process.
pub fn remote_signal_command(script: &str, pid: u32, token: &str, signal: &str) -> (r: String)
    ensures
        r@ == "/bin/sh -c "@ + single_quoted(script@) + " -- "@ + decimal(pid as nat) + " "@
            + single_quoted(token@) + " "@ + signal@,
{
    let mut out = "/bin/sh -c ".to_owned();
    out.append(shell_single_quote(script).as_str());
    out.append(" -- ");
    out.append(u64_text(pid as u64).as_str());
    out.append(" ");
    out.append(shell_single_quote(token).as_str());
    out.append(" ");
    out.append(signal);
    out
}

} // verus!
