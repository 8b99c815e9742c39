//! The records of all actions: what is shown of them, and what is kept when the log is
//! rewritten.
//!
//! On disk the store is a log with one record per line; the last line of an id stands. The
//! caller reads and writes the lines; this module holds the records and decides which lines
//! make up a whole log.

use crate::control::{
    ActionKind, ActionRecord, ActionStatus, Record, ACTION_SCHEMA_VERSION,
};
use crate::keyed::Keyed;
use crate::seqs::{push_contains, take_contains};
use crate::text::{
    less, listed, same, text_less, text_less_irreflexive, text_less_total, text_less_transitive,
    views,
};
use vstd::prelude::*;

verus! {

/// Records shown of one pane.
pub const PER_PANE_LIMIT: usize = 200;

/// Operations shown.
pub const OPERATION_LIMIT: usize = 200;

/// Records shown in the full log.
pub const FULL_LOG_LIMIT: usize = 200;

/// Size of the log, in bytes, beyond which it is rewritten.
pub const COMPACT_AT_BYTES: u64 = 4_194_304;

/// The order of records: by the time of the request, then of the last change, then by id.
pub open spec fn record_less(a: Record, b: Record) -> bool {
    if a.requested_at_ms != b.requested_at_ms {
        a.requested_at_ms < b.requested_at_ms
    } else if a.updated_at_ms != b.updated_at_ms {
        a.updated_at_ms < b.updated_at_ms
    } else {
        text_less(a.id, b.id)
    }
}

fn comes_first(a: &ActionRecord, b: &ActionRecord) -> (r: bool)
    ensures
        r == record_less(a@, b@),
{
    if a.requested_at_ms != b.requested_at_ms {
        a.requested_at_ms < b.requested_at_ms
    } else if a.updated_at_ms != b.updated_at_ms {
        a.updated_at_ms < b.updated_at_ms
    } else {
        less(a.id.as_str(), b.id.as_str())
    }
}

proof fn lemma_less_transitive(a: Record, b: Record, c: Record)
    requires
        record_less(a, b),
        record_less(b, c),
    ensures
        record_less(a, c),
{
    if a.requested_at_ms == c.requested_at_ms && a.updated_at_ms == c.updated_at_ms {
        text_less_transitive(a.id, b.id, c.id);
    }
}

proof fn lemma_less_total(a: Record, b: Record)
    requires
        a.id != b.id,
    ensures
        record_less(a, b) || record_less(b, a),
{
    if a.requested_at_ms == b.requested_at_ms && a.updated_at_ms == b.updated_at_ms {
        text_less_total(a.id, b.id);
    }
}

proof fn lemma_less_irreflexive(a: Record)
    ensures
        !record_less(a, a),
{
    text_less_irreflexive(a.id);
}

/// Each record comes before those behind it.
pub open spec fn in_order(list: Seq<Record>) -> bool {
    forall|i: int, j: int|
        0 <= i < j < list.len() ==> record_less(#[trigger] list[i], #[trigger] list[j])
}

/// Which records are asked for.
#[derive(Debug, Clone, PartialEq, Eq)]
pub enum Selection {
    /// All of them.
    All,
    /// Those of a pane, requested not before a time.
    Pane { pane_id: String, since_ms: Option<u64> },
    /// Operations that change something.
    Operations,
    /// Everything but commands and typed input.
    Log,
}

/// Operations that are shown with the pane they were asked for.
pub open spec fn is_pane_reading(tool: Seq<char>) -> bool {
    tool == "list-directory"@ || tool == "read-file"@ || tool == "find-files"@ || tool
        == "search-text"@ || tool == "git-status"@ || tool == "git-diff"@ || tool == "git-log"@
        || tool == "git-show"@
}

fn pane_reading(tool: &str) -> (r: bool)
    ensures
        r == is_pane_reading(tool@),
{
    same(tool, "list-directory") || same(tool, "read-file") || same(tool, "find-files") || same(
        tool,
        "search-text",
    ) || same(tool, "git-status") || same(tool, "git-diff") || same(tool, "git-log") || same(
        tool,
        "git-show",
    )
}

/// A record belongs to the messages of a pane.
pub open spec fn in_pane_view(record: Record, pane_id: Seq<char>, since_ms: Option<u64>) -> bool {
    &&& record.kind != ActionKind::Operation || is_pane_reading(record.tool)
    &&& since_ms matches Some(minimum) ==> record.requested_at_ms >= minimum
    &&& record.target.pane_ids.contains(pane_id)
}

/// A record belongs to the operations.
pub open spec fn in_operations(record: Record) -> bool {
    record.kind == ActionKind::Operation && !record.read_only
}

/// A record belongs to the full log.
pub open spec fn in_log(record: Record) -> bool {
    record.tool != "execute-command"@ && record.tool != "web-input"@
}

/// A [`Selection`] with its text as a sequence of characters.
#[verifier::ext_equal]
pub enum Wanted {
    All,
    Pane { pane_id: Seq<char>, since_ms: Option<u64> },
    Operations,
    Log,
}

impl View for Selection {
    type V = Wanted;

    open spec fn view(&self) -> Wanted {
        match self {
            Selection::All => Wanted::All,
            Selection::Pane { pane_id, since_ms } => Wanted::Pane {
                pane_id: pane_id@,
                since_ms: *since_ms,
            },
            Selection::Operations => Wanted::Operations,
            Selection::Log => Wanted::Log,
        }
    }
}

impl Wanted {
    /// The record is asked for.
    pub open spec fn wants(self, record: Record) -> bool {
        match self {
            Wanted::All => true,
            Wanted::Pane { pane_id, since_ms } => in_pane_view(record, pane_id, since_ms),
            Wanted::Operations => in_operations(record),
            Wanted::Log => in_log(record),
        }
    }
}

impl Selection {
    fn includes(&self, record: &ActionRecord) -> (r: bool)
        ensures
            r == self@.wants(record@),
    {
        match self {
            Selection::All => true,
            Selection::Pane { pane_id, since_ms } => {
                let shown = match record.kind {
                    ActionKind::Operation => pane_reading(record.tool.as_str()),
                    ActionKind::Command => true,
                    ActionKind::Input => true,
                };
                let late = match since_ms {
                    Some(minimum) => record.requested_at_ms >= *minimum,
                    None => true,
                };
                shown && late && listed(&record.target.pane_ids, pane_id.as_str())
            },
            Selection::Operations => {
                let operation = match record.kind {
                    ActionKind::Operation => true,
                    ActionKind::Command => false,
                    ActionKind::Input => false,
                };
                operation && !record.read_only
            },
            Selection::Log => !same(record.tool.as_str(), "execute-command") && !same(
                record.tool.as_str(),
                "web-input",
            ),
        }
    }
}

/// The record stands in the store as it is.
pub open spec fn stored(records: Map<Seq<char>, Record>, record: Record) -> bool {
    records.dom().contains(record.id) && records[record.id] == record
}

/// `list` holds, in order, the records that are wanted: all of them, or the latest `limit`
/// where there are more.
pub open spec fn is_latest(
    records: Map<Seq<char>, Record>,
    selection: Wanted,
    limit: nat,
    list: Seq<Record>,
) -> bool {
    &&& in_order(list)
    &&& list.len() <= limit
    &&& forall|i: int|
        0 <= i < list.len() ==> stored(records, #[trigger] list[i]) && selection.wants(list[i])
    &&& forall|id: Seq<char>| #[trigger]
        records.dom().contains(id) && selection.wants(records[id]) && !list.contains(records[id])
            ==> list.len() == limit && forall|i: int|
            0 <= i < list.len() ==> record_less(records[id], #[trigger] list[i])
}

/// Records as sequences of characters.
pub open spec fn record_views(records: Seq<ActionRecord>) -> Seq<Record> {
    Seq::new(records.len(), |i: int| records[i]@)
}

/// Borrowed records as sequences of characters.
pub open spec fn borrowed_views(records: Seq<&ActionRecord>) -> Seq<Record> {
    Seq::new(records.len(), |i: int| records[i]@)
}

/// Every record is stored under its own id.
pub open spec fn keyed_by_id(records: Map<Seq<char>, Record>) -> bool {
    forall|id: Seq<char>| #[trigger] records.dom().contains(id) ==> records[id].id == id
}

/// What is known after one more line of the log. A record of another layout is passed over.
pub open spec fn with_line(records: Map<Seq<char>, Record>, line: Record) -> Map<
    Seq<char>,
    Record,
> {
    if line.schema_version == ACTION_SCHEMA_VERSION {
        records.insert(line.id, line)
    } else {
        records
    }
}

/// The latest record of each action.
#[derive(Debug, Clone)]
pub struct RecordStore {
    records: Keyed<ActionRecord>,
}

impl View for RecordStore {
    type V = Map<Seq<char>, Record>;

    closed spec fn view(&self) -> Map<Seq<char>, Record> {
        self.records@
    }
}

impl RecordStore {
    /// Every record is stored under its own id, and its arguments are well formed.
    pub closed spec fn wf(&self) -> bool {
        &&& self.records.wf()
        &&& keyed_by_id(self@)
        &&& self.records.all_values(|record: ActionRecord| record.wf())
    }

    /// An empty store.
    pub fn new() -> (r: Self)
        ensures
            r.wf(),
            r@ == Map::<Seq<char>, Record>::empty(),
    {
        RecordStore { records: Keyed::new() }
    }

    /// Take in one line of the log: the last line of an id stands, and records of another
    /// layout are passed over.
    pub fn replay(&mut self, record: ActionRecord)
        requires
            old(self).wf(),
            record.wf(),
        ensures
            final(self).wf(),
            final(self)@ == with_line(old(self)@, record@),
    {
        if record.schema_version == ACTION_SCHEMA_VERSION {
            self.upsert(record);
        }
    }

    /// Store a record, in place of an earlier one of the same id.
    pub fn upsert(&mut self, record: ActionRecord)
        requires
            old(self).wf(),
            record.wf(),
        ensures
            final(self).wf(),
            final(self)@ == old(self)@.insert(record.id@, record@),
    {
        let id = record.id.clone();
        self.records.insert(id, record);
    }

    /// Take out the record of an action.
    pub fn remove(&mut self, id: &str) -> (r: Option<ActionRecord>)
        requires
            old(self).wf(),
        ensures
            final(self).wf(),
            final(self)@ == old(self)@.remove(id@),
            match r {
                Some(record) => record.wf() && old(self)@.dom().contains(id@) && record@ == old(self)@[id@]
                    && record@.id == id@,
                None => !old(self)@.dom().contains(id@),
            },
    {
        let ghost property = |record: ActionRecord| record.wf();
        let r = self.records.remove(id);
        proof {
            if r is Some {
                assert(old(self).records.all_values(property));
                assert(property(r->0));
            }
        }
        r
    }

    /// The record of an action.
    pub fn get(&self, id: &str) -> (r: Option<ActionRecord>)
        requires
            self.wf(),
        ensures
            match r {
                Some(record) => record.wf() && self@.dom().contains(id@) && record@ == self@[id@],
                None => !self@.dom().contains(id@),
            },
    {
        match self.records.get(id) {
            Some(record) => Some(record.copy()),
            None => None,
        }
    }
}

/// `list` holds, in order, all records that are wanted.
pub open spec fn is_listing(
    records: Map<Seq<char>, Record>,
    selection: Wanted,
    list: Seq<Record>,
) -> bool {
    &&& in_order(list)
    &&& forall|i: int|
        0 <= i < list.len() ==> stored(records, #[trigger] list[i]) && selection.wants(list[i])
    &&& forall|id: Seq<char>| #[trigger]
        records.dom().contains(id) && selection.wants(records[id]) ==> list.contains(records[id])
}

/// Put a record in its place in an ordered list.
proof fn lemma_insert_in_order(list: Seq<Record>, p: int, record: Record)
    requires
        in_order(list),
        0 <= p <= list.len(),
        forall|j: int| 0 <= j < p ==> record_less(#[trigger] list[j], record),
        forall|j: int| p <= j < list.len() ==> record_less(record, #[trigger] list[j]),
    ensures
        in_order(list.insert(p, record)),
        forall|x: Record| #[trigger]
            list.insert(p, record).contains(x) == (list.contains(x) || x == record),
{
    let after = list.insert(p, record);
    assert forall|i: int, j: int| 0 <= i < j < after.len() implies record_less(
        #[trigger] after[i],
        #[trigger] after[j],
    ) by {
        let oi = if i < p { i } else { i - 1 };
        let oj = if j < p { j } else { j - 1 };
        if i == p {
            assert(after[j] == list[oj]);
        } else if j == p {
            assert(after[i] == list[oi]);
        } else {
            assert(after[i] == list[oi] && after[j] == list[oj]);
        }
    }
    assert forall|x: Record| #[trigger] after.contains(x) == (list.contains(x) || x == record) by {
        if x == record {
            assert(after[p] == record);
        }
        if list.contains(x) {
            let k = choose|k: int| 0 <= k < list.len() && list[k] == x;
            let a = if k < p { k } else { k + 1 };
            assert(after[a] == x);
        }
        if after.contains(x) && x != record {
            let k = choose|k: int| 0 <= k < after.len() && after[k] == x;
            let o = if k < p { k } else { k - 1 };
            assert(list[o] == x);
        }
    }
}

impl RecordStore {
    /// The records that are wanted, in order.
    fn select(&self, selection: &Selection) -> (list: Vec<&ActionRecord>)
        requires
            self.wf(),
        ensures
            is_listing(self@, selection@, borrowed_views(list@)),
            forall|i: int| 0 <= i < list@.len() ==> (#[trigger] list@[i]).wf(),
    {
        let ghost keys = self.records.keys();
        let ghost store = self@;
        proof {
            self.records.lemma_keys();
        }
        let mut list: Vec<&ActionRecord> = Vec::new();
        let mut i: usize = 0;
        while i < self.records.len()
            invariant
                i <= keys.len(),
                keys == self.records.keys(),
                store == self@,
                self.wf(),
                keys.no_duplicates(),
                in_order(borrowed_views(list@)),
                forall|j: int| 0 <= j < list@.len() ==> (#[trigger] list@[j]).wf(),
                forall|j: int|
                    0 <= j < list@.len() ==> {
                        &&& stored(store, #[trigger] borrowed_views(list@)[j])
                        &&& selection@.wants(borrowed_views(list@)[j])
                        &&& keys.take(i as int).contains(borrowed_views(list@)[j].id)
                    },
                forall|id: Seq<char>| #[trigger]
                    keys.take(i as int).contains(id) && selection@.wants(store[id])
                        ==> borrowed_views(list@).contains(store[id]),
            decreases keys.len() - i,
        {
            let record = self.records.value(i);
            let ghost id = keys[i as int];
            let ghost before = borrowed_views(list@);
            proof {
                take_contains(keys, i as int);
                assert(store.dom().contains(id));
                assert(record@ == store[id]);
                assert(record@.id == id);
            }
            assert(record.wf()) by {
                assert(self.records.all_values(|record: ActionRecord| record.wf()));
                let property = |record: ActionRecord| record.wf();
                assert(property(*record));
            }
            if selection.includes(record) {
                let mut p: usize = list.len();
                while p > 0 && comes_first(record, list[p - 1])
                    invariant
                        p <= list@.len(),
                        before == borrowed_views(list@),
                        forall|j: int|
                            p <= j < before.len() ==> record_less(record@, #[trigger] before[j]),
                    decreases p,
                {
                    assert(before[p - 1] == list@[p - 1]@);
                    p -= 1;
                }
                proof {
                    if p > 0 {
                        assert(before[p - 1] == list@[p - 1]@);
                        assert(before[p - 1].id != id);
                        lemma_less_total(before[p - 1], record@);
                        assert forall|j: int| 0 <= j < p implies record_less(
                            #[trigger] before[j],
                            record@,
                        ) by {
                            if j < p - 1 {
                                assert(record_less(before[j], before[p - 1]));
                                lemma_less_transitive(before[j], before[p - 1], record@);
                            }
                        }
                    }
                    lemma_insert_in_order(before, p as int, record@);
                }
                list.insert(p, record);
                proof {
                    let after = borrowed_views(list@);
                    assert(after =~= before.insert(p as int, record@));
                    assert forall|j: int| 0 <= j < list@.len() implies {
                        &&& stored(store, #[trigger] after[j])
                        &&& selection@.wants(after[j])
                        &&& keys.take(i as int + 1).contains(after[j].id)
                    } by {
                        if j != p {
                            let o = if j < p { j as int } else { j - 1 };
                            assert(after[j] == before[o]);
                        }
                    }
                    assert forall|x: Seq<char>| #[trigger]
                        keys.take(i as int + 1).contains(x) && selection@.wants(
                            store[x],
                        ) implies after.contains(store[x]) by {
                        assert(before.contains(store[x]) || store[x] == record@);
                    }
                }
            }
            i += 1;
        }
        proof {
            assert(keys.take(keys.len() as int) =~= keys);
            assert forall|id: Seq<char>| #[trigger]
                store.dom().contains(id) && selection@.wants(store[id]) implies borrowed_views(
                list@,
            ).contains(store[id]) by {
                assert(self.records@.dom().contains(id));
                let j = choose|j: int| 0 <= j < keys.len() && #[trigger] keys[j] == id;
                assert(keys.contains(id));
            }
        }
        list
    }

    /// The latest records that are wanted, at most `limit`, in order.
    fn latest(&self, selection: &Selection, limit: usize) -> (r: Vec<ActionRecord>)
        requires
            self.wf(),
        ensures
            is_latest(self@, selection@, limit as nat, record_views(r@)),
            forall|i: int| 0 <= i < r@.len() ==> (#[trigger] r@[i]).wf(),
    {
        let list = self.select(selection);
        let ghost all = borrowed_views(list@);
        let start: usize = if list.len() > limit {
            list.len() - limit
        } else {
            0
        };
        let mut r: Vec<ActionRecord> = Vec::new();
        let mut i: usize = start;
        while i < list.len()
            invariant
                start <= i <= list@.len(),
                all == borrowed_views(list@),
                r@.len() == i - start,
                forall|j: int| 0 <= j < list@.len() ==> (#[trigger] list@[j]).wf(),
                forall|j: int|
                    0 <= j < r@.len() ==> (#[trigger] r@[j])@ == all[start + j] && r@[j].wf(),
            decreases list@.len() - i,
        {
            assert(all[i as int] == list@[i as int]@);
            r.push(list[i].copy());
            i += 1;
        }
        proof {
            let out = record_views(r@);
            assert(out =~= all.skip(start as int));
            assert forall|a: int, b: int| 0 <= a < b < out.len() implies record_less(
                #[trigger] out[a],
                #[trigger] out[b],
            ) by {
                assert(out[a] == all[start + a] && out[b] == all[start + b]);
            }
            assert forall|a: int| 0 <= a < out.len() implies stored(self@, #[trigger] out[a])
                && selection@.wants(out[a]) by {
                assert(out[a] == all[start + a]);
            }
            assert forall|id: Seq<char>| #[trigger]
                self@.dom().contains(id) && selection@.wants(self@[id]) && !out.contains(
                    self@[id],
                ) implies out.len() == limit && forall|a: int|
                0 <= a < out.len() ==> record_less(self@[id], #[trigger] out[a]) by {
                assert(all.contains(self@[id]));
                let k = choose|k: int| 0 <= k < all.len() && all[k] == self@[id];
                if k >= start {
                    assert(out[k - start] == self@[id]);
                }
                assert forall|a: int| 0 <= a < out.len() implies record_less(
                    self@[id],
                    #[trigger] out[a],
                ) by {
                    assert(out[a] == all[start + a]);
                    assert(record_less(all[k], all[start + a]));
                }
            }
        }
        r
    }

    /// All records, in order.
    pub fn sorted_records(&self) -> (r: Vec<ActionRecord>)
        requires
            self.wf(),
        ensures
            is_listing(self@, Wanted::All, record_views(r@)),
            forall|i: int| 0 <= i < r@.len() ==> (#[trigger] r@[i]).wf(),
    {
        let list = self.select(&Selection::All);
        let ghost all = borrowed_views(list@);
        let mut r: Vec<ActionRecord> = Vec::new();
        let mut i: usize = 0;
        while i < list.len()
            invariant
                i <= list@.len(),
                all == borrowed_views(list@),
                r@.len() == i,
                forall|j: int| 0 <= j < list@.len() ==> (#[trigger] list@[j]).wf(),
                forall|j: int| 0 <= j < i ==> (#[trigger] r@[j])@ == all[j] && r@[j].wf(),
            decreases list@.len() - i,
        {
            assert(all[i as int] == list@[i as int]@);
            r.push(list[i].copy());
            i += 1;
        }
        assert(record_views(r@) =~= all);
        r
    }

    /// The latest messages of a pane.
    pub fn records_for_pane(&self, pane_id: &str) -> (r: Vec<ActionRecord>)
        requires
            self.wf(),
        ensures
            is_latest(
                self@,
                Wanted::Pane { pane_id: pane_id@, since_ms: None },
                PER_PANE_LIMIT as nat,
                record_views(r@),
            ),
            forall|i: int| 0 <= i < r@.len() ==> (#[trigger] r@[i]).wf(),
    {
        self.records_for_pane_since(pane_id, None)
    }

    /// The latest messages of a pane that were requested not before a time.
    pub fn records_for_pane_since(&self, pane_id: &str, minimum_requested_at_ms: Option<u64>) -> (r:
        Vec<ActionRecord>)
        requires
            self.wf(),
        ensures
            is_latest(
                self@,
                Wanted::Pane { pane_id: pane_id@, since_ms: minimum_requested_at_ms },
                PER_PANE_LIMIT as nat,
                record_views(r@),
            ),
            forall|i: int| 0 <= i < r@.len() ==> (#[trigger] r@[i]).wf(),
    {
        let selection = Selection::Pane {
            pane_id: pane_id.to_owned(),
            since_ms: minimum_requested_at_ms,
        };
        self.latest(&selection, PER_PANE_LIMIT)
    }

    /// The latest operations that change something.
    pub fn operations(&self) -> (r: Vec<ActionRecord>)
        requires
            self.wf(),
        ensures
            is_latest(self@, Wanted::Operations, OPERATION_LIMIT as nat, record_views(r@)),
            forall|i: int| 0 <= i < r@.len() ==> (#[trigger] r@[i]).wf(),
    {
        self.latest(&Selection::Operations, OPERATION_LIMIT)
    }

    /// The latest records of the full log.
    pub fn full_log(&self) -> (r: Vec<ActionRecord>)
        requires
            self.wf(),
        ensures
            is_latest(self@, Wanted::Log, FULL_LOG_LIMIT as nat, record_views(r@)),
            forall|i: int| 0 <= i < r@.len() ==> (#[trigger] r@[i]).wf(),
    {
        self.latest(&Selection::Log, FULL_LOG_LIMIT)
    }
}

proof fn lemma_order_is_distinct(list: Seq<Record>)
    requires
        in_order(list),
    ensures
        list.no_duplicates(),
{
    assert forall|i: int, j: int| 0 <= i < list.len() && 0 <= j < list.len() && i != j implies
        list[i] != list[j] by {
        lemma_less_irreflexive(list[i]);
        if i < j {
            assert(record_less(list[i], list[j]));
        } else {
            assert(record_less(list[j], list[i]));
        }
    }
}

proof fn lemma_same_members(a: Seq<Record>, b: Seq<Record>)
    requires
        in_order(a),
        in_order(b),
        forall|x: Record| #[trigger] a.contains(x) == b.contains(x),
    ensures
        a == b,
    decreases a.len(),
{
    if a.len() == 0 {
        if b.len() > 0 {
            assert(b.contains(b[0]));
            assert(a.contains(b[0]));
        }
        assert(a =~= b);
    } else if b.len() == 0 {
        assert(a.contains(a[0]));
        assert(b.contains(a[0]));
    } else {
        let x = a.last();
        let y = b.last();
        assert(a.contains(x) && b.contains(y));
        assert(b.contains(x) && a.contains(y));
        if x != y {
            let i = choose|i: int| 0 <= i < b.len() && b[i] == x;
            let j = choose|j: int| 0 <= j < a.len() && a[j] == y;
            assert(record_less(b[i], b[b.len() - 1]));
            assert(record_less(a[j], a[a.len() - 1]));
            lemma_less_transitive(x, y, x);
            lemma_less_irreflexive(x);
        }
        let c = a.drop_last();
        let d = b.drop_last();
        lemma_order_is_distinct(a);
        lemma_order_is_distinct(b);
        assert forall|z: Record| #[trigger] c.contains(z) == d.contains(z) by {
            if c.contains(z) {
                let k = choose|k: int| 0 <= k < c.len() && c[k] == z;
                assert(a[k] == z);
                assert(b.contains(z)) by {
                    assert(a.contains(z));
                }
                let m = choose|m: int| 0 <= m < b.len() && b[m] == z;
                assert(z != x);
                assert(d[m] == z);
            }
            if d.contains(z) {
                let k = choose|k: int| 0 <= k < d.len() && d[k] == z;
                assert(b[k] == z);
                assert(a.contains(z)) by {
                    assert(b.contains(z));
                }
                let m = choose|m: int| 0 <= m < a.len() && a[m] == z;
                assert(z != y);
                assert(c[m] == z);
            }
        }
        assert(in_order(c)) by {
            assert forall|i: int, j: int| 0 <= i < j < c.len() implies record_less(
                #[trigger] c[i],
                #[trigger] c[j],
            ) by {
                assert(record_less(a[i], a[j]));
            }
        }
        assert(in_order(d)) by {
            assert forall|i: int, j: int| 0 <= i < j < d.len() implies record_less(
                #[trigger] d[i],
                #[trigger] d[j],
            ) by {
                assert(record_less(b[i], b[j]));
            }
        }
        lemma_same_members(c, d);
        assert(a =~= c.push(x));
        assert(b =~= d.push(y));
    }
}

proof fn lemma_latest_within(
    records: Map<Seq<char>, Record>,
    wanted: Wanted,
    limit: nat,
    a: Seq<Record>,
    b: Seq<Record>,
    x: Record,
)
    requires
        is_latest(records, wanted, limit, a),
        is_latest(records, wanted, limit, b),
        a.contains(x),
    ensures
        b.contains(x),
{
    if !b.contains(x) {
        let i = choose|i: int| 0 <= i < a.len() && a[i] == x;
        assert(stored(records, a[i]));
        assert(records.dom().contains(x.id));
        assert(b.len() == limit);
        let sa = a.to_set();
        let sb = b.to_set();
        lemma_order_is_distinct(a);
        lemma_order_is_distinct(b);
        a.unique_seq_to_set();
        b.unique_seq_to_set();
        assert(sa.contains(x));
        if sb.subset_of(sa) {
            assert(sb.subset_of(sa.remove(x)));
            vstd::set_lib::lemma_len_subset(sb, sa.remove(x));
            assert(false);
        }
        let y = choose|y: Record| sb.contains(y) && !sa.contains(y);
        assert(b.contains(y) && !a.contains(y));
        let j = choose|j: int| 0 <= j < b.len() && b[j] == y;
        assert(stored(records, b[j]));
        assert(records.dom().contains(y.id));
        assert(record_less(y, a[i]));
        assert(record_less(x, b[j]));
        lemma_less_transitive(x, y, x);
        lemma_less_irreflexive(x);
    }
}

/// What is shown is determined: two lists of the latest wanted records are equal.
pub proof fn latest_is_unique(
    records: Map<Seq<char>, Record>,
    wanted: Wanted,
    limit: nat,
    a: Seq<Record>,
    b: Seq<Record>,
)
    requires
        is_latest(records, wanted, limit, a),
        is_latest(records, wanted, limit, b),
    ensures
        a == b,
{
    assert forall|x: Record| #[trigger] a.contains(x) == b.contains(x) by {
        if a.contains(x) {
            lemma_latest_within(records, wanted, limit, a, b, x);
        }
        if b.contains(x) {
            lemma_latest_within(records, wanted, limit, b, a, x);
        }
    }
    lemma_same_members(a, b);
}

/// The record under `id` is shown in a view.
pub open spec fn shown_in(
    records: Map<Seq<char>, Record>,
    wanted: Wanted,
    limit: nat,
    id: Seq<char>,
) -> bool {
    exists|list: Seq<Record>| #[trigger]
        is_latest(records, wanted, limit, list) && list.contains(records[id])
}

/// The messages of a pane, whenever requested.
pub open spec fn pane_view(pane_id: Seq<char>) -> Wanted {
    Wanted::Pane { pane_id, since_ms: None }
}

/// The record under `id` is shown somewhere: among the operations, in the full log, or with a
/// pane.
pub open spec fn shown(records: Map<Seq<char>, Record>, id: Seq<char>) -> bool {
    &&& records.dom().contains(id)
    &&& {
        ||| shown_in(records, Wanted::Operations, OPERATION_LIMIT as nat, id)
        ||| shown_in(records, Wanted::Log, FULL_LOG_LIMIT as nat, id)
        ||| exists|pane: Seq<char>| #[trigger]
            shown_in(records, pane_view(pane), PER_PANE_LIMIT as nat, id)
    }
}

/// `after` holds exactly the records that are shown somewhere.
pub open spec fn compacted(
    before: Map<Seq<char>, Record>,
    after: Map<Seq<char>, Record>,
) -> bool {
    &&& after.submap_of(before)
    &&& forall|id: Seq<char>| #[trigger] after.dom().contains(id) == shown(before, id)
}

impl RecordStore {
    /// Add the records of a view to `out`.
    fn add_all(&self, list: &Vec<ActionRecord>, out: &mut RecordStore)
        requires
            self.wf(),
            old(out).wf(),
            old(out)@.submap_of(self@),
            forall|i: int|
                0 <= i < list@.len() ==> (#[trigger] list@[i]).wf() && stored(
                    self@,
                    list@[i]@,
                ),
        ensures
            final(out).wf(),
            final(out)@.submap_of(self@),
            forall|id: Seq<char>| #[trigger]
                final(out)@.dom().contains(id) == (old(out)@.dom().contains(id)
                    || (self@.dom().contains(id) && record_views(list@).contains(self@[id]))),
    {
        let ghost all = record_views(list@);
        let ghost start = out@;
        let mut i: usize = 0;
        while i < list.len()
            invariant
                i <= list@.len(),
                all == record_views(list@),
                self.wf(),
                out.wf(),
                out@.submap_of(self@),
                forall|j: int|
                    0 <= j < list@.len() ==> (#[trigger] list@[j]).wf() && stored(
                        self@,
                        list@[j]@,
                    ),
                forall|id: Seq<char>| #[trigger]
                    out@.dom().contains(id) == (start.dom().contains(id) || (self@.dom().contains(
                        id,
                    ) && all.take(i as int).contains(self@[id]))),
            decreases list@.len() - i,
        {
            let ghost before = out@;
            let ghost record = list@[i as int]@;
            proof {
                assert(all[i as int] == record);
                assert(stored(self@, record));
                take_contains(all, i as int);
            }
            out.upsert(list[i].copy());
            proof {
                assert(out@ =~= before.insert(record.id, record));
                assert forall|id: Seq<char>| #[trigger]
                    out@.dom().contains(id) == (start.dom().contains(id) || (self@.dom().contains(
                        id,
                    ) && all.take(i as int + 1).contains(self@[id]))) by {
                    if id == record.id {
                        assert(self@[id] == record);
                    } else if self@.dom().contains(id) && self@[id] == record {
                        assert(self@[id].id == id);
                    }
                    assert(before.dom().contains(id) == (start.dom().contains(id) || (
                    self@.dom().contains(id) && all.take(i as int).contains(self@[id]))));
                }
            }
            i += 1;
        }
        assert(all.take(all.len() as int) =~= all);
    }

    /// What is kept when the log is rewritten: the records that are shown somewhere.
    pub fn compact(&self) -> (r: RecordStore)
        requires
            self.wf(),
        ensures
            r.wf(),
            compacted(self@, r@),
    {
        let ghost store = self@;
        let mut out = RecordStore::new();
        let operations = self.operations();
        let log = self.full_log();
        let ghost ops = record_views(operations@);
        let ghost lines = record_views(log@);
        proof {
            assert forall|i: int| 0 <= i < operations@.len() implies stored(
                store,
                (#[trigger] operations@[i])@,
            ) by {
                assert(ops[i] == operations@[i]@);
            }
            assert forall|i: int| 0 <= i < log@.len() implies stored(
                store,
                (#[trigger] log@[i])@,
            ) by {
                assert(lines[i] == log@[i]@);
            }
        }
        self.add_all(&operations, &mut out);
        self.add_all(&log, &mut out);
        let everything = self.sorted_records();
        let ghost all = record_views(everything@);
        let mut i: usize = 0;
        assert forall|id: Seq<char>| #[trigger] out@.dom().contains(id) implies shown(store, id) by {
            if ops.contains(store[id]) {
                assert(is_latest(store, Wanted::Operations, OPERATION_LIMIT as nat, ops));
            }
            if lines.contains(store[id]) {
                assert(is_latest(store, Wanted::Log, FULL_LOG_LIMIT as nat, lines));
            }
        }
        while i < everything.len()
            invariant
                i <= everything@.len(),
                all == record_views(everything@),
                is_listing(store, Wanted::All, all),
                store == self@,
                self.wf(),
                out.wf(),
                out@.submap_of(store),
                forall|id: Seq<char>| #[trigger] out@.dom().contains(id) ==> shown(store, id),
                forall|id: Seq<char>|
                    store.dom().contains(id) && (ops.contains(store[id]) || lines.contains(
                        store[id],
                    )) ==> #[trigger] out@.dom().contains(id),
                forall|a: int, pane: Seq<char>, list: Seq<Record>, id: Seq<char>|
                    #![trigger all[a].target.pane_ids.contains(pane), is_latest(store, pane_view(pane), PER_PANE_LIMIT as nat, list), out@.dom().contains(id)]
                    0 <= a < i && all[a].target.pane_ids.contains(pane) && is_latest(
                        store,
                        pane_view(pane),
                        PER_PANE_LIMIT as nat,
                        list,
                    ) && store.dom().contains(id) && list.contains(store[id])
                        ==> out@.dom().contains(id),
            decreases everything@.len() - i,
        {
            let panes = &everything[i].target.pane_ids;
            let ghost aims = views(panes@);
            assert(all[i as int].target.pane_ids == aims) by {
                assert(all[i as int] == everything@[i as int]@);
            }
            let mut k: usize = 0;
            while k < panes.len()
                invariant
                    i < everything@.len(),
                    k <= panes@.len(),
                    aims == views(panes@),
                    all[i as int].target.pane_ids == aims,
                    all == record_views(everything@),
                    store == self@,
                    self.wf(),
                    out.wf(),
                    out@.submap_of(store),
                    forall|id: Seq<char>| #[trigger] out@.dom().contains(id) ==> shown(store, id),
                    forall|id: Seq<char>|
                        store.dom().contains(id) && (ops.contains(store[id]) || lines.contains(
                            store[id],
                        )) ==> #[trigger] out@.dom().contains(id),
                    forall|a: int, pane: Seq<char>, list: Seq<Record>, id: Seq<char>|
                        #![trigger all[a].target.pane_ids.contains(pane), is_latest(store, pane_view(pane), PER_PANE_LIMIT as nat, list), out@.dom().contains(id)]
                        0 <= a < i && all[a].target.pane_ids.contains(pane) && is_latest(
                            store,
                            pane_view(pane),
                            PER_PANE_LIMIT as nat,
                            list,
                        ) && store.dom().contains(id) && list.contains(store[id])
                            ==> out@.dom().contains(id),
                    forall|b: int, list: Seq<Record>, id: Seq<char>|
                        #![trigger aims[b], is_latest(store, pane_view(aims[b]), PER_PANE_LIMIT as nat, list), out@.dom().contains(id)]
                        0 <= b < k && is_latest(
                            store,
                            pane_view(aims[b]),
                            PER_PANE_LIMIT as nat,
                            list,
                        ) && store.dom().contains(id) && list.contains(store[id])
                            ==> out@.dom().contains(id),
                decreases panes@.len() - k,
            {
                let ghost pane = aims[k as int];
                let ghost before = out@;
                assert(pane == panes@[k as int]@);
                let messages = self.records_for_pane(panes[k].as_str());
                let ghost list = record_views(messages@);
                proof {
                    assert(is_latest(store, pane_view(pane), PER_PANE_LIMIT as nat, list));
                    assert forall|j: int| 0 <= j < messages@.len() implies stored(
                        store,
                        (#[trigger] messages@[j])@,
                    ) by {
                        assert(list[j] == messages@[j]@);
                    }
                }
                self.add_all(&messages, &mut out);
                proof {
                    assert forall|id: Seq<char>| #[trigger] out@.dom().contains(id) implies shown(
                        store,
                        id,
                    ) by {
                        if !before.dom().contains(id) {
                            assert(list.contains(store[id]));
                            assert(shown_in(store, pane_view(pane), PER_PANE_LIMIT as nat, id));
                        }
                    }
                    assert forall|id: Seq<char>| before.dom().contains(id) implies #[trigger]
                    out@.dom().contains(id) by {}
                    assert forall|b: int, other: Seq<Record>, id: Seq<char>|
                        #![trigger aims[b], is_latest(store, pane_view(aims[b]), PER_PANE_LIMIT as nat, other), out@.dom().contains(id)]
                        0 <= b < k + 1 && is_latest(
                            store,
                            pane_view(aims[b]),
                            PER_PANE_LIMIT as nat,
                            other,
                        ) && store.dom().contains(id) && other.contains(store[id]) implies
                        out@.dom().contains(id) by {
                        if b == k {
                            latest_is_unique(
                                store,
                                pane_view(pane),
                                PER_PANE_LIMIT as nat,
                                list,
                                other,
                            );
                        } else {
                            assert(before.dom().contains(id));
                        }
                    }
                    assert forall|a: int, p: Seq<char>, other: Seq<Record>, id: Seq<char>|
                        #![trigger all[a].target.pane_ids.contains(p), is_latest(store, pane_view(p), PER_PANE_LIMIT as nat, other), out@.dom().contains(id)]
                        0 <= a < i && all[a].target.pane_ids.contains(p) && is_latest(
                            store,
                            pane_view(p),
                            PER_PANE_LIMIT as nat,
                            other,
                        ) && store.dom().contains(id) && other.contains(store[id]) implies
                        out@.dom().contains(id) by {
                        assert(before.dom().contains(id));
                    }
                    assert forall|id: Seq<char>|
                        store.dom().contains(id) && (ops.contains(store[id]) || lines.contains(
                            store[id],
                        )) implies #[trigger] out@.dom().contains(id) by {
                        assert(before.dom().contains(id));
                    }
                }
                k += 1;
            }
            proof {
                assert forall|a: int, pane: Seq<char>, list: Seq<Record>, id: Seq<char>|
                    #![trigger all[a].target.pane_ids.contains(pane), is_latest(store, pane_view(pane), PER_PANE_LIMIT as nat, list), out@.dom().contains(id)]
                    0 <= a < i + 1 && all[a].target.pane_ids.contains(pane) && is_latest(
                        store,
                        pane_view(pane),
                        PER_PANE_LIMIT as nat,
                        list,
                    ) && store.dom().contains(id) && list.contains(store[id]) implies
                    out@.dom().contains(id) by {
                    if a == i {
                        let b = choose|b: int| 0 <= b < aims.len() && aims[b] == pane;
                        assert(is_latest(
                            store,
                            pane_view(aims[b]),
                            PER_PANE_LIMIT as nat,
                            list,
                        ));
                    }
                }
            }
            i += 1;
        }
        proof {
            assert forall|id: Seq<char>| #[trigger] out@.dom().contains(id) == shown(
                store,
                id,
            ) by {
                if shown(store, id) {
                    if shown_in(store, Wanted::Operations, OPERATION_LIMIT as nat, id) {
                        let list = choose|list: Seq<Record>| #[trigger]
                            is_latest(store, Wanted::Operations, OPERATION_LIMIT as nat, list)
                                && list.contains(store[id]);
                        latest_is_unique(
                            store,
                            Wanted::Operations,
                            OPERATION_LIMIT as nat,
                            list,
                            ops,
                        );
                    } else if shown_in(store, Wanted::Log, FULL_LOG_LIMIT as nat, id) {
                        let list = choose|list: Seq<Record>| #[trigger]
                            is_latest(store, Wanted::Log, FULL_LOG_LIMIT as nat, list)
                                && list.contains(store[id]);
                        latest_is_unique(store, Wanted::Log, FULL_LOG_LIMIT as nat, list, lines);
                    } else {
                        let pane = choose|pane: Seq<char>| #[trigger]
                            shown_in(store, pane_view(pane), PER_PANE_LIMIT as nat, id);
                        let list = choose|list: Seq<Record>| #[trigger]
                            is_latest(store, pane_view(pane), PER_PANE_LIMIT as nat, list)
                                && list.contains(store[id]);
                        let m = choose|m: int| 0 <= m < list.len() && list[m] == store[id];
                        assert(pane_view(pane).wants(list[m]));
                        assert(all.contains(store[id]));
                        let a = choose|a: int| 0 <= a < all.len() && all[a] == store[id];
                        assert(all[a].target.pane_ids.contains(pane));
                    }
                }
            }
        }
        out
    }
}

proof fn lemma_latest_in_smaller_store(
    before: Map<Seq<char>, Record>,
    after: Map<Seq<char>, Record>,
    wanted: Wanted,
    limit: nat,
    list: Seq<Record>,
)
    requires
        after.submap_of(before),
        is_latest(before, wanted, limit, list),
        forall|i: int| 0 <= i < list.len() ==> after.dom().contains((#[trigger] list[i]).id),
    ensures
        is_latest(after, wanted, limit, list),
{
    assert forall|i: int| 0 <= i < list.len() implies stored(after, #[trigger] list[i])
        && wanted.wants(list[i]) by {
        assert(stored(before, list[i]));
    }
    assert forall|id: Seq<char>| #[trigger]
        after.dom().contains(id) && wanted.wants(after[id]) && !list.contains(
            after[id],
        ) implies list.len() == limit && forall|i: int|
        0 <= i < list.len() ==> record_less(after[id], #[trigger] list[i]) by {
        assert(before.dom().contains(id));
        assert(before[id] == after[id]);
    }
}

/// Rewriting the log changes nothing that is shown: operations, the full log and the messages
/// of every pane stay the same.
pub proof fn compaction_keeps_what_is_shown(
    before: Map<Seq<char>, Record>,
    after: Map<Seq<char>, Record>,
    operations: Seq<Record>,
    log: Seq<Record>,
    pane: Seq<char>,
    messages: Seq<Record>,
)
    requires
        compacted(before, after),
        is_latest(before, Wanted::Operations, OPERATION_LIMIT as nat, operations),
        is_latest(before, Wanted::Log, FULL_LOG_LIMIT as nat, log),
        is_latest(before, pane_view(pane), PER_PANE_LIMIT as nat, messages),
    ensures
        is_latest(after, Wanted::Operations, OPERATION_LIMIT as nat, operations),
        is_latest(after, Wanted::Log, FULL_LOG_LIMIT as nat, log),
        is_latest(after, pane_view(pane), PER_PANE_LIMIT as nat, messages),
{
    assert forall|i: int| 0 <= i < operations.len() implies after.dom().contains(
        (#[trigger] operations[i]).id,
    ) by {
        let id = operations[i].id;
        assert(stored(before, operations[i]));
        assert(operations.contains(before[id]));
        assert(shown_in(before, Wanted::Operations, OPERATION_LIMIT as nat, id));
        assert(shown(before, id));
    }
    assert forall|i: int| 0 <= i < log.len() implies after.dom().contains(
        (#[trigger] log[i]).id,
    ) by {
        let id = log[i].id;
        assert(stored(before, log[i]));
        assert(log.contains(before[id]));
        assert(shown_in(before, Wanted::Log, FULL_LOG_LIMIT as nat, id));
        assert(shown(before, id));
    }
    assert forall|i: int| 0 <= i < messages.len() implies after.dom().contains(
        (#[trigger] messages[i]).id,
    ) by {
        let id = messages[i].id;
        assert(stored(before, messages[i]));
        assert(messages.contains(before[id]));
        assert(shown_in(before, pane_view(pane), PER_PANE_LIMIT as nat, id));
        assert(shown(before, id));
    }
    lemma_latest_in_smaller_store(
        before,
        after,
        Wanted::Operations,
        OPERATION_LIMIT as nat,
        operations,
    );
    lemma_latest_in_smaller_store(before, after, Wanted::Log, FULL_LOG_LIMIT as nat, log);
    lemma_latest_in_smaller_store(before, after, pane_view(pane), PER_PANE_LIMIT as nat, messages);
}

/// The messages of a pane since a time are among its messages, so rewriting the log keeps them
/// too.
pub proof fn compaction_keeps_recent_messages(
    before: Map<Seq<char>, Record>,
    after: Map<Seq<char>, Record>,
    pane: Seq<char>,
    since_ms: u64,
    messages: Seq<Record>,
    recent: Seq<Record>,
)
    requires
        keyed_by_id(before),
        compacted(before, after),
        is_latest(before, pane_view(pane), PER_PANE_LIMIT as nat, messages),
        is_latest(
            before,
            Wanted::Pane { pane_id: pane, since_ms: Some(since_ms) },
            PER_PANE_LIMIT as nat,
            recent,
        ),
    ensures
        is_latest(
            after,
            Wanted::Pane { pane_id: pane, since_ms: Some(since_ms) },
            PER_PANE_LIMIT as nat,
            recent,
        ),
{
    let wanted = Wanted::Pane { pane_id: pane, since_ms: Some(since_ms) };
    assert forall|i: int| 0 <= i < recent.len() implies after.dom().contains(
        (#[trigger] recent[i]).id,
    ) by {
        let x = recent[i];
        assert(stored(before, x));
        assert(pane_view(pane).wants(x));
        if !messages.contains(x) {
            assert(before.dom().contains(x.id));
            assert(messages.len() == PER_PANE_LIMIT);
            lemma_order_is_distinct(messages);
            lemma_order_is_distinct(recent);
            messages.unique_seq_to_set();
            recent.unique_seq_to_set();
            let sm = messages.to_set();
            let sr = recent.to_set();
            assert(sr.contains(x)) by {
                assert(recent.contains(x));
            }
            if sm.subset_of(sr) {
                assert(sm.subset_of(sr.remove(x)));
                vstd::set_lib::lemma_len_subset(sm, sr.remove(x));
                assert(false);
            }
            let y = choose|y: Record| sm.contains(y) && !sr.contains(y);
            assert(messages.contains(y) && !recent.contains(y));
            let j = choose|j: int| 0 <= j < messages.len() && messages[j] == y;
            assert(stored(before, messages[j]));
            assert(record_less(x, messages[j]));
            assert(wanted.wants(y));
            assert(before.dom().contains(y.id));
            assert(record_less(y, recent[i]));
            lemma_less_transitive(x, y, x);
            lemma_less_irreflexive(x);
        }
        assert(messages.contains(before[x.id]));
        assert(shown_in(before, pane_view(pane), PER_PANE_LIMIT as nat, x.id));
        assert(shown(before, x.id));
    }
    lemma_latest_in_smaller_store(before, after, wanted, PER_PANE_LIMIT as nat, recent);
}

/// The records after an interruption: what had not come to an end is incomplete.
pub open spec fn after_interruption(records: Map<Seq<char>, Record>, now_ms: u64) -> Map<
    Seq<char>,
    Record,
> {
    records.map_values(
        |record: Record|
            if record.status.open_ended() {
                record.marked(ActionStatus::Incomplete, now_ms)
            } else {
                record
            },
    )
}

impl RecordStore {
    /// Mark what had not come to an end as incomplete. Returns the changed records, which have
    /// to be written to the log.
    pub fn mark_interrupted_incomplete(&mut self, now_ms: u64) -> (r: Vec<ActionRecord>)
        requires
            old(self).wf(),
        ensures
            final(self).wf(),
            final(self)@ == after_interruption(old(self)@, now_ms),
            forall|i: int| 0 <= i < r@.len() ==> (#[trigger] r@[i]).wf(),
            forall|id: Seq<char>| #[trigger]
                old(self)@.dom().contains(id) && old(self)@[id].status.open_ended()
                    ==> record_views(r@).contains(final(self)@[id]),
            forall|i: int|
                0 <= i < r@.len() ==> {
                    let id = (#[trigger] record_views(r@)[i]).id;
                    &&& old(self)@.dom().contains(id)
                    &&& old(self)@[id].status.open_ended()
                    &&& record_views(r@)[i] == final(self)@[id]
                },
            record_views(r@).no_duplicates(),
    {
        let ghost start = self@;
        let ghost goal = after_interruption(start, now_ms);
        let everything = self.sorted_records();
        let ghost all = record_views(everything@);
        let mut changed: Vec<ActionRecord> = Vec::new();
        let mut i: usize = 0;
        while i < everything.len()
            invariant
                i <= everything@.len(),
                all == record_views(everything@),
                start == old(self)@,
                goal == after_interruption(start, now_ms),
                keyed_by_id(start),
                is_listing(start, Wanted::All, all),
                self.wf(),
                forall|j: int|
                    0 <= j < everything@.len() ==> (#[trigger] everything@[j]).wf(),
                self@.dom() =~= start.dom(),
                forall|id: Seq<char>| #[trigger]
                    start.dom().contains(id) ==> self@[id] == (if all.take(i as int).contains(
                        start[id],
                    ) {
                        goal[id]
                    } else {
                        start[id]
                    }),
                forall|j: int| 0 <= j < changed@.len() ==> (#[trigger] changed@[j]).wf(),
                forall|id: Seq<char>| #[trigger]
                    start.dom().contains(id) && start[id].status.open_ended() && all.take(
                        i as int,
                    ).contains(start[id]) ==> record_views(changed@).contains(goal[id]),
                forall|j: int|
                    0 <= j < changed@.len() ==> {
                        let id = (#[trigger] record_views(changed@)[j]).id;
                        &&& start.dom().contains(id)
                        &&& start[id].status.open_ended()
                        &&& record_views(changed@)[j] == goal[id]
                        &&& all.take(i as int).contains(start[id])
                    },
                record_views(changed@).no_duplicates(),
            decreases everything@.len() - i,
        {
            let ghost record = everything@[i as int]@;
            let ghost before = record_views(changed@);
            let ghost held = self@;
            proof {
                assert(all[i as int] == record);
                assert(stored(start, all[i as int]));
                take_contains(all, i as int);
            }
            if everything[i].status.is_open() {
                let mut ended = everything[i].copy();
                ended.mark_incomplete(now_ms);
                assert(ended@ == goal[record.id]);
                self.upsert(ended.copy());
                changed.push(ended);
                proof {
                    assert(record_views(changed@) =~= before.push(goal[record.id]));
                    assert(!before.contains(goal[record.id])) by {
                        if before.contains(goal[record.id]) {
                            let j = choose|j: int|
                                0 <= j < before.len() && before[j] == goal[record.id];
                            assert(before[j].id == record.id);
                            let earlier = all.take(i as int);
                            let k = choose|k: int| 0 <= k < i && earlier[k] == start[record.id];
                            assert(record_less(all[k], all[i as int]));
                            lemma_less_irreflexive(record);
                        }
                    }
                    push_contains(before, goal[record.id]);
                    assert(self@.dom() =~= start.dom());
                }
            }
            proof {
                assert forall|id: Seq<char>| #[trigger] start.dom().contains(id) implies self@[id]
                    == (if all.take(i as int + 1).contains(start[id]) {
                    goal[id]
                } else {
                    start[id]
                }) by {
                    if start[id] == record {
                        assert(start[id].id == id);
                    }
                    assert(held[id] == (if all.take(i as int).contains(start[id]) {
                        goal[id]
                    } else {
                        start[id]
                    }));
                }
                assert forall|id: Seq<char>| #[trigger]
                    start.dom().contains(id) && start[id].status.open_ended() && all.take(
                        i as int + 1,
                    ).contains(start[id]) implies record_views(changed@).contains(goal[id]) by {
                    if start[id] == record {
                        assert(start[id].id == id);
                    }
                }
                assert forall|j: int| 0 <= j < changed@.len() implies {
                    let id = (#[trigger] record_views(changed@)[j]).id;
                    &&& start.dom().contains(id)
                    &&& start[id].status.open_ended()
                    &&& record_views(changed@)[j] == goal[id]
                } by {
                    if j < before.len() {
                        assert(record_views(changed@)[j] == before[j]);
                    }
                }
            }
            i += 1;
        }
        proof {
            assert(all.take(all.len() as int) =~= all);
            assert forall|id: Seq<char>| #[trigger] start.dom().contains(id) implies self@[id]
                == goal[id] by {
                assert(all.contains(start[id]));
            }
            assert(self@ =~= goal);
        }
        changed
    }
}

/// After an interruption nothing waits: every action has come to an end.
pub proof fn nothing_waits_after_interruption(
    records: Map<Seq<char>, Record>,
    now_ms: u64,
    id: Seq<char>,
)
    requires
        records.dom().contains(id),
    ensures
        !after_interruption(records, now_ms)[id].status.open_ended(),
        !records[id].status.open_ended() ==> after_interruption(records, now_ms)[id]
            == records[id],
{
}

/// The last line of an id stands: whatever was logged before under it is gone.
pub proof fn last_line_stands(
    records: Map<Seq<char>, Record>,
    earlier: Record,
    later: Record,
)
    requires
        earlier.id == later.id,
    ensures
        records.insert(earlier.id, earlier).insert(later.id, later) == records.insert(
            later.id,
            later,
        ),
{
    assert(records.insert(earlier.id, earlier).insert(later.id, later) =~= records.insert(
        later.id,
        later,
    ));
}

/// What is known after these lines of the log, one after the other.
pub open spec fn replayed(records: Map<Seq<char>, Record>, log: Seq<Record>) -> Map<
    Seq<char>,
    Record,
>
    decreases log.len(),
{
    if log.len() == 0 {
        records
    } else {
        with_line(replayed(records, log.drop_last()), log.last())
    }
}

/// A record that was taken in is there again once the log is read: writing it as one more line
/// and reading the log gives what taking it in gave.
pub proof fn written_record_is_read_back(
    records: Map<Seq<char>, Record>,
    log: Seq<Record>,
    record: Record,
)
    requires
        record.schema_version == ACTION_SCHEMA_VERSION,
    ensures
        replayed(records, log.push(record)) == replayed(records, log).insert(record.id, record),
{
    assert(log.push(record).drop_last() =~= log);
}

proof fn lemma_replayed(records: Map<Seq<char>, Record>, log: Seq<Record>)
    requires
        forall|i: int|
            0 <= i < log.len() ==> stored(records, #[trigger] log[i]) && log[i].schema_version
                == ACTION_SCHEMA_VERSION,
    ensures
        replayed(Map::empty(), log).submap_of(records),
        forall|i: int|
            0 <= i < log.len() ==> replayed(Map::empty(), log).dom().contains(
                (#[trigger] log[i]).id,
            ),
    decreases log.len(),
{
    if log.len() > 0 {
        let before = log.drop_last();
        assert forall|i: int| 0 <= i < before.len() implies stored(records, #[trigger] before[i])
            && before[i].schema_version == ACTION_SCHEMA_VERSION by {
            assert(before[i] == log[i]);
        }
        lemma_replayed(records, before);
        assert(stored(records, log.last()));
        assert forall|i: int| 0 <= i < log.len() implies replayed(Map::empty(), log).dom().contains(
            (#[trigger] log[i]).id,
        ) by {
            if i < before.len() {
                assert(before[i] == log[i]);
            }
        }
    }
}

/// A rewritten log gives back the records that it was written from.
pub proof fn rewritten_log_is_read_back(records: Map<Seq<char>, Record>, log: Seq<Record>)
    requires
        keyed_by_id(records),
        forall|id: Seq<char>| #[trigger]
            records.dom().contains(id) ==> records[id].schema_version == ACTION_SCHEMA_VERSION,
        is_listing(records, Wanted::All, log),
    ensures
        replayed(Map::empty(), log) == records,
{
    assert forall|i: int| 0 <= i < log.len() implies stored(records, #[trigger] log[i])
        && log[i].schema_version == ACTION_SCHEMA_VERSION by {
        assert(records.dom().contains(log[i].id));
    }
    lemma_replayed(records, log);
    let known = replayed(Map::empty(), log);
    assert forall|id: Seq<char>| #[trigger] records.dom().contains(id) implies known.dom().contains(
        id,
    ) by {
        assert(log.contains(records[id]));
        let i = choose|i: int| 0 <= i < log.len() && log[i] == records[id];
        assert(known.dom().contains(log[i].id));
    }
    assert(known =~= records);
}

/// Whether the log has grown so long that it is rewritten.
pub fn should_compact(log_bytes: u64) -> (r: bool)
    ensures
        r == (log_bytes > COMPACT_AT_BYTES),
{
    log_bytes > COMPACT_AT_BYTES
}

/// Lines of bytes, each followed by a newline.
pub open spec fn framed(lines: Seq<Seq<u8>>) -> Seq<u8>
    decreases lines.len(),
{
    if lines.len() == 0 {
        Seq::empty()
    } else {
        framed(lines.drop_last()) + lines.last() + seq![10u8]
    }
}

/// The bytes of each line.
pub open spec fn line_bytes(lines: Seq<Vec<u8>>) -> Seq<Seq<u8>> {
    Seq::new(lines.len(), |i: int| lines[i]@)
}

/// A line holds no newline.
pub open spec fn is_line(line: Seq<u8>) -> bool {
    !line.contains(10u8)
}

/// The lines of a log that ends with a newline; none where its last line was cut off.
pub fn complete_lines(bytes: &Vec<u8>) -> (r: Option<Vec<Vec<u8>>>)
    ensures
        match r {
            Some(lines) => {
                &&& framed(line_bytes(lines@)) == bytes@
                &&& forall|i: int| 0 <= i < lines@.len() ==> is_line((#[trigger] lines@[i])@)
            },
            None => bytes@.len() > 0 && bytes@.last() != 10u8,
        },
{
    let mut lines: Vec<Vec<u8>> = Vec::new();
    let mut current: Vec<u8> = Vec::new();
    let mut i: usize = 0;
    assert(framed(line_bytes(lines@)) + current@ =~= bytes@.take(0));
    while i < bytes.len()
        invariant
            i <= bytes@.len(),
            framed(line_bytes(lines@)) + current@ == bytes@.take(i as int),
            is_line(current@),
            current@.len() > 0 ==> i > 0 && bytes@[i - 1] != 10u8,
            forall|j: int| 0 <= j < lines@.len() ==> is_line((#[trigger] lines@[j])@),
        decreases bytes@.len() - i,
    {
        let b: u8 = bytes[i];
        let ghost done = line_bytes(lines@);
        let ghost part = current@;
        assert(bytes@.take(i as int + 1) =~= bytes@.take(i as int).push(b));
        if b == 10u8 {
            lines.push(current);
            current = Vec::new();
            proof {
                let all = line_bytes(lines@);
                assert(all.drop_last() =~= done);
                assert(all.last() == part);
                assert(framed(all) + current@ =~= (framed(done) + part).push(b));
            }
        } else {
            current.push(b);
            proof {
                assert(framed(done) + current@ =~= (framed(done) + part).push(b));
                push_contains(part, b);
            }
        }
        i += 1;
    }
    assert(bytes@.take(bytes@.len() as int) =~= bytes@);
    if current.len() > 0 {
        None
    } else {
        assert(framed(line_bytes(lines@)) + current@ =~= framed(line_bytes(lines@)));
        Some(lines)
    }
}

/// A log is whole when every one of its lines is a record of the current layout; `versions`
/// gives the layout of each line, none where it is no record.
pub fn all_current(versions: &Vec<Option<u32>>) -> (r: bool)
    ensures
        r == forall|i: int|
            0 <= i < versions@.len() ==> #[trigger] versions@[i] == Some(ACTION_SCHEMA_VERSION),
{
    let mut i: usize = 0;
    while i < versions.len()
        invariant
            i <= versions@.len(),
            forall|j: int|
                0 <= j < i ==> #[trigger] versions@[j] == Some(ACTION_SCHEMA_VERSION),
        decreases versions@.len() - i,
    {
        let current = match versions[i] {
            Some(version) => version == ACTION_SCHEMA_VERSION,
            None => false,
        };
        if !current {
            assert(versions@[i as int] != Some(ACTION_SCHEMA_VERSION));
            return false;
        }
        i += 1;
    }
    true
}

/// What to do about files that an interrupted rewrite left behind.
#[derive(Debug, Clone, Copy, PartialEq, Eq, Structural)]
pub enum CompactionRecovery {
    /// The log is there: remove whatever else is.
    RemoveLeftovers,
    /// The new log was finished: put it in place and remove the backup.
    UseTemporary,
    /// The old log is all there is: put it back and remove the unfinished one.
    UseBackup,
    /// Neither is whole.
    Fail,
    /// There is nothing.
    Nothing,
}

/// What to do about files that an interrupted rewrite left behind. `temporary` and `backup` say
/// whether these files are whole; none where there is no such file.
pub fn recover_compaction(log_exists: bool, temporary: Option<bool>, backup: Option<bool>) -> (r:
    CompactionRecovery)
    ensures
        r == (if log_exists {
            CompactionRecovery::RemoveLeftovers
        } else if temporary == Some(true) {
            CompactionRecovery::UseTemporary
        } else if backup == Some(true) {
            CompactionRecovery::UseBackup
        } else if temporary is Some || backup is Some {
            CompactionRecovery::Fail
        } else {
            CompactionRecovery::Nothing
        }),
{
    if log_exists {
        return CompactionRecovery::RemoveLeftovers;
    }
    match (temporary, backup) {
        (Some(true), _) => CompactionRecovery::UseTemporary,
        (_, Some(true)) => CompactionRecovery::UseBackup,
        (None, None) => CompactionRecovery::Nothing,
        _ => CompactionRecovery::Fail,
    }
}

/// Whether a newline has to be added to a log whose last line was cut off.
pub fn needs_newline(last_byte: Option<u8>) -> (r: bool)
    ensures
        r == (last_byte is Some && last_byte != Some(10u8)),
{
    match last_byte {
        Some(b) => b != 10u8,
        None => false,
    }
}

} // verus!
