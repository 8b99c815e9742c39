//! The hub of the web console: the approval gate with its pending approvals, typed input, and the
//! commands that were sent from the console.
//!
//! The hub decides and remembers; the caller writes records to the log. An operation that
//! changes a record hands it out to be written, and [`HubState::upsert`] takes it in once it is.

use crate::commands::CommandEventKind;
use crate::control::{
    ActionRecord, ActionStatus, Argument, ArgumentValue, Arguments, Args, GateDecision, Record,
};
use crate::ids::{fresh_id, is_hyphenated};
use crate::keyed::Keyed;
use crate::store::{
    is_latest, is_listing, record_views, RecordStore, Wanted, FULL_LOG_LIMIT, OPERATION_LIMIT,
    PER_PANE_LIMIT,
};
use crate::text::{from_range, or_empty, opt_or_empty, same, to_chars};
use crate::types::{CommandExecution, CommandSnapshot, CommandStatus, Execution};
use vstd::prelude::*;

verus! {

/// Source of records for what is done on the web console.
pub const HUMAN_SOURCE: &'static str = "你";

/// Input that is typed into a pane, as one record.
#[derive(Debug, Clone, PartialEq, Eq)]
struct HumanGroup {
    id: String,
    pane_id: String,
}

/// State of the hub.
#[verifier::ext_equal]
pub struct Hub {
    /// The latest record of each action, by id.
    pub records: Map<Seq<char>, Record>,
    /// Actions that wait for approval, by id.
    pub pending: Map<Seq<char>, Record>,
    /// Record and pane of the input that is being typed.
    pub typing: Option<(Seq<char>, Seq<char>)>,
    /// Commands sent from the console, by command id.
    pub web_commands: Map<Seq<char>, Record>,
}

/// What the hub knows and waits for.
#[derive(Debug, Clone)]
pub struct HubState {
    store: RecordStore,
    pending: RecordStore,
    last_human: Option<HumanGroup>,
    web_commands: Keyed<ActionRecord>,
}

impl View for HubState {
    type V = Hub;

    closed spec fn view(&self) -> Hub {
        Hub {
            records: self.store@,
            pending: self.pending@,
            typing: match self.last_human {
                Some(group) => Some((group.id@, group.pane_id@)),
                None => None,
            },
            web_commands: self.web_commands@,
        }
    }
}

impl Hub {
    /// A request for authorization has come in. While the approval gate is off it is approved at
    /// once; else it waits.
    pub open spec fn asked(self, record: Record, gate_enabled: bool, now_ms: u64) -> (
        Hub,
        Record,
        Option<GateDecision>,
    ) {
        if gate_enabled {
            let waiting = record.marked(ActionStatus::WaitingApproval, now_ms);
            (Hub { pending: self.pending.insert(record.id, waiting), ..self }, waiting, None)
        } else {
            (self, record.marked(ActionStatus::Approved, now_ms), Some(GateDecision::Approved))
        }
    }

    /// What becomes of a record that is decided upon; where nobody waits for the decision any
    /// more, the action is incomplete.
    pub open spec fn decided(
        record: Record,
        decision: GateDecision,
        waiting: bool,
        now_ms: u64,
    ) -> Record {
        if !waiting {
            record.marked(ActionStatus::Incomplete, now_ms)
        } else {
            match decision {
                GateDecision::Approved => record.marked(ActionStatus::Approved, now_ms),
                GateDecision::Rejected => record.marked(ActionStatus::Rejected, now_ms),
            }
        }
    }

    /// The text of typed input after one more key.
    pub open spec fn typed(text: Seq<char>, key: Seq<char>, literal: bool) -> Seq<char> {
        if literal {
            text + key
        } else if key == "Enter"@ {
            text.push('\n')
        } else if key == "BSpace"@ {
            if text.len() > 0 {
                text.drop_last()
            } else {
                text
            }
        } else {
            text + key
        }
    }

    /// The record that input into a pane goes on with, if it does.
    pub open spec fn continued(self, pane_id: Seq<char>) -> Option<Record> {
        match self.typing {
            Some((id, pane)) => if pane == pane_id && self.records.dom().contains(id) {
                Some(self.records[id])
            } else {
                None
            },
            None => None,
        }
    }

    /// A record for input into a pane, with nothing typed yet.
    pub open spec fn fresh_input(
        id: Seq<char>,
        pane_id: Seq<char>,
        literal: bool,
        at_ms: u64,
    ) -> Record {
        Record::fresh(
            id,
            "你"@,
            "web-input"@,
            Args::Named(Map::empty()).with("paneId"@, Argument::Text(pane_id)).with(
                "text"@,
                Argument::Text(Seq::empty()),
            ).with("literal"@, Argument::Encoded(literal_text(literal))),
            at_ms,
        )
    }

    /// The record of typed input after one more key.
    pub open spec fn with_key(record: Record, key: Seq<char>, literal: bool, at_ms: u64) -> Record {
        let text = Hub::typed(or_empty(record.arguments.text("text"@)), key, literal);
        Record {
            arguments: record.arguments.with("text"@, Argument::Text(text)).with(
                "literal"@,
                Argument::Encoded(literal_text(literal)),
            ),
            ..record
        }.ended(ActionStatus::Completed, None, at_ms)
    }
}

/// A truth value as JSON text.
pub open spec fn literal_text(literal: bool) -> Seq<char> {
    if literal {
        "true"@
    } else {
        "false"@
    }
}

fn encode_bool(value: bool) -> (r: String)
    ensures
        r@ == literal_text(value),
{
    if value {
        "true".to_owned()
    } else {
        "false".to_owned()
    }
}

fn type_key(text: &str, key: &str, literal: bool) -> (r: String)
    ensures
        r@ == Hub::typed(text@, key@, literal),
{
    if literal {
        text.to_owned().concat(key)
    } else if same(key, "Enter") {
        let mut r = text.to_owned();
        r.push('\n');
        r
    } else if same(key, "BSpace") {
        let chars = to_chars(text);
        if chars.len() == 0 {
            text.to_owned()
        } else {
            let r = from_range(&chars, 0, chars.len() - 1);
            assert(r@ =~= text@.drop_last());
            r
        }
    } else {
        text.to_owned().concat(key)
    }
}

/// These records, approved.
pub open spec fn all_approved(records: Seq<Record>, now_ms: u64) -> Seq<Record> {
    Seq::new(records.len(), |i: int| records[i].marked(ActionStatus::Approved, now_ms))
}

/// What to do about a command of the console, given its record in the tracker.
#[derive(Debug, Clone, Copy, PartialEq, Eq, Structural)]
pub enum Reconciliation {
    /// The tracker does not know it any more.
    ForgetMissing,
    /// It is not over.
    Keep,
    /// It is over: record its end, and forget it where its output is final.
    Complete { forget: bool },
}

/// What to do about a command, given its record in the tracker.
pub open spec fn reconciled(exec: Option<Execution>) -> Reconciliation {
    match exec {
        None => Reconciliation::ForgetMissing,
        Some(e) => if !e.status.terminal() {
            Reconciliation::Keep
        } else {
            Reconciliation::Complete { forget: e.output is Some || !e.output_truncated }
        },
    }
}

/// What to do about a command, given its record in the tracker.
pub fn reconcile_command(exec: Option<&CommandExecution>) -> (r: Reconciliation)
    ensures
        r == reconciled(
            match exec {
                Some(e) => Some(e@),
                None => None,
            },
        ),
{
    match exec {
        None => Reconciliation::ForgetMissing,
        Some(e) => if !e.status.is_terminal() {
            Reconciliation::Keep
        } else {
            Reconciliation::Complete { forget: e.output.is_some() || !e.output_truncated }
        },
    }
}

/// What to do about an event of the tracker.
#[derive(Debug, Clone, Copy, PartialEq, Eq, Structural)]
pub enum EventReaction {
    Ignore,
    /// Record the end of the command, and forget it where so told.
    Record { forget: bool },
    Forget,
}

/// What to do about an event of the tracker.
pub fn react_to_event(kind: CommandEventKind, status: CommandStatus) -> (r: EventReaction)
    ensures
        r == (match kind {
            CommandEventKind::Terminal => EventReaction::Record { forget: false },
            CommandEventKind::Updated => if status.terminal() {
                EventReaction::Record { forget: true }
            } else {
                EventReaction::Ignore
            },
            CommandEventKind::Evicted => EventReaction::Forget,
            CommandEventKind::Created => EventReaction::Ignore,
        }),
{
    match kind {
        CommandEventKind::Terminal => EventReaction::Record { forget: false },
        CommandEventKind::Updated => if status.is_terminal() {
            EventReaction::Record { forget: true }
        } else {
            EventReaction::Ignore
        },
        CommandEventKind::Evicted => EventReaction::Forget,
        CommandEventKind::Created => EventReaction::Ignore,
    }
}

impl HubState {
    /// Records are stored under their ids, and their arguments are well formed.
    pub closed spec fn wf(&self) -> bool {
        &&& self.store.wf()
        &&& self.pending.wf()
        &&& self.web_commands.wf()
        &&& self.web_commands.all_values(|record: ActionRecord| record.wf())
    }

    /// The hub over the records of a log.
    pub fn open(store: RecordStore) -> (r: Self)
        requires
            store.wf(),
        ensures
            r.wf(),
            r@ == (Hub {
                records: store@,
                pending: Map::empty(),
                typing: None,
                web_commands: Map::empty(),
            }),
    {
        HubState {
            store,
            pending: RecordStore::new(),
            last_human: None,
            web_commands: Keyed::new(),
        }
    }

    /// The records.
    pub fn store(&self) -> (r: &RecordStore)
        requires
            self.wf(),
        ensures
            r.wf(),
            r@ == self@.records,
    {
        &self.store
    }

    /// Replace the records, after the log was rewritten.
    pub fn replace_store(&mut self, store: RecordStore)
        requires
            old(self).wf(),
            store.wf(),
        ensures
            final(self).wf(),
            final(self)@ == (Hub { records: store@, ..old(self)@ }),
    {
        self.store = store;
    }

    /// Take in a record that was written to the log.
    pub fn upsert(&mut self, record: ActionRecord)
        requires
            old(self).wf(),
            record.wf(),
        ensures
            final(self).wf(),
            final(self)@ == (Hub {
                records: old(self)@.records.insert(record.id@, record@),
                ..old(self)@
            }),
    {
        self.store.upsert(record);
    }

    /// A request for authorization has come in. Returns the record to write, and the decision
    /// where there is one at once.
    pub fn authorize(&mut self, record: ActionRecord, gate_enabled: bool, now_ms: u64) -> (r: (
        ActionRecord,
        Option<GateDecision>,
    ))
        requires
            old(self).wf(),
            record.wf(),
        ensures
            final(self).wf(),
            r.0.wf(),
            (final(self)@, r.0@, r.1) == old(self)@.asked(record@, gate_enabled, now_ms),
    {
        let mut record = record;
        if !gate_enabled {
            record.mark_approved(now_ms);
            return (record, Some(GateDecision::Approved));
        }
        record.mark_waiting_approval(now_ms);
        self.pending.upsert(record.copy());
        (record, None)
    }

    /// Someone has decided about a pending action; `waiting` says whether its agent still waits
    /// for the decision. Returns the record to write, and whether the decision counts.
    pub fn decide(&mut self, id: &str, decision: GateDecision, waiting: bool, now_ms: u64) -> (r:
        Option<(ActionRecord, bool)>)
        requires
            old(self).wf(),
        ensures
            final(self).wf(),
            final(self)@ == (Hub { pending: old(self)@.pending.remove(id@), ..old(self)@ }),
            match r {
                Some((record, counts)) => {
                    &&& old(self)@.pending.dom().contains(id@)
                    &&& record.wf()
                    &&& record@ == Hub::decided(
                        old(self)@.pending[id@],
                        decision,
                        waiting,
                        now_ms,
                    )
                    &&& counts == waiting
                },
                None => !old(self)@.pending.dom().contains(id@),
            },
    {
        match self.pending.remove(id) {
            None => None,
            Some(mut record) => {
                if !waiting {
                    record.mark_incomplete(now_ms);
                } else {
                    match decision {
                        GateDecision::Approved => record.mark_approved(now_ms),
                        GateDecision::Rejected => record.mark_rejected(now_ms),
                    }
                }
                Some((record, waiting))
            },
        }
    }

    /// The approval gate was opened: everything that waits is approved. Returns the records to
    /// write.
    pub fn approve_all(&mut self, now_ms: u64) -> (r: Vec<ActionRecord>)
        requires
            old(self).wf(),
        ensures
            final(self).wf(),
            final(self)@ == (Hub { pending: Map::empty(), ..old(self)@ }),
            forall|i: int| 0 <= i < r@.len() ==> (#[trigger] r@[i]).wf(),
            exists|waiting: Seq<Record>| #[trigger]
                is_listing(old(self)@.pending, Wanted::All, waiting) && record_views(r@)
                    == all_approved(waiting, now_ms),
    {
        let waiting = self.pending.sorted_records();
        let ghost all = record_views(waiting@);
        let mut approved: Vec<ActionRecord> = Vec::new();
        let mut i: usize = 0;
        while i < waiting.len()
            invariant
                i <= waiting@.len(),
                all == record_views(waiting@),
                forall|j: int| 0 <= j < waiting@.len() ==> (#[trigger] waiting@[j]).wf(),
                approved@.len() == i,
                forall|j: int|
                    0 <= j < i ==> (#[trigger] approved@[j]).wf() && approved@[j]@
                        == all[j].marked(ActionStatus::Approved, now_ms),
            decreases waiting@.len() - i,
        {
            assert(all[i as int] == waiting@[i as int]@);
            let mut record = waiting[i].copy();
            record.mark_approved(now_ms);
            approved.push(record);
            i += 1;
        }
        self.pending = RecordStore::new();
        assert(record_views(approved@) =~= all_approved(all, now_ms));
        assert(is_listing(old(self)@.pending, Wanted::All, all));
        approved
    }

    /// The agent of a pending action has gone. Returns the record to write.
    pub fn drop_pending(&mut self, id: &str, now_ms: u64) -> (r: Option<ActionRecord>)
        requires
            old(self).wf(),
        ensures
            final(self).wf(),
            final(self)@ == (Hub { pending: old(self)@.pending.remove(id@), ..old(self)@ }),
            match r {
                Some(record) => {
                    &&& old(self)@.pending.dom().contains(id@)
                    &&& record.wf()
                    &&& record@ == old(self)@.pending[id@].marked(ActionStatus::Incomplete, now_ms)
                },
                None => !old(self)@.pending.dom().contains(id@),
            },
    {
        match self.pending.remove(id) {
            None => None,
            Some(mut record) => {
                record.mark_incomplete(now_ms);
                Some(record)
            },
        }
    }

    /// The actions that wait for approval, in the order of their requests.
    pub fn pending(&self) -> (r: Vec<ActionRecord>)
        requires
            self.wf(),
        ensures
            is_listing(self@.pending, Wanted::All, record_views(r@)),
            forall|i: int| 0 <= i < r@.len() ==> (#[trigger] r@[i]).wf(),
    {
        self.pending.sorted_records()
    }

    /// What is shown of a pane: the latest records of what was sent to it or read from it.
    pub fn records_for_pane(&self, pane_id: &str) -> (r: Vec<ActionRecord>)
        requires
            self.wf(),
        ensures
            is_latest(
                self@.records,
                Wanted::Pane { pane_id: pane_id@, since_ms: None },
                PER_PANE_LIMIT as nat,
                record_views(r@),
            ),
            forall|i: int| 0 <= i < r@.len() ==> (#[trigger] r@[i]).wf(),
    {
        self.store.records_for_pane(pane_id)
    }

    /// What is shown of a pane, from a time on.
    pub fn records_for_pane_since(&self, pane_id: &str, minimum_requested_at_ms: Option<u64>) -> (r:
        Vec<ActionRecord>)
        requires
            self.wf(),
        ensures
            is_latest(
                self@.records,
                Wanted::Pane { pane_id: pane_id@, since_ms: minimum_requested_at_ms },
                PER_PANE_LIMIT as nat,
                record_views(r@),
            ),
            forall|i: int| 0 <= i < r@.len() ==> (#[trigger] r@[i]).wf(),
    {
        self.store.records_for_pane_since(pane_id, minimum_requested_at_ms)
    }

    /// The latest operations that are more than readings.
    pub fn operations(&self) -> (r: Vec<ActionRecord>)
        requires
            self.wf(),
        ensures
            is_latest(self@.records, Wanted::Operations, OPERATION_LIMIT as nat, record_views(r@)),
            forall|i: int| 0 <= i < r@.len() ==> (#[trigger] r@[i]).wf(),
    {
        self.store.operations()
    }

    /// The latest records of everything but commands and typed input.
    pub fn full_log(&self) -> (r: Vec<ActionRecord>)
        requires
            self.wf(),
        ensures
            is_latest(self@.records, Wanted::Log, FULL_LOG_LIMIT as nat, record_views(r@)),
            forall|i: int| 0 <= i < r@.len() ==> (#[trigger] r@[i]).wf(),
    {
        self.store.full_log()
    }

    /// Every record, in order.
    pub fn all_records(&self) -> (r: Vec<ActionRecord>)
        requires
            self.wf(),
        ensures
            is_listing(self@.records, Wanted::All, record_views(r@)),
            forall|i: int| 0 <= i < r@.len() ==> (#[trigger] r@[i]).wf(),
    {
        self.store.sorted_records()
    }

    /// The record of input into a pane after one more key: it goes on with the record that is
    /// being typed into that pane, or begins one under the given id.
    pub fn human_input_as(
        &self,
        new_id: String,
        pane_id: &str,
        key: &str,
        literal: bool,
        at_ms: u64,
    ) -> (r: ActionRecord)
        requires
            self.wf(),
        ensures
            r.wf(),
            r@ == Hub::with_key(
                match self@.continued(pane_id@) {
                    Some(record) => record,
                    None => Hub::fresh_input(new_id@, pane_id@, literal, at_ms),
                },
                key@,
                literal,
                at_ms,
            ),
    {
        let mut going_on: Option<ActionRecord> = None;
        if let Some(group) = &self.last_human {
            if same(group.pane_id.as_str(), pane_id) {
                going_on = self.store.get(group.id.as_str());
            }
        }
        let mut record = match going_on {
            Some(record) => record,
            None => {
                let mut arguments = Arguments::none();
                arguments.set("paneId", ArgumentValue::Text(pane_id.to_owned()));
                let empty = String::new();
                assert(empty@ =~= Seq::<char>::empty());
                arguments.set("text", ArgumentValue::Text(empty));
                arguments.set("literal", ArgumentValue::Encoded(encode_bool(literal)));
                ActionRecord::with_id(new_id, "你", "web-input", arguments, at_ms)
            },
        };
        let text = type_key(opt_or_empty(record.arguments.text("text")), key, literal);
        record.arguments.set("text", ArgumentValue::Text(text));
        record.arguments.set("literal", ArgumentValue::Encoded(encode_bool(literal)));
        record.mark_completed(None, at_ms);
        record
    }

    /// The record of input into a pane after one more key, to be written.
    pub fn record_human_input_at(&self, pane_id: &str, key: &str, literal: bool, at_ms: u64) -> (r:
        ActionRecord)
        requires
            self.wf(),
        ensures
            r.wf(),
            match self@.continued(pane_id@) {
                Some(record) => r@ == Hub::with_key(record, key@, literal, at_ms),
                None => {
                    &&& is_hyphenated(r.id@)
                    &&& r@ == Hub::with_key(
                        Hub::fresh_input(r.id@, pane_id@, literal, at_ms),
                        key@,
                        literal,
                        at_ms,
                    )
                },
            },
    {
        let id = fresh_id();
        self.human_input_as(id, pane_id, key, literal, at_ms)
    }

    /// Take in typed input that was written to the log. Enter ends it; other keys go on with it.
    pub fn commit_human_input(
        &mut self,
        record: ActionRecord,
        pane_id: &str,
        key: &str,
        literal: bool,
    )
        requires
            old(self).wf(),
            record.wf(),
        ensures
            final(self).wf(),
            final(self)@ == (Hub {
                records: old(self)@.records.insert(record.id@, record@),
                typing: if !literal && key@ == "Enter"@ {
                    None
                } else {
                    Some((record.id@, pane_id@))
                },
                ..old(self)@
            }),
    {
        let group = if !literal && same(key, "Enter") {
            None
        } else {
            Some(HumanGroup { id: record.id.clone(), pane_id: pane_id.to_owned() })
        };
        self.store.upsert(record);
        self.last_human = group;
    }

    /// Follow a command of the console, once its record was written.
    pub fn track_web_command(&mut self, command_id: String, record: ActionRecord)
        requires
            old(self).wf(),
            record.wf(),
        ensures
            final(self).wf(),
            final(self)@ == (Hub {
                records: old(self)@.records.insert(record.id@, record@),
                web_commands: old(self)@.web_commands.insert(command_id@, record@),
                ..old(self)@
            }),
    {
        self.store.upsert(record.copy());
        self.web_commands.insert(command_id, record);
    }

    /// Note how a command of the console stands. Returns its record, which has to be shortened
    /// where its encoding is too long; none where the command is not followed.
    pub fn update_web_command(&mut self, snapshot: CommandSnapshot, now_ms: u64) -> (r: Option<
        ActionRecord,
    >)
        requires
            old(self).wf(),
        ensures
            final(self).wf(),
            match r {
                Some(record) => {
                    let id = snapshot.command_id@;
                    &&& old(self)@.web_commands.dom().contains(id)
                    &&& record.wf()
                    &&& record@ == old(self)@.web_commands[id].with_command(snapshot@, now_ms)
                    &&& final(self)@ == (Hub {
                        web_commands: old(self)@.web_commands.insert(id, record@),
                        ..old(self)@
                    })
                },
                None => {
                    &&& !old(self)@.web_commands.dom().contains(snapshot.command_id@)
                    &&& final(self)@ == old(self)@
                },
            },
    {
        let id = snapshot.command_id.clone();
        let ghost property = |record: ActionRecord| record.wf();
        let taken = self.web_commands.remove(id.as_str());
        match taken {
            None => {
                assert(self@ =~= old(self)@);
                None
            },
            Some(mut record) => {
                assert(property(record)) by {
                    assert(old(self).web_commands.all_values(property));
                }
                record.mark_command(snapshot, now_ms);
                let r = record.copy();
                self.web_commands.insert(id, record);
                assert(self@.web_commands =~= old(self)@.web_commands.insert(
                    snapshot.command_id@,
                    r@,
                ));
                Some(r)
            },
        }
    }

    /// Shorten the record of a command of the console, whose encoding takes `encoded_len` bytes.
    /// Returns the record to write.
    pub fn limit_web_command(&mut self, command_id: &str, encoded_len: usize) -> (r: Option<
        ActionRecord,
    >)
        requires
            old(self).wf(),
        ensures
            final(self).wf(),
            match r {
                Some(record) => {
                    &&& old(self)@.web_commands.dom().contains(command_id@)
                    &&& record.wf()
                    &&& old(self)@.web_commands[command_id@].limited(encoded_len, record@)
                    &&& final(self)@ == (Hub {
                        web_commands: old(self)@.web_commands.insert(command_id@, record@),
                        ..old(self)@
                    })
                },
                None => {
                    &&& !old(self)@.web_commands.dom().contains(command_id@)
                    &&& final(self)@ == old(self)@
                },
            },
    {
        let ghost property = |record: ActionRecord| record.wf();
        let taken = self.web_commands.remove(command_id);
        match taken {
            None => {
                assert(self@ =~= old(self)@);
                None
            },
            Some(mut record) => {
                assert(property(record)) by {
                    assert(old(self).web_commands.all_values(property));
                }
                record.limit_output(encoded_len);
                let r = record.copy();
                self.web_commands.insert(command_id.to_owned(), record);
                assert(self@.web_commands =~= old(self)@.web_commands.insert(command_id@, r@));
                Some(r)
            },
        }
    }

    /// Stop following a command of the console.
    pub fn forget_web_command(&mut self, command_id: &str)
        requires
            old(self).wf(),
        ensures
            final(self).wf(),
            final(self)@ == (Hub {
                web_commands: old(self)@.web_commands.remove(command_id@),
                ..old(self)@
            }),
    {
        let _ = self.web_commands.remove(command_id);
    }

    /// Stop following a command of the console that the tracker does not know any more. Returns
    /// the record to write where the action had not come to an end.
    pub fn forget_missing_web_command(&mut self, command_id: &str, now_ms: u64) -> (r: Option<
        ActionRecord,
    >)
        requires
            old(self).wf(),
        ensures
            final(self).wf(),
            final(self)@ == (Hub {
                web_commands: old(self)@.web_commands.remove(command_id@),
                ..old(self)@
            }),
            match r {
                Some(record) => {
                    &&& record.wf()
                    &&& old(self)@.web_commands.dom().contains(command_id@)
                    &&& old(self)@.web_commands[command_id@].status.open_ended()
                    &&& record@ == old(self)@.web_commands[command_id@].marked(
                        ActionStatus::Incomplete,
                        now_ms,
                    )
                },
                None => old(self)@.web_commands.dom().contains(command_id@)
                    ==> !old(self)@.web_commands[command_id@].status.open_ended(),
            },
    {
        let ghost property = |record: ActionRecord| record.wf();
        match self.web_commands.remove(command_id) {
            None => None,
            Some(mut record) => {
                assert(property(record)) by {
                    assert(old(self).web_commands.all_values(property));
                }
                if record.status.is_open() {
                    record.mark_incomplete(now_ms);
                    Some(record)
                } else {
                    None
                }
            },
        }
    }

    /// Ids of the commands of the console that are followed.
    pub fn web_command_ids(&self) -> (r: Vec<String>)
        requires
            self.wf(),
        ensures
            crate::text::views(r@).no_duplicates(),
            forall|id: Seq<char>|
                crate::text::views(r@).contains(id) == self@.web_commands.dom().contains(id),
    {
        self.web_commands.key_list()
    }
}

/// While the approval gate is off every action is approved at once, and nothing waits for it.
pub proof fn open_gate_approves(hub: Hub, record: Record, now_ms: u64)
    ensures
        hub.asked(record, false, now_ms).2 == Some(GateDecision::Approved),
        hub.asked(record, false, now_ms).0 == hub,
        hub.asked(record, false, now_ms).1.status == ActionStatus::Approved,
{
}

/// While the approval gate is enabled an action waits: it is not decided, and is pending until
/// someone decides.
pub proof fn enabled_gate_holds(hub: Hub, record: Record, now_ms: u64)
    ensures
        hub.asked(record, true, now_ms).2 is None,
        hub.asked(record, true, now_ms).0.pending.dom().contains(record.id),
        hub.asked(record, true, now_ms).0.pending[record.id].status
            == ActionStatus::WaitingApproval,
{
}

/// A character that was typed and taken back leaves the text as it was.
pub proof fn backspace_takes_back(text: Seq<char>, c: char)
    ensures
        Hub::typed(Hub::typed(text, seq![c], true), "BSpace"@, false) == text,
{
    reveal_strlit("BSpace");
    reveal_strlit("Enter");
    assert("BSpace"@.len() == 6 && "Enter"@.len() == 5);
    let longer = Hub::typed(text, seq![c], true);
    assert(longer.drop_last() =~= text);
}

} // verus!
