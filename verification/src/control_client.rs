//! What an agent's side of the control plane remembers: the commands whose end it still has to
//! report.

use crate::control::{ActionRecord, ActionStatus, Arguments, Record};
use crate::ids::is_hyphenated;
use crate::keyed::Keyed;
use crate::types::CommandSnapshot;
use vstd::prelude::*;

verus! {

/// State of a client: who it speaks for, and the records of the commands it follows.
#[verifier::ext_equal]
pub struct Client {
    pub source: Seq<char>,
    pub commands: Map<Seq<char>, Record>,
}

/// The agent's side of the control plane.
#[derive(Debug, Clone)]
pub struct ControlClient {
    source: String,
    commands: Keyed<ActionRecord>,
}

impl View for ControlClient {
    type V = Client;

    closed spec fn view(&self) -> Client {
        Client { source: self.source@, commands: self.commands@ }
    }
}

impl ControlClient {
    /// Records are well formed.
    pub closed spec fn wf(&self) -> bool {
        &&& self.commands.wf()
        &&& self.commands.all_values(|record: ActionRecord| record.wf())
    }

    /// A client that speaks for `source` and follows nothing.
    pub fn new(source: String) -> (r: Self)
        ensures
            r.wf(),
            r@ == (Client { source: source@, commands: Map::empty() }),
    {
        ControlClient { source, commands: Keyed::new() }
    }

    /// A fresh action of this client.
    pub fn action(&self, tool: &str, arguments: Arguments, now_ms: u64) -> (r: ActionRecord)
        requires
            arguments.wf(),
        ensures
            r.wf(),
            is_hyphenated(r.id@),
            r@ == Record::fresh(r.id@, self@.source, tool@, arguments@, now_ms),
    {
        ActionRecord::new(self.source.as_str(), tool, arguments, now_ms)
    }

    /// Follow a command. Its record has to be reported.
    pub fn track_command(&mut self, command_id: String, record: ActionRecord)
        requires
            old(self).wf(),
            record.wf(),
        ensures
            final(self).wf(),
            final(self)@ == (Client {
                commands: old(self)@.commands.insert(command_id@, record@),
                ..old(self)@
            }),
    {
        self.commands.insert(command_id, record);
    }

    /// The record to report for a command that stands as told; none where it is not followed.
    /// It may have to be shortened first.
    pub fn complete_command(&self, snapshot: CommandSnapshot, now_ms: u64) -> (r: Option<
        ActionRecord,
    >)
        requires
            self.wf(),
        ensures
            match r {
                Some(record) => {
                    &&& self@.commands.dom().contains(snapshot.command_id@)
                    &&& record.wf()
                    &&& record@ == self@.commands[snapshot.command_id@].with_command(
                        snapshot@,
                        now_ms,
                    )
                },
                None => !self@.commands.dom().contains(snapshot.command_id@),
            },
    {
        let ghost property = |record: ActionRecord| record.wf();
        match self.commands.get(snapshot.command_id.as_str()) {
            None => None,
            Some(kept) => {
                assert(property(*kept)) by {
                    assert(self.commands.all_values(property));
                }
                let mut record = kept.copy();
                record.mark_command(snapshot, now_ms);
                Some(record)
            },
        }
    }

    /// Stop following a command.
    pub fn forget_command(&mut self, command_id: &str)
        requires
            old(self).wf(),
        ensures
            final(self).wf(),
            final(self)@ == (Client {
                commands: old(self)@.commands.remove(command_id@),
                ..old(self)@
            }),
    {
        let _ = self.commands.remove(command_id);
    }

    /// Stop following a command that the tracker does not know any more. Returns the record to
    /// report where the action had not come to an end.
    pub fn forget_missing_command(&mut self, command_id: &str, now_ms: u64) -> (r: Option<
        ActionRecord,
    >)
        requires
            old(self).wf(),
        ensures
            final(self).wf(),
            final(self)@ == (Client {
                commands: old(self)@.commands.remove(command_id@),
                ..old(self)@
            }),
            match r {
                Some(record) => {
                    &&& record.wf()
                    &&& old(self)@.commands.dom().contains(command_id@)
                    &&& old(self)@.commands[command_id@].status.open_ended()
                    &&& record@ == old(self)@.commands[command_id@].marked(
                        ActionStatus::Incomplete,
                        now_ms,
                    )
                },
                None => old(self)@.commands.dom().contains(command_id@)
                    ==> !old(self)@.commands[command_id@].status.open_ended(),
            },
    {
        let ghost property = |record: ActionRecord| record.wf();
        match self.commands.remove(command_id) {
            None => None,
            Some(mut record) => {
                assert(property(record)) by {
                    assert(old(self).commands.all_values(property));
                }
                if record.status.is_open() {
                    record.mark_incomplete(now_ms);
                    Some(record)
                } else {
                    None
                }
            },
        }
    }

    /// Ids of the commands that are followed.
    pub fn command_ids(&self) -> (r: Vec<String>)
        requires
            self.wf(),
        ensures
            crate::text::views(r@).no_duplicates(),
            forall|id: Seq<char>|
                crate::text::views(r@).contains(id) == self@.commands.dom().contains(id),
    {
        self.commands.key_list()
    }
}

} // verus!
