//! Records of what agents and people do, and the state that the control plane keeps on disk.

use crate::ids::{fresh_id, fresh_secret, is_hyphenated, is_lower_hex, is_simple, is_variant_digit};
use crate::keyed::Keyed;
use crate::text::{
    copy_texts, has_prefix, hex_digit, is_hex_digit, is_longest_start, listed, lowered,
    opt_str_view, opt_view, or_empty, parse_digits, same, same_ignoring_case, split, split_at_char,
    starts_with, to_chars, trim, trimmed, truncate_bytes, views,
};
use crate::types::{CommandSnapshot, CommandStatus, Snapshot};
use vstd::prelude::*;
use vstd::utf8::encode_utf8;

verus! {

/// Version of the [`ActionRecord`] layout.
pub const ACTION_SCHEMA_VERSION: u32 = 1;

/// Longest encoded record that an agent may send, in bytes.
pub const AGENT_RECORD_MAX_BYTES: usize = 1_048_576;

/// What kind of action a tool performs.
#[derive(Debug, Clone, Copy, PartialEq, Eq, Structural)]
pub enum ActionKind {
    Command,
    Input,
    Operation,
}

/// What kind of action the tool with this name performs.
pub open spec fn kind_of_tool(tool: Seq<char>) -> ActionKind {
    if tool == "execute-command"@ {
        ActionKind::Command
    } else if tool == "paste-text"@ || tool == "web-input"@ || has_prefix(tool, "send-"@) {
        ActionKind::Input
    } else {
        ActionKind::Operation
    }
}

impl ActionKind {
    /// What kind of action the tool with this name performs.
    pub fn for_tool(tool: &str) -> (r: Self)
        ensures
            r == kind_of_tool(tool@),
    {
        if same(tool, "execute-command") {
            ActionKind::Command
        } else if same(tool, "paste-text") || same(tool, "web-input") || starts_with(
            tool,
            "send-",
        ) {
            ActionKind::Input
        } else {
            ActionKind::Operation
        }
    }
}

/// Where an action stands.
#[derive(Debug, Clone, Copy, PartialEq, Eq, Structural)]
pub enum ActionStatus {
    Requested,
    WaitingApproval,
    Approved,
    Running,
    Completed,
    Failed,
    Rejected,
    Incomplete,
}

impl ActionStatus {
    /// The action has not come to an end.
    pub open spec fn open_ended(self) -> bool {
        ||| self == ActionStatus::Requested
        ||| self == ActionStatus::WaitingApproval
        ||| self == ActionStatus::Approved
        ||| self == ActionStatus::Running
    }

    /// Whether the action has not come to an end.
    pub fn is_open(self) -> (r: bool)
        ensures
            r == self.open_ended(),
    {
        match self {
            ActionStatus::Requested => true,
            ActionStatus::WaitingApproval => true,
            ActionStatus::Approved => true,
            ActionStatus::Running => true,
            ActionStatus::Completed => false,
            ActionStatus::Failed => false,
            ActionStatus::Rejected => false,
            ActionStatus::Incomplete => false,
        }
    }
}

/// What the approval gate says to an action.
#[derive(Debug, Clone, Copy, PartialEq, Eq, Structural)]
pub enum GateDecision {
    Approved,
    Rejected,
}

/// How strict the approval gate is.
#[derive(Debug, Clone, Copy, PartialEq, Eq, Structural)]
pub enum GateMode {
    Off,
    Tools,
    Approval,
}

/// Answer to a request for authorization.
#[derive(Debug, Clone, Copy, PartialEq, Eq, Structural)]
pub struct AuthorizationResponse {
    pub decision: GateDecision,
}

/// Agents are paused, because of this pane.
#[derive(Debug, Clone, PartialEq, Eq)]
pub struct AiPause {
    pub pane_id: String,
}

/// The value of one argument of an action.
///
/// Only texts are ever looked into; any other value is kept as its JSON text.
#[derive(Debug, Clone, PartialEq, Eq)]
pub enum ArgumentValue {
    Text(String),
    Encoded(String),
}

/// An [`ArgumentValue`] with its text as a sequence of characters.
#[verifier::ext_equal]
pub enum Argument {
    Text(Seq<char>),
    Encoded(Seq<char>),
}

impl View for ArgumentValue {
    type V = Argument;

    open spec fn view(&self) -> Argument {
        match self {
            ArgumentValue::Text(text) => Argument::Text(text@),
            ArgumentValue::Encoded(text) => Argument::Encoded(text@),
        }
    }
}

impl ArgumentValue {
    /// A copy of this value.
    pub fn copy(&self) -> (r: Self)
        ensures
            r == *self,
    {
        match self {
            ArgumentValue::Text(text) => ArgumentValue::Text(text.clone()),
            ArgumentValue::Encoded(text) => ArgumentValue::Encoded(text.clone()),
        }
    }
}

/// The arguments of an action: by name, or some other JSON value as its text.
#[derive(Debug, Clone)]
pub enum Arguments {
    Named(Keyed<ArgumentValue>),
    Encoded(String),
}

/// [`Arguments`] with their texts as sequences of characters.
#[verifier::ext_equal]
pub enum Args {
    Named(Map<Seq<char>, Argument>),
    Encoded(Seq<char>),
}

impl View for Arguments {
    type V = Args;

    open spec fn view(&self) -> Args {
        match self {
            Arguments::Named(values) => Args::Named(values@),
            Arguments::Encoded(text) => Args::Encoded(text@),
        }
    }
}

impl Args {
    /// The text under a name, if there is one.
    pub open spec fn text(self, name: Seq<char>) -> Option<Seq<char>> {
        match self {
            Args::Named(values) => if values.dom().contains(name) {
                match values[name] {
                    Argument::Text(text) => Some(text),
                    Argument::Encoded(_) => None,
                }
            } else {
                None
            },
            Args::Encoded(_) => None,
        }
    }

    /// The text under a name, if there is one and it is not empty.
    pub open spec fn filled(self, name: Seq<char>) -> Option<Seq<char>> {
        match self.text(name) {
            Some(text) => if text.len() > 0 {
                Some(text)
            } else {
                None
            },
            None => None,
        }
    }

    /// Without the argument of this name.
    pub open spec fn without(self, name: Seq<char>) -> Args {
        match self {
            Args::Named(values) => Args::Named(values.remove(name)),
            Args::Encoded(text) => Args::Encoded(text),
        }
    }

    /// With an argument of this name; arguments that had no names give way.
    pub open spec fn with(self, name: Seq<char>, value: Argument) -> Args {
        match self {
            Args::Named(values) => Args::Named(values.insert(name, value)),
            Args::Encoded(_) => Args::Named(Map::<Seq<char>, Argument>::empty().insert(name, value)),
        }
    }
}

impl Arguments {
    /// No name occurs twice.
    pub open spec fn wf(&self) -> bool {
        self matches Arguments::Named(values) ==> values.wf()
    }

    /// No arguments.
    pub fn none() -> (r: Self)
        ensures
            r.wf(),
            r@ == Args::Named(Map::empty()),
    {
        Arguments::Named(Keyed::new())
    }

    /// The text under a name, if there is one.
    pub fn text(&self, name: &str) -> (r: Option<&str>)
        requires
            self.wf(),
        ensures
            opt_str_view(r) == self@.text(name@),
    {
        match self {
            Arguments::Named(values) => match values.get(name) {
                Some(ArgumentValue::Text(text)) => Some(text.as_str()),
                Some(ArgumentValue::Encoded(_)) => None,
                None => None,
            },
            Arguments::Encoded(_) => None,
        }
    }

    /// An owned copy of the text under a name, if there is one and it is not empty.
    pub fn filled(&self, name: &str) -> (r: Option<String>)
        requires
            self.wf(),
        ensures
            opt_view(r) == self@.filled(name@),
    {
        match self.text(name) {
            Some(text) => if text.is_empty() {
                None
            } else {
                Some(text.to_owned())
            },
            None => None,
        }
    }

    /// Take away the argument of this name.
    pub fn remove(&mut self, name: &str)
        requires
            old(self).wf(),
        ensures
            final(self).wf(),
            final(self)@ == old(self)@.without(name@),
    {
        match self {
            Arguments::Named(values) => {
                let _ = values.remove(name);
            },
            Arguments::Encoded(_) => {},
        }
    }

    /// Set an argument; arguments that had no names give way.
    pub fn set(&mut self, name: &str, value: ArgumentValue)
        requires
            old(self).wf(),
        ensures
            final(self).wf(),
            final(self)@ == old(self)@.with(name@, value@),
    {
        let mut taken = Arguments::Encoded(String::new());
        std::mem::swap(&mut taken, self);
        let mut values = match taken {
            Arguments::Named(values) => values,
            Arguments::Encoded(_) => Keyed::new(),
        };
        values.insert(name.to_owned(), value);
        *self = Arguments::Named(values);
    }

    /// A copy of these arguments.
    pub fn copy(&self) -> (r: Self)
        requires
            self.wf(),
        ensures
            r.wf(),
            r@ == self@,
    {
        match self {
            Arguments::Encoded(text) => Arguments::Encoded(text.clone()),
            Arguments::Named(values) => {
                let mut out: Keyed<ArgumentValue> = Keyed::new();
                let ghost keys = values.keys();
                proof {
                    values.lemma_keys();
                    assert(values@.restrict(keys.take(0).to_set()) =~= Map::<
                        Seq<char>,
                        Argument,
                    >::empty());
                }
                let mut i: usize = 0;
                while i < values.len()
                    invariant
                        i <= keys.len(),
                        keys == values.keys(),
                        values.wf(),
                        out.wf(),
                        out@ == values@.restrict(keys.take(i as int).to_set()),
                    decreases keys.len() - i,
                {
                    let name = values.key(i).to_owned();
                    let value = values.value(i).copy();
                    proof {
                        crate::seqs::take_contains(keys, i as int);
                        assert(values@.restrict(keys.take(i as int + 1).to_set())
                            =~= values@.restrict(keys.take(i as int).to_set()).insert(
                            name@,
                            value@,
                        ));
                    }
                    out.insert(name, value);
                    i += 1;
                }
                proof {
                    assert(keys.take(keys.len() as int) =~= keys);
                    assert(values@.restrict(keys.to_set()) =~= values@) by {
                        values.lemma_keys();
                    }
                }
                Arguments::Named(out)
            },
        }
    }
}

/// What an action is aimed at.
#[derive(Debug, Clone, PartialEq, Eq)]
pub struct ActionTarget {
    pub socket: Option<String>,
    pub session_id: Option<String>,
    pub window_id: Option<String>,
    pub pane_ids: Vec<String>,
}

impl Default for ActionTarget {
    fn default() -> (r: Self)
        ensures
            r.socket is None,
            r.session_id is None,
            r.window_id is None,
            r.pane_ids@.len() == 0,
    {
        ActionTarget { socket: None, session_id: None, window_id: None, pane_ids: Vec::new() }
    }
}

/// An [`ActionTarget`] with its texts as sequences of characters.
#[verifier::ext_equal]
pub struct Aim {
    pub socket: Option<Seq<char>>,
    pub session_id: Option<Seq<char>>,
    pub window_id: Option<Seq<char>>,
    pub pane_ids: Seq<Seq<char>>,
}

impl View for ActionTarget {
    type V = Aim;

    open spec fn view(&self) -> Aim {
        Aim {
            socket: opt_view(self.socket),
            session_id: opt_view(self.session_id),
            window_id: opt_view(self.window_id),
            pane_ids: views(self.pane_ids@),
        }
    }
}

/// The list with one more pane, unless it is there already or there is none to add.
pub open spec fn with_pane(panes: Seq<Seq<char>>, pane: Option<Seq<char>>) -> Seq<Seq<char>> {
    match pane {
        Some(id) => if panes.contains(id) {
            panes
        } else {
            panes.push(id)
        },
        None => panes,
    }
}

/// What an action with these arguments is aimed at. Every pane that is named is listed once.
pub open spec fn aim_of(arguments: Args) -> Aim {
    Aim {
        socket: arguments.filled("socket"@),
        session_id: arguments.filled("sessionId"@),
        window_id: arguments.filled("windowId"@),
        pane_ids: with_pane(
            with_pane(
                with_pane(Seq::empty(), arguments.filled("paneId"@)),
                arguments.filled("sourcePaneId"@),
            ),
            arguments.filled("targetPaneId"@),
        ),
    }
}

fn add_pane(panes: &mut Vec<String>, pane: Option<String>)
    ensures
        views(final(panes)@) == with_pane(views(old(panes)@), opt_view(pane)),
{
    if let Some(id) = pane {
        if !listed(panes, id.as_str()) {
            let ghost before = views(panes@);
            panes.push(id);
            assert(views(panes@) =~= before.push(id@));
        }
    }
}

impl ActionTarget {
    /// What an action with these arguments is aimed at.
    pub fn from_arguments(arguments: &Arguments) -> (r: Self)
        requires
            arguments.wf(),
        ensures
            r@ == aim_of(arguments@),
    {
        let mut pane_ids: Vec<String> = Vec::new();
        assert(views(pane_ids@) =~= Seq::<Seq<char>>::empty());
        add_pane(&mut pane_ids, arguments.filled("paneId"));
        add_pane(&mut pane_ids, arguments.filled("sourcePaneId"));
        add_pane(&mut pane_ids, arguments.filled("targetPaneId"));
        ActionTarget {
            socket: arguments.filled("socket"),
            session_id: arguments.filled("sessionId"),
            window_id: arguments.filled("windowId"),
            pane_ids,
        }
    }

    /// A copy of this target.
    pub fn copy(&self) -> (r: Self)
        ensures
            r@ == self@,
    {
        ActionTarget {
            socket: self.socket.clone(),
            session_id: self.session_id.clone(),
            window_id: self.window_id.clone(),
            pane_ids: copy_texts(&self.pane_ids),
        }
    }
}

/// An optional snapshot with its texts as sequences of characters.
pub open spec fn snapshot_view(snapshot: Option<CommandSnapshot>) -> Option<Snapshot> {
    match snapshot {
        Some(s) => Some(s@),
        None => None,
    }
}

/// One action and its lifecycle. Times are wall-clock milliseconds.
#[derive(Debug, Clone)]
pub struct ActionRecord {
    pub schema_version: u32,
    pub id: String,
    pub source: String,
    pub tool: String,
    pub kind: ActionKind,
    pub read_only: bool,
    pub target: ActionTarget,
    pub arguments: Arguments,
    pub status: ActionStatus,
    /// The result as JSON text.
    pub result: Option<String>,
    pub command_snapshot: Option<CommandSnapshot>,
    pub requested_at_ms: u64,
    pub updated_at_ms: u64,
}

/// An [`ActionRecord`] with its texts as sequences of characters.
#[verifier::ext_equal]
pub struct Record {
    pub schema_version: u32,
    pub id: Seq<char>,
    pub source: Seq<char>,
    pub tool: Seq<char>,
    pub kind: ActionKind,
    pub read_only: bool,
    pub target: Aim,
    pub arguments: Args,
    pub status: ActionStatus,
    pub result: Option<Seq<char>>,
    pub command_snapshot: Option<Snapshot>,
    pub requested_at_ms: u64,
    pub updated_at_ms: u64,
}

impl View for ActionRecord {
    type V = Record;

    open spec fn view(&self) -> Record {
        Record {
            schema_version: self.schema_version,
            id: self.id@,
            source: self.source@,
            tool: self.tool@,
            kind: self.kind,
            read_only: self.read_only,
            target: self.target@,
            arguments: self.arguments@,
            status: self.status,
            result: opt_view(self.result),
            command_snapshot: snapshot_view(self.command_snapshot),
            requested_at_ms: self.requested_at_ms,
            updated_at_ms: self.updated_at_ms,
        }
    }
}

/// The status of an action whose command stands as told.
pub open spec fn action_status_of(status: CommandStatus) -> ActionStatus {
    match status {
        CommandStatus::Completed => ActionStatus::Completed,
        CommandStatus::Failed | CommandStatus::Cancelled
        | CommandStatus::TrackingError => ActionStatus::Failed,
        CommandStatus::Queued | CommandStatus::Running => ActionStatus::Running,
    }
}

impl Record {
    /// An action that was just requested.
    pub open spec fn fresh(
        id: Seq<char>,
        source: Seq<char>,
        tool: Seq<char>,
        arguments: Args,
        now_ms: u64,
    ) -> Record {
        Record {
            schema_version: ACTION_SCHEMA_VERSION,
            id,
            source,
            tool,
            kind: kind_of_tool(tool),
            read_only: false,
            target: aim_of(arguments),
            arguments,
            status: ActionStatus::Requested,
            result: None,
            command_snapshot: None,
            requested_at_ms: now_ms,
            updated_at_ms: now_ms,
        }
    }

    /// This record in another status.
    pub open spec fn marked(self, status: ActionStatus, now_ms: u64) -> Record {
        Record { status, updated_at_ms: now_ms, ..self }
    }

    /// This record with its result.
    pub open spec fn ended(self, status: ActionStatus, result: Option<Seq<char>>, now_ms: u64) -> Record {
        Record { status, result, updated_at_ms: now_ms, ..self }
    }

    /// This record with its command as told. The command text is not kept twice.
    pub open spec fn with_command(self, snapshot: Snapshot, now_ms: u64) -> Record {
        Record {
            arguments: if self.arguments.text("command"@) == Some(snapshot.command) {
                self.arguments.without("command"@)
            } else {
                self.arguments
            },
            status: action_status_of(snapshot.status),
            command_snapshot: Some(snapshot),
            updated_at_ms: now_ms,
            ..self
        }
    }

    /// `after` is this record with the output of its command shortened, so that its encoding,
    /// which takes `encoded_len` bytes, stays below [`AGENT_RECORD_MAX_BYTES`].
    pub open spec fn limited(self, encoded_len: usize, after: Record) -> bool {
        let excess = encoded_len - (AGENT_RECORD_MAX_BYTES - 1);
        if excess > 0 && self.command_snapshot is Some && self.command_snapshot->0.output is Some {
            let output = self.command_snapshot->0.output->0;
            let len = encode_utf8(output).len();
            &&& after.command_snapshot is Some
            &&& after.command_snapshot->0.output is Some
            &&& is_longest_start(
                output,
                if len > excess {
                    len - excess
                } else {
                    0
                },
                after.command_snapshot->0.output->0,
            )
            &&& after == (Record {
                command_snapshot: Some(
                    Snapshot {
                        output: after.command_snapshot->0.output,
                        output_truncated: true,
                        ..self.command_snapshot->0
                    },
                ),
                ..self
            })
        } else {
            after == self
        }
    }
}

impl ActionRecord {
    /// No argument name occurs twice.
    pub open spec fn wf(&self) -> bool {
        self.arguments.wf()
    }

    /// An action that was just requested, under the given id.
    pub fn with_id(id: String, source: &str, tool: &str, arguments: Arguments, now_ms: u64) -> (r:
        Self)
        requires
            arguments.wf(),
        ensures
            r.wf(),
            r@ == Record::fresh(id@, source@, tool@, arguments@, now_ms),
    {
        let target = ActionTarget::from_arguments(&arguments);
        ActionRecord {
            schema_version: ACTION_SCHEMA_VERSION,
            id,
            source: source.to_owned(),
            tool: tool.to_owned(),
            kind: ActionKind::for_tool(tool),
            read_only: false,
            target,
            arguments,
            status: ActionStatus::Requested,
            result: None,
            command_snapshot: None,
            requested_at_ms: now_ms,
            updated_at_ms: now_ms,
        }
    }

    /// An action that was just requested, under a fresh id.
    pub fn new(source: &str, tool: &str, arguments: Arguments, now_ms: u64) -> (r: Self)
        requires
            arguments.wf(),
        ensures
            r.wf(),
            is_hyphenated(r.id@),
            r@ == Record::fresh(r.id@, source@, tool@, arguments@, now_ms),
    {
        let id = fresh_id();
        ActionRecord::with_id(id, source, tool, arguments, now_ms)
    }

    /// A copy of this record.
    pub fn copy(&self) -> (r: Self)
        requires
            self.wf(),
        ensures
            r.wf(),
            r@ == self@,
    {
        let command_snapshot = match &self.command_snapshot {
            Some(snapshot) => Some(snapshot.copy()),
            None => None,
        };
        ActionRecord {
            schema_version: self.schema_version,
            id: self.id.clone(),
            source: self.source.clone(),
            tool: self.tool.clone(),
            kind: self.kind,
            read_only: self.read_only,
            target: self.target.copy(),
            arguments: self.arguments.copy(),
            status: self.status,
            result: self.result.clone(),
            command_snapshot,
            requested_at_ms: self.requested_at_ms,
            updated_at_ms: self.updated_at_ms,
        }
    }

    /// The action has been started.
    pub fn mark_running(&mut self, now_ms: u64)
        ensures
            final(self)@ == old(self)@.marked(ActionStatus::Running, now_ms),
            final(self).arguments == old(self).arguments,
    {
        self.status = ActionStatus::Running;
        self.updated_at_ms = now_ms;
    }

    /// The action waits for approval.
    pub fn mark_waiting_approval(&mut self, now_ms: u64)
        ensures
            final(self)@ == old(self)@.marked(ActionStatus::WaitingApproval, now_ms),
            final(self).arguments == old(self).arguments,
    {
        self.status = ActionStatus::WaitingApproval;
        self.updated_at_ms = now_ms;
    }

    /// The action may go on.
    pub fn mark_approved(&mut self, now_ms: u64)
        ensures
            final(self)@ == old(self)@.marked(ActionStatus::Approved, now_ms),
            final(self).arguments == old(self).arguments,
    {
        self.status = ActionStatus::Approved;
        self.updated_at_ms = now_ms;
    }

    /// The action may not go on.
    pub fn mark_rejected(&mut self, now_ms: u64)
        ensures
            final(self)@ == old(self)@.marked(ActionStatus::Rejected, now_ms),
            final(self).arguments == old(self).arguments,
    {
        self.status = ActionStatus::Rejected;
        self.updated_at_ms = now_ms;
    }

    /// Nobody knows what became of the action.
    pub fn mark_incomplete(&mut self, now_ms: u64)
        ensures
            final(self)@ == old(self)@.marked(ActionStatus::Incomplete, now_ms),
            final(self).arguments == old(self).arguments,
    {
        self.status = ActionStatus::Incomplete;
        self.updated_at_ms = now_ms;
    }

    /// The action has succeeded.
    pub fn mark_completed(&mut self, result: Option<String>, now_ms: u64)
        ensures
            final(self)@ == old(self)@.ended(ActionStatus::Completed, opt_view(result), now_ms),
            final(self).arguments == old(self).arguments,
    {
        self.status = ActionStatus::Completed;
        self.result = result;
        self.updated_at_ms = now_ms;
    }

    /// The action has failed.
    pub fn mark_failed(&mut self, result: Option<String>, now_ms: u64)
        ensures
            final(self)@ == old(self)@.ended(ActionStatus::Failed, opt_view(result), now_ms),
            final(self).arguments == old(self).arguments,
    {
        self.status = ActionStatus::Failed;
        self.result = result;
        self.updated_at_ms = now_ms;
    }

    /// The command of this action stands as told.
    ///
    /// The record may have to be shortened afterwards, see [`ActionRecord::limit_output`].
    pub fn mark_command(&mut self, snapshot: CommandSnapshot, now_ms: u64)
        requires
            old(self).wf(),
        ensures
            final(self).wf(),
            final(self)@ == old(self)@.with_command(snapshot@, now_ms),
    {
        let repeated = match self.arguments.text("command") {
            Some(text) => same(text, snapshot.command.as_str()),
            None => false,
        };
        if repeated {
            self.arguments.remove("command");
        }
        self.status = match snapshot.status {
            CommandStatus::Completed => ActionStatus::Completed,
            CommandStatus::Failed => ActionStatus::Failed,
            CommandStatus::Cancelled => ActionStatus::Failed,
            CommandStatus::TrackingError => ActionStatus::Failed,
            CommandStatus::Queued => ActionStatus::Running,
            CommandStatus::Running => ActionStatus::Running,
        };
        self.command_snapshot = Some(snapshot);
        self.updated_at_ms = now_ms;
    }

    /// Shorten the output of the command by what the encoded record is too long.
    pub fn limit_output(&mut self, encoded_len: usize)
        ensures
            old(self)@.limited(encoded_len, final(self)@),
            final(self).arguments == old(self).arguments,
    {
        if encoded_len <= AGENT_RECORD_MAX_BYTES - 1 {
            return;
        }
        let excess: usize = encoded_len - (AGENT_RECORD_MAX_BYTES - 1);
        let mut taken: Option<CommandSnapshot> = None;
        std::mem::swap(&mut taken, &mut self.command_snapshot);
        if let Some(mut snapshot) = taken {
            if let Some(output) = snapshot.output {
                let len: usize = output.as_str().as_bytes().len();
                let keep: usize = if len > excess {
                    len - excess
                } else {
                    0
                };
                let shorter = truncate_bytes(output.as_str(), keep);
                snapshot.output = Some(shorter);
                snapshot.output_truncated = true;
            }
            self.command_snapshot = Some(snapshot);
        }
    }
}

/// A path below a directory.
pub open spec fn joined(directory: Seq<char>, name: Seq<char>) -> Seq<char> {
    if directory.len() == 0 {
        name
    } else if directory.last() == '/' {
        directory + name
    } else {
        directory + "/"@ + name
    }
}

/// A path below a directory.
pub fn join_path(directory: &str, name: &str) -> (r: String)
    ensures
        r@ == joined(directory@, name@),
{
    let chars = to_chars(directory);
    if chars.len() == 0 {
        name.to_owned()
    } else if chars[chars.len() - 1] == '/' {
        directory.to_owned().concat(name)
    } else {
        directory.to_owned().concat("/").concat(name)
    }
}

/// Where the control plane keeps its state.
#[derive(Debug, Clone, PartialEq, Eq)]
pub struct StatePaths {
    pub directory: String,
    pub events: String,
    pub gate: String,
    pub ai_pause: String,
    pub token: String,
}

/// What reading the approval gate file gave.
#[derive(Debug, Clone, PartialEq, Eq)]
pub enum GateFile {
    Content(String),
    Missing,
    Unreadable,
}

/// The mode that the approval gate file stands for. A file that cannot be read, or says anything
/// but `tools`, asks for approval: only its absence opens the approval gate.
pub open spec fn mode_of_gate(file: GateFile) -> GateMode {
    match file {
        GateFile::Content(text) => if trimmed(text@) == "tools"@ {
            GateMode::Tools
        } else {
            GateMode::Approval
        },
        GateFile::Missing => GateMode::Off,
        GateFile::Unreadable => GateMode::Approval,
    }
}

impl StatePaths {
    /// The files below a directory.
    pub fn new(directory: &str) -> (r: Self)
        ensures
            r.directory@ == directory@,
            r.events@ == joined(directory@, "events.jsonl"@),
            r.gate@ == joined(directory@, "gate.enabled"@),
            r.ai_pause@ == joined(directory@, "ai-paused.json"@),
            r.token@ == joined(directory@, "control.token"@),
    {
        StatePaths {
            events: join_path(directory, "events.jsonl"),
            gate: join_path(directory, "gate.enabled"),
            ai_pause: join_path(directory, "ai-paused.json"),
            token: join_path(directory, "control.token"),
            directory: directory.to_owned(),
        }
    }

    /// The mode that the approval gate file stands for.
    pub fn gate_mode(file: &GateFile) -> (r: GateMode)
        ensures
            r == mode_of_gate(*file),
    {
        match file {
            GateFile::Content(text) => if same(trim(text.as_str()).as_str(), "tools") {
                GateMode::Tools
            } else {
                GateMode::Approval
            },
            GateFile::Missing => GateMode::Off,
            GateFile::Unreadable => GateMode::Approval,
        }
    }

    /// Whether the approval gate file asks for any kind of approval.
    pub fn gate_enabled(file: &GateFile) -> (r: bool)
        ensures
            r == (mode_of_gate(*file) != GateMode::Off),
    {
        match StatePaths::gate_mode(file) {
            GateMode::Off => false,
            GateMode::Tools => true,
            GateMode::Approval => true,
        }
    }
}

/// What the approval gate file holds for a mode; none where there is no file.
pub open spec fn gate_text(mode: GateMode) -> Option<Seq<char>> {
    match mode {
        GateMode::Off => None,
        GateMode::Tools => Some("tools\n"@),
        GateMode::Approval => Some("approval\n"@),
    }
}

/// What the approval gate file holds for a mode; none where there is no file.
pub fn gate_content(mode: GateMode) -> (r: Option<&'static str>)
    ensures
        opt_str_view(r) == gate_text(mode),
{
    match mode {
        GateMode::Off => None,
        GateMode::Tools => Some("tools\n"),
        GateMode::Approval => Some("approval\n"),
    }
}

/// The mode that a request for the approval gate asks for: the one it names, or approval of
/// every action or none at all where it only says whether it is to be enabled. None where it
/// says neither.
pub fn gate_mode_for(mode: Option<GateMode>, enabled: Option<bool>) -> (r: Option<GateMode>)
    ensures
        r == (match (mode, enabled) {
            (Some(named), _) => Some(named),
            (None, Some(true)) => Some(GateMode::Approval),
            (None, Some(false)) => Some(GateMode::Off),
            (None, None) => None,
        }),
{
    match (mode, enabled) {
        (Some(named), _) => Some(named),
        (None, Some(true)) => Some(GateMode::Approval),
        (None, Some(false)) => Some(GateMode::Off),
        (None, None) => None,
    }
}

/// A gate mode that was written is read back.
pub proof fn gate_mode_round_trip(mode: GateMode, file: GateFile)
    requires
        match gate_text(mode) {
            Some(text) => file matches GateFile::Content(content) && content@ == text,
            None => file is Missing,
        },
    ensures
        mode_of_gate(file) == mode,
{
    reveal_strlit("tools\n");
    reveal_strlit("approval\n");
    reveal_strlit("tools");
    reveal_with_fuel(crate::text::trim_start, 2);
    reveal_with_fuel(crate::text::trim_end, 3);
    match mode {
        GateMode::Off => {},
        GateMode::Tools => {
            assert("tools\n"@.drop_last() =~= "tools"@);
            assert(trimmed("tools\n"@) == "tools"@);
        },
        GateMode::Approval => {
            let text = "approval\n"@;
            assert(trimmed(text) == text.drop_last());
            assert(text.drop_last().len() == 8);
        },
    }
}

/// Where the state is kept by default: the first of the platform's state directories that is
/// set, else the temporary directory.
pub open spec fn state_dir(
    local_app_data: Option<Seq<char>>,
    xdg_state_home: Option<Seq<char>>,
    home: Option<Seq<char>>,
    temp_dir: Seq<char>,
) -> Seq<char> {
    if or_empty(local_app_data).len() > 0 {
        joined(or_empty(local_app_data), "tmux-mcp"@)
    } else if or_empty(xdg_state_home).len() > 0 {
        joined(or_empty(xdg_state_home), "tmux-mcp"@)
    } else if or_empty(home).len() > 0 {
        joined(joined(joined(or_empty(home), ".local"@), "state"@), "tmux-mcp"@)
    } else {
        joined(temp_dir, "tmux-mcp"@)
    }
}

/// Where the state is kept by default.
pub fn default_state_dir(
    local_app_data: Option<&str>,
    xdg_state_home: Option<&str>,
    home: Option<&str>,
    temp_dir: &str,
) -> (r: String)
    ensures
        r@ == state_dir(
            opt_str_view(local_app_data),
            opt_str_view(xdg_state_home),
            opt_str_view(home),
            temp_dir@,
        ),
{
    if let Some(path) = local_app_data {
        if !path.is_empty() {
            return join_path(path, "tmux-mcp");
        }
    }
    if let Some(path) = xdg_state_home {
        if !path.is_empty() {
            return join_path(path, "tmux-mcp");
        }
    }
    if let Some(path) = home {
        if !path.is_empty() {
            let local = join_path(path, ".local");
            let state = join_path(local.as_str(), "state");
            return join_path(state.as_str(), "tmux-mcp");
        }
    }
    join_path(temp_dir, "tmux-mcp")
}

/// A control token: 64 hexadecimal digits.
pub open spec fn is_token(token: Seq<char>) -> bool {
    token.len() == 64 && forall|i: int| 0 <= i < 64 ==> is_hex_digit(#[trigger] token[i])
}

/// Accept the content of a token file.
pub fn validate_token(content: &str) -> (r: Result<String, String>)
    ensures
        match r {
            Ok(token) => token@ == trimmed(content@) && is_token(token@),
            Err(message) => !is_token(trimmed(content@)) && message@
                == "control token must contain exactly 64 hexadecimal characters"@,
        },
{
    let token = trim(content);
    let chars = to_chars(token.as_str());
    let mut valid = chars.len() == 64;
    let mut i: usize = 0;
    while valid && i < chars.len()
        invariant
            i <= chars@.len(),
            chars@ == token@,
            valid ==> chars@.len() == 64 && forall|j: int|
                0 <= j < i ==> is_hex_digit(#[trigger] chars@[j]),
            !valid ==> !is_token(token@),
        decreases
                chars@.len() - i + if valid {
                    1int
                } else {
                    0
                },
    {
        if !hex_digit(chars[i]) {
            assert(!is_hex_digit(token@[i as int]));
            valid = false;
        } else {
            i += 1;
        }
    }
    if valid {
        Ok(token)
    } else {
        Err("control token must contain exactly 64 hexadecimal characters".to_owned())
    }
}

/// One half of a control token as it is drawn: a random UUID without dashes.
pub open spec fn is_token_half(half: Seq<char>) -> bool {
    is_simple(half) && half[12] == '4' && is_variant_digit(half[16])
}

/// A fresh control token: two random UUIDs, one behind the other.
pub fn new_token() -> (r: String)
    ensures
        is_token(r@),
        is_token_half(r@.take(32)),
        is_token_half(r@.skip(32)),
{
    let first = fresh_secret();
    let second = fresh_secret();
    let r = token_of(first.as_str(), second.as_str());
    assert(r@.take(32) =~= first@);
    assert(r@.skip(32) =~= second@);
    r
}

/// The control token of two drawn halves.
pub fn token_of(first: &str, second: &str) -> (r: String)
    requires
        is_token_half(first@),
        is_token_half(second@),
    ensures
        r@ == first@ + second@,
        is_token(r@),
{
    let ghost a = first@;
    let r = first.to_owned().concat(second);
    assert forall|i: int| 0 <= i < 64 implies is_hex_digit(#[trigger] r@[i]) by {
        if i < 32 {
            assert(r@[i] == a[i]);
            assert(is_lower_hex(a[i]));
        } else {
            assert(r@[i] == second@[i - 32]);
            assert(is_lower_hex(second@[i - 32]));
        }
    }
    r
}

proof fn lemma_no_space_in_token(token: Seq<char>)
    requires
        is_token(token),
    ensures
        trimmed(token + seq!['\n']) == token,
{
    let content = token + seq!['\n'];
    assert(is_hex_digit(token[0]));
    assert(is_hex_digit(token[63]));
    assert(content[0] == token[0]);
    assert(content.last() == '\n');
    assert(content.drop_last() =~= token);
    reveal_with_fuel(crate::text::trim_start, 2);
    reveal_with_fuel(crate::text::trim_end, 3);
    assert(token.last() == token[63]);
}

/// A token that was written with a newline is read back.
pub proof fn token_round_trip(token: Seq<char>)
    requires
        is_token(token),
    ensures
        trimmed(token + seq!['\n']) == token,
        is_token(trimmed(token + seq!['\n'])),
{
    lemma_no_space_in_token(token);
}

/// A URL in its parts.
#[derive(Debug, Clone, PartialEq, Eq)]
pub struct WebUrl {
    /// The URL in canonical form.
    pub text: String,
    pub scheme: String,
    pub username: String,
    pub password: Option<String>,
    pub host: Option<String>,
}

/// A [`WebUrl`] with its texts as sequences of characters.
#[verifier::ext_equal]
pub struct UrlParts {
    pub text: Seq<char>,
    pub scheme: Seq<char>,
    pub username: Seq<char>,
    pub password: Option<Seq<char>>,
    pub host: Option<Seq<char>>,
}

impl View for WebUrl {
    type V = UrlParts;

    open spec fn view(&self) -> UrlParts {
        UrlParts {
            text: self.text@,
            scheme: self.scheme@,
            username: self.username@,
            password: opt_view(self.password),
            host: opt_view(self.host),
        }
    }
}

/// Outcome of parsing a URL as sequences of characters.
pub open spec fn url_view(r: Result<WebUrl, String>) -> Result<UrlParts, Seq<char>> {
    match r {
        Ok(url) => Ok(url@),
        Err(words) => Err(words@),
    }
}

/// The parts of a URL, or what is wrong with it.
pub uninterp spec fn parsed_url(value: Seq<char>) -> Result<UrlParts, Seq<char>>;

/// `reqwest::Url::parse`, and the parts that it found: a function of the text alone.
#[verifier::external_body]
pub(crate) fn parse_url(value: &str) -> (r: Result<WebUrl, String>)
    ensures
        url_view(r) == parsed_url(value@),
{
    let url = reqwest::Url::parse(value).map_err(|e| e.to_string())?;
    Ok(WebUrl {
        text: url.as_str().to_string(),
        scheme: url.scheme().to_string(),
        username: url.username().to_string(),
        password: url.password().map(|p| p.to_string()),
        host: url.host_str().map(|h| h.to_string()),
    })
}

/// A number from 0 to 255 in decimal, without leading zeros.
pub open spec fn is_octet(part: Seq<char>) -> bool {
    &&& 1 <= part.len() <= 3
    &&& crate::text::all_digits(part)
    &&& part.len() > 1 ==> part[0] != '0'
    &&& crate::text::digits_value(part) <= 255
}

/// An IPv4 loopback address in dotted decimal form.
pub open spec fn is_loopback_quad(host: Seq<char>) -> bool {
    let parts = split_at_char(host, '.');
    &&& parts.len() == 4
    &&& forall|i: int| 0 <= i < 4 ==> is_octet(#[trigger] parts[i])
    &&& parts[0] == "127"@
}

fn octet(part: &str) -> (r: bool)
    ensures
        r == is_octet(part@),
{
    let chars = to_chars(part);
    assert(chars@.skip(0) =~= chars@);
    if chars.len() < 1 || chars.len() > 3 || (chars.len() > 1 && chars[0] == '0') {
        return false;
    }
    match parse_digits(&chars, 0) {
        Some(value) => value <= 255,
        None => false,
    }
}

/// Whether a host is an IPv4 loopback address in dotted decimal form.
pub fn loopback_quad(host: &str) -> (r: bool)
    ensures
        r == is_loopback_quad(host@),
{
    let parts = split(host, '.');
    let ghost all = split_at_char(host@, '.');
    assert forall|i: int| 0 <= i < all.len() implies #[trigger] all[i] == parts@[i]@ by {
        assert(views(parts@)[i] == parts@[i]@);
    }
    if parts.len() != 4 {
        return false;
    }
    let r = octet(parts[0].as_str()) && octet(parts[1].as_str()) && octet(parts[2].as_str())
        && octet(parts[3].as_str()) && same(parts[0].as_str(), "127");
    assert(all[0] == parts@[0]@ && all[1] == parts@[1]@ && all[2] == parts@[2]@ && all[3]
        == parts@[3]@);
    r
}

/// Why a URL cannot be that of the web console, if it cannot.
pub open spec fn url_objection(parsed: Result<UrlParts, Seq<char>>) -> Option<Seq<char>> {
    match parsed {
        Err(words) => Some("invalid web URL: "@ + words),
        Ok(url) => if url.scheme != "http"@ {
            Some("web URL must use plain HTTP on loopback"@)
        } else if url.username.len() > 0 || url.password is Some {
            Some("web URL must not contain credentials"@)
        } else {
            match url.host {
                None => Some("web URL must include a loopback host"@),
                Some(host) => if lowered(host) == lowered("localhost"@) || is_loopback_quad(host) {
                    None
                } else {
                    Some("web URL must use a loopback host"@)
                },
            }
        },
    }
}

/// Accept the parts of a URL for the web console: plain HTTP, on loopback, no credentials.
pub fn check_web_url(parsed: Result<WebUrl, String>) -> (r: Result<WebUrl, String>)
    ensures
        match r {
            Ok(url) => url_objection(url_view(parsed)) is None && parsed == Ok::<
                WebUrl,
                String,
            >(url),
            Err(message) => url_objection(url_view(parsed)) == Some(message@),
        },
{
    match parsed {
        Err(words) => Err("invalid web URL: ".to_owned().concat(words.as_str())),
        Ok(url) => {
            if !same(url.scheme.as_str(), "http") {
                return Err("web URL must use plain HTTP on loopback".to_owned());
            }
            if !url.username.as_str().is_empty() || url.password.is_some() {
                return Err("web URL must not contain credentials".to_owned());
            }
            let loopback = match &url.host {
                None => {
                    return Err("web URL must include a loopback host".to_owned());
                },
                Some(host) => same_ignoring_case(host.as_str(), "localhost") || loopback_quad(
                    host.as_str(),
                ),
            };
            if loopback {
                Ok(url)
            } else {
                Err("web URL must use a loopback host".to_owned())
            }
        },
    }
}

/// Accept the URL of the web console: plain HTTP, on loopback, no credentials.
pub fn validate_web_url(value: &str) -> (r: Result<WebUrl, String>)
    ensures
        match r {
            Ok(url) => {
                &&& url_objection(parsed_url(value@)) is None
                &&& parsed_url(value@) == Ok::<UrlParts, Seq<char>>(url@)
            },
            Err(message) => url_objection(parsed_url(value@)) == Some(message@),
        },
{
    check_web_url(parse_url(value))
}

/// What an agent is told: an answer of the approval gate stands, and without one the action is
/// approved only while the approval gate is off.
pub open spec fn authorization(
    answer: Result<GateDecision, Seq<char>>,
    gate_was_enabled: bool,
    gate_is_enabled: bool,
) -> Result<GateDecision, Seq<char>> {
    match answer {
        Ok(decision) => Ok(decision),
        Err(error) => if gate_was_enabled || gate_is_enabled {
            Err("Gate is enabled but the web control service is unavailable: "@ + error)
        } else {
            Ok(GateDecision::Approved)
        },
    }
}

/// An answer of the approval gate as sequences of characters.
pub open spec fn answer_view(answer: Result<GateDecision, String>) -> Result<
    GateDecision,
    Seq<char>,
> {
    match answer {
        Ok(decision) => Ok(decision),
        Err(error) => Err(error@),
    }
}

/// What an agent is told about an action, given the answer of the approval gate and whether it
/// was enabled before and after asking.
pub fn settle_authorization(
    answer: Result<GateDecision, String>,
    gate_was_enabled: bool,
    gate_is_enabled: bool,
) -> (r: Result<GateDecision, String>)
    ensures
        answer_view(r) == authorization(answer_view(answer), gate_was_enabled, gate_is_enabled),
{
    match answer {
        Ok(decision) => Ok(decision),
        Err(error) => if gate_was_enabled || gate_is_enabled {
            Err(
                "Gate is enabled but the web control service is unavailable: ".to_owned().concat(
                    error.as_str(),
                ),
            )
        } else {
            Ok(GateDecision::Approved)
        },
    }
}

/// The approval gate fails closed: without an answer nothing is approved while it is enabled.
pub proof fn gate_fails_closed(error: Seq<char>, was_enabled: bool, is_enabled: bool)
    requires
        was_enabled || is_enabled,
    ensures
        authorization(Err(error), was_enabled, is_enabled) is Err,
{
}

} // verus!
