//! Side-channel command execution tracking for agent-driven shell work in panes.
//!
//! [`CommandTracker`] holds at most one tracked command per pane and commits a terminal
//! status only from the private side channel, never from what the pane's scrollback shows.
//! It is a state machine: the caller talks to tmux and reads the clock, and hands the
//! tracker what came back.

use crate::errors::{error_text, Error, ErrorView};
use crate::ids::{fresh_id, fresh_secret, is_hyphenated, is_simple};
use crate::keyed::Keyed;
use crate::markers::{
    pane_shell, shell_type_for_pane_command, wrap_tracked_command_side_channel, wrapped_command,
    Bracketed, BracketedOutput,
};
use crate::seqs::{push_contains, take_contains};
use crate::shell::{
    background_at, comment_at, has_unquoted_shell_background_operator,
    has_unquoted_shell_comment_marker,
};
use crate::text::{
    contains_char, less, opt_as_str, opt_or_empty, opt_str_view, opt_view, or_empty, same, same_opt,
    text_less, text_less_total, text_less_transitive, to_chars, views,
};
use crate::types::{CommandExecution, CommandStatus, Execution, ShellType};
use vstd::prelude::*;

pub use crate::markers::{
    get_end_marker, get_start_marker, END_MARKER_PREFIX, START_MARKER_PREFIX,
};

verus! {

/// Captures tried for the final output of a command.
pub const FINAL_OUTPUT_CAPTURE_ATTEMPTS: usize = 3;

/// Pause between two captures of the final output, in milliseconds.
pub const FINAL_OUTPUT_CAPTURE_RETRY_DELAY_MS: u64 = 10;

/// Output of a command as far as a bounded capture shows it.
#[derive(Debug, Clone, PartialEq, Eq)]
pub struct CapturedOutput {
    pub output: Option<String>,
    /// Capture completeness only; the command's lifecycle is the side channel's affair.
    pub truncated: bool,
}

/// A [`CapturedOutput`] with its text as a sequence of characters.
#[verifier::ext_equal]
pub struct Captured {
    pub output: Option<Seq<char>>,
    pub truncated: bool,
}

impl View for CapturedOutput {
    type V = Captured;

    open spec fn view(&self) -> Captured {
        Captured { output: opt_view(self.output), truncated: self.truncated }
    }
}

impl Captured {
    /// No output could be isolated.
    pub open spec fn unavailable() -> Captured {
        Captured { output: None, truncated: true }
    }

    /// What one capture shows of a command that may still run.
    pub open spec fn of_running(capture: Option<Bracketed>) -> Captured {
        match capture {
            Some(Bracketed::Complete(output)) => Captured { output: Some(output), truncated: false },
            Some(Bracketed::Open(output)) => Captured { output: Some(output), truncated: true },
            Some(Bracketed::MissingStart) => Captured::unavailable(),
            None => Captured::unavailable(),
        }
    }

    /// The output is there with its end.
    pub open spec fn shows_end(self) -> bool {
        self.output is Some && !self.truncated
    }
}

/// What one capture shows, where the capture itself may have failed.
pub open spec fn capture_view(capture: Option<BracketedOutput>) -> Option<Bracketed> {
    match capture {
        Some(b) => Some(b@),
        None => None,
    }
}

impl CapturedOutput {
    /// No output could be isolated.
    pub fn unavailable() -> (r: Self)
        ensures
            r@ == Captured::unavailable(),
    {
        CapturedOutput { output: None, truncated: true }
    }

    /// What one capture shows of a command that may still run; `None` when it failed.
    pub fn of_running(capture: Option<BracketedOutput>) -> (r: Self)
        ensures
            r@ == Captured::of_running(capture_view(capture)),
    {
        match capture {
            Some(BracketedOutput::Complete(output)) => CapturedOutput {
                output: Some(output),
                truncated: false,
            },
            Some(BracketedOutput::Open(output)) => CapturedOutput {
                output: Some(output),
                truncated: true,
            },
            Some(BracketedOutput::MissingStart) => CapturedOutput::unavailable(),
            None => CapturedOutput::unavailable(),
        }
    }

    /// Whether the output is there with its end.
    pub fn shows_end(&self) -> (r: bool)
        ensures
            r == self@.shows_end(),
    {
        self.output.is_some() && !self.truncated
    }
}

/// The final output of a command, from successive captures.
///
/// A capture that shows both markers settles it, and so does one without START. An open
/// capture is kept and a failed one passed over, until the attempts are used up.
pub open spec fn terminal_capture(
    captures: Seq<Option<Bracketed>>,
    attempt: nat,
    best: Option<Seq<char>>,
) -> Captured
    decreases captures.len(),
{
    if attempt >= FINAL_OUTPUT_CAPTURE_ATTEMPTS || captures.len() == 0 {
        Captured { output: best, truncated: true }
    } else {
        match captures[0] {
            Some(Bracketed::Complete(output)) => Captured { output: Some(output), truncated: false },
            Some(Bracketed::MissingStart) => Captured { output: best, truncated: true },
            Some(Bracketed::Open(output)) => terminal_capture(
                captures.skip(1),
                attempt + 1,
                Some(output),
            ),
            None => terminal_capture(captures.skip(1), attempt + 1, best),
        }
    }
}

/// How far the final capture of a command has come: captures taken so far, and the latest
/// output seen without its end.
#[verifier::ext_equal]
pub struct CaptureProgress {
    pub attempts: nat,
    pub best: Option<Seq<char>>,
}

/// What comes after one capture of the final output.
#[verifier::ext_equal]
pub enum CaptureDecision {
    Done(Captured),
    Retry(CaptureProgress),
}

impl CaptureProgress {
    /// Before the first capture.
    pub open spec fn start() -> CaptureProgress {
        CaptureProgress { attempts: 0, best: None }
    }

    /// What comes after one more capture.
    pub open spec fn after(self, capture: Option<Bracketed>) -> CaptureDecision {
        let best = match capture {
            Some(Bracketed::Open(output)) => Some(output),
            _ => self.best,
        };
        match capture {
            Some(Bracketed::Complete(output)) => CaptureDecision::Done(
                Captured { output: Some(output), truncated: false },
            ),
            Some(Bracketed::MissingStart) => CaptureDecision::Done(
                Captured { output: self.best, truncated: true },
            ),
            _ => if self.attempts + 1 < FINAL_OUTPUT_CAPTURE_ATTEMPTS {
                CaptureDecision::Retry(CaptureProgress { attempts: self.attempts + 1, best })
            } else {
                CaptureDecision::Done(Captured { output: best, truncated: true })
            },
        }
    }

    /// Capture by capture, the decisions lead to the final output of all captures in order.
    pub proof fn decisions_lead_to_the_final_output(
        self,
        capture: Option<Bracketed>,
        rest: Seq<Option<Bracketed>>,
    )
        requires
            self.attempts < FINAL_OUTPUT_CAPTURE_ATTEMPTS,
        ensures
            terminal_capture(seq![capture] + rest, self.attempts, self.best) == (match self.after(
                capture,
            ) {
                CaptureDecision::Done(captured) => captured,
                CaptureDecision::Retry(next) => terminal_capture(rest, next.attempts, next.best),
            }),
    {
        reveal_with_fuel(terminal_capture, 2);
        let all = seq![capture] + rest;
        assert(all[0] == capture);
        assert(all.skip(1) =~= rest);
    }
}

/// Progress of the final capture of a command.
#[derive(Debug, Clone, PartialEq, Eq)]
pub struct TerminalCapture {
    attempt: usize,
    best_open_output: Option<String>,
}

/// What comes after one capture of the final output.
#[derive(Debug, Clone, PartialEq, Eq)]
pub enum CaptureStep {
    /// The final output is settled.
    Done(CapturedOutput),
    /// Wait for [`FINAL_OUTPUT_CAPTURE_RETRY_DELAY_MS`] and capture again.
    Retry(TerminalCapture),
}

impl View for TerminalCapture {
    type V = CaptureProgress;

    closed spec fn view(&self) -> CaptureProgress {
        CaptureProgress { attempts: self.attempt as nat, best: opt_view(self.best_open_output) }
    }
}

impl View for CaptureStep {
    type V = CaptureDecision;

    open spec fn view(&self) -> CaptureDecision {
        match self {
            CaptureStep::Done(captured) => CaptureDecision::Done(captured@),
            CaptureStep::Retry(next) => CaptureDecision::Retry(next@),
        }
    }
}

impl TerminalCapture {
    /// Before the first capture.
    pub fn start() -> (r: Self)
        ensures
            r@ == CaptureProgress::start(),
    {
        TerminalCapture { attempt: 0, best_open_output: None }
    }

    /// Whether a capture has been taken before.
    pub fn is_retry(&self) -> (r: bool)
        ensures
            r == (self@.attempts > 0),
    {
        self.attempt > 0
    }

    /// One capture has been taken; `None` when it failed.
    pub fn step(self, capture: Option<BracketedOutput>) -> (r: CaptureStep)
        requires
            self@.attempts < FINAL_OUTPUT_CAPTURE_ATTEMPTS,
        ensures
            r@ == self@.after(capture_view(capture)),
    {
        let attempt: usize = self.attempt + 1;
        let best_open_output = match capture {
            Some(BracketedOutput::Complete(output)) => {
                return CaptureStep::Done(CapturedOutput { output: Some(output), truncated: false });
            },
            Some(BracketedOutput::MissingStart) => {
                return CaptureStep::Done(
                    CapturedOutput { output: self.best_open_output, truncated: true },
                );
            },
            Some(BracketedOutput::Open(output)) => Some(output),
            None => self.best_open_output,
        };
        if attempt < FINAL_OUTPUT_CAPTURE_ATTEMPTS {
            CaptureStep::Retry(TerminalCapture { attempt, best_open_output })
        } else {
            CaptureStep::Done(CapturedOutput { output: best_open_output, truncated: true })
        }
    }
}

/// Lifecycle event published after a durable tracker commit.
#[derive(Debug, Clone, PartialEq, Eq)]
pub struct CommandEvent {
    /// Command id that was created, updated, completed, or evicted.
    pub command_id: String,
    /// Resource URI of the command's result, for subscription matching.
    pub resource_uri: String,
    pub kind: CommandEventKind,
    /// Status at the moment of the durable commit.
    pub status: CommandStatus,
}

/// Kind of durable commit that produced a [`CommandEvent`].
#[derive(Debug, Clone, Copy, PartialEq, Eq, Structural)]
pub enum CommandEventKind {
    /// Command accepted and inserted into the tracker.
    Created,
    /// Non-terminal field refresh.
    Updated,
    /// Terminal status and its final bounded capture attempt are ready to read.
    Terminal,
    /// Record removed by retention, pane purge, or abandon window.
    Evicted,
}

/// A [`CommandEvent`] with its texts as sequences of characters.
#[verifier::ext_equal]
pub struct Event {
    pub command_id: Seq<char>,
    pub resource_uri: Seq<char>,
    pub kind: CommandEventKind,
    pub status: CommandStatus,
}

impl View for CommandEvent {
    type V = Event;

    open spec fn view(&self) -> Event {
        Event {
            command_id: self.command_id@,
            resource_uri: self.resource_uri@,
            kind: self.kind,
            status: self.status,
        }
    }
}

impl Event {
    /// The event about a record.
    pub open spec fn of(kind: CommandEventKind, exec: Execution) -> Event {
        Event { command_id: exec.id, resource_uri: exec.uri(), kind, status: exec.status }
    }
}

impl CommandEvent {
    /// The event about a record.
    pub fn of(kind: CommandEventKind, exec: &CommandExecution) -> (r: Self)
        ensures
            r@ == Event::of(kind, exec@),
    {
        CommandEvent {
            command_id: exec.id.clone(),
            resource_uri: exec.resource_uri(),
            kind,
            status: exec.status,
        }
    }
}

/// An optional event with its texts as sequences of characters.
pub open spec fn event_view(event: Option<CommandEvent>) -> Option<Event> {
    match event {
        Some(e) => Some(e@),
        None => None,
    }
}

/// Events with their texts as sequences of characters.
pub open spec fn event_views(events: Seq<CommandEvent>) -> Seq<Event> {
    Seq::new(events.len(), |i: int| events[i]@)
}

/// Capture, retention, and deadline budgets for tracked commands.
#[derive(Debug, Clone, Copy, PartialEq, Eq, Structural)]
pub struct TrackingConfig {
    /// Lines of scrollback captured when refreshing partial output for running commands.
    pub capture_initial_lines: u32,
    /// Upper bound on lines used when bracketing START/DONE markers for output only.
    pub capture_max_lines: u32,
    /// Kept for configuration compatibility; completion does not use capture backoff.
    pub capture_backoff_factor: u32,
    /// How long terminal command records stay queryable before eviction.
    pub completed_retention_minutes: u64,
    /// Cap on retained terminal records (oldest completed first when over budget).
    pub completed_max_entries: u32,
    /// Interval for checking whether a long-running side-channel waiter was purged.
    pub tracking_deadline_seconds: u64,
}

impl Default for TrackingConfig {
    fn default() -> (r: Self)
        ensures
            r == (TrackingConfig {
                capture_initial_lines: 1000,
                capture_max_lines: 16_000,
                capture_backoff_factor: 2,
                completed_retention_minutes: 240,
                completed_max_entries: 1000,
                tracking_deadline_seconds: 600,
            }),
    {
        TrackingConfig {
            capture_initial_lines: 1000,
            capture_max_lines: 16_000,
            capture_backoff_factor: 2,
            completed_retention_minutes: 240,
            completed_max_entries: 1000,
            tracking_deadline_seconds: 600,
        }
    }
}

pub open spec fn at_least_one(n: int) -> int {
    if n < 1 {
        1
    } else {
        n
    }
}

/// Lines captured for the final output of a command: the configured bound, at least one.
pub fn final_capture_lines(tracking: &TrackingConfig) -> (r: u32)
    ensures
        r == at_least_one(tracking.capture_max_lines as int),
{
    if tracking.capture_max_lines < 1 {
        1
    } else {
        tracking.capture_max_lines
    }
}

/// Lines captured for the partial output of a running command: at least one, and never more
/// than the final capture takes.
pub fn partial_capture_lines(tracking: &TrackingConfig) -> (r: u32)
    ensures
        r == vstd::math::min(
            at_least_one(tracking.capture_initial_lines as int),
            at_least_one(tracking.capture_max_lines as int),
        ),
{
    let most: u32 = final_capture_lines(tracking);
    let wanted: u32 = if tracking.capture_initial_lines < 1 {
        1
    } else {
        tracking.capture_initial_lines
    };
    if wanted < most {
        wanted
    } else {
        most
    }
}

/// Seconds between two checks whether a command is still tracked, and the time limit of its
/// final capture.
pub fn checkpoint_seconds(tracking: &TrackingConfig) -> (r: u64)
    ensures
        r == at_least_one(tracking.tracking_deadline_seconds as int),
{
    if tracking.tracking_deadline_seconds < 1 {
        1
    } else {
        tracking.tracking_deadline_seconds
    }
}

/// Nanoseconds from `then` to `now`; none when the clock reads earlier.
pub open spec fn age(then: u64, now: u64) -> int {
    if now <= then {
        0
    } else {
        now - then
    }
}

/// Nanoseconds that terminal records are kept.
pub open spec fn retention_window(tracking: TrackingConfig) -> int {
    vstd::math::min(tracking.completed_retention_minutes * 60, u64::MAX as int) * 1_000_000_000
}

/// Nanoseconds after which an unfinished record without a pane counts as abandoned.
pub open spec fn abandon_window(tracking: TrackingConfig) -> int {
    at_least_one(
        tracking.tracking_deadline_seconds + vstd::math::min(
            tracking.completed_retention_minutes * 60,
            u64::MAX as int,
        ),
    ) * 1_000_000_000
}

/// A record that is too old to be kept.
pub open spec fn outlived(exec: Execution, tracking: TrackingConfig, now: u64) -> bool {
    if !exec.status.terminal() {
        age(exec.started_at, now) >= abandon_window(tracking)
    } else {
        match exec.completed_at {
            Some(completed) => age(completed, now) >= retention_window(tracking),
            None => false,
        }
    }
}

fn retention_seconds(tracking: &TrackingConfig) -> (r: u64)
    ensures
        r == vstd::math::min(tracking.completed_retention_minutes * 60, u64::MAX as int),
{
    if tracking.completed_retention_minutes > u64::MAX / 60 {
        u64::MAX
    } else {
        tracking.completed_retention_minutes * 60
    }
}

/// Whether `seconds` have passed from `then` to `now`.
fn has_passed(then: u64, now: u64, seconds: u128) -> (r: bool)
    requires
        seconds <= 2 * u64::MAX,
    ensures
        r == (age(then, now) >= seconds * 1_000_000_000),
{
    let elapsed: u64 = if now <= then {
        0
    } else {
        now - then
    };
    elapsed as u128 >= seconds * 1_000_000_000
}

fn is_outlived(exec: &CommandExecution, tracking: &TrackingConfig, now: u64) -> (r: bool)
    ensures
        r == outlived(exec@, *tracking, now),
{
    let retention: u64 = retention_seconds(tracking);
    if !exec.status.is_terminal() {
        let window: u128 = tracking.tracking_deadline_seconds as u128 + retention as u128;
        let window: u128 = if window < 1 {
            1
        } else {
            window
        };
        has_passed(exec.started_at, now, window)
    } else {
        match exec.completed_at {
            Some(completed) => has_passed(completed, now, retention as u128),
            None => false,
        }
    }
}

/// Occupancy key of a pane: pane ids are only unique within one tmux server, and a server is
/// one socket on one target.
pub open spec fn pane_key(
    target: Option<Seq<char>>,
    socket: Option<Seq<char>>,
    pane_id: Seq<char>,
) -> Seq<char> {
    or_empty(target) + "|"@ + or_empty(socket) + "|"@ + pane_id
}

fn key_of_pane(target: Option<&str>, socket: Option<&str>, pane_id: &str) -> (r: String)
    ensures
        r@ == pane_key(opt_str_view(target), opt_str_view(socket), pane_id@),
{
    let mut key = opt_or_empty(target).to_owned();
    key.append("|");
    key.append(opt_or_empty(socket));
    key.append("|");
    key.append(pane_id);
    key
}

impl Execution {
    /// Occupancy key of the pane this command was sent to.
    pub open spec fn pane_key(self) -> Seq<char> {
        pane_key(self.target, self.socket, self.pane_id)
    }

    /// This record with the output that a capture showed. Output that was isolated before is
    /// kept where the capture isolated none.
    pub open spec fn with_captured(self, captured: Captured) -> Execution {
        Execution {
            output: if captured.output is Some {
                captured.output
            } else {
                self.output
            },
            output_truncated: captured.truncated,
            ..self
        }
    }
}

/// Take over the output that a capture showed.
pub fn apply_captured_output(exec: &mut CommandExecution, captured: CapturedOutput)
    ensures
        final(exec)@ == old(exec)@.with_captured(captured@),
{
    if captured.output.is_some() {
        exec.output = captured.output;
    }
    exec.output_truncated = captured.truncated;
}

/// State of the tracker: the records by command id, the private side-channel secrets by
/// command id, and the command id that occupies each pane.
#[verifier::ext_equal]
pub struct Tracker {
    pub commands: Map<Seq<char>, Execution>,
    pub secrets: Map<Seq<char>, Seq<char>>,
    pub running: Map<Seq<char>, Seq<char>>,
    pub shell: ShellType,
    pub tracking: TrackingConfig,
}

impl Tracker {
    /// The command with this id occupies some pane.
    pub open spec fn occupied(self, id: Seq<char>) -> bool {
        exists|key: Seq<char>|
            self.running.dom().contains(key) && #[trigger] self.running[key] == id
    }

    /// A record exists under this id, for work bound to `target`.
    pub open spec fn visible(self, id: Seq<char>, target: Option<Seq<char>>) -> bool {
        self.commands.dom().contains(id) && self.commands[id].target == target
    }

    /// A record that has not reached a terminal status exists under this id.
    pub open spec fn unresolved(self, id: Seq<char>) -> bool {
        self.commands.dom().contains(id) && !self.commands[id].status.terminal()
    }

    /// Records that age lets stay: a command that occupies a pane always does.
    pub open spec fn kept_by_age(self, id: Seq<char>, now: u64) -> bool {
        &&& self.commands.dom().contains(id)
        &&& self.occupied(id) || !outlived(self.commands[id], self.tracking, now)
    }

    /// Records that count against the cap on retained terminal records.
    pub open spec fn counts_against_cap(self, id: Seq<char>, now: u64) -> bool {
        &&& self.kept_by_age(id, now)
        &&& self.commands[id].status.terminal()
        &&& self.commands[id].completed_at is Some
        &&& !self.occupied(id)
    }

    /// The ids that count against the cap.
    pub open spec fn capped(self, now: u64) -> Set<Seq<char>> {
        self.commands.dom().filter(|id: Seq<char>| self.counts_against_cap(id, now))
    }

    /// `after` is this state with outlived records evicted, and then the oldest terminal
    /// records beyond the cap.
    pub open spec fn cleaned(self, after: Tracker, now: u64) -> bool {
        let max = self.tracking.completed_max_entries as nat;
        &&& after.running == self.running
        &&& after.shell == self.shell
        &&& after.tracking == self.tracking
        &&& after.commands.submap_of(self.commands)
        &&& forall|id: Seq<char>| #[trigger]
            after.commands.dom().contains(id) ==> self.kept_by_age(id, now)
        &&& forall|id: Seq<char>|
            self.kept_by_age(id, now) && !self.capped(now).contains(id) ==> #[trigger]
            after.commands.dom().contains(id)
        &&& self.capped(now).finite()
        &&& self.capped(now).intersect(after.commands.dom()).len() == (if max > 0
            && self.capped(now).len() > max {
            max
        } else {
            self.capped(now).len()
        })
        &&& forall|gone: Seq<char>, kept: Seq<char>|
            #![trigger self.commands[gone], self.commands[kept]]
            self.capped(now).contains(gone) && !after.commands.dom().contains(gone)
                && self.capped(now).contains(kept) && after.commands.dom().contains(kept)
                ==> self.commands[gone].completed_at->0 <= self.commands[kept].completed_at->0
        &&& after.secrets == self.secrets.remove_keys(
            self.commands.dom().difference(after.commands.dom()),
        )
    }

    /// `events` report, once each, the records that this state has and `after` has not.
    pub open spec fn evictions(self, after: Tracker, events: Seq<Event>) -> bool {
        &&& forall|i: int|
            0 <= i < events.len() ==> {
                &&& self.commands.dom().contains((#[trigger] events[i]).command_id)
                &&& !after.commands.dom().contains(events[i].command_id)
                &&& events[i] == Event::of(
                    CommandEventKind::Evicted,
                    self.commands[events[i].command_id],
                )
            }
        &&& forall|i: int, j: int|
            0 <= i < j < events.len() ==> (#[trigger] events[i]).command_id != (
            #[trigger] events[j]).command_id
        &&& forall|id: Seq<char>| #[trigger]
            self.commands.dom().contains(id) && !after.commands.dom().contains(id)
                ==> exists|i: int| 0 <= i < events.len() && (#[trigger] events[i]).command_id == id
    }

    /// Every record is stored under its own id.
    pub open spec fn keyed_by_id(self) -> bool {
        forall|id: Seq<char>| #[trigger]
            self.commands.dom().contains(id) ==> self.commands[id].id == id
    }

    /// Every occupied pane is occupied by a record of that pane, and secrets belong to records.
    pub open spec fn consistent(self) -> bool {
        &&& forall|key: Seq<char>| #[trigger]
            self.running.dom().contains(key) ==> {
                &&& self.commands.dom().contains(self.running[key])
                &&& self.commands[self.running[key]].pane_key() == key
            }
        &&& self.secrets.dom().subset_of(self.commands.dom())
    }
}

/// In-process registry of running and recently completed pane commands.
///
/// A second launch for the same pane is rejected while the first command is unresolved.
/// Tracking errors keep the pane occupied: whether the command still runs is then uncertain.
#[derive(Debug, Clone)]
pub struct CommandTracker {
    /// All live records by command id (including terminal ones until eviction).
    commands: Keyed<CommandExecution>,
    /// Private side-channel secrets by command id.
    secrets: Keyed<String>,
    /// Current command id by occupancy key.
    pane_running: Keyed<String>,
    /// Process-default shell dialect; a pane's foreground program may override it.
    shell_type: ShellType,
    tracking: TrackingConfig,
}

impl View for CommandTracker {
    type V = Tracker;

    closed spec fn view(&self) -> Tracker {
        Tracker {
            commands: self.commands@,
            secrets: self.secrets@,
            running: self.pane_running@,
            shell: self.shell_type,
            tracking: self.tracking,
        }
    }
}

impl CommandTracker {
    /// Every record is stored under its own id.
    pub closed spec fn wf(&self) -> bool {
        &&& self.commands.wf()
        &&& self.secrets.wf()
        &&& self.pane_running.wf()
        &&& self@.keyed_by_id()
    }

    /// Build a tracker with default capture/retention budgets for `shell_type`.
    pub fn new(shell_type: ShellType) -> (r: Self)
        ensures
            r.wf(),
            r@ == (Tracker {
                commands: Map::empty(),
                secrets: Map::empty(),
                running: Map::empty(),
                shell: shell_type,
                tracking: TrackingConfig {
                    capture_initial_lines: 1000,
                    capture_max_lines: 16_000,
                    capture_backoff_factor: 2,
                    completed_retention_minutes: 240,
                    completed_max_entries: 1000,
                    tracking_deadline_seconds: 600,
                },
            }),
    {
        CommandTracker::with_tracking(shell_type, TrackingConfig::default())
    }

    /// Build a tracker with caller-supplied capture/retention budgets.
    pub fn with_tracking(shell_type: ShellType, tracking: TrackingConfig) -> (r: Self)
        ensures
            r.wf(),
            r@ == (Tracker {
                commands: Map::empty(),
                secrets: Map::empty(),
                running: Map::empty(),
                shell: shell_type,
                tracking,
            }),
    {
        CommandTracker {
            commands: Keyed::new(),
            secrets: Keyed::new(),
            pane_running: Keyed::new(),
            shell_type,
            tracking,
        }
    }

    /// Capture, retention, and deadline budgets.
    pub fn tracking(&self) -> (r: TrackingConfig)
        ensures
            r == self@.tracking,
    {
        self.tracking
    }

    /// The command id occupying one pane.
    pub fn pane_command_id(&self, target: Option<&str>, pane_id: &str, socket: Option<&str>) -> (r:
        Option<String>)
        requires
            self.wf(),
        ensures
            opt_view(r) == (if self@.running.dom().contains(
                pane_key(opt_str_view(target), opt_str_view(socket), pane_id@),
            ) {
                Some(
                    self@.running[pane_key(
                        opt_str_view(target),
                        opt_str_view(socket),
                        pane_id@,
                    )],
                )
            } else {
                None
            }),
    {
        let key = key_of_pane(target, socket, pane_id);
        match self.pane_running.get(key.as_str()) {
            Some(id) => Some(id.clone()),
            None => None,
        }
    }

    /// Whether the command with this id occupies some pane.
    fn is_occupied(&self, id: &str) -> (r: bool)
        requires
            self.wf(),
        ensures
            r == self@.occupied(id@),
    {
        proof {
            self.pane_running.lemma_keys();
        }
        let mut i: usize = 0;
        while i < self.pane_running.len()
            invariant
                i <= self.pane_running.keys().len(),
                self.wf(),
                forall|j: int|
                    0 <= j < i ==> self@.running[#[trigger] self.pane_running.keys()[j]] != id@,
            decreases self.pane_running.keys().len() - i,
        {
            if same(self.pane_running.value(i).as_str(), id) {
                assert(self@.running[self.pane_running.keys()[i as int]] == id@);
                return true;
            }
            i += 1;
        }
        false
    }

    /// The record of a command of the bound target, as it stands.
    pub fn peek_command(&self, id: &str, target: Option<&str>) -> (r: Option<CommandExecution>)
        requires
            self.wf(),
        ensures
            match r {
                Some(exec) => self@.visible(id@, opt_str_view(target)) && exec@
                    == self@.commands[id@],
                None => !self@.visible(id@, opt_str_view(target)),
            },
    {
        match self.commands.get(id) {
            Some(exec) => if same_opt(opt_as_str(&exec.target), target) {
                Some(exec.copy())
            } else {
                None
            },
            None => None,
        }
    }

    /// True if a record of the bound target exists (including terminal until eviction).
    pub fn has_command(&self, id: &str, target: Option<&str>) -> (r: bool)
        requires
            self.wf(),
        ensures
            r == self@.visible(id@, opt_str_view(target)),
    {
        match self.commands.get(id) {
            Some(exec) => same_opt(opt_as_str(&exec.target), target),
            None => false,
        }
    }

    /// Whether a record that has not reached a terminal status exists under this id.
    pub fn is_unresolved(&self, id: &str) -> (r: bool)
        requires
            self.wf(),
        ensures
            r == self@.unresolved(id@),
    {
        match self.commands.get(id) {
            Some(exec) => !exec.status.is_terminal(),
            None => false,
        }
    }

    /// Ids of the bound target's records.
    pub fn get_active_ids(&self, target: Option<&str>) -> (r: Vec<String>)
        requires
            self.wf(),
        ensures
            views(r@).no_duplicates(),
            forall|id: Seq<char>|
                views(r@).contains(id) == self@.visible(id, opt_str_view(target)),
    {
        proof {
            self.commands.lemma_keys();
        }
        let ghost keys = self.commands.keys();
        let mut ids: Vec<String> = Vec::new();
        let mut i: usize = 0;
        while i < self.commands.len()
            invariant
                i <= keys.len(),
                keys == self.commands.keys(),
                self.wf(),
                keys.no_duplicates(),
                views(ids@).no_duplicates(),
                forall|id: Seq<char>| #[trigger]
                    views(ids@).contains(id) == (keys.take(i as int).contains(id) && self@.visible(
                        id,
                        opt_str_view(target),
                    )),
            decreases keys.len() - i,
        {
            let exec = self.commands.value(i);
            proof {
                take_contains(keys, i as int);
                assert(self@.commands.dom().contains(keys[i as int]));
            }
            if same_opt(opt_as_str(&exec.target), target) {
                let ghost before = views(ids@);
                ids.push(exec.id.clone());
                proof {
                    assert(views(ids@) =~= before.push(keys[i as int]));
                    assert(!before.contains(keys[i as int]));
                    push_contains(before, keys[i as int]);
                }
            }
            i += 1;
        }
        proof {
            assert(keys.take(keys.len() as int) =~= keys);
            assert forall|id: Seq<char>| views(ids@).contains(id) == self@.visible(
                id,
                opt_str_view(target),
            ) by {
                if self@.visible(id, opt_str_view(target)) {
                    assert(self.commands@.dom().contains(id));
                    let j = choose|j: int| 0 <= j < keys.len() && #[trigger] keys[j] == id;
                    assert(keys.contains(id));
                }
            }
        }
        ids
    }
}

/// The ids in a list, as a set.
pub open spec fn id_set(ids: Seq<String>) -> Set<Seq<char>> {
    Set::new(|id: Seq<char>| views(ids).contains(id))
}

impl Tracker {
    /// This state without the records in `ids` and their secrets.
    pub open spec fn without(self, ids: Set<Seq<char>>) -> Tracker {
        Tracker {
            commands: self.commands.remove_keys(ids),
            secrets: self.secrets.remove_keys(ids),
            ..self
        }
    }

    /// The record under `id` belongs to this pane.
    pub open spec fn in_pane(
        self,
        id: Seq<char>,
        target: Option<Seq<char>>,
        pane_id: Seq<char>,
        socket: Option<Seq<char>>,
    ) -> bool {
        &&& self.visible(id, target)
        &&& self.commands[id].pane_id == pane_id
        &&& self.commands[id].socket == socket
    }

    /// The records of one pane.
    pub open spec fn pane_records(
        self,
        target: Option<Seq<char>>,
        pane_id: Seq<char>,
        socket: Option<Seq<char>>,
    ) -> Set<Seq<char>> {
        self.commands.dom().filter(|id: Seq<char>| self.in_pane(id, target, pane_id, socket))
    }

    /// This state after everything bound to a pane is dropped.
    pub open spec fn purged(
        self,
        target: Option<Seq<char>>,
        pane_id: Seq<char>,
        socket: Option<Seq<char>>,
    ) -> Tracker {
        Tracker {
            running: self.running.remove(pane_key(target, socket, pane_id)),
            ..self.without(self.pane_records(target, pane_id, socket))
        }
    }
}

impl CommandTracker {
    /// Drop these records and their secrets; reports each.
    fn evict_all(&mut self, ids: &Vec<String>) -> (r: Vec<CommandEvent>)
        requires
            old(self).wf(),
            views(ids@).no_duplicates(),
            forall|i: int|
                0 <= i < ids@.len() ==> old(self)@.commands.dom().contains(
                    (#[trigger] ids@[i])@,
                ),
        ensures
            final(self).wf(),
            final(self)@ == old(self)@.without(id_set(ids@)),
            old(self)@.evictions(final(self)@, event_views(r@)),
            r@.len() == ids@.len(),
    {
        let mut events: Vec<CommandEvent> = Vec::new();
        let mut i: usize = 0;
        assert(self@ =~= old(self)@.without(id_set(ids@.take(0))));
        while i < ids.len()
            invariant
                i <= ids@.len(),
                self.wf(),
                old(self)@.keyed_by_id(),
                views(ids@).no_duplicates(),
                forall|j: int|
                    0 <= j < ids@.len() ==> old(self)@.commands.dom().contains(
                        (#[trigger] ids@[j])@,
                    ),
                self@ == old(self)@.without(id_set(ids@.take(i as int))),
                events@.len() == i,
                forall|j: int|
                    0 <= j < i ==> (#[trigger] events@[j])@ == Event::of(
                        CommandEventKind::Evicted,
                        old(self)@.commands[ids@[j]@],
                    ),
            decreases ids@.len() - i,
        {
            let ghost before = self@;
            let ghost id = ids@[i as int]@;
            proof {
                let all = views(ids@);
                take_contains(all, i as int);
                assert(views(ids@.take(i as int)) =~= all.take(i as int));
                assert(views(ids@.take(i as int + 1)) =~= all.take(i as int + 1));
                assert(all[i as int] == id);
                assert(old(self)@.commands.dom().contains(id));
                assert(!id_set(ids@.take(i as int)).contains(id));
                assert(id_set(ids@.take(i as int + 1)) =~= id_set(ids@.take(i as int)).insert(id));
            }
            let removed = self.commands.remove(ids[i].as_str());
            let _ = self.secrets.remove(ids[i].as_str());
            if let Some(exec) = removed {
                events.push(CommandEvent::of(CommandEventKind::Evicted, &exec));
            }
            proof {
                assert(self@ =~= old(self)@.without(id_set(ids@.take(i as int + 1))));
            }
            i += 1;
        }
        proof {
            assert(ids@.take(ids@.len() as int) =~= ids@);
            let reported = event_views(events@);
            assert forall|j: int| 0 <= j < reported.len() implies {
                &&& old(self)@.commands.dom().contains((#[trigger] reported[j]).command_id)
                &&& !self@.commands.dom().contains(reported[j].command_id)
                &&& reported[j] == Event::of(
                    CommandEventKind::Evicted,
                    old(self)@.commands[reported[j].command_id],
                )
            } by {
                let id = ids@[j]@;
                assert(events@[j]@ == reported[j]);
                assert(old(self)@.commands.dom().contains(id));
                assert(views(ids@)[j] == id);
            }
            assert forall|j: int, k: int| 0 <= j < k < reported.len() implies (
            #[trigger] reported[j]).command_id != (#[trigger] reported[k]).command_id by {
                assert(events@[j]@ == reported[j] && events@[k]@ == reported[k]);
                assert(old(self)@.commands.dom().contains(ids@[j]@));
                assert(old(self)@.commands.dom().contains(ids@[k]@));
                assert(views(ids@)[j] != views(ids@)[k]);
            }
            assert forall|id: Seq<char>| #[trigger]
                old(self)@.commands.dom().contains(id) && !self@.commands.dom().contains(
                    id,
                ) implies exists|j: int|
                0 <= j < reported.len() && (#[trigger] reported[j]).command_id == id by {
                assert(views(ids@).contains(id));
                let j = choose|j: int| 0 <= j < views(ids@).len() && views(ids@)[j] == id;
                assert(events@[j]@ == reported[j]);
                assert(old(self)@.commands.dom().contains(ids@[j]@));
                assert(reported[j].command_id == id);
            }
        }
        events
    }

    /// Drop every record bound to a pane of one tmux server, and the pane's occupancy.
    ///
    /// Returns the number of records dropped and an event for each.
    pub fn purge_pane(&mut self, target: Option<&str>, pane_id: &str, socket: Option<&str>) -> (r: (
        usize,
        Vec<CommandEvent>,
    ))
        requires
            old(self).wf(),
        ensures
            final(self).wf(),
            final(self)@ == old(self)@.purged(
                opt_str_view(target),
                pane_id@,
                opt_str_view(socket),
            ),
            old(self)@.evictions(final(self)@, event_views(r.1@)),
            r.0 == r.1@.len(),
            old(self)@.consistent() ==> final(self)@.consistent(),
    {
        let ghost t = opt_str_view(target);
        let ghost s = opt_str_view(socket);
        let ghost keys = self.commands.keys();
        proof {
            self.commands.lemma_keys();
        }
        let mut ids: Vec<String> = Vec::new();
        let mut i: usize = 0;
        while i < self.commands.len()
            invariant
                i <= keys.len(),
                keys == self.commands.keys(),
                self.wf(),
                *self == *old(self),
                t == opt_str_view(target),
                s == opt_str_view(socket),
                keys.no_duplicates(),
                views(ids@).no_duplicates(),
                forall|j: int| 0 <= j < ids@.len() ==> self@.in_pane(#[trigger] ids@[j]@, t, pane_id@, s),
                forall|id: Seq<char>| #[trigger]
                    views(ids@).contains(id) == (keys.take(i as int).contains(id) && self@.in_pane(
                        id,
                        t,
                        pane_id@,
                        s,
                    )),
            decreases keys.len() - i,
        {
            let exec = self.commands.value(i);
            let ghost id = keys[i as int];
            proof {
                take_contains(keys, i as int);
                assert(self@.commands.dom().contains(id));
            }
            if same_opt(opt_as_str(&exec.target), target) && same(exec.pane_id.as_str(), pane_id)
                && same_opt(opt_as_str(&exec.socket), socket) {
                let ghost before = views(ids@);
                ids.push(exec.id.clone());
                proof {
                    assert(views(ids@) =~= before.push(id));
                    assert(!before.contains(id));
                    push_contains(before, id);
                }
            }
            i += 1;
        }
        proof {
            assert(keys.take(keys.len() as int) =~= keys);
            assert(id_set(ids@) =~= self@.pane_records(t, pane_id@, s)) by {
                assert forall|id: Seq<char>| self@.in_pane(id, t, pane_id@, s) implies views(
                    ids@,
                ).contains(id) by {
                    assert(self.commands@.dom().contains(id));
                    let j = choose|j: int| 0 <= j < keys.len() && #[trigger] keys[j] == id;
                    assert(keys.contains(id));
                }
            }
        }
        let events = self.evict_all(&ids);
        let key = key_of_pane(target, socket, pane_id);
        let _ = self.pane_running.remove(key.as_str());
        proof {
            assert(self@ =~= old(self)@.purged(t, pane_id@, s));
            let gone = old(self)@.pane_records(t, pane_id@, s);
            if old(self)@.consistent() {
                assert forall|k: Seq<char>| #[trigger] self@.running.dom().contains(k) implies {
                    &&& self@.commands.dom().contains(self@.running[k])
                    &&& self@.commands[self@.running[k]].pane_key() == k
                } by {
                    assert(old(self)@.running.dom().contains(k));
                    let id = old(self)@.running[k];
                    assert(!gone.contains(id));
                }
            }
        }
        (events.len(), events)
    }

    /// Position of the smallest time.
    fn earliest(times: &Vec<u64>) -> (m: usize)
        requires
            times@.len() > 0,
        ensures
            m < times@.len(),
            forall|j: int| 0 <= j < times@.len() ==> times@[m as int] <= #[trigger] times@[j],
    {
        let mut m: usize = 0;
        let mut i: usize = 1;
        while i < times.len()
            invariant
                m < times@.len(),
                i <= times@.len(),
                forall|j: int| 0 <= j < i ==> times@[m as int] <= #[trigger] times@[j],
            decreases times@.len() - i,
        {
            if times[i] < times[m] {
                m = i;
            }
            i += 1;
        }
        m
    }

    /// Remove records outside the configured retention window and count.
    ///
    /// A record that occupies a pane is never removed.
    pub fn cleanup_completed(&mut self, now: u64) -> (r: Vec<CommandEvent>)
        requires
            old(self).wf(),
        ensures
            final(self).wf(),
            old(self)@.cleaned(final(self)@, now),
            old(self)@.evictions(final(self)@, event_views(r@)),
            old(self)@.consistent() ==> final(self)@.consistent(),
    {
        let ghost state = self@;
        let ghost keys = self.commands.keys();
        proof {
            self.commands.lemma_keys();
        }
        let mut gone: Vec<String> = Vec::new();
        let mut ids: Vec<String> = Vec::new();
        let mut times: Vec<u64> = Vec::new();
        let mut i: usize = 0;
        while i < self.commands.len()
            invariant
                i <= keys.len(),
                keys == self.commands.keys(),
                self.wf(),
                self@ == state,
                *self == *old(self),
                keys.no_duplicates(),
                views(gone@).no_duplicates(),
                views(ids@).no_duplicates(),
                ids@.len() == times@.len(),
                forall|j: int|
                    0 <= j < ids@.len() ==> state.commands[(#[trigger] ids@[j])@].completed_at
                        == Some(times@[j]),
                forall|id: Seq<char>| #[trigger]
                    views(gone@).contains(id) == (keys.take(i as int).contains(id)
                        && state.commands.dom().contains(id) && !state.kept_by_age(id, now)),
                forall|id: Seq<char>| #[trigger]
                    views(ids@).contains(id) == (keys.take(i as int).contains(id)
                        && state.counts_against_cap(id, now)),
            decreases keys.len() - i,
        {
            let exec = self.commands.value(i);
            let ghost id = keys[i as int];
            proof {
                take_contains(keys, i as int);
                assert(state.commands.dom().contains(id));
            }
            let occupied = self.is_occupied(exec.id.as_str());
            if !occupied && is_outlived(exec, &self.tracking, now) {
                let ghost before = views(gone@);
                gone.push(exec.id.clone());
                proof {
                    assert(views(gone@) =~= before.push(id));
                    assert(!before.contains(id));
                    push_contains(before, id);
                }
            } else if !occupied && exec.status.is_terminal() {
                if let Some(completed) = exec.completed_at {
                    let ghost before = views(ids@);
                    ids.push(exec.id.clone());
                    times.push(completed);
                    proof {
                        assert(views(ids@) =~= before.push(id));
                        assert(!before.contains(id));
                        push_contains(before, id);
                    }
                }
            }
            i += 1;
        }
        let ghost capped = state.capped(now);
        let ghost outlived_ids = views(gone@);
        proof {
            assert(keys.take(keys.len() as int) =~= keys);
            assert forall|id: Seq<char>| #[trigger] keys.contains(id)
                == state.commands.dom().contains(id) by {
                if state.commands.dom().contains(id) {
                    assert(self.commands@.dom().contains(id));
                    let j = choose|j: int| 0 <= j < keys.len() && #[trigger] keys[j] == id;
                }
                if keys.contains(id) {
                    let j = choose|j: int| 0 <= j < keys.len() && keys[j] == id;
                    assert(self.commands@.dom().contains(keys[j]));
                }
            }
            assert(capped =~= views(ids@).to_set());
            views(ids@).unique_seq_to_set();
        }
        let max: usize = self.tracking.completed_max_entries as usize;
        let ghost mut excess: Set<Seq<char>> = Set::empty();
        if max > 0 {
            while ids.len() > max
                invariant
                    max > 0,
                    self@ == state,
                    self.wf(),
                    *self == *old(self),
                    capped == state.capped(now),
                    ids@.len() == capped.len() || max <= ids@.len() < capped.len(),
                    ids@.len() == times@.len(),
                    views(gone@).no_duplicates(),
                    views(ids@).no_duplicates(),
                    forall|j: int|
                        0 <= j < ids@.len() ==> state.commands[(#[trigger] ids@[j])@].completed_at
                            == Some(times@[j]),
                    forall|id: Seq<char>| #[trigger]
                        capped.contains(id) == (views(ids@).contains(id) || excess.contains(id)),
                    forall|id: Seq<char>|
                        excess.contains(id) ==> !(#[trigger] views(ids@).contains(id)),
                    forall|id: Seq<char>| #[trigger]
                        views(gone@).contains(id) == (outlived_ids.contains(id) || excess.contains(
                            id,
                        )),
                    forall|id: Seq<char>| #[trigger]
                        outlived_ids.contains(id) == (state.commands.dom().contains(id)
                            && !state.kept_by_age(id, now)),
                    forall|g: Seq<char>, k: Seq<char>|
                        #![trigger state.commands[g], state.commands[k]]
                        excess.contains(g) && views(ids@).contains(k)
                            ==> state.commands[g].completed_at->0
                            <= state.commands[k].completed_at->0,
                decreases ids@.len(),
            {
                let m: usize = CommandTracker::earliest(&times);
                let ghost before = views(ids@);
                let ghost before_ids = ids@;
                let ghost before_times = times@;
                let ghost before_gone = views(gone@);
                let ghost id = ids@[m as int]@;
                let _ = times.remove(m);
                let oldest = ids.remove(m);
                gone.push(oldest);
                proof {
                    let after = views(ids@);
                    assert(before[m as int] == id);
                    assert(after =~= before.remove(m as int));
                    assert(views(gone@) =~= before_gone.push(id));
                    assert(capped.contains(id)) by {
                        assert(before.contains(id));
                    }
                    assert(!before_gone.contains(id)) by {
                        assert(before.contains(id));
                        assert(!outlived_ids.contains(id));
                        assert(!excess.contains(id));
                    }
                    push_contains(before_gone, id);
                    assert forall|x: Seq<char>| #[trigger] after.contains(x) == (before.contains(x)
                        && x != id) by {
                        if after.contains(x) {
                            let j = choose|j: int| 0 <= j < after.len() && after[j] == x;
                            let b = if j < m { j } else { j + 1 };
                            assert(before[b] == x);
                            assert(b != m);
                        }
                        if before.contains(x) && x != id {
                            let b = choose|b: int| 0 <= b < before.len() && before[b] == x;
                            let j = if b < m { b } else { b - 1 };
                            assert(after[j] == x);
                        }
                    }
                    assert forall|j: int| 0 <= j < ids@.len() implies state.commands[(
                    #[trigger] ids@[j])@].completed_at == Some(times@[j]) by {
                        let b = if j < m { j } else { j + 1 };
                        assert(ids@[j] == before_ids[b]);
                        assert(times@[j] == before_times[b]);
                    }
                    assert forall|g: Seq<char>, k: Seq<char>|
                        #![trigger state.commands[g], state.commands[k]]
                        excess.insert(id).contains(g) && after.contains(k) implies
                        state.commands[g].completed_at->0 <= state.commands[k].completed_at->0 by {
                        assert(before.contains(k));
                        if g == id {
                            let b = choose|b: int| 0 <= b < before.len() && before[b] == k;
                            assert(before_ids[b]@ == k);
                            assert(before_ids[m as int]@ == id);
                            assert(before_times[m as int] <= before_times[b]);
                        }
                    }
                    excess = excess.insert(id);
                }
            }
        }
        proof {
            let kept = views(ids@);
            kept.unique_seq_to_set();
            assert forall|j: int| 0 <= j < gone@.len() implies state.commands.dom().contains(
                (#[trigger] gone@[j])@,
            ) by {
                assert(views(gone@)[j] == gone@[j]@);
                assert(views(gone@).contains(gone@[j]@));
                if excess.contains(gone@[j]@) {
                    assert(capped.contains(gone@[j]@));
                }
            }
        }
        let events = self.evict_all(&gone);
        proof {
            let after = self@;
            let dropped = id_set(gone@);
            assert(after.commands.dom() =~= state.commands.dom().difference(dropped));
            assert(capped.intersect(after.commands.dom()) =~= views(ids@).to_set()) by {
                assert forall|id: Seq<char>| capped.intersect(after.commands.dom()).contains(id)
                    == views(ids@).to_set().contains(id) by {
                    if capped.contains(id) {
                        assert(views(gone@).contains(id) == (outlived_ids.contains(id)
                            || excess.contains(id)));
                        assert(capped.contains(id) == (views(ids@).contains(id) || excess.contains(
                            id,
                        )));
                    }
                    if views(ids@).contains(id) {
                        assert(capped.contains(id));
                    }
                }
            }
            assert forall|id: Seq<char>| #[trigger] after.commands.dom().contains(id) implies
                state.kept_by_age(id, now) by {
                assert(!views(gone@).contains(id));
            }
            assert forall|id: Seq<char>|
                state.kept_by_age(id, now) && !capped.contains(id) implies #[trigger]
            after.commands.dom().contains(id) by {
                assert(!views(gone@).contains(id));
            }
            assert forall|g: Seq<char>, k: Seq<char>|
                #![trigger state.commands[g], state.commands[k]]
                capped.contains(g) && !after.commands.dom().contains(g) && capped.contains(k)
                    && after.commands.dom().contains(k) implies state.commands[g].completed_at->0
                <= state.commands[k].completed_at->0 by {
                assert(views(gone@).contains(g));
                assert(excess.contains(g));
                assert(capped.intersect(after.commands.dom()).contains(k));
                assert(views(ids@).contains(k));
            }
            assert(after.secrets =~= state.secrets.remove_keys(
                state.commands.dom().difference(after.commands.dom()),
            )) by {
                assert forall|id: Seq<char>| dropped.contains(id) implies
                    state.commands.dom().contains(id) by {
                    let j = choose|j: int| 0 <= j < views(gone@).len() && views(gone@)[j] == id;
                    assert(gone@[j]@ == id);
                }
            }
            if state.consistent() {
                assert forall|k: Seq<char>| #[trigger] after.running.dom().contains(k) implies {
                    &&& after.commands.dom().contains(after.running[k])
                    &&& after.commands[after.running[k]].pane_key() == k
                } by {
                    assert(state.running.dom().contains(k));
                    let id = state.running[k];
                    assert(state.occupied(id));
                    assert(state.kept_by_age(id, now));
                }
            }
        }
        events
    }
}

/// Why a command line cannot be tracked, if it cannot.
pub open spec fn tracking_objection(command: Seq<char>) -> Option<Seq<char>> {
    if command.contains('\n') || command.contains('\r') {
        Some("tracked commands cannot contain embedded newlines (\\n or \\r)"@)
    } else if exists|i: int| comment_at(command, i) {
        Some("tracked commands cannot contain unquoted shell comment markers (#)"@)
    } else if exists|i: int| background_at(command, i) {
        Some("tracked commands cannot contain unquoted shell background operators (&)"@)
    } else {
        None
    }
}

/// Whether a command line can be tracked: on one line, without a comment and without work
/// sent to the background, any of which would skip the completion behind it.
pub fn check_command(command: &str) -> (r: Result<(), Error>)
    ensures
        match r {
            Ok(_) => tracking_objection(command@) is None,
            Err(e) => tracking_objection(command@) matches Some(message) && e@
                == ErrorView::InvalidArgument(message),
        },
{
    if contains_char(command, '\n') || contains_char(command, '\r') {
        return Err(
            Error::invalid(
                "tracked commands cannot contain embedded newlines (\\n or \\r)".to_owned(),
            ),
        );
    }
    if has_unquoted_shell_comment_marker(command) {
        return Err(
            Error::invalid(
                "tracked commands cannot contain unquoted shell comment markers (#)".to_owned(),
            ),
        );
    }
    if has_unquoted_shell_background_operator(command) {
        return Err(
            Error::invalid(
                "tracked commands cannot contain unquoted shell background operators (&)".to_owned(),
            ),
        );
    }
    Ok(())
}

/// A command to send into a pane.
#[derive(Debug, Clone, PartialEq, Eq)]
pub struct CommandRequest {
    pub target: Option<String>,
    pub pane_id: String,
    /// Socket of the tmux server, already resolved.
    pub socket: Option<String>,
    pub command: String,
    pub raw_mode: bool,
    pub no_enter: bool,
}

impl CommandRequest {
    /// Occupancy key of the pane.
    pub open spec fn key(self) -> Seq<char> {
        pane_key(opt_view(self.target), opt_view(self.socket), self.pane_id@)
    }

    /// Completion of raw input, or of input without Enter, cannot be observed.
    pub open spec fn untracked(self) -> bool {
        self.raw_mode || self.no_enter
    }

    /// The record of this command when it is accepted at `now`.
    pub open spec fn record(self, id: Seq<char>, now: u64) -> Execution {
        Execution {
            target: opt_view(self.target),
            id,
            pane_id: self.pane_id@,
            socket: opt_view(self.socket),
            command: self.command@,
            status: CommandStatus::Running,
            exit_code: None,
            output: if self.untracked() {
                Some("Tracking disabled for raw_mode or no_enter commands"@)
            } else {
                None
            },
            output_truncated: true,
            result_ready: false,
            reason: None,
            started_at: now,
            completed_at: None,
            raw_mode: self.raw_mode,
            tracking_disabled: self.untracked(),
        }
    }
}

impl Tracker {
    /// What a caller is told about a pane that is occupied.
    pub open spec fn busy_message(pane_id: Seq<char>, active_id: Seq<char>) -> Seq<char> {
        "pane "@ + pane_id + " is busy with command "@ + active_id
            + "; do not retry in another window. If its state is uncertain, stop and report to the user"@
    }

    /// Why a request is rejected, if it is: the command line itself, then the pane.
    pub open spec fn rejection(self, request: CommandRequest) -> Option<Seq<char>> {
        if !request.untracked() && tracking_objection(request.command@) is Some {
            tracking_objection(request.command@)
        } else if self.running.dom().contains(request.key()) {
            Some(Tracker::busy_message(request.pane_id@, self.running[request.key()]))
        } else {
            None
        }
    }

    /// This state with the request accepted: recorded, and in possession of its pane. Only a
    /// tracked command has a secret.
    pub open spec fn accepted(
        self,
        request: CommandRequest,
        id: Seq<char>,
        secret: Seq<char>,
        now: u64,
    ) -> Tracker {
        Tracker {
            commands: self.commands.insert(id, request.record(id, now)),
            secrets: if request.untracked() {
                self.secrets
            } else {
                self.secrets.insert(id, secret)
            },
            running: self.running.insert(request.key(), id),
            ..self
        }
    }

    /// The pane of an accepted command is its own.
    pub proof fn lemma_accepted(
        self,
        request: CommandRequest,
        id: Seq<char>,
        secret: Seq<char>,
        now: u64,
    )
        requires
            self.consistent(),
            !self.commands.dom().contains(id),
        ensures
            self.accepted(request, id, secret, now).consistent(),
    {
        let after = self.accepted(request, id, secret, now);
        assert forall|key: Seq<char>| #[trigger] after.running.dom().contains(key) implies {
            &&& after.commands.dom().contains(after.running[key])
            &&& after.commands[after.running[key]].pane_key() == key
        } by {
            if key != request.key() {
                assert(self.running.dom().contains(key));
            }
        }
    }
}

/// An accepted command.
#[derive(Debug, Clone, PartialEq, Eq)]
pub struct Launch {
    pub command_id: String,
    /// Secret of the side channel; untracked commands have none.
    pub secret: Option<String>,
    /// One creation event, then one for each record evicted.
    pub events: Vec<CommandEvent>,
}

impl CommandTracker {
    /// Accept a command for a pane under the given id and secret, or reject it.
    ///
    /// A rejected command leaves the tracker as it was.
    pub fn begin_command(
        &mut self,
        request: &CommandRequest,
        command_id: String,
        secret: String,
        now: u64,
    ) -> (r: Result<Launch, Error>)
        requires
            old(self).wf(),
        ensures
            final(self).wf(),
            match r {
                Err(e) => {
                    &&& old(self)@.rejection(*request) matches Some(message)
                    &&& e@ == ErrorView::InvalidArgument(message)
                    &&& final(self)@ == old(self)@
                },
                Ok(launch) => {
                    let accepted = old(self)@.accepted(*request, command_id@, secret@, now);
                    &&& old(self)@.rejection(*request) is None
                    &&& accepted.cleaned(final(self)@, now)
                    &&& launch.command_id == command_id
                    &&& launch.secret == (if request.untracked() {
                        None
                    } else {
                        Some(secret)
                    })
                    &&& launch.events@.len() > 0
                    &&& launch.events@[0]@ == Event::of(
                        CommandEventKind::Created,
                        request.record(command_id@, now),
                    )
                    &&& accepted.evictions(final(self)@, event_views(launch.events@).skip(1))
                    &&& old(self)@.consistent() && !old(self)@.commands.dom().contains(command_id@)
                        ==> final(self)@.consistent()
                },
            },
    {
        let untracked = request.raw_mode || request.no_enter;
        if !untracked {
            match check_command(request.command.as_str()) {
                Ok(_) => {},
                Err(e) => {
                    return Err(e);
                },
            }
        }
        let key = key_of_pane(
            opt_as_str(&request.target),
            opt_as_str(&request.socket),
            request.pane_id.as_str(),
        );
        match self.pane_running.get(key.as_str()) {
            Some(active) => {
                let mut message = "pane ".to_owned();
                message.append(request.pane_id.as_str());
                message.append(" is busy with command ");
                message.append(active.as_str());
                message.append(
                    "; do not retry in another window. If its state is uncertain, stop and report to the user",
                );
                return Err(Error::invalid(message));
            },
            None => {},
        }
        let output = if untracked {
            Some("Tracking disabled for raw_mode or no_enter commands".to_owned())
        } else {
            None
        };
        let execution = CommandExecution {
            target: request.target.clone(),
            id: command_id.clone(),
            pane_id: request.pane_id.clone(),
            socket: request.socket.clone(),
            command: request.command.clone(),
            status: CommandStatus::Running,
            exit_code: None,
            output,
            output_truncated: true,
            result_ready: false,
            reason: None,
            started_at: now,
            completed_at: None,
            raw_mode: request.raw_mode,
            tracking_disabled: untracked,
        };
        assert(execution@ == request.record(command_id@, now));
        let created = CommandEvent::of(CommandEventKind::Created, &execution);
        self.pane_running.insert(key, command_id.clone());
        self.commands.insert(command_id.clone(), execution);
        let kept_secret = if untracked {
            None
        } else {
            self.secrets.insert(command_id.clone(), secret.clone());
            Some(secret)
        };
        proof {
            assert(self@ =~= old(self)@.accepted(*request, command_id@, secret@, now));
            if old(self)@.consistent() && !old(self)@.commands.dom().contains(command_id@) {
                old(self)@.lemma_accepted(*request, command_id@, secret@, now);
            }
        }
        let mut events: Vec<CommandEvent> = Vec::new();
        events.push(created);
        let mut evicted = self.cleanup_completed(now);
        let ghost reported = event_views(evicted@);
        events.append(&mut evicted);
        assert(event_views(events@).skip(1) =~= reported);
        Ok(Launch { command_id, secret: kept_secret, events })
    }

    /// Accept a command for a pane under a fresh id and secret, or reject it.
    ///
    /// Returns what the caller sends and later asks for. Tracking is disabled for `raw_mode`
    /// and `no_enter`.
    pub fn execute_command(&mut self, request: &CommandRequest, now: u64) -> (r: Result<
        Launch,
        Error,
    >)
        requires
            old(self).wf(),
        ensures
            final(self).wf(),
            match r {
                Err(e) => {
                    &&& old(self)@.rejection(*request) matches Some(message)
                    &&& e@ == ErrorView::InvalidArgument(message)
                    &&& final(self)@ == old(self)@
                },
                Ok(launch) => {
                    let accepted = old(self)@.accepted(
                        *request,
                        launch.command_id@,
                        or_empty(opt_view(launch.secret)),
                        now,
                    );
                    &&& old(self)@.rejection(*request) is None
                    &&& is_hyphenated(launch.command_id@)
                    &&& launch.secret is None == request.untracked()
                    &&& launch.secret matches Some(secret) ==> is_simple(secret@)
                    &&& accepted.cleaned(final(self)@, now)
                    &&& launch.events@.len() > 0
                    &&& launch.events@[0]@ == Event::of(
                        CommandEventKind::Created,
                        request.record(launch.command_id@, now),
                    )
                    &&& accepted.evictions(final(self)@, event_views(launch.events@).skip(1))
                    &&& old(self)@.consistent() && !old(self)@.commands.dom().contains(
                        launch.command_id@,
                    ) ==> final(self)@.consistent()
                },
            },
    {
        let command_id = fresh_id();
        let secret = fresh_secret();
        self.begin_command(request, command_id, secret, now)
    }

    /// The input could not be delivered for certain: the command may or may not run.
    ///
    /// The pane stays occupied.
    pub fn mark_dispatch_uncertain(&mut self, command_id: &str, error: &Error, now: u64) -> (r:
        Option<CommandEvent>)
        requires
            old(self).wf(),
        ensures
            final(self).wf(),
            final(self)@ == old(self)@.dispatch_uncertain(command_id@, error@, now),
            event_view(r) == (if old(self)@.commands.dom().contains(command_id@) {
                Some(
                    Event::of(CommandEventKind::Terminal, final(self)@.commands[command_id@]),
                )
            } else {
                None
            }),
            old(self)@.consistent() ==> final(self)@.consistent(),
    {
        let text = error.to_string();
        let r = match self.commands.get_mut(command_id) {
            Some(exec) => {
                let mut reason = "Input delivery is uncertain: ".to_owned();
                reason.append(text.as_str());
                reason.append(
                    ". Stop and report to the user; do not retry, clear input, or switch windows to repeat the command.",
                );
                exec.status = CommandStatus::TrackingError;
                exec.reason = Some(reason);
                exec.completed_at = Some(now);
                exec.result_ready = true;
                Some(CommandEvent::of(CommandEventKind::Terminal, &*exec))
            },
            None => None,
        };
        assert(self@ =~= old(self)@.dispatch_uncertain(command_id@, error@, now));
        proof {
            old(self)@.lemma_update(command_id@, self@);
        }
        r
    }

    /// The input is about to be sent.
    pub fn mark_launched(&mut self, command_id: &str, now: u64) -> (r: Option<CommandEvent>)
        requires
            old(self).wf(),
        ensures
            final(self).wf(),
            final(self)@ == old(self)@.launched(command_id@, now),
            event_view(r) == (if old(self)@.commands.dom().contains(command_id@) {
                Some(
                    Event::of(CommandEventKind::Updated, final(self)@.commands[command_id@]),
                )
            } else {
                None
            }),
            old(self)@.consistent() ==> final(self)@.consistent(),
    {
        let r = match self.commands.get_mut(command_id) {
            Some(exec) => {
                exec.status = CommandStatus::Running;
                exec.started_at = now;
                Some(CommandEvent::of(CommandEventKind::Updated, &*exec))
            },
            None => None,
        };
        assert(self@ =~= old(self)@.launched(command_id@, now));
        proof {
            old(self)@.lemma_update(command_id@, self@);
        }
        r
    }

    /// Commit the status that the side channel reported, unless one is committed already.
    ///
    /// The pane stays occupied and the result is not ready until the final capture is done.
    /// The secret has served its purpose. Returns whether this call committed the status.
    pub fn commit_terminal(&mut self, command_id: &str, outcome: Outcome, now: u64) -> (r: bool)
        requires
            old(self).wf(),
        ensures
            final(self).wf(),
            r == old(self)@.unresolved(command_id@),
            final(self)@ == old(self)@.terminal_committed(command_id@, outcome@, now),
            old(self)@.consistent() ==> final(self)@.consistent(),
    {
        let committed = match self.commands.get_mut(command_id) {
            Some(exec) => if exec.status.is_terminal() {
                false
            } else {
                exec.status = outcome.status;
                exec.exit_code = outcome.exit_code;
                exec.output_truncated = true;
                exec.result_ready = false;
                exec.reason = outcome.reason;
                exec.completed_at = Some(now);
                true
            },
            None => false,
        };
        let _ = self.secrets.remove(command_id);
        proof {
            assert(self@ =~= old(self)@.terminal_committed(command_id@, outcome@, now));
            old(self)@.lemma_update(command_id@, self@);
        }
        committed
    }

    /// The final capture is done: take over its output and make the result readable. The pane
    /// is released unless tracking failed.
    pub fn commit_ready(
        &mut self,
        command_id: &str,
        key: &PaneRef,
        captured: CapturedOutput,
        status: CommandStatus,
    ) -> (r: Option<CommandEvent>)
        requires
            old(self).wf(),
        ensures
            final(self).wf(),
            final(self)@ == old(self)@.made_ready(command_id@, captured@).released_unless_uncertain(
                key.key(),
                command_id@,
                status,
            ),
            event_view(r) == (if old(self)@.commands.dom().contains(command_id@)
                && old(self)@.commands[command_id@].status.terminal() {
                Some(
                    Event::of(CommandEventKind::Terminal, final(self)@.commands[command_id@]),
                )
            } else {
                None
            }),
            old(self)@.consistent() ==> final(self)@.consistent(),
    {
        let r = match self.commands.get_mut(command_id) {
            Some(exec) => if !exec.status.is_terminal() {
                None
            } else {
                apply_captured_output(exec, captured);
                exec.result_ready = true;
                Some(CommandEvent::of(CommandEventKind::Terminal, &*exec))
            },
            None => None,
        };
        let ghost ready = self@;
        proof {
            assert(ready =~= old(self)@.made_ready(command_id@, captured@));
            old(self)@.lemma_update(command_id@, ready);
        }
        match status {
            CommandStatus::TrackingError => {},
            _ => {
                self.release_pane(key, command_id);
            },
        }
        assert(self@ =~= ready.released_unless_uncertain(key.key(), command_id@, status));
        r
    }

    /// Give a pane free, if the command with this id occupies it.
    pub fn release_pane(&mut self, key: &PaneRef, command_id: &str)
        requires
            old(self).wf(),
        ensures
            final(self).wf(),
            final(self)@ == old(self)@.released(key.key(), command_id@),
            old(self)@.consistent() ==> final(self)@.consistent(),
    {
        let name = key.text();
        let owned = match self.pane_running.get(name.as_str()) {
            Some(active) => same(active.as_str(), command_id),
            None => false,
        };
        if owned {
            let _ = self.pane_running.remove(name.as_str());
        }
        proof {
            assert(self@ =~= old(self)@.released(key.key(), command_id@));
            if old(self)@.consistent() {
                assert forall|k: Seq<char>| #[trigger] self@.running.dom().contains(k) implies {
                    &&& self@.commands.dom().contains(self@.running[k])
                    &&& self@.commands[self@.running[k]].pane_key() == k
                } by {
                    assert(old(self)@.running.dom().contains(k));
                }
            }
        }
    }

    /// Commit a completion that the watcher missed: status, output, readiness and the release
    /// of the pane together. Returns whether the command is terminal afterwards.
    pub fn commit_recovery(
        &mut self,
        command_id: &str,
        key: &PaneRef,
        exit_code: i32,
        captured: CapturedOutput,
        now: u64,
    ) -> (r: (bool, Option<CommandEvent>))
        requires
            old(self).wf(),
        ensures
            final(self).wf(),
            final(self)@ == old(self)@.recovered(
                command_id@,
                key.key(),
                exit_code,
                captured@,
                now,
            ),
            r.0 == old(self)@.commands.dom().contains(command_id@),
            event_view(r.1) == (if old(self)@.unresolved(command_id@) {
                Some(
                    Event::of(CommandEventKind::Terminal, final(self)@.commands[command_id@]),
                )
            } else {
                None
            }),
            old(self)@.consistent() ==> final(self)@.consistent(),
    {
        let event = match self.commands.get_mut(command_id) {
            Some(exec) => if exec.status.is_terminal() {
                return (true, None);
            } else {
                exec.status = exit_status(exit_code);
                exec.exit_code = Some(exit_code);
                exec.reason = None;
                exec.completed_at = Some(now);
                apply_captured_output(exec, captured);
                exec.result_ready = true;
                CommandEvent::of(CommandEventKind::Terminal, &*exec)
            },
            None => {
                return (false, None);
            },
        };
        let _ = self.secrets.remove(command_id);
        proof {
            old(self)@.lemma_update(command_id@, self@);
        }
        self.release_pane(key, command_id);
        assert(self@ =~= old(self)@.recovered(command_id@, key.key(), exit_code, captured@, now));
        (true, Some(event))
    }

    /// Take over the partial output of a command that is still running; a status that was
    /// committed while the capture was under way wins. Returns the record as it then stands.
    pub fn refresh_output(&mut self, command_id: &str, captured: CapturedOutput) -> (r: Option<
        CommandExecution,
    >)
        requires
            old(self).wf(),
        ensures
            final(self).wf(),
            final(self)@ == old(self)@.refreshed(command_id@, captured@),
            match r {
                Some(exec) => old(self)@.commands.dom().contains(command_id@) && exec@
                    == final(self)@.commands[command_id@],
                None => !old(self)@.commands.dom().contains(command_id@),
            },
            old(self)@.consistent() ==> final(self)@.consistent(),
    {
        let r = match self.commands.get_mut(command_id) {
            Some(exec) => {
                if !exec.status.is_terminal() {
                    apply_captured_output(exec, captured);
                }
                Some((&*exec).copy())
            },
            None => None,
        };
        proof {
            assert(self@ =~= old(self)@.refreshed(command_id@, captured@));
            old(self)@.lemma_update(command_id@, self@);
        }
        r
    }
}

/// A pane of one tmux server.
#[derive(Debug, Clone, PartialEq, Eq)]
pub struct PaneRef {
    pub target: Option<String>,
    pub socket: Option<String>,
    pub pane_id: String,
}

impl PaneRef {
    /// Occupancy key of the pane.
    pub open spec fn key(self) -> Seq<char> {
        pane_key(opt_view(self.target), opt_view(self.socket), self.pane_id@)
    }

    fn text(&self) -> (r: String)
        ensures
            r@ == self.key(),
    {
        key_of_pane(opt_as_str(&self.target), opt_as_str(&self.socket), self.pane_id.as_str())
    }
}

/// How a command ended, as far as the side channel tells.
#[derive(Debug, Clone, PartialEq, Eq)]
pub struct Outcome {
    pub status: CommandStatus,
    pub exit_code: Option<i32>,
    pub reason: Option<String>,
}

/// An [`Outcome`] with its text as a sequence of characters.
#[verifier::ext_equal]
pub struct OutcomeView {
    pub status: CommandStatus,
    pub exit_code: Option<i32>,
    pub reason: Option<Seq<char>>,
}

impl View for Outcome {
    type V = OutcomeView;

    open spec fn view(&self) -> OutcomeView {
        OutcomeView {
            status: self.status,
            exit_code: self.exit_code,
            reason: opt_view(self.reason),
        }
    }
}

/// The status that an exit code stands for.
pub open spec fn status_of_exit(exit_code: i32) -> CommandStatus {
    if exit_code == 0 {
        CommandStatus::Completed
    } else {
        CommandStatus::Failed
    }
}

/// The status that an exit code stands for.
pub fn exit_status(exit_code: i32) -> (r: CommandStatus)
    ensures
        r == status_of_exit(exit_code),
{
    if exit_code == 0 {
        CommandStatus::Completed
    } else {
        CommandStatus::Failed
    }
}

impl Tracker {
    /// After a delivery failure.
    pub open spec fn dispatch_uncertain(self, id: Seq<char>, error: ErrorView, now: u64) -> Tracker {
        if self.commands.dom().contains(id) {
            Tracker {
                commands: self.commands.insert(
                    id,
                    Execution {
                        status: CommandStatus::TrackingError,
                        reason: Some(
                            "Input delivery is uncertain: "@ + error_text(error)
                                + ". Stop and report to the user; do not retry, clear input, or switch windows to repeat the command."@,
                        ),
                        completed_at: Some(now),
                        result_ready: true,
                        ..self.commands[id]
                    },
                ),
                ..self
            }
        } else {
            self
        }
    }

    /// When the input is about to be sent.
    pub open spec fn launched(self, id: Seq<char>, now: u64) -> Tracker {
        if self.commands.dom().contains(id) {
            Tracker {
                commands: self.commands.insert(
                    id,
                    Execution {
                        status: CommandStatus::Running,
                        started_at: now,
                        ..self.commands[id]
                    },
                ),
                ..self
            }
        } else {
            self
        }
    }

    /// After the side channel has reported.
    pub open spec fn terminal_committed(
        self,
        id: Seq<char>,
        outcome: OutcomeView,
        now: u64,
    ) -> Tracker {
        Tracker {
            commands: if self.unresolved(id) {
                self.commands.insert(
                    id,
                    Execution {
                        status: outcome.status,
                        exit_code: outcome.exit_code,
                        output_truncated: true,
                        result_ready: false,
                        reason: outcome.reason,
                        completed_at: Some(now),
                        ..self.commands[id]
                    },
                )
            } else {
                self.commands
            },
            secrets: self.secrets.remove(id),
            ..self
        }
    }

    /// After the final capture.
    pub open spec fn made_ready(self, id: Seq<char>, captured: Captured) -> Tracker {
        if self.commands.dom().contains(id) && self.commands[id].status.terminal() {
            Tracker {
                commands: self.commands.insert(
                    id,
                    Execution {
                        result_ready: true,
                        ..self.commands[id].with_captured(captured)
                    },
                ),
                ..self
            }
        } else {
            self
        }
    }

    /// With a pane given free by the command that occupies it.
    pub open spec fn released(self, key: Seq<char>, id: Seq<char>) -> Tracker {
        if self.running.dom().contains(key) && self.running[key] == id {
            Tracker { running: self.running.remove(key), ..self }
        } else {
            self
        }
    }

    /// With the pane given free, unless it is uncertain whether the command has ended.
    pub open spec fn released_unless_uncertain(
        self,
        key: Seq<char>,
        id: Seq<char>,
        status: CommandStatus,
    ) -> Tracker {
        if status == CommandStatus::TrackingError {
            self
        } else {
            self.released(key, id)
        }
    }

    /// After a completion that the watcher missed.
    pub open spec fn recovered(
        self,
        id: Seq<char>,
        key: Seq<char>,
        exit_code: i32,
        captured: Captured,
        now: u64,
    ) -> Tracker {
        if self.unresolved(id) {
            let exec = Execution {
                status: status_of_exit(exit_code),
                exit_code: Some(exit_code),
                reason: None,
                completed_at: Some(now),
                result_ready: true,
                ..self.commands[id].with_captured(captured)
            };
            Tracker {
                commands: self.commands.insert(id, exec),
                secrets: self.secrets.remove(id),
                ..self
            }.released(key, id)
        } else {
            self
        }
    }

    /// After a capture of partial output.
    pub open spec fn refreshed(self, id: Seq<char>, captured: Captured) -> Tracker {
        if self.unresolved(id) {
            Tracker {
                commands: self.commands.insert(id, self.commands[id].with_captured(captured)),
                ..self
            }
        } else {
            self
        }
    }

    /// A change to one record that leaves its id and pane alone keeps the state consistent.
    proof fn lemma_update(self, id: Seq<char>, after: Tracker)
        requires
            after.running == self.running,
            after.secrets.dom().subset_of(self.secrets.dom()),
            after.commands.dom() =~= self.commands.dom(),
            forall|k: Seq<char>| #[trigger]
                self.commands.dom().contains(k) && k != id ==> after.commands[k]
                    == self.commands[k],
            self.commands.dom().contains(id) ==> after.commands[id].pane_key()
                == self.commands[id].pane_key(),
        ensures
            self.consistent() ==> after.consistent(),
    {
        if self.consistent() {
            assert forall|key: Seq<char>| #[trigger] after.running.dom().contains(key) implies {
                &&& after.commands.dom().contains(after.running[key])
                &&& after.commands[after.running[key]].pane_key() == key
            } by {
                assert(self.running.dom().contains(key));
                let k = self.running[key];
                assert(self.commands.dom().contains(k));
            }
        }
    }
}

impl Tracker {
    /// The command with this id occupies a pane of the bound target, and tracking it failed.
    pub open spec fn uncertain(self, id: Seq<char>, target: Option<Seq<char>>) -> bool {
        &&& self.occupied(id)
        &&& self.visible(id, target)
        &&& self.commands[id].status == CommandStatus::TrackingError
    }

    /// A caller that waits for this record need not wait longer.
    pub open spec fn wait_over(exec: Execution) -> bool {
        exec.tracking_disabled || (exec.status.terminal() && exec.result_ready)
    }
}

/// Where a caller that waits for a command stands.
#[derive(Debug, Clone, PartialEq, Eq)]
pub enum WaitStep {
    /// No such command on the bound target.
    Missing,
    /// The result is ready, or never will be because the command is not tracked.
    Ready(CommandExecution),
    /// Wait on.
    Pending,
}

/// What a status request needs before it can be answered.
#[derive(Debug, Clone, PartialEq, Eq)]
pub enum StatusRequest {
    /// No such command on the bound target.
    Missing,
    /// The record as it stands is the answer.
    Settled(CommandExecution),
    /// Capture this many lines of the pane and refresh the record.
    Capture { pane_id: String, lines: u32, socket: Option<String> },
}

/// What a recovery needs before it can be decided.
#[derive(Debug, Clone, PartialEq, Eq)]
pub enum RecoveryRequest {
    /// Nothing to recover; whether the command is terminal.
    Settled(bool),
    /// Look at the exit-code buffer with this secret and at the pane.
    Probe { pane_id: String, socket: Option<String>, secret: String },
}

impl CommandTracker {
    /// One command of the bound target that occupies its pane although tracking it failed:
    /// the one with the smallest id.
    pub fn uncertain_command(&self, target: Option<&str>) -> (r: Option<CommandExecution>)
        requires
            self.wf(),
        ensures
            match r {
                Some(exec) => {
                    &&& self@.uncertain(exec.id@, opt_str_view(target))
                    &&& exec@ == self@.commands[exec.id@]
                    &&& forall|id: Seq<char>| #[trigger]
                        self@.uncertain(id, opt_str_view(target)) ==> id == exec.id@ || text_less(
                            exec.id@,
                            id,
                        )
                },
                None => forall|id: Seq<char>| !self@.uncertain(id, opt_str_view(target)),
            },
    {
        let ghost t = opt_str_view(target);
        let ghost keys = self.pane_running.keys();
        proof {
            self.pane_running.lemma_keys();
        }
        let mut best: Option<CommandExecution> = None;
        let mut i: usize = 0;
        while i < self.pane_running.len()
            invariant
                i <= keys.len(),
                self.wf(),
                keys == self.pane_running.keys(),
                t == opt_str_view(target),
                match best {
                    Some(exec) => {
                        &&& self@.uncertain(exec.id@, t)
                        &&& exec@ == self@.commands[exec.id@]
                        &&& forall|j: int|
                            0 <= j < i && self@.uncertain(
                                #[trigger] self@.running[keys[j]],
                                t,
                            ) ==> self@.running[keys[j]] == exec.id@ || text_less(
                                exec.id@,
                                self@.running[keys[j]],
                            )
                    },
                    None => forall|j: int|
                        0 <= j < i ==> !self@.uncertain(#[trigger] self@.running[keys[j]], t),
                },
            decreases keys.len() - i,
        {
            let id = self.pane_running.value(i);
            assert(self@.running[keys[i as int]] == id@);
            assert(self@.occupied(id@));
            if let Some(exec) = self.commands.get(id.as_str()) {
                assert(self@.commands.dom().contains(id@));
                let tracking_failed = match exec.status {
                    CommandStatus::TrackingError => true,
                    _ => false,
                };
                if tracking_failed && same_opt(opt_as_str(&exec.target), target) {
                    let better = match &best {
                        Some(current) => less(exec.id.as_str(), current.id.as_str()),
                        None => true,
                    };
                    proof {
                        assert(self@.uncertain(id@, t));
                        if best is Some {
                            let current = best->0;
                            if better {
                                assert forall|j: int|
                                    0 <= j < i && self@.uncertain(
                                        #[trigger] self@.running[keys[j]],
                                        t,
                                    ) implies self@.running[keys[j]] == id@ || text_less(
                                    id@,
                                    self@.running[keys[j]],
                                ) by {
                                    if self@.running[keys[j]] != current.id@ {
                                        text_less_transitive(
                                            id@,
                                            current.id@,
                                            self@.running[keys[j]],
                                        );
                                    }
                                }
                            } else if id@ != current.id@ {
                                text_less_total(id@, current.id@);
                            }
                        }
                    }
                    if better {
                        best = Some(exec.copy());
                    }
                }
            }
            i += 1;
        }
        proof {
            assert forall|id: Seq<char>| #[trigger] self@.uncertain(id, t) implies exists|j: int|
                0 <= j < keys.len() && #[trigger] self@.running[keys[j]] == id by {
                let key = choose|key: Seq<char>|
                    self@.running.dom().contains(key) && #[trigger] self@.running[key] == id;
                assert(self.pane_running@.dom().contains(key));
                let j = choose|j: int| 0 <= j < keys.len() && #[trigger] keys[j] == key;
                assert(self@.running[keys[j]] == id);
            }
        }
        best
    }

    /// Whether a caller that waits for a command has to wait longer.
    pub fn poll_wait(&self, command_id: &str, target: Option<&str>) -> (r: WaitStep)
        requires
            self.wf(),
        ensures
            match r {
                WaitStep::Missing => !self@.visible(command_id@, opt_str_view(target)),
                WaitStep::Ready(exec) => {
                    &&& self@.visible(command_id@, opt_str_view(target))
                    &&& exec@ == self@.commands[command_id@]
                    &&& Tracker::wait_over(exec@)
                },
                WaitStep::Pending => {
                    &&& self@.visible(command_id@, opt_str_view(target))
                    &&& !Tracker::wait_over(self@.commands[command_id@])
                },
            },
    {
        match self.peek_command(command_id, target) {
            Some(exec) => if exec.tracking_disabled || (exec.status.is_terminal()
                && exec.result_ready) {
                WaitStep::Ready(exec)
            } else {
                WaitStep::Pending
            },
            None => WaitStep::Missing,
        }
    }

    /// What a caller is told whose time to wait has run out: the record as it stands, marked
    /// as timed out. The command itself goes on.
    pub fn wait_expired(&self, command_id: &str, target: Option<&str>) -> (r: Option<
        (CommandExecution, bool),
    >)
        requires
            self.wf(),
        ensures
            match r {
                Some((exec, timed_out)) => {
                    &&& self@.visible(command_id@, opt_str_view(target))
                    &&& exec@ == self@.commands[command_id@]
                    &&& timed_out
                },
                None => !self@.visible(command_id@, opt_str_view(target)),
            },
    {
        match self.peek_command(command_id, target) {
            Some(exec) => Some((exec, true)),
            None => None,
        }
    }

    /// What has to be captured before the status of a command can be told. A command that is
    /// terminal or not tracked is told as it stands.
    pub fn status_request(
        &self,
        command_id: &str,
        target: Option<&str>,
        socket_override: Option<&str>,
    ) -> (r: StatusRequest)
        requires
            self.wf(),
        ensures
            match r {
                StatusRequest::Missing => !self@.visible(command_id@, opt_str_view(target)),
                StatusRequest::Settled(exec) => {
                    &&& self@.visible(command_id@, opt_str_view(target))
                    &&& exec@ == self@.commands[command_id@]
                    &&& exec@.status != CommandStatus::Running || exec@.tracking_disabled
                        || exec@.raw_mode
                },
                StatusRequest::Capture { pane_id, lines, socket } => {
                    let exec = self@.commands[command_id@];
                    &&& self@.visible(command_id@, opt_str_view(target))
                    &&& exec.status == CommandStatus::Running && !exec.tracking_disabled
                        && !exec.raw_mode
                    &&& pane_id@ == exec.pane_id
                    &&& opt_view(socket) == (if exec.socket is Some {
                        exec.socket
                    } else {
                        opt_str_view(socket_override)
                    })
                    &&& lines == vstd::math::min(
                        at_least_one(self@.tracking.capture_initial_lines as int),
                        at_least_one(self@.tracking.capture_max_lines as int),
                    )
                },
            },
    {
        match self.peek_command(command_id, target) {
            Some(exec) => {
                let running = match exec.status {
                    CommandStatus::Running => true,
                    _ => false,
                };
                if !running || exec.tracking_disabled || exec.raw_mode {
                    StatusRequest::Settled(exec)
                } else {
                    let socket = match exec.socket {
                        Some(path) => Some(path),
                        None => match socket_override {
                            Some(path) => Some(path.to_owned()),
                            None => None,
                        },
                    };
                    StatusRequest::Capture {
                        pane_id: exec.pane_id,
                        lines: partial_capture_lines(&self.tracking),
                        socket,
                    }
                }
            },
            None => StatusRequest::Missing,
        }
    }

    /// What has to be looked at before a completion that the watcher missed can be recovered.
    pub fn recovery_request(&self, command_id: &str, target: Option<&str>) -> (r: RecoveryRequest)
        requires
            self.wf(),
        ensures
            match r {
                RecoveryRequest::Settled(terminal) => {
                    &&& terminal == (self@.visible(command_id@, opt_str_view(target))
                        && self@.commands[command_id@].status.terminal())
                    &&& !self@.recoverable(command_id@, opt_str_view(target))
                },
                RecoveryRequest::Probe { pane_id, socket, secret } => {
                    &&& self@.recoverable(command_id@, opt_str_view(target))
                    &&& pane_id@ == self@.commands[command_id@].pane_id
                    &&& opt_view(socket) == self@.commands[command_id@].socket
                    &&& secret@ == self@.secrets[command_id@]
                },
            },
    {
        match self.peek_command(command_id, target) {
            Some(exec) => {
                if exec.status.is_terminal() {
                    return RecoveryRequest::Settled(true);
                }
                if exec.tracking_disabled || exec.raw_mode {
                    return RecoveryRequest::Settled(false);
                }
                match self.secrets.get(command_id) {
                    Some(secret) => RecoveryRequest::Probe {
                        pane_id: exec.pane_id,
                        socket: exec.socket,
                        secret: secret.clone(),
                    },
                    None => RecoveryRequest::Settled(false),
                }
            },
            None => RecoveryRequest::Settled(false),
        }
    }

    /// Snapshot a command of the bound target, recovering a durable completion if its watcher
    /// missed it.
    ///
    /// `probe` is what [`CommandTracker::recovery_request`] led to: the exit code that its side
    /// channel holds, and what its pane shows. The private exit code is authoritative; the end
    /// of the output must be visible too, so that an exit code alone does not release the pane.
    pub fn get_command(
        &mut self,
        id: &str,
        target: Option<&str>,
        probe: Option<(i32, CapturedOutput)>,
        now: u64,
    ) -> (r: (Option<CommandExecution>, Option<CommandEvent>))
        requires
            old(self).wf(),
        ensures
            final(self).wf(),
            final(self)@ == old(self)@.looked_up(id@, opt_str_view(target), probe_view(probe), now),
            match r.0 {
                Some(exec) => final(self)@.visible(id@, opt_str_view(target)) && exec@
                    == final(self)@.commands[id@],
                None => !final(self)@.visible(id@, opt_str_view(target)),
            },
            event_view(r.1) == (if old(self)@.recoverable(id@, opt_str_view(target))
                && shows_completion(probe_view(probe)) {
                Some(Event::of(CommandEventKind::Terminal, final(self)@.commands[id@]))
            } else {
                None
            }),
            old(self)@.consistent() ==> final(self)@.consistent(),
    {
        let mut event: Option<CommandEvent> = None;
        if let Some((exit_code, captured)) = probe {
            if captured.shows_end() {
                if let RecoveryRequest::Probe { pane_id, socket, .. } = self.recovery_request(
                    id,
                    target,
                ) {
                    let bound = match target {
                        Some(alias) => Some(alias.to_owned()),
                        None => None,
                    };
                    let key = PaneRef { target: bound, socket, pane_id };
                    assert(key.key() == old(self)@.commands[id@].pane_key());
                    let (_, recovered) = self.commit_recovery(id, &key, exit_code, captured, now);
                    event = recovered;
                }
            }
        }
        (self.peek_command(id, target), event)
    }
}

/// A probe with its output as a sequence of characters.
pub open spec fn probe_view(probe: Option<(i32, CapturedOutput)>) -> Option<(i32, Captured)> {
    match probe {
        Some((exit_code, captured)) => Some((exit_code, captured@)),
        None => None,
    }
}

/// A probe found an exit code and the end of the output.
pub open spec fn shows_completion(probe: Option<(i32, Captured)>) -> bool {
    probe matches Some((_, captured)) && captured.shows_end()
}

impl Tracker {
    /// After a command is looked up with what a probe found.
    pub open spec fn looked_up(
        self,
        id: Seq<char>,
        target: Option<Seq<char>>,
        probe: Option<(i32, Captured)>,
        now: u64,
    ) -> Tracker {
        if self.recoverable(id, target) && shows_completion(probe) {
            self.recovered(id, self.commands[id].pane_key(), (probe->0).0, (probe->0).1, now)
        } else {
            self
        }
    }

    /// A tracked command that has not ended, with its side channel still known.
    pub open spec fn recoverable(self, id: Seq<char>, target: Option<Seq<char>>) -> bool {
        &&& self.visible(id, target)
        &&& !self.commands[id].status.terminal()
        &&& !self.commands[id].tracking_disabled
        &&& !self.commands[id].raw_mode
        &&& self.secrets.dom().contains(id)
    }
}

/// One step of typing into a pane.
#[derive(Debug, Clone, PartialEq, Eq)]
pub enum KeyStep {
    /// Send these keys; literal keys are not looked up as key names.
    Keys { text: String, literal: bool },
    /// Send these keys and Enter in one call.
    KeysAndEnter { text: String },
    /// Wait for this many milliseconds.
    Pause { ms: u64 },
}

/// A [`KeyStep`] with its text as a sequence of characters.
#[verifier::ext_equal]
pub enum Typing {
    Keys { text: Seq<char>, literal: bool },
    KeysAndEnter { text: Seq<char> },
    Pause { ms: u64 },
}

impl View for KeyStep {
    type V = Typing;

    open spec fn view(&self) -> Typing {
        match self {
            KeyStep::Keys { text, literal } => Typing::Keys { text: text@, literal: *literal },
            KeyStep::KeysAndEnter { text } => Typing::KeysAndEnter { text: text@ },
            KeyStep::Pause { ms } => Typing::Pause { ms: *ms },
        }
    }
}

/// Key steps with their texts as sequences of characters.
pub open spec fn typing_views(steps: Seq<KeyStep>) -> Seq<Typing> {
    Seq::new(steps.len(), |i: int| steps[i]@)
}

/// One character at a time, with a pause after each.
pub open spec fn slow_typing(text: Seq<char>, ms: u64) -> Seq<Typing>
    decreases text.len(),
{
    if text.len() == 0 {
        Seq::empty()
    } else {
        slow_typing(text.drop_last(), ms) + seq![
            Typing::Keys { text: seq![text.last()], literal: true },
            Typing::Pause { ms },
        ]
    }
}

/// How a text is typed: at once, or character by character where a delay is asked for.
pub open spec fn typing_plan(text: Seq<char>, delay_ms: Option<u64>, no_enter: bool) -> Seq<Typing> {
    match delay_ms {
        Some(ms) if ms > 0 => slow_typing(text, ms) + (if no_enter {
            Seq::empty()
        } else {
            seq![Typing::Keys { text: "Enter"@, literal: false }]
        }),
        _ => if no_enter {
            seq![Typing::Keys { text, literal: false }]
        } else {
            seq![Typing::KeysAndEnter { text }]
        },
    }
}

/// How to type a text into a pane. A delay of zero does not make it slow.
pub fn dispatch_keys(text: &str, delay_ms: Option<u64>, no_enter: bool) -> (r: Vec<KeyStep>)
    ensures
        typing_views(r@) == typing_plan(text@, delay_ms, no_enter),
{
    let mut steps: Vec<KeyStep> = Vec::new();
    let delay: u64 = match delay_ms {
        Some(ms) => ms,
        None => 0,
    };
    if delay == 0 {
        if no_enter {
            steps.push(KeyStep::Keys { text: text.to_owned(), literal: false });
        } else {
            steps.push(KeyStep::KeysAndEnter { text: text.to_owned() });
        }
        assert(typing_views(steps@) =~= typing_plan(text@, delay_ms, no_enter));
        return steps;
    }
    let chars = to_chars(text);
    let mut i: usize = 0;
    assert(typing_views(steps@) =~= slow_typing(text@.take(0), delay));
    while i < chars.len()
        invariant
            i <= chars@.len(),
            chars@ == text@,
            typing_views(steps@) == slow_typing(text@.take(i as int), delay),
        decreases chars@.len() - i,
    {
        let ghost before = typing_views(steps@);
        let mut key = String::new();
        key.push(chars[i]);
        proof {
            assert(key@ =~= seq![text@[i as int]]);
            assert(text@.take(i as int + 1).drop_last() =~= text@.take(i as int));
        }
        steps.push(KeyStep::Keys { text: key, literal: true });
        steps.push(KeyStep::Pause { ms: delay });
        assert(typing_views(steps@) =~= before + seq![
            Typing::Keys { text: seq![text@[i as int]], literal: true },
            Typing::Pause { ms: delay },
        ]);
        i += 1;
    }
    proof {
        assert(text@.take(text@.len() as int) =~= text@);
    }
    if !no_enter {
        steps.push(KeyStep::Keys { text: "Enter".to_owned(), literal: false });
    }
    assert(typing_views(steps@) =~= typing_plan(text@, delay_ms, no_enter));
    steps
}

/// A tracked command that is about to be sent.
#[derive(Debug, Clone, PartialEq, Eq)]
pub struct TrackedLaunch {
    pub command_id: String,
    pub command: String,
    pub delay_ms: Option<u64>,
    pub socket: Option<String>,
    pub secret: String,
}

impl CommandTracker {
    /// Start a tracked command: what to type into its pane, and the event to publish.
    ///
    /// `foreground` is the program in the foreground of the pane, where it is known: its shell
    /// decides how the command is wrapped, else the process-wide default does.
    pub fn run_tracked_launch(
        &mut self,
        launch: &TrackedLaunch,
        foreground: Option<&str>,
        now: u64,
    ) -> (r: (Vec<KeyStep>, Option<CommandEvent>))
        requires
            old(self).wf(),
        ensures
            final(self).wf(),
            final(self)@ == old(self)@.launched(launch.command_id@, now),
            typing_views(r.0@) == typing_plan(
                wrapped_command(
                    launch.command@,
                    launch.command_id@,
                    launch.secret@,
                    match foreground {
                        Some(program) => pane_shell(old(self)@.shell, program@),
                        None => old(self)@.shell,
                    },
                    opt_view(launch.socket),
                ),
                launch.delay_ms,
                false,
            ),
            event_view(r.1) == (if old(self)@.commands.dom().contains(launch.command_id@) {
                Some(
                    Event::of(
                        CommandEventKind::Updated,
                        final(self)@.commands[launch.command_id@],
                    ),
                )
            } else {
                None
            }),
            old(self)@.consistent() ==> final(self)@.consistent(),
    {
        let shell = match foreground {
            Some(program) => shell_type_for_pane_command(self.shell_type, program),
            None => self.shell_type,
        };
        let wrapped = wrap_tracked_command_side_channel(
            launch.command.as_str(),
            launch.command_id.as_str(),
            launch.secret.as_str(),
            &shell,
            opt_as_str(&launch.socket),
        );
        let event = self.mark_launched(launch.command_id.as_str(), now);
        (dispatch_keys(wrapped.as_str(), launch.delay_ms, false), event)
    }
}

} // verus!
