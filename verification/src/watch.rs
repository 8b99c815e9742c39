//! Following a tracked command to its end.
//!
//! A [`Watcher`] stands behind one launched command: it waits for the completion signal and
//! commits the outcome. A [`Recovery`] looks once whether the signal was missed. Both are
//! state machines: the caller performs the action that a step asks for and hands back what
//! came of it. Only the exit code on the side channel ends a command; captures of the pane
//! decide about its output, and guard against an exit code that is read too early.

use crate::commands::{
    at_least_one, capture_view, checkpoint_seconds, event_view, exit_status, final_capture_lines,
    status_of_exit, CaptureDecision, CaptureProgress, CaptureStep, Captured, CapturedOutput,
    CommandEvent, CommandEventKind, CommandTracker, Event, Outcome, OutcomeView, PaneRef,
    TerminalCapture, Tracker, TrackingConfig, FINAL_OUTPUT_CAPTURE_ATTEMPTS,
    FINAL_OUTPUT_CAPTURE_RETRY_DELAY_MS,
};
use crate::markers::{bracketed, extract_output_between_markers, Bracketed, BracketedOutput};
use crate::types::CommandStatus;
use vstd::prelude::*;

verus! {

/// What came of an action.
#[derive(Debug, Clone, PartialEq, Eq)]
pub enum WatchInput {
    /// The completion signal came.
    Signal,
    /// Waiting for the signal failed, with this error.
    SignalFailed(String),
    /// The checkpoint interval passed without a signal.
    Checkpoint,
    /// The exit-code buffer was read.
    ExitCode(i32),
    /// The exit-code buffer could not be read, with this error.
    ExitCodeFailed(String),
    /// The pane was captured.
    Captured(String),
    /// The pane could not be captured.
    CaptureFailed,
    /// The time for the final capture ran out.
    CaptureTimedOut,
}

/// What to do next.
#[derive(Debug, Clone, Copy, PartialEq, Eq, Structural)]
pub enum WatchAction {
    /// Wait for the completion signal, but no longer than this.
    Wait { seconds: u64 },
    /// Read the exit-code buffer.
    ReadExitCode,
    /// Capture this many lines of the pane, after a pause.
    Capture { lines: u32, pause_ms: u64 },
    /// Nothing is left to do.
    Stop,
}

/// What one step asks of the caller.
#[derive(Debug, Clone, PartialEq, Eq)]
pub struct WatchStep {
    pub action: WatchAction,
    /// Delete the exit-code buffer; it has been read.
    pub delete_exit_code: bool,
    /// Publish this event.
    pub event: Option<CommandEvent>,
}

/// Where a watcher stands.
#[derive(Debug, Clone, PartialEq, Eq)]
pub enum WatchStage {
    /// Waiting for the signal.
    Waiting,
    /// The signal is overdue: is there an exit code?
    Rechecking,
    /// There is an exit code: does the pane show the end of the command?
    RecheckingOutput,
    /// The command has ended: with which exit code?
    ReadingExitCode,
    /// The status is committed: capturing the final output.
    Capturing { status: CommandStatus, capture: TerminalCapture },
    /// The signal is lost: capturing what there is.
    CapturingOpen,
    /// Done.
    Finished,
}

/// What the capture in an input shows of a command.
pub open spec fn shown(input: WatchInput, command_id: Seq<char>) -> Option<Bracketed> {
    match input {
        WatchInput::Captured(text) => Some(bracketed(text@, command_id)),
        _ => None,
    }
}

fn show(input: WatchInput, command_id: &str) -> (r: Option<BracketedOutput>)
    ensures
        capture_view(r) == shown(input, command_id@),
{
    match input {
        WatchInput::Captured(text) => Some(
            extract_output_between_markers(text.as_str(), command_id),
        ),
        _ => None,
    }
}

/// The capture shows the whole output, up to the DONE marker.
pub open spec fn shows_end(input: WatchInput, command_id: Seq<char>) -> bool {
    shown(input, command_id) matches Some(Bracketed::Complete(_))
}

fn end_is_shown(input: WatchInput, command_id: &str) -> (r: bool)
    ensures
        r == shows_end(input, command_id@),
{
    match show(input, command_id) {
        Some(BracketedOutput::Complete(_)) => true,
        _ => false,
    }
}

/// The outcome of a command whose exit code was read.
pub open spec fn exit_outcome(exit_code: i32) -> OutcomeView {
    OutcomeView { status: status_of_exit(exit_code), exit_code: Some(exit_code), reason: None }
}

/// The outcome of a command that ended without a readable exit code.
pub open spec fn unreadable_outcome(error: Seq<char>) -> OutcomeView {
    OutcomeView {
        status: CommandStatus::TrackingError,
        exit_code: None,
        reason: Some("side-channel exit buffer unreadable: "@ + error),
    }
}

/// The outcome of a command whose signal was lost.
pub open spec fn lost_outcome(error: Seq<char>) -> OutcomeView {
    OutcomeView {
        status: CommandStatus::TrackingError,
        exit_code: None,
        reason: Some("wait-for failed: "@ + error),
    }
}

impl WatchStage {
    /// The action that this stage asks for.
    pub open spec fn action(self, tracking: TrackingConfig) -> WatchAction {
        let lines = at_least_one(tracking.capture_max_lines as int) as u32;
        match self {
            WatchStage::Waiting => WatchAction::Wait {
                seconds: at_least_one(tracking.tracking_deadline_seconds as int) as u64,
            },
            WatchStage::Rechecking => WatchAction::ReadExitCode,
            WatchStage::RecheckingOutput => WatchAction::Capture { lines, pause_ms: 0 },
            WatchStage::ReadingExitCode => WatchAction::ReadExitCode,
            WatchStage::Capturing { capture, .. } => WatchAction::Capture {
                lines,
                pause_ms: if capture@.attempts > 0 {
                    FINAL_OUTPUT_CAPTURE_RETRY_DELAY_MS
                } else {
                    0
                },
            },
            WatchStage::CapturingOpen => WatchAction::Capture { lines, pause_ms: 0 },
            WatchStage::Finished => WatchAction::Stop,
        }
    }

    fn next_action(&self, tracking: &TrackingConfig) -> (r: WatchAction)
        ensures
            r == self.action(*tracking),
    {
        let lines: u32 = final_capture_lines(tracking);
        match self {
            WatchStage::Waiting => WatchAction::Wait { seconds: checkpoint_seconds(tracking) },
            WatchStage::Rechecking => WatchAction::ReadExitCode,
            WatchStage::RecheckingOutput => WatchAction::Capture { lines, pause_ms: 0 },
            WatchStage::ReadingExitCode => WatchAction::ReadExitCode,
            WatchStage::Capturing { capture, .. } => WatchAction::Capture {
                lines,
                pause_ms: if capture.is_retry() {
                    FINAL_OUTPUT_CAPTURE_RETRY_DELAY_MS
                } else {
                    0
                },
            },
            WatchStage::CapturingOpen => WatchAction::Capture { lines, pause_ms: 0 },
            WatchStage::Finished => WatchAction::Stop,
        }
    }

    /// The final capture is within its attempts.
    pub open spec fn wf(self) -> bool {
        self matches WatchStage::Capturing { capture, .. } ==> capture@.attempts
            < FINAL_OUTPUT_CAPTURE_ATTEMPTS
    }
}

/// Follows one launched command to its end.
#[derive(Debug, Clone, PartialEq, Eq)]
pub struct Watcher {
    pub command_id: String,
    pub pane: PaneRef,
    pub stage: WatchStage,
}

/// A watcher's stage after a commit: capture the final output, unless someone else had
/// committed before.
pub open spec fn stage_after_commit(
    before: Tracker,
    id: Seq<char>,
    status: CommandStatus,
    signal_lost: bool,
    stage: WatchStage,
) -> bool {
    if !before.unresolved(id) {
        stage is Finished
    } else if signal_lost {
        stage is CapturingOpen
    } else {
        &&& stage matches WatchStage::Capturing { status: s, capture }
        &&& s == status
        &&& capture@ == CaptureProgress::start()
    }
}

impl Watcher {
    /// The watcher of a command that was just sent, and its first action.
    pub fn start(command_id: String, pane: PaneRef, tracking: &TrackingConfig) -> (r: (
        Watcher,
        WatchAction,
    ))
        ensures
            r.0.command_id == command_id,
            r.0.pane == pane,
            r.0.stage is Waiting,
            r.1 == r.0.stage.action(*tracking),
    {
        let watcher = Watcher { command_id, pane, stage: WatchStage::Waiting };
        let action = watcher.stage.next_action(tracking);
        (watcher, action)
    }

    /// What a step does to the tracker and to the stage.
    pub open spec fn steps_to(
        self,
        before: Tracker,
        input: WatchInput,
        now: u64,
        after: Tracker,
        stage: WatchStage,
        step: WatchStep,
    ) -> bool {
        let id = self.command_id@;
        let silent = !step.delete_exit_code && step.event is None;
        match (self.stage, input) {
            (WatchStage::Waiting, WatchInput::Signal) => {
                stage is ReadingExitCode && after == before && silent
            },
            (WatchStage::Waiting, WatchInput::SignalFailed(error)) => {
                &&& after == before.terminal_committed(id, lost_outcome(error@), now)
                &&& stage_after_commit(before, id, CommandStatus::TrackingError, true, stage)
                &&& step.delete_exit_code && step.event is None
            },
            (WatchStage::Waiting, WatchInput::Checkpoint) => {
                &&& after == before && silent
                &&& if before.unresolved(id) {
                    stage is Rechecking
                } else {
                    stage is Finished
                }
            },
            (WatchStage::Rechecking, WatchInput::ExitCode(_)) => {
                stage is RecheckingOutput && after == before && silent
            },
            (WatchStage::Rechecking, WatchInput::ExitCodeFailed(_)) => {
                stage is Waiting && after == before && silent
            },
            (
                WatchStage::RecheckingOutput,
                WatchInput::Captured(_) | WatchInput::CaptureFailed,
            ) => {
                &&& after == before && silent
                &&& if shows_end(input, id) {
                    stage is ReadingExitCode
                } else {
                    stage is Waiting
                }
            },
            (WatchStage::ReadingExitCode, WatchInput::ExitCode(code)) => {
                &&& after == before.terminal_committed(id, exit_outcome(code), now)
                &&& stage_after_commit(before, id, status_of_exit(code), false, stage)
                &&& step.delete_exit_code && step.event is None
            },
            (WatchStage::ReadingExitCode, WatchInput::ExitCodeFailed(error)) => {
                &&& after == before.terminal_committed(id, unreadable_outcome(error@), now)
                &&& stage_after_commit(before, id, CommandStatus::TrackingError, false, stage)
                &&& step.delete_exit_code && step.event is None
            },
            (
                WatchStage::Capturing { status, capture },
                WatchInput::Captured(_) | WatchInput::CaptureFailed,
            ) => match capture@.after(shown(input, id)) {
                CaptureDecision::Retry(progress) => {
                    &&& after == before && silent
                    &&& stage matches WatchStage::Capturing { status: s, capture: next }
                    &&& s == status && next@ == progress
                },
                CaptureDecision::Done(captured) => {
                    stage is Finished && self.finishes(before, captured, status, after, step)
                },
            },
            (WatchStage::Capturing { status, .. }, WatchInput::CaptureTimedOut) => {
                stage is Finished && self.finishes(
                    before,
                    Captured::unavailable(),
                    status,
                    after,
                    step,
                )
            },
            (
                WatchStage::CapturingOpen,
                WatchInput::Captured(_) | WatchInput::CaptureFailed,
            ) => {
                stage is Finished && self.finishes(
                    before,
                    Captured { truncated: true, ..Captured::of_running(shown(input, id)) },
                    CommandStatus::TrackingError,
                    after,
                    step,
                )
            },
            (WatchStage::CapturingOpen, WatchInput::CaptureTimedOut) => {
                stage is Finished && self.finishes(
                    before,
                    Captured::unavailable(),
                    CommandStatus::TrackingError,
                    after,
                    step,
                )
            },
            _ => stage == self.stage && after == before && silent,
        }
    }

    /// The result becomes readable, the pane is given free unless tracking failed, and the end
    /// is published.
    pub open spec fn finishes(
        self,
        before: Tracker,
        captured: Captured,
        status: CommandStatus,
        after: Tracker,
        step: WatchStep,
    ) -> bool {
        let id = self.command_id@;
        &&& after == before.made_ready(id, captured).released_unless_uncertain(
            self.pane.key(),
            id,
            status,
        )
        &&& !step.delete_exit_code
        &&& event_view(step.event) == (if before.commands.dom().contains(id)
            && before.commands[id].status.terminal() {
            Some(Event::of(CommandEventKind::Terminal, after.commands[id]))
        } else {
            None
        })
    }

    /// Take in what came of the last action.
    ///
    /// Input that does not belong to the current stage changes nothing.
    pub fn step(&mut self, tracker: &mut CommandTracker, input: WatchInput, now: u64) -> (r:
        WatchStep)
        requires
            old(tracker).wf(),
            old(self).stage.wf(),
        ensures
            final(tracker).wf(),
            final(self).stage.wf(),
            final(self).command_id == old(self).command_id,
            final(self).pane == old(self).pane,
            old(self).steps_to(
                old(tracker)@,
                input,
                now,
                final(tracker)@,
                final(self).stage,
                r,
            ),
            r.action == final(self).stage.action(old(tracker)@.tracking),
            old(tracker)@.consistent() ==> final(tracker)@.consistent(),
    {
        let tracking = tracker.tracking();
        let mut delete_exit_code: bool = false;
        let mut event: Option<CommandEvent> = None;
        let id = self.command_id.as_str();
        let mut stage: WatchStage = WatchStage::Finished;
        std::mem::swap(&mut stage, &mut self.stage);
        let next = match (stage, input) {
            (WatchStage::Waiting, WatchInput::Signal) => WatchStage::ReadingExitCode,
            (WatchStage::Waiting, WatchInput::SignalFailed(error)) => {
                let reason = "wait-for failed: ".to_owned().concat(error.as_str());
                let outcome = Outcome {
                    status: CommandStatus::TrackingError,
                    exit_code: None,
                    reason: Some(reason),
                };
                delete_exit_code = true;
                if tracker.commit_terminal(id, outcome, now) {
                    WatchStage::CapturingOpen
                } else {
                    WatchStage::Finished
                }
            },
            (WatchStage::Waiting, WatchInput::Checkpoint) => if tracker.is_unresolved(id) {
                WatchStage::Rechecking
            } else {
                WatchStage::Finished
            },
            // A signal is not queued durably. The exit-code buffer is, so a lost signal cannot
            // strand the pane.
            (WatchStage::Rechecking, WatchInput::ExitCode(_)) => WatchStage::RecheckingOutput,
            (WatchStage::Rechecking, WatchInput::ExitCodeFailed(_)) => WatchStage::Waiting,
            (WatchStage::RecheckingOutput, WatchInput::Captured(text)) => if end_is_shown(
                WatchInput::Captured(text),
                id,
            ) {
                WatchStage::ReadingExitCode
            } else {
                WatchStage::Waiting
            },
            (WatchStage::RecheckingOutput, WatchInput::CaptureFailed) => WatchStage::Waiting,
            (WatchStage::ReadingExitCode, WatchInput::ExitCode(code)) => {
                let status = exit_status(code);
                let outcome = Outcome { status, exit_code: Some(code), reason: None };
                delete_exit_code = true;
                if tracker.commit_terminal(id, outcome, now) {
                    WatchStage::Capturing { status, capture: TerminalCapture::start() }
                } else {
                    WatchStage::Finished
                }
            },
            (WatchStage::ReadingExitCode, WatchInput::ExitCodeFailed(error)) => {
                let reason = "side-channel exit buffer unreadable: ".to_owned().concat(
                    error.as_str(),
                );
                let status = CommandStatus::TrackingError;
                let outcome = Outcome { status, exit_code: None, reason: Some(reason) };
                delete_exit_code = true;
                if tracker.commit_terminal(id, outcome, now) {
                    WatchStage::Capturing { status, capture: TerminalCapture::start() }
                } else {
                    WatchStage::Finished
                }
            },
            (WatchStage::Capturing { status, capture }, WatchInput::Captured(text)) => {
                match capture.step(show(WatchInput::Captured(text), id)) {
                    CaptureStep::Retry(next) => WatchStage::Capturing { status, capture: next },
                    CaptureStep::Done(captured) => {
                        event = tracker.commit_ready(id, &self.pane, captured, status);
                        WatchStage::Finished
                    },
                }
            },
            (WatchStage::Capturing { status, capture }, WatchInput::CaptureFailed) => {
                match capture.step(None) {
                    CaptureStep::Retry(next) => WatchStage::Capturing { status, capture: next },
                    CaptureStep::Done(captured) => {
                        event = tracker.commit_ready(id, &self.pane, captured, status);
                        WatchStage::Finished
                    },
                }
            },
            (WatchStage::Capturing { status, .. }, WatchInput::CaptureTimedOut) => {
                event = tracker.commit_ready(
                    id,
                    &self.pane,
                    CapturedOutput::unavailable(),
                    status,
                );
                WatchStage::Finished
            },
            (WatchStage::CapturingOpen, WatchInput::Captured(text)) => {
                let mut captured = CapturedOutput::of_running(
                    show(WatchInput::Captured(text), id),
                );
                // Without the completion signal the end of the output is unknown, even where
                // START is still visible.
                captured.truncated = true;
                event = tracker.commit_ready(
                    id,
                    &self.pane,
                    captured,
                    CommandStatus::TrackingError,
                );
                WatchStage::Finished
            },
            (WatchStage::CapturingOpen, WatchInput::CaptureFailed) => {
                event = tracker.commit_ready(
                    id,
                    &self.pane,
                    CapturedOutput::unavailable(),
                    CommandStatus::TrackingError,
                );
                WatchStage::Finished
            },
            (WatchStage::CapturingOpen, WatchInput::CaptureTimedOut) => {
                event = tracker.commit_ready(
                    id,
                    &self.pane,
                    CapturedOutput::unavailable(),
                    CommandStatus::TrackingError,
                );
                WatchStage::Finished
            },
            (stage, _) => stage,
        };
        let action = next.next_action(&tracking);
        self.stage = next;
        WatchStep { action, delete_exit_code, event }
    }
}

/// Where a recovery stands.
#[derive(Debug, Clone, PartialEq, Eq)]
pub enum RecoveryStage {
    /// Is there an exit code?
    ReadingExitCode,
    /// There is one: does the pane show the end of the command?
    CheckingOutput { exit_code: i32 },
    /// The command has ended: capturing its final output.
    Capturing { exit_code: i32, capture: TerminalCapture },
    /// Done; whether the command is terminal.
    Finished { terminal: bool },
}

impl RecoveryStage {
    /// The action that this stage asks for.
    pub open spec fn action(self, tracking: TrackingConfig) -> WatchAction {
        let lines = at_least_one(tracking.capture_max_lines as int) as u32;
        match self {
            RecoveryStage::ReadingExitCode => WatchAction::ReadExitCode,
            RecoveryStage::CheckingOutput { .. } => WatchAction::Capture { lines, pause_ms: 0 },
            RecoveryStage::Capturing { capture, .. } => WatchAction::Capture {
                lines,
                pause_ms: if capture@.attempts > 0 {
                    FINAL_OUTPUT_CAPTURE_RETRY_DELAY_MS
                } else {
                    0
                },
            },
            RecoveryStage::Finished { .. } => WatchAction::Stop,
        }
    }

    fn next_action(&self, tracking: &TrackingConfig) -> (r: WatchAction)
        ensures
            r == self.action(*tracking),
    {
        let lines: u32 = final_capture_lines(tracking);
        match self {
            RecoveryStage::ReadingExitCode => WatchAction::ReadExitCode,
            RecoveryStage::CheckingOutput { .. } => WatchAction::Capture { lines, pause_ms: 0 },
            RecoveryStage::Capturing { capture, .. } => WatchAction::Capture {
                lines,
                pause_ms: if capture.is_retry() {
                    FINAL_OUTPUT_CAPTURE_RETRY_DELAY_MS
                } else {
                    0
                },
            },
            RecoveryStage::Finished { .. } => WatchAction::Stop,
        }
    }

    /// The final capture is within its attempts.
    pub open spec fn wf(self) -> bool {
        self matches RecoveryStage::Capturing { capture, .. } ==> capture@.attempts
            < FINAL_OUTPUT_CAPTURE_ATTEMPTS
    }
}

/// Looks once whether a command has ended unnoticed.
///
/// The private exit code is authoritative; a DONE marker must be visible too, so that a buffer
/// left by a command that still runs cannot release the pane early.
#[derive(Debug, Clone, PartialEq, Eq)]
pub struct Recovery {
    pub command_id: String,
    pub pane: PaneRef,
    pub stage: RecoveryStage,
}

impl Recovery {
    /// The recovery of a command whose side channel is known, and its first action.
    pub fn start(command_id: String, pane: PaneRef) -> (r: (Recovery, WatchAction))
        ensures
            r.0.command_id == command_id,
            r.0.pane == pane,
            r.0.stage is ReadingExitCode,
            r.1 == WatchAction::ReadExitCode,
    {
        (
            Recovery { command_id, pane, stage: RecoveryStage::ReadingExitCode },
            WatchAction::ReadExitCode,
        )
    }

    /// What a step does to the tracker and to the stage.
    pub open spec fn steps_to(
        self,
        before: Tracker,
        input: WatchInput,
        now: u64,
        after: Tracker,
        stage: RecoveryStage,
        step: WatchStep,
    ) -> bool {
        let id = self.command_id@;
        let silent = !step.delete_exit_code && step.event is None;
        match (self.stage, input) {
            (RecoveryStage::ReadingExitCode, WatchInput::ExitCode(code)) => {
                stage == (RecoveryStage::CheckingOutput { exit_code: code }) && after == before
                    && silent
            },
            (RecoveryStage::ReadingExitCode, WatchInput::ExitCodeFailed(_)) => {
                stage == (RecoveryStage::Finished { terminal: false }) && after == before && silent
            },
            (
                RecoveryStage::CheckingOutput { exit_code },
                WatchInput::Captured(_) | WatchInput::CaptureFailed,
            ) => {
                &&& after == before && silent
                &&& if shows_end(input, id) {
                    &&& stage matches RecoveryStage::Capturing { exit_code: code, capture }
                    &&& code == exit_code && capture@ == CaptureProgress::start()
                } else {
                    stage == (RecoveryStage::Finished { terminal: false })
                }
            },
            (
                RecoveryStage::Capturing { exit_code, capture },
                WatchInput::Captured(_) | WatchInput::CaptureFailed,
            ) => match capture@.after(shown(input, id)) {
                CaptureDecision::Retry(progress) => {
                    &&& after == before && silent
                    &&& stage matches RecoveryStage::Capturing { exit_code: code, capture: next }
                    &&& code == exit_code && next@ == progress
                },
                CaptureDecision::Done(captured) => self.finishes(
                    before,
                    exit_code,
                    captured,
                    now,
                    after,
                    stage,
                    step,
                ),
            },
            (RecoveryStage::Capturing { exit_code, .. }, WatchInput::CaptureTimedOut) => {
                self.finishes(before, exit_code, Captured::unavailable(), now, after, stage, step)
            },
            _ => stage == self.stage && after == before && silent,
        }
    }

    /// The completion is committed, unless the command has gone or has ended meanwhile.
    pub open spec fn finishes(
        self,
        before: Tracker,
        exit_code: i32,
        captured: Captured,
        now: u64,
        after: Tracker,
        stage: RecoveryStage,
        step: WatchStep,
    ) -> bool {
        let id = self.command_id@;
        &&& after == before.recovered(id, self.pane.key(), exit_code, captured, now)
        &&& stage == (RecoveryStage::Finished { terminal: before.commands.dom().contains(id) })
        &&& step.delete_exit_code == before.unresolved(id)
        &&& event_view(step.event) == (if before.unresolved(id) {
            Some(Event::of(CommandEventKind::Terminal, after.commands[id]))
        } else {
            None
        })
    }

    /// Take in what came of the last action.
    ///
    /// Input that does not belong to the current stage changes nothing.
    pub fn step(&mut self, tracker: &mut CommandTracker, input: WatchInput, now: u64) -> (r:
        WatchStep)
        requires
            old(tracker).wf(),
            old(self).stage.wf(),
        ensures
            final(tracker).wf(),
            final(self).stage.wf(),
            final(self).command_id == old(self).command_id,
            final(self).pane == old(self).pane,
            old(self).steps_to(
                old(tracker)@,
                input,
                now,
                final(tracker)@,
                final(self).stage,
                r,
            ),
            r.action == final(self).stage.action(old(tracker)@.tracking),
            old(tracker)@.consistent() ==> final(tracker)@.consistent(),
    {
        let tracking = tracker.tracking();
        let id = self.command_id.as_str();
        let mut stage = RecoveryStage::ReadingExitCode;
        std::mem::swap(&mut stage, &mut self.stage);
        let mut finished: Option<(i32, CapturedOutput)> = None;
        let next = match (stage, input) {
            (
                RecoveryStage::ReadingExitCode,
                WatchInput::ExitCode(code),
            ) => RecoveryStage::CheckingOutput { exit_code: code },
            (
                RecoveryStage::ReadingExitCode,
                WatchInput::ExitCodeFailed(_),
            ) => RecoveryStage::Finished { terminal: false },
            (
                RecoveryStage::CheckingOutput { exit_code },
                WatchInput::Captured(text),
            ) => if end_is_shown(WatchInput::Captured(text), id) {
                RecoveryStage::Capturing { exit_code, capture: TerminalCapture::start() }
            } else {
                RecoveryStage::Finished { terminal: false }
            },
            (
                RecoveryStage::CheckingOutput { .. },
                WatchInput::CaptureFailed,
            ) => RecoveryStage::Finished { terminal: false },
            (RecoveryStage::Capturing { exit_code, capture }, WatchInput::Captured(text)) => {
                match capture.step(show(WatchInput::Captured(text), id)) {
                    CaptureStep::Retry(next) => RecoveryStage::Capturing {
                        exit_code,
                        capture: next,
                    },
                    CaptureStep::Done(captured) => {
                        finished = Some((exit_code, captured));
                        RecoveryStage::Finished { terminal: true }
                    },
                }
            },
            (RecoveryStage::Capturing { exit_code, capture }, WatchInput::CaptureFailed) => {
                match capture.step(None) {
                    CaptureStep::Retry(next) => RecoveryStage::Capturing {
                        exit_code,
                        capture: next,
                    },
                    CaptureStep::Done(captured) => {
                        finished = Some((exit_code, captured));
                        RecoveryStage::Finished { terminal: true }
                    },
                }
            },
            (RecoveryStage::Capturing { exit_code, .. }, WatchInput::CaptureTimedOut) => {
                finished = Some((exit_code, CapturedOutput::unavailable()));
                RecoveryStage::Finished { terminal: true }
            },
            (stage, _) => stage,
        };
        match finished {
            Some((exit_code, captured)) => {
                let (terminal, event) = tracker.commit_recovery(
                    id,
                    &self.pane,
                    exit_code,
                    captured,
                    now,
                );
                let delete_exit_code = event.is_some();
                self.stage = RecoveryStage::Finished { terminal };
                WatchStep { action: WatchAction::Stop, delete_exit_code, event }
            },
            None => {
                let action = next.next_action(&tracking);
                self.stage = next;
                WatchStep { action, delete_exit_code: false, event: None }
            },
        }
    }
}

} // verus!
