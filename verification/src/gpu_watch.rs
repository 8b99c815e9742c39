//! The course of one GPU watch, and the end of its remote process.

use crate::gpu_monitor::{GpuMonitorManager, Monitors, StartGpuWatchInput, MAX_PROTOCOL_LINE_BYTES};
use crate::gpu_protocol::{
    all_uuids, due, idle_after, parse_protocol_line, parsed_line, resolve_targets, resolved,
    update_idle_state, uuids, Message, ProtocolMessage, WatchOutcome,
};
use crate::keyed::Keyed;
use crate::seqs::push_contains;
use crate::text::{listed, opt_as_str, opt_view, same, views};
use vstd::prelude::*;
use vstd::utf8::encode_utf8;

verus! {

/// A [`WatchOutcome`] with its texts as sequences of characters.
#[verifier::ext_equal]
pub enum Ended {
    Triggered(Seq<Seq<char>>),
    Stopped(bool),
    Expired,
    Failed(Seq<char>),
}

/// An outcome, or the failure in its place.
pub open spec fn ended_view(r: Result<WatchOutcome, String>) -> Ended {
    match r {
        Ok(WatchOutcome::Triggered(gpus)) => Ended::Triggered(views(gpus@)),
        Ok(WatchOutcome::Stopped(confirmed)) => Ended::Stopped(confirmed),
        Ok(WatchOutcome::Expired) => Ended::Expired,
        Err(words) => Ended::Failed(words@),
    }
}

/// What happened to a watch.
#[derive(Debug, Clone, PartialEq, Eq)]
pub enum RemoteInput {
    /// The watch was told to stop, or nobody is left to tell it.
    Cancelled,
    /// The inventory is overdue.
    ReadyTimedOut,
    /// The next sample is overdue.
    HeartbeatTimedOut,
    /// The remote script wrote a line.
    Line(String),
    /// Its output could not be read, with this error.
    OutputFailed(String),
    /// Its output has ended.
    OutputEnded,
}

/// What a watch ends with once its remote process is terminated.
#[derive(Debug, PartialEq, Eq)]
pub enum Ending {
    Stopped,
    ReadyTimedOut,
    SampleTimedOut,
    /// The end is settled whatever becomes of the remote process.
    Settled(Result<WatchOutcome, String>),
}

/// What a watch ends with once its SSH process has exited.
#[derive(Debug, Clone, PartialEq, Eq)]
pub enum ExitEnding {
    Unexpected,
    Expired,
    Failed(String),
}

/// What to do next.
#[derive(Debug, PartialEq, Eq)]
pub enum RemoteStep {
    /// Go on; start waiting for the next sample anew where so asked.
    Continue { reset_heartbeat: bool },
    /// The watch has ended.
    End(Result<WatchOutcome, String>),
    /// Terminate the remote process; then the watch has ended.
    Terminate { pid: Option<u32>, ending: Ending },
    /// Wait for the SSH process to exit; then the watch has ended.
    AwaitExit { ending: ExitEnding },
}

/// An [`Ending`] with its texts as sequences of characters.
#[verifier::ext_equal]
pub enum EndingView {
    Stopped,
    ReadyTimedOut,
    SampleTimedOut,
    Settled(Ended),
}

/// A [`RemoteStep`] with its texts as sequences of characters.
#[verifier::ext_equal]
pub enum StepView {
    Continue { reset_heartbeat: bool },
    End(Ended),
    Terminate { pid: Option<u32>, ending: EndingView },
    AwaitUnexpected,
    AwaitExpired,
    AwaitFailed(Seq<char>),
}

impl View for Ending {
    type V = EndingView;

    open spec fn view(&self) -> EndingView {
        match self {
            Ending::Stopped => EndingView::Stopped,
            Ending::ReadyTimedOut => EndingView::ReadyTimedOut,
            Ending::SampleTimedOut => EndingView::SampleTimedOut,
            Ending::Settled(r) => EndingView::Settled(ended_view(*r)),
        }
    }
}

impl View for RemoteStep {
    type V = StepView;

    open spec fn view(&self) -> StepView {
        match self {
            RemoteStep::Continue { reset_heartbeat } => StepView::Continue {
                reset_heartbeat: *reset_heartbeat,
            },
            RemoteStep::End(r) => StepView::End(ended_view(*r)),
            RemoteStep::Terminate { pid, ending } => StepView::Terminate {
                pid: *pid,
                ending: ending@,
            },
            RemoteStep::AwaitExit { ending: ExitEnding::Unexpected } => StepView::AwaitUnexpected,
            RemoteStep::AwaitExit { ending: ExitEnding::Expired } => StepView::AwaitExpired,
            RemoteStep::AwaitExit { ending: ExitEnding::Failed(reason) } => StepView::AwaitFailed(
                reason@,
            ),
        }
    }
}

/// What is known of the remote side of a watch.
#[verifier::ext_equal]
pub struct Remote {
    pub monitor_id: Seq<char>,
    pub requested: Option<Seq<char>>,
    pub idle_seconds: u64,
    /// Process that the remote script runs as, once it has said so.
    pub remote_pid: Option<u32>,
    /// GPUs that are watched.
    pub targets: Seq<Seq<char>>,
    /// GPUs that exist.
    pub known: Seq<Seq<char>>,
    /// Since when each watched GPU is idle.
    pub idle_since: Map<Seq<char>, u64>,
    /// The inventory is known.
    pub ready: bool,
}

impl Remote {
    /// The end that a failure makes, without touching the remote process.
    pub open spec fn failed(words: Seq<char>) -> StepView {
        StepView::End(Ended::Failed(words))
    }

    /// The end that a failure makes, once the remote process is terminated.
    pub open spec fn terminated(pid: Option<u32>, words: Seq<char>) -> StepView {
        StepView::Terminate { pid, ending: EndingView::Settled(Ended::Failed(words)) }
    }

    /// What a message does to the watch.
    pub open spec fn after_message(
        self,
        state: Monitors,
        message: Message,
        now: u64,
        now_ms: u64,
    ) -> (Remote, Monitors, StepView) {
        let on = StepView::Continue { reset_heartbeat: false };
        match message {
            Message::Ready { id, pid } => if id != self.monitor_id {
                (self, state, Remote::terminated(Some(pid), "GPU watcher READY id mismatch"@))
            } else {
                (Remote { remote_pid: Some(pid), ..self }, state, on)
            },
            Message::Inventory(inventory) => if self.remote_pid is None {
                (self, state, Remote::failed("GPU watcher INVENTORY arrived before READY"@))
            } else {
                match resolved(self.requested, inventory) {
                    Err(words) => (self, state, Remote::failed(words)),
                    Ok(targets) => (
                        Remote { targets, known: uuids(inventory), ready: true, ..self },
                        state.watching(self.monitor_id, self.remote_pid, targets, now_ms),
                        StepView::Continue { reset_heartbeat: true },
                    ),
                }
            },
            Message::Sample { active } => if !self.ready {
                (self, state, Remote::failed("GPU watcher SAMPLE arrived before INVENTORY"@))
            } else if exists|i: int|
                0 <= i < active.len() && !self.known.contains(#[trigger] active[i]) {
                (
                    self,
                    state,
                    Remote::terminated(
                        self.remote_pid,
                        "GPU process UUID does not map to physical inventory"@,
                    ),
                )
            } else {
                let next = Remote {
                    idle_since: idle_after(self.targets, active, self.idle_since, now),
                    ..self
                };
                let triggered = due(
                    self.targets,
                    active,
                    self.idle_since,
                    now,
                    self.idle_seconds,
                );
                (
                    next,
                    state.sampled(self.monitor_id, now_ms),
                    if triggered.len() > 0 {
                        StepView::Terminate {
                            pid: self.remote_pid,
                            ending: EndingView::Settled(Ended::Triggered(triggered)),
                        }
                    } else {
                        StepView::Continue { reset_heartbeat: true }
                    },
                )
            },
            Message::Expired => (self, state, StepView::AwaitExpired),
            Message::Error(reason) => (self, state, StepView::AwaitFailed(reason)),
        }
    }

    /// What an event does to the watch.
    pub open spec fn after(
        self,
        state: Monitors,
        input: RemoteInput,
        now: u64,
        now_ms: u64,
    ) -> (Remote, Monitors, StepView) {
        let on = StepView::Continue { reset_heartbeat: false };
        match input {
            RemoteInput::Cancelled => (
                self,
                state,
                StepView::Terminate { pid: self.remote_pid, ending: EndingView::Stopped },
            ),
            RemoteInput::ReadyTimedOut => if self.ready {
                (self, state, on)
            } else {
                (
                    self,
                    state,
                    StepView::Terminate {
                        pid: self.remote_pid,
                        ending: EndingView::ReadyTimedOut,
                    },
                )
            },
            RemoteInput::HeartbeatTimedOut => if self.ready {
                (
                    self,
                    state,
                    StepView::Terminate {
                        pid: self.remote_pid,
                        ending: EndingView::SampleTimedOut,
                    },
                )
            } else {
                (self, state, on)
            },
            RemoteInput::OutputFailed(error) => (
                self,
                state,
                Remote::failed("GPU watcher output: "@ + error@),
            ),
            RemoteInput::OutputEnded => (self, state, StepView::AwaitUnexpected),
            RemoteInput::Line(line) => if encode_utf8(line@).len() > MAX_PROTOCOL_LINE_BYTES {
                (
                    self,
                    state,
                    Remote::terminated(
                        self.remote_pid,
                        "GPU watcher protocol line exceeds 4096 bytes"@,
                    ),
                )
            } else {
                match parsed_line(line@) {
                    Err(words) => (self, state, Remote::failed(words)),
                    Ok(message) => self.after_message(state, message, now, now_ms),
                }
            },
        }
    }
}

/// The remote side of a watch.
#[derive(Debug, Clone)]
pub struct RemoteWatch {
    monitor_id: String,
    requested: Option<String>,
    idle_seconds: u64,
    remote_pid: Option<u32>,
    targets: Vec<String>,
    known_gpus: Vec<String>,
    idle_since: Keyed<u64>,
    ready: bool,
}

impl View for RemoteWatch {
    type V = Remote;

    closed spec fn view(&self) -> Remote {
        Remote {
            monitor_id: self.monitor_id@,
            requested: opt_view(self.requested),
            idle_seconds: self.idle_seconds,
            remote_pid: self.remote_pid,
            targets: views(self.targets@),
            known: views(self.known_gpus@),
            idle_since: self.idle_since@,
            ready: self.ready,
        }
    }
}

impl RemoteWatch {
    /// Each GPU has one idle timer.
    pub closed spec fn wf(&self) -> bool {
        self.idle_since.wf()
    }

    /// Before the remote script has said anything.
    pub fn start(monitor_id: String, input: &StartGpuWatchInput) -> (r: Self)
        ensures
            r.wf(),
            r@ == (Remote {
                monitor_id: monitor_id@,
                requested: opt_view(input.gpu),
                idle_seconds: input.idle_seconds,
                remote_pid: None,
                targets: Seq::empty(),
                known: Seq::empty(),
                idle_since: Map::empty(),
                ready: false,
            }),
    {
        let r = RemoteWatch {
            monitor_id,
            requested: input.gpu.clone(),
            idle_seconds: input.idle_seconds,
            remote_pid: None,
            targets: Vec::new(),
            known_gpus: Vec::new(),
            idle_since: Keyed::new(),
            ready: false,
        };
        assert(r@.targets =~= Seq::<Seq<char>>::empty());
        assert(r@.known =~= Seq::<Seq<char>>::empty());
        r
    }

    /// Whether the inventory is known.
    pub fn is_ready(&self) -> (r: bool)
        ensures
            r == self@.ready,
    {
        self.ready
    }

    fn fail(words: &str) -> (r: RemoteStep)
        ensures
            r@ == Remote::failed(words@),
    {
        RemoteStep::End(Err(words.to_owned()))
    }

    fn terminate(pid: Option<u32>, words: &str) -> (r: RemoteStep)
        ensures
            r@ == Remote::terminated(pid, words@),
    {
        RemoteStep::Terminate { pid, ending: Ending::Settled(Err(words.to_owned())) }
    }

    /// Take in a message of the remote script.
    fn take_message(
        &mut self,
        manager: &mut GpuMonitorManager,
        message: ProtocolMessage,
        now: u64,
        now_ms: u64,
    ) -> (r: RemoteStep)
        requires
            old(self).wf(),
        ensures
            final(self).wf(),
            (final(self)@, final(manager)@, r@) == old(self)@.after_message(
                old(manager)@,
                message@,
                now,
                now_ms,
            ),
    {
        match message {
            ProtocolMessage::Ready { id, pid } => {
                if !same(id.as_str(), self.monitor_id.as_str()) {
                    return RemoteWatch::terminate(Some(pid), "GPU watcher READY id mismatch");
                }
                self.remote_pid = Some(pid);
                RemoteStep::Continue { reset_heartbeat: false }
            },
            ProtocolMessage::Inventory(inventory) => {
                if self.remote_pid.is_none() {
                    return RemoteWatch::fail("GPU watcher INVENTORY arrived before READY");
                }
                match resolve_targets(opt_as_str(&self.requested), &inventory) {
                    Err(words) => RemoteStep::End(Err(words)),
                    Ok(targets) => {
                        manager.set_watching(
                            self.monitor_id.as_str(),
                            self.remote_pid,
                            &targets,
                            now_ms,
                        );
                        self.targets = targets;
                        self.known_gpus = all_uuids(&inventory);
                        self.ready = true;
                        RemoteStep::Continue { reset_heartbeat: true }
                    },
                }
            },
            ProtocolMessage::Sample { active } => {
                if !self.ready {
                    return RemoteWatch::fail("GPU watcher SAMPLE arrived before INVENTORY");
                }
                let ghost sample = views(active@);
                let mut i: usize = 0;
                while i < active.len()
                    invariant
                        i <= active@.len(),
                        sample == views(active@),
                        *self == *old(self),
                        *manager == *old(manager),
                        self.wf(),
                        self.ready,
                        message@ == (Message::Sample { active: sample }),
                        forall|j: int|
                            0 <= j < i ==> self@.known.contains(#[trigger] sample[j]),
                    decreases active@.len() - i,
                {
                    assert(sample[i as int] == active@[i as int]@);
                    if !listed(&self.known_gpus, active[i].as_str()) {
                        assert(!self@.known.contains(sample[i as int]));
                        return RemoteWatch::terminate(
                            self.remote_pid,
                            "GPU process UUID does not map to physical inventory",
                        );
                    }
                    i += 1;
                }
                let triggered = update_idle_state(
                    &self.targets,
                    &active,
                    &mut self.idle_since,
                    now,
                    self.idle_seconds,
                );
                manager.set_sampled(self.monitor_id.as_str(), now_ms);
                if triggered.len() > 0 {
                    RemoteStep::Terminate {
                        pid: self.remote_pid,
                        ending: Ending::Settled(Ok(WatchOutcome::Triggered(triggered))),
                    }
                } else {
                    RemoteStep::Continue { reset_heartbeat: true }
                }
            },
            ProtocolMessage::Expired => RemoteStep::AwaitExit { ending: ExitEnding::Expired },
            ProtocolMessage::Error(reason) => RemoteStep::AwaitExit {
                ending: ExitEnding::Failed(reason),
            },
        }
    }

    /// Take in what happened.
    pub fn step(
        &mut self,
        manager: &mut GpuMonitorManager,
        input: RemoteInput,
        now: u64,
        now_ms: u64,
    ) -> (r: RemoteStep)
        requires
            old(self).wf(),
        ensures
            final(self).wf(),
            (final(self)@, final(manager)@, r@) == old(self)@.after(
                old(manager)@,
                input,
                now,
                now_ms,
            ),
    {
        match input {
            RemoteInput::Cancelled => RemoteStep::Terminate {
                pid: self.remote_pid,
                ending: Ending::Stopped,
            },
            RemoteInput::ReadyTimedOut => if self.ready {
                RemoteStep::Continue { reset_heartbeat: false }
            } else {
                RemoteStep::Terminate { pid: self.remote_pid, ending: Ending::ReadyTimedOut }
            },
            RemoteInput::HeartbeatTimedOut => if self.ready {
                RemoteStep::Terminate { pid: self.remote_pid, ending: Ending::SampleTimedOut }
            } else {
                RemoteStep::Continue { reset_heartbeat: false }
            },
            RemoteInput::OutputFailed(error) => {
                let words = "GPU watcher output: ".to_owned().concat(error.as_str());
                RemoteStep::End(Err(words))
            },
            RemoteInput::OutputEnded => RemoteStep::AwaitExit { ending: ExitEnding::Unexpected },
            RemoteInput::Line(line) => {
                if line.as_str().as_bytes().len() > MAX_PROTOCOL_LINE_BYTES {
                    return RemoteWatch::terminate(
                        self.remote_pid,
                        "GPU watcher protocol line exceeds 4096 bytes",
                    );
                }
                match parse_protocol_line(line.as_str()) {
                    Err(words) => RemoteStep::End(Err(words)),
                    Ok(message) => self.take_message(manager, message, now, now_ms),
                }
            },
        }
    }
}

impl EndingView {
    /// What the watch ends with, given whether the remote process is known to have ended.
    pub open spec fn with(self, confirmed: bool) -> Ended {
        match self {
            EndingView::Stopped => Ended::Stopped(confirmed),
            EndingView::ReadyTimedOut => if confirmed {
                Ended::Failed("GPU watcher READY timed out"@)
            } else {
                Ended::Failed("GPU watcher READY timed out; remote termination unconfirmed"@)
            },
            EndingView::SampleTimedOut => if confirmed {
                Ended::Failed("GPU watcher sample timed out"@)
            } else {
                Ended::Failed("GPU watcher sample timed out; remote termination unconfirmed"@)
            },
            EndingView::Settled(end) => end,
        }
    }
}

impl Ending {
    /// What the watch ends with, given whether the remote process is known to have ended.
    pub fn settle(self, confirmed: bool) -> (r: Result<WatchOutcome, String>)
        ensures
            ended_view(r) == self@.with(confirmed),
    {
        match self {
            Ending::Stopped => Ok(WatchOutcome::Stopped(confirmed)),
            Ending::ReadyTimedOut => if confirmed {
                Err("GPU watcher READY timed out".to_owned())
            } else {
                Err("GPU watcher READY timed out; remote termination unconfirmed".to_owned())
            },
            Ending::SampleTimedOut => if confirmed {
                Err("GPU watcher sample timed out".to_owned())
            } else {
                Err("GPU watcher sample timed out; remote termination unconfirmed".to_owned())
            },
            Ending::Settled(end) => end,
        }
    }
}

impl ExitEnding {
    /// What the watch ends with once the SSH process has exited with `status`, or waiting for
    /// it failed; `diagnostic` is what it wrote to its error output.
    pub fn settle(self, status: Result<String, String>, diagnostic: &str) -> (r: Result<
        WatchOutcome,
        String,
    >)
        ensures
            ended_view(r) == (match self {
                ExitEnding::Unexpected => Ended::Failed(
                    match status {
                        Ok(words) => "GPU watcher exited with "@ + words@ + ": "@ + diagnostic@,
                        Err(error) => "GPU watcher wait: "@ + error@,
                    },
                ),
                ExitEnding::Expired => Ended::Expired,
                ExitEnding::Failed(reason) => Ended::Failed(
                    if diagnostic@.len() == 0 {
                        reason@
                    } else {
                        reason@ + ": "@ + diagnostic@
                    },
                ),
            }),
    {
        match self {
            ExitEnding::Unexpected => match status {
                Ok(words) => Err(
                    "GPU watcher exited with ".to_owned().concat(words.as_str()).concat(
                        ": ",
                    ).concat(diagnostic),
                ),
                Err(error) => Err("GPU watcher wait: ".to_owned().concat(error.as_str())),
            },
            ExitEnding::Expired => Ok(WatchOutcome::Expired),
            ExitEnding::Failed(reason) => if diagnostic.is_empty() {
                Err(reason)
            } else {
                Err(reason.concat(": ").concat(diagnostic))
            },
        }
    }
}

/// What became of a signal to the remote process.
#[derive(Debug, Clone, Copy, PartialEq, Eq, Structural)]
pub enum SignalResult {
    Sent,
    /// No such process.
    Gone,
    /// A process of that number, but not this watch.
    Mismatch,
    Failed,
}

/// What the exit code of the signalling script says; none when it did not run to its end.
pub fn signal_result(exit_code: Option<i32>) -> (r: SignalResult)
    ensures
        r == (match exit_code {
            Some(0) => SignalResult::Sent,
            Some(3) => SignalResult::Gone,
            Some(4) => SignalResult::Mismatch,
            _ => SignalResult::Failed,
        }),
{
    match exit_code {
        Some(code) => if code == 0 {
            SignalResult::Sent
        } else if code == 3 {
            SignalResult::Gone
        } else if code == 4 {
            SignalResult::Mismatch
        } else {
            SignalResult::Failed
        },
        None => SignalResult::Failed,
    }
}

/// How far the termination of a remote process has come.
#[derive(Debug, Clone, Copy, PartialEq, Eq, Structural)]
pub enum Termination {
    /// Ask the process to end.
    SendTerm { pid: u32 },
    /// It was not there: wait for the SSH process to notice.
    AwaitGone,
    /// It was asked: wait for the SSH process to exit.
    AwaitTerm { pid: u32 },
    /// It did not end in time: kill it.
    SendKill { pid: u32 },
    /// It was killed: wait for the SSH process to exit.
    AwaitKill,
    /// Kill the SSH process; whether the remote process has ended is unknown.
    KillLocal,
    /// The remote process is known to have ended.
    Confirmed,
}

/// What came of the last action.
#[derive(Debug, Clone, Copy, PartialEq, Eq, Structural)]
pub enum TerminationInput {
    Signalled(SignalResult),
    /// Whether the SSH process exited within the grace time.
    Exited(bool),
}

impl Termination {
    /// Where termination begins: without a process to signal only the SSH process is left.
    pub fn start(remote_pid: Option<u32>) -> (r: Termination)
        ensures
            r == (match remote_pid {
                Some(pid) => Termination::SendTerm { pid },
                None => Termination::KillLocal,
            }),
    {
        match remote_pid {
            Some(pid) => Termination::SendTerm { pid },
            None => Termination::KillLocal,
        }
    }

    /// What comes next.
    pub open spec fn after(self, input: TerminationInput) -> Termination {
        match (self, input) {
            (Termination::SendTerm { pid }, TerminationInput::Signalled(result)) => match result {
                SignalResult::Gone => Termination::AwaitGone,
                SignalResult::Sent => Termination::AwaitTerm { pid },
                SignalResult::Mismatch | SignalResult::Failed => Termination::KillLocal,
            },
            (Termination::AwaitTerm { pid }, TerminationInput::Exited(false)) => {
                Termination::SendKill { pid }
            },
            (Termination::SendKill { .. }, TerminationInput::Signalled(result)) => match result {
                SignalResult::Sent | SignalResult::Gone => Termination::AwaitKill,
                SignalResult::Mismatch | SignalResult::Failed => Termination::KillLocal,
            },
            (
                Termination::AwaitGone | Termination::AwaitTerm { .. } | Termination::AwaitKill,
                TerminationInput::Exited(true),
            ) => Termination::Confirmed,
            (
                Termination::AwaitGone | Termination::AwaitKill,
                TerminationInput::Exited(false),
            ) => Termination::KillLocal,
            _ => self,
        }
    }

    /// Take in what came of the last action.
    pub fn step(self, input: TerminationInput) -> (r: Termination)
        ensures
            r == self.after(input),
    {
        match (self, input) {
            (Termination::SendTerm { pid }, TerminationInput::Signalled(result)) => match result {
                SignalResult::Gone => Termination::AwaitGone,
                SignalResult::Sent => Termination::AwaitTerm { pid },
                SignalResult::Mismatch | SignalResult::Failed => Termination::KillLocal,
            },
            (Termination::SendKill { .. }, TerminationInput::Signalled(result)) => match result {
                SignalResult::Sent | SignalResult::Gone => Termination::AwaitKill,
                SignalResult::Mismatch | SignalResult::Failed => Termination::KillLocal,
            },
            (Termination::AwaitTerm { pid }, TerminationInput::Exited(exited)) => if exited {
                Termination::Confirmed
            } else {
                Termination::SendKill { pid }
            },
            (Termination::AwaitGone, TerminationInput::Exited(exited)) => if exited {
                Termination::Confirmed
            } else {
                Termination::KillLocal
            },
            (Termination::AwaitKill, TerminationInput::Exited(exited)) => if exited {
                Termination::Confirmed
            } else {
                Termination::KillLocal
            },
            (stage, _) => stage,
        }
    }
}

/// Activity resets the idle timer: a GPU that was active in the last sample is not reported
/// before it has been idle for the whole required time after it.
pub proof fn activity_resets_the_timer(
    targets: Seq<Seq<char>>,
    gpu: Seq<char>,
    idle_since: Map<Seq<char>, u64>,
    active: Seq<Seq<char>>,
    seen: u64,
    later_active: Seq<Seq<char>>,
    now: u64,
    required_seconds: u64,
)
    requires
        targets.contains(gpu),
        active.contains(gpu),
        required_seconds > 0,
    ensures
        !idle_after(targets, active, idle_since, seen).dom().contains(gpu),
        !crate::gpu_protocol::is_due(
            gpu,
            later_active,
            idle_after(targets, active, idle_since, seen),
            now,
            required_seconds,
        ),
{
}

/// One sample of a watch: the GPUs that are in use, and when it was taken.
#[verifier::ext_equal]
pub struct Sample {
    pub active: Seq<Seq<char>>,
    pub at: u64,
}

/// The idle timers after these samples, one after the other.
pub open spec fn idle_after_all(
    targets: Seq<Seq<char>>,
    idle_since: Map<Seq<char>, u64>,
    samples: Seq<Sample>,
) -> Map<Seq<char>, u64>
    decreases samples.len(),
{
    if samples.len() == 0 {
        idle_since
    } else {
        idle_after(
            targets,
            samples.last().active,
            idle_after_all(targets, idle_since, samples.drop_last()),
            samples.last().at,
        )
    }
}

proof fn lemma_due(
    targets: Seq<Seq<char>>,
    active: Seq<Seq<char>>,
    idle_since: Map<Seq<char>, u64>,
    now: u64,
    required_seconds: u64,
    gpu: Seq<char>,
)
    ensures
        due(targets, active, idle_since, now, required_seconds).contains(gpu)
            ==> crate::gpu_protocol::is_due(gpu, active, idle_since, now, required_seconds),
    decreases targets.len(),
{
    if targets.len() > 0 {
        let rest = due(targets.drop_last(), active, idle_since, now, required_seconds);
        lemma_due(targets.drop_last(), active, idle_since, now, required_seconds, gpu);
        push_contains(rest, targets.last());
    }
}

/// Activity keeps a GPU off the idle list: in a whole run of samples in each of which it is in
/// use, however far apart, it is never reported, and its timer does not run.
pub proof fn busy_gpu_is_never_idle(
    targets: Seq<Seq<char>>,
    gpu: Seq<char>,
    idle_since: Map<Seq<char>, u64>,
    samples: Seq<Sample>,
    i: int,
    required_seconds: u64,
)
    requires
        targets.contains(gpu),
        forall|j: int| 0 <= j < samples.len() ==> (#[trigger] samples[j]).active.contains(gpu),
        0 <= i < samples.len(),
    ensures
        !due(
            targets,
            samples[i].active,
            idle_after_all(targets, idle_since, samples.take(i)),
            samples[i].at,
            required_seconds,
        ).contains(gpu),
        !idle_after_all(targets, idle_since, samples).dom().contains(gpu),
{
    lemma_due(
        targets,
        samples[i].active,
        idle_after_all(targets, idle_since, samples.take(i)),
        samples[i].at,
        required_seconds,
        gpu,
    );
    assert(samples.last() == samples[samples.len() - 1]);
}

/// The timers of different GPUs are independent: what a sample says of one GPU does not touch
/// the timer of another.
pub proof fn timers_are_per_gpu(
    targets: Seq<Seq<char>>,
    gpu: Seq<char>,
    active: Seq<Seq<char>>,
    other_active: Seq<Seq<char>>,
    idle_since: Map<Seq<char>, u64>,
    now: u64,
)
    requires
        active.contains(gpu) == other_active.contains(gpu),
    ensures
        idle_after(targets, active, idle_since, now).dom().contains(gpu) == idle_after(
            targets,
            other_active,
            idle_since,
            now,
        ).dom().contains(gpu),
        idle_after(targets, active, idle_since, now).dom().contains(gpu) ==> idle_after(
            targets,
            active,
            idle_since,
            now,
        )[gpu] == idle_after(targets, other_active, idle_since, now)[gpu],
{
}

/// A watch that runs keeps its timer: as long as a watched GPU stays idle its timer goes back
/// to the first idle sample.
pub proof fn idle_timer_runs_on(
    targets: Seq<Seq<char>>,
    gpu: Seq<char>,
    active: Seq<Seq<char>>,
    idle_since: Map<Seq<char>, u64>,
    now: u64,
)
    requires
        targets.contains(gpu),
        !active.contains(gpu),
        idle_since.dom().contains(gpu),
    ensures
        idle_after(targets, active, idle_since, now).dom().contains(gpu),
        idle_after(targets, active, idle_since, now)[gpu] == idle_since[gpu],
{
}

/// One watch at a time: while one runs no other starts, and it makes room when it ends.
pub proof fn one_watch_at_a_time(
    state: Monitors,
    input: StartGpuWatchInput,
    id: Seq<char>,
    conclusion: crate::gpu_monitor::ConclusionView,
    now_ms: u64,
)
    requires
        state.is_active(id),
    ensures
        GpuMonitorManager::start_objection(state, input, Ok::<bool, String>(true)) is Some,
        state.finished(id, conclusion, now_ms).active is None,
        input.objection() is None ==> GpuMonitorManager::start_objection(
            state.finished(id, conclusion, now_ms),
            input,
            Ok::<bool, String>(true),
        ) is None,
{
}

/// A watch that has ended is remembered as the latest one, and the history stays bounded.
pub proof fn ended_watch_is_remembered(
    state: Monitors,
    id: Seq<char>,
    conclusion: crate::gpu_monitor::ConclusionView,
    now_ms: u64,
)
    requires
        state.is_active(id),
        state.bounded(),
    ensures
        state.finished(id, conclusion, now_ms).bounded(),
        state.finished(id, conclusion, now_ms).history.len() > 0,
        state.finished(id, conclusion, now_ms).history.last() == state.active->0.concluded(
            conclusion,
            now_ms,
        ),
{
}

} // verus!
