//! One lightweight GPU-idle watcher owned by one process.
//!
//! The watcher runs a small script on the remote machine and reads its lines. This module
//! holds the protocol, the idle timer and the state machines; the caller owns the SSH process
//! and the clocks. Points in time ending in `_ms` are wall-clock milliseconds, the others
//! nanoseconds of a monotonic clock.

use crate::ids::{fresh_id, is_hyphenated};
use crate::text::{
    all_digits, copy_texts, digit, has_prefix, hex_digit, is_digit, is_hex_digit, matches_at,
    opt_view, same, to_chars, views,
};
use vstd::prelude::*;

verus! {

/// Finished watches that are remembered.
pub const MAX_HISTORY: usize = 32;

/// Most bytes of diagnostic output that are read.
pub const MAX_DIAGNOSTIC_BYTES: usize = 16384;

/// Longest line that the remote script may write, in bytes.
pub const MAX_PROTOCOL_LINE_BYTES: usize = 4096;

/// Seconds that the remote script may take to report its inventory.
pub const READY_TIMEOUT_SECONDS: u64 = 10;

/// Seconds that may pass between two samples.
pub const HEARTBEAT_TIMEOUT_SECONDS: u64 = 90;

/// Seconds that the remote process may take to end after a signal.
pub const STOP_GRACE_SECONDS: u64 = 5;

/// Seconds that sending a signal may take.
pub const REMOTE_CONTROL_TIMEOUT_SECONDS: u64 = 5;

/// Seconds after which a watch ends by itself.
pub const MAX_LIFETIME_SECONDS: u64 = 86_400;

/// The script that runs on the remote machine.
pub const REMOTE_WATCH_SCRIPT: &'static str =
    "set -eu\nid=$1\npoll=$2\nmax_samples=$3\ntrap 'exit 0' HUP INT TERM\nprintf 'TMUX_MCP_GPU\\tREADY\\t%s\\t%s\\n' \"$id\" \"$$\"\ninventory=$(nvidia-smi --query-gpu=index,uuid --format=csv,noheader,nounits) || {\n  printf 'TMUX_MCP_GPU\\tERROR\\tnvidia-smi inventory failed\\n'\n  exit 20\n}\ninventory=$(printf '%s\\n' \"$inventory\" | awk -F',' 'NF >= 2 { gsub(/[[:space:]]/, \"\", $1); gsub(/[[:space:]]/, \"\", $2); if (out != \"\") out=out \";\"; out=out $1 \"=\" $2 } END { print out }')\nprintf 'TMUX_MCP_GPU\\tINVENTORY\\t%s\\n' \"$inventory\"\ni=0\nwhile [ \"$i\" -lt \"$max_samples\" ]; do\n  active=$(nvidia-smi --query-compute-apps=gpu_uuid --format=csv,noheader,nounits) || {\n    printf 'TMUX_MCP_GPU\\tERROR\\tnvidia-smi process query failed\\n'\n    exit 21\n  }\n  active=$(printf '%s\\n' \"$active\" | awk 'NF { gsub(/[[:space:]]/, \"\"); if (out != \"\") out=out \",\"; out=out $0 } END { print out }')\n  printf 'TMUX_MCP_GPU\\tSAMPLE\\t%s\\t%s\\n' \"$(date +%s)\" \"$active\"\n  i=$((i + 1))\n  sleep \"$poll\"\ndone\nprintf 'TMUX_MCP_GPU\\tEXPIRED\\t%s\\n' \"$(date +%s)\"\n";

/// The script that signals the remote process, after making sure that it is the right one.
pub const REMOTE_SIGNAL_SCRIPT: &'static str =
    "set -eu\npid=$1\ntoken=$2\nsignal=$3\nfile=/proc/$pid/environ\n[ -r \"$file\" ] || exit 3\ntr '\\000' '\\n' < \"$file\" | grep -Fqx \"TMUX_MCP_GPU_WATCH_ID=$token\" || exit 4\nkill \"-$signal\" \"$pid\"\n";

/// What to watch for.
#[derive(Debug, Clone, PartialEq, Eq)]
pub struct StartGpuWatchInput {
    /// GPU index or UUID. Omit to watch all physical GPUs.
    pub gpu: Option<String>,
    /// Required continuous idle time in seconds.
    pub idle_seconds: u64,
    /// Remote sample interval in seconds.
    pub poll_seconds: u64,
}

impl Default for StartGpuWatchInput {
    fn default() -> (r: Self)
        ensures
            r.gpu is None,
            r.idle_seconds == 300,
            r.poll_seconds == 15,
    {
        StartGpuWatchInput { gpu: None, idle_seconds: 300, poll_seconds: 15 }
    }
}

/// A GPU named by its index: decimal digits.
pub open spec fn is_gpu_index(gpu: Seq<char>) -> bool {
    gpu.len() > 0 && all_digits(gpu)
}

/// A GPU named by its UUID: `GPU-`, then hexadecimal digits and dashes.
pub open spec fn is_gpu_uuid(gpu: Seq<char>) -> bool {
    &&& has_prefix(gpu, "GPU-"@)
    &&& gpu.len() > 4
    &&& forall|i: int| 4 <= i < gpu.len() ==> is_hex_digit(#[trigger] gpu[i]) || gpu[i] == '-'
}

/// Whether every character from `start` on is a digit.
fn digits_from(chars: &Vec<char>, start: usize) -> (r: bool)
    requires
        start <= chars@.len(),
    ensures
        r == all_digits(chars@.skip(start as int)),
{
    let mut i: usize = start;
    while i < chars.len()
        invariant
            start <= i <= chars@.len(),
            forall|j: int| start <= j < i ==> is_digit(#[trigger] chars@[j]),
        decreases chars@.len() - i,
    {
        if !digit(chars[i]) {
            assert(!is_digit(chars@.skip(start as int)[i - start]));
            return false;
        }
        i += 1;
    }
    assert forall|j: int| 0 <= j < chars@.skip(start as int).len() implies is_digit(
        #[trigger] chars@.skip(start as int)[j],
    ) by {
        assert(chars@.skip(start as int)[j] == chars@[start + j]);
    }
    true
}

fn names_gpu(gpu: &str) -> (r: bool)
    ensures
        r == (is_gpu_index(gpu@) || is_gpu_uuid(gpu@)),
{
    let chars = to_chars(gpu);
    assert(chars@.skip(0) =~= chars@);
    if chars.len() > 0 && digits_from(&chars, 0) {
        return true;
    }
    proof {
        reveal_strlit("GPU-");
    }
    if !matches_at(&chars, &to_chars("GPU-"), 0) || chars.len() <= 4 {
        return false;
    }
    let mut i: usize = 4;
    while i < chars.len()
        invariant
            4 <= i <= chars@.len(),
            chars@ == gpu@,
            forall|j: int| 4 <= j < i ==> is_hex_digit(#[trigger] gpu@[j]) || gpu@[j] == '-',
        decreases chars@.len() - i,
    {
        if !(hex_digit(chars[i]) || chars[i] == '-') {
            assert(!(is_hex_digit(gpu@[i as int]) || gpu@[i as int] == '-'));
            return false;
        }
        i += 1;
    }
    true
}

impl StartGpuWatchInput {
    /// Why this input is rejected, if it is.
    pub open spec fn objection(self) -> Option<Seq<char>> {
        if !(60 <= self.idle_seconds <= 86_400) {
            Some("idleSeconds must be between 60 and 86400"@)
        } else if !(5 <= self.poll_seconds <= 60) {
            Some("pollSeconds must be between 5 and 60"@)
        } else if self.gpu is Some && !is_gpu_index(self.gpu->0@) && !is_gpu_uuid(self.gpu->0@) {
            Some("gpu must be a numeric index or GPU UUID"@)
        } else {
            None
        }
    }

    /// Accept times within their bounds and a GPU that is named by index or UUID.
    pub fn validate(&self) -> (r: Result<(), String>)
        ensures
            match r {
                Ok(_) => self.objection() is None,
                Err(message) => self.objection() == Some(message@),
            },
    {
        if self.idle_seconds < 60 || self.idle_seconds > 86_400 {
            return Err("idleSeconds must be between 60 and 86400".to_owned());
        }
        if self.poll_seconds < 5 || self.poll_seconds > 60 {
            return Err("pollSeconds must be between 5 and 60".to_owned());
        }
        match &self.gpu {
            Some(gpu) => if names_gpu(gpu.as_str()) {
                Ok(())
            } else {
                Err("gpu must be a numeric index or GPU UUID".to_owned())
            },
            None => Ok(()),
        }
    }
}

/// Where a watch stands.
#[derive(Debug, Clone, Copy, PartialEq, Eq, Structural)]
pub enum GpuWatchStatus {
    Starting,
    Watching,
    Stopping,
    Triggered,
    Failed,
    Expired,
    Stopped,
    StopUnconfirmed,
}

/// What became of the notification about a watch.
#[derive(Debug, Clone, Copy, PartialEq, Eq, Structural)]
pub enum NotificationStatus {
    NotSent,
    TransportSent,
    SendFailed,
    Observed,
}

/// All that is known of a watch.
#[derive(Debug, Clone, PartialEq, Eq)]
pub struct GpuWatchSnapshot {
    pub monitor_id: String,
    pub status: GpuWatchStatus,
    pub requested_gpu: Option<String>,
    pub target_gpus: Vec<String>,
    pub idle_gpus: Vec<String>,
    pub idle_seconds: u64,
    pub poll_seconds: u64,
    pub created_at_ms: u64,
    pub started_at_ms: Option<u64>,
    pub last_sample_at_ms: Option<u64>,
    pub completed_at_ms: Option<u64>,
    pub local_ssh_pid: Option<u32>,
    pub remote_pid: Option<u32>,
    pub notification_status: NotificationStatus,
    pub reason: Option<String>,
    pub diagnostic: Option<String>,
}

/// A [`GpuWatchSnapshot`] with its texts as sequences of characters.
#[verifier::ext_equal]
pub struct Watch {
    pub monitor_id: Seq<char>,
    pub status: GpuWatchStatus,
    pub requested_gpu: Option<Seq<char>>,
    pub target_gpus: Seq<Seq<char>>,
    pub idle_gpus: Seq<Seq<char>>,
    pub idle_seconds: u64,
    pub poll_seconds: u64,
    pub created_at_ms: u64,
    pub started_at_ms: Option<u64>,
    pub last_sample_at_ms: Option<u64>,
    pub completed_at_ms: Option<u64>,
    pub local_ssh_pid: Option<u32>,
    pub remote_pid: Option<u32>,
    pub notification_status: NotificationStatus,
    pub reason: Option<Seq<char>>,
    pub diagnostic: Option<Seq<char>>,
}

impl View for GpuWatchSnapshot {
    type V = Watch;

    open spec fn view(&self) -> Watch {
        Watch {
            monitor_id: self.monitor_id@,
            status: self.status,
            requested_gpu: opt_view(self.requested_gpu),
            target_gpus: views(self.target_gpus@),
            idle_gpus: views(self.idle_gpus@),
            idle_seconds: self.idle_seconds,
            poll_seconds: self.poll_seconds,
            created_at_ms: self.created_at_ms,
            started_at_ms: self.started_at_ms,
            last_sample_at_ms: self.last_sample_at_ms,
            completed_at_ms: self.completed_at_ms,
            local_ssh_pid: self.local_ssh_pid,
            remote_pid: self.remote_pid,
            notification_status: self.notification_status,
            reason: opt_view(self.reason),
            diagnostic: opt_view(self.diagnostic),
        }
    }
}

impl GpuWatchSnapshot {
    /// A copy of this snapshot.
    pub fn copy(&self) -> (r: Self)
        ensures
            r@ == self@,
    {
        GpuWatchSnapshot {
            monitor_id: self.monitor_id.clone(),
            status: self.status,
            requested_gpu: self.requested_gpu.clone(),
            target_gpus: copy_texts(&self.target_gpus),
            idle_gpus: copy_texts(&self.idle_gpus),
            idle_seconds: self.idle_seconds,
            poll_seconds: self.poll_seconds,
            created_at_ms: self.created_at_ms,
            started_at_ms: self.started_at_ms,
            last_sample_at_ms: self.last_sample_at_ms,
            completed_at_ms: self.completed_at_ms,
            local_ssh_pid: self.local_ssh_pid,
            remote_pid: self.remote_pid,
            notification_status: self.notification_status,
            reason: self.reason.clone(),
            diagnostic: self.diagnostic.clone(),
        }
    }
}

impl Watch {
    /// A notification that was sent has been observed.
    pub open spec fn observed(self) -> Watch {
        if self.notification_status == NotificationStatus::TransportSent {
            Watch { notification_status: NotificationStatus::Observed, ..self }
        } else {
            self
        }
    }

    /// A watch that was just asked for.
    pub open spec fn fresh(input: StartGpuWatchInput, id: Seq<char>, now_ms: u64) -> Watch {
        Watch {
            monitor_id: id,
            status: GpuWatchStatus::Starting,
            requested_gpu: opt_view(input.gpu),
            target_gpus: Seq::empty(),
            idle_gpus: Seq::empty(),
            idle_seconds: input.idle_seconds,
            poll_seconds: input.poll_seconds,
            created_at_ms: now_ms,
            started_at_ms: None,
            last_sample_at_ms: None,
            completed_at_ms: None,
            local_ssh_pid: None,
            remote_pid: None,
            notification_status: NotificationStatus::NotSent,
            reason: None,
            diagnostic: None,
        }
    }
}

/// A notification that was sent has been observed.
pub fn mark_observed(snapshot: &mut GpuWatchSnapshot)
    ensures
        final(snapshot)@ == old(snapshot)@.observed(),
{
    match snapshot.notification_status {
        NotificationStatus::TransportSent => {
            snapshot.notification_status = NotificationStatus::Observed;
        },
        _ => {},
    }
}

/// Snapshots with their texts as sequences of characters.
pub open spec fn watch_views(snapshots: Seq<GpuWatchSnapshot>) -> Seq<Watch> {
    Seq::new(snapshots.len(), |i: int| snapshots[i]@)
}

/// An optional snapshot with its texts as sequences of characters.
pub open spec fn watch_view(snapshot: Option<GpuWatchSnapshot>) -> Option<Watch> {
    match snapshot {
        Some(s) => Some(s@),
        None => None,
    }
}

/// Answer to a query for watches.
#[derive(Debug, Clone, PartialEq, Eq)]
pub struct GpuWatchQuery {
    pub active: Option<GpuWatchSnapshot>,
    /// Finished watches, the latest first.
    pub recent: Vec<GpuWatchSnapshot>,
}

/// A watch has ended.
#[derive(Debug, Clone, PartialEq, Eq)]
pub struct GpuMonitorEvent {
    pub snapshot: GpuWatchSnapshot,
}

/// State of the manager: the watch that runs, and those that have ended, oldest first.
#[verifier::ext_equal]
pub struct Monitors {
    pub active: Option<Watch>,
    pub history: Seq<Watch>,
}

impl Monitors {
    /// The watch that runs has this id.
    pub open spec fn is_active(self, id: Seq<char>) -> bool {
        self.active is Some && self.active->0.monitor_id == id
    }

    /// `i` is the first watch in the history with this id.
    pub open spec fn first_with_id(self, id: Seq<char>, i: int) -> bool {
        &&& 0 <= i < self.history.len()
        &&& self.history[i].monitor_id == id
        &&& forall|j: int| 0 <= j < i ==> (#[trigger] self.history[j]).monitor_id != id
    }

    /// No watch in the history has this id.
    pub open spec fn not_in_history(self, id: Seq<char>) -> bool {
        forall|j: int| 0 <= j < self.history.len() ==> (#[trigger] self.history[j]).monitor_id != id
    }

    /// At most [`MAX_HISTORY`] watches are remembered.
    pub open spec fn bounded(self) -> bool {
        self.history.len() <= MAX_HISTORY
    }

    /// The history with one more watch, the oldest dropped where it grows too long.
    pub open spec fn remembered(self, watch: Watch) -> Seq<Watch> {
        let all = self.history.push(watch);
        if all.len() > MAX_HISTORY {
            all.skip(all.len() - MAX_HISTORY)
        } else {
            all
        }
    }

    /// A query without an id has been answered: what it reported counts as observed.
    pub open spec fn all_observed(self) -> Monitors {
        Monitors {
            active: match self.active {
                Some(watch) => Some(watch.observed()),
                None => None,
            },
            history: if self.history.len() > 0 {
                self.history.update(self.history.len() - 1, self.history.last().observed())
            } else {
                self.history
            },
        }
    }
}

/// Owner of the watches of one process; at most one runs at a time.
#[derive(Debug, Clone, PartialEq, Eq)]
pub struct GpuMonitorManager {
    active: Option<GpuWatchSnapshot>,
    history: Vec<GpuWatchSnapshot>,
}

impl View for GpuMonitorManager {
    type V = Monitors;

    closed spec fn view(&self) -> Monitors {
        Monitors { active: watch_view(self.active), history: watch_views(self.history@) }
    }
}

/// What a request to stop a watch leads to.
#[derive(Debug, Clone, PartialEq, Eq)]
pub enum StopRequest {
    /// The watch is told to stop; wait for its end.
    Wait,
    /// The watch has ended before.
    Ended(GpuWatchSnapshot),
}

impl GpuMonitorManager {
    /// No watch, and none remembered.
    pub fn new() -> (r: Self)
        ensures
            r@ == (Monitors { active: None, history: Seq::empty() }),
    {
        let r = GpuMonitorManager { active: None, history: Vec::new() };
        assert(r@ =~= (Monitors { active: None, history: Seq::empty() }));
        r
    }

    /// Why a watch cannot be started, if it cannot: the input, then SSH, then a watch that
    /// runs already.
    pub open spec fn start_objection(
        state: Monitors,
        input: StartGpuWatchInput,
        ssh_enabled: Result<bool, String>,
    ) -> Option<Seq<char>> {
        if input.objection() is Some {
            input.objection()
        } else {
            match ssh_enabled {
                Err(error) => Some(error@),
                Ok(false) => Some("GPU monitoring requires --ssh or TMUX_MCP_SSH"@),
                Ok(true) => match state.active {
                    Some(watch) => Some(
                        "GPU watcher "@ + watch.monitor_id + " is already active"@,
                    ),
                    None => None,
                },
            }
        }
    }

    /// Start a watch under the given id, unless there is an objection.
    pub fn start_as(
        &mut self,
        input: &StartGpuWatchInput,
        ssh_enabled: Result<bool, String>,
        monitor_id: String,
        now_ms: u64,
    ) -> (r: Result<GpuWatchSnapshot, String>)
        ensures
            match r {
                Ok(snapshot) => {
                    &&& Self::start_objection(old(self)@, *input, ssh_enabled) is None
                    &&& snapshot@ == Watch::fresh(*input, monitor_id@, now_ms)
                    &&& final(self)@ == (Monitors { active: Some(snapshot@), ..old(self)@ })
                },
                Err(message) => {
                    &&& Self::start_objection(old(self)@, *input, ssh_enabled) == Some(message@)
                    &&& final(self)@ == old(self)@
                },
            },
    {
        match input.validate() {
            Ok(_) => {},
            Err(message) => {
                return Err(message);
            },
        }
        match ssh_enabled {
            Ok(true) => {},
            Ok(false) => {
                return Err("GPU monitoring requires --ssh or TMUX_MCP_SSH".to_owned());
            },
            Err(error) => {
                return Err(error);
            },
        }
        match &self.active {
            Some(active) => {
                return Err(
                    "GPU watcher ".to_owned().concat(active.monitor_id.as_str()).concat(
                        " is already active",
                    ),
                );
            },
            None => {},
        }
        let snapshot = GpuWatchSnapshot {
            monitor_id,
            status: GpuWatchStatus::Starting,
            requested_gpu: input.gpu.clone(),
            target_gpus: Vec::new(),
            idle_gpus: Vec::new(),
            idle_seconds: input.idle_seconds,
            poll_seconds: input.poll_seconds,
            created_at_ms: now_ms,
            started_at_ms: None,
            last_sample_at_ms: None,
            completed_at_ms: None,
            local_ssh_pid: None,
            remote_pid: None,
            notification_status: NotificationStatus::NotSent,
            reason: None,
            diagnostic: None,
        };
        assert(snapshot@ =~= Watch::fresh(*input, monitor_id@, now_ms));
        self.active = Some(snapshot.copy());
        assert(self@ =~= (Monitors { active: Some(snapshot@), ..old(self)@ }));
        Ok(snapshot)
    }

    /// Start a watch under a fresh id, unless there is an objection. Returns the watch and the
    /// token by which its remote process is known.
    pub fn start(
        &mut self,
        input: &StartGpuWatchInput,
        ssh_enabled: Result<bool, String>,
        now_ms: u64,
    ) -> (r: Result<(GpuWatchSnapshot, String), String>)
        ensures
            match r {
                Ok((snapshot, token)) => {
                    &&& Self::start_objection(old(self)@, *input, ssh_enabled) is None
                    &&& snapshot@ == Watch::fresh(*input, snapshot.monitor_id@, now_ms)
                    &&& has_prefix(snapshot.monitor_id@, "gpu-watch-"@)
                    &&& is_hyphenated(snapshot.monitor_id@.skip("gpu-watch-"@.len() as int))
                    &&& is_hyphenated(token@)
                    &&& final(self)@ == (Monitors { active: Some(snapshot@), ..old(self)@ })
                },
                Err(message) => {
                    &&& Self::start_objection(old(self)@, *input, ssh_enabled) == Some(message@)
                    &&& final(self)@ == old(self)@
                },
            },
    {
        let id = fresh_id();
        let monitor_id = "gpu-watch-".to_owned().concat(id.as_str());
        proof {
            let prefix = "gpu-watch-"@;
            assert(monitor_id@.subrange(0, prefix.len() as int) =~= prefix);
            assert(monitor_id@.skip(prefix.len() as int) =~= id@);
        }
        match self.start_as(input, ssh_enabled, monitor_id, now_ms) {
            Ok(snapshot) => Ok((snapshot, fresh_id())),
            Err(message) => Err(message),
        }
    }

    fn find_in_history(&self, id: &str) -> (r: Option<usize>)
        ensures
            match r {
                Some(i) => self@.first_with_id(id@, i as int),
                None => self@.not_in_history(id@),
            },
    {
        let mut i: usize = 0;
        while i < self.history.len()
            invariant
                i <= self.history@.len(),
                forall|j: int| 0 <= j < i ==> (#[trigger] self@.history[j]).monitor_id != id@,
            decreases self.history@.len() - i,
        {
            assert(self@.history[i as int] == self.history@[i as int]@);
            if same(self.history[i].monitor_id.as_str(), id) {
                return Some(i);
            }
            i += 1;
        }
        None
    }

    fn active_has_id(&self, id: &str) -> (r: bool)
        ensures
            r == self@.is_active(id@),
    {
        match &self.active {
            Some(active) => same(active.monitor_id.as_str(), id),
            None => false,
        }
    }

    /// Look up one watch, or all. What is reported counts as observed.
    pub fn query(&mut self, monitor_id: Option<&str>) -> (r: Result<GpuWatchQuery, String>)
        ensures
            match monitor_id {
                Some(id) => if old(self)@.is_active(id@) {
                    let watch = old(self)@.active->0.observed();
                    &&& r matches Ok(answer)
                    &&& watch_view(answer.active) == Some(watch)
                    &&& answer.recent@.len() == 0
                    &&& final(self)@ == (Monitors { active: Some(watch), ..old(self)@ })
                } else if old(self)@.not_in_history(id@) {
                    &&& r matches Err(message)
                    &&& message@ == "GPU watcher "@ + id@ + " not found"@
                    &&& final(self)@ == old(self)@
                } else {
                    &&& r matches Ok(answer)
                    &&& answer.active is None
                    &&& answer.recent@.len() == 1
                    &&& exists|i: int|
                        {
                            &&& #[trigger] old(self)@.first_with_id(id@, i)
                            &&& answer.recent@[0]@ == old(self)@.history[i].observed()
                            &&& final(self)@ == (Monitors {
                                history: old(self)@.history.update(
                                    i,
                                    old(self)@.history[i].observed(),
                                ),
                                ..old(self)@
                            })
                        }
                },
                None => {
                    &&& r matches Ok(answer)
                    &&& final(self)@ == old(self)@.all_observed()
                    &&& watch_view(answer.active) == final(self)@.active
                    &&& watch_views(answer.recent@) == final(self)@.history.reverse()
                },
            },
    {
        match monitor_id {
            Some(id) => {
                if self.active_has_id(id) {
                    let mut reported: Option<GpuWatchSnapshot> = None;
                    if let Some(active) = &mut self.active {
                        mark_observed(active);
                        reported = Some((&*active).copy());
                    }
                    assert(self@ =~= (Monitors {
                        active: Some(old(self)@.active->0.observed()),
                        ..old(self)@
                    }));
                    return Ok(GpuWatchQuery { active: reported, recent: Vec::new() });
                }
                match self.find_in_history(id) {
                    Some(i) => {
                        assert(self@.history[i as int] == self.history@[i as int]@);
                        let found = &mut self.history[i];
                        mark_observed(found);
                        let reported = (&*found).copy();
                        let mut recent: Vec<GpuWatchSnapshot> = Vec::new();
                        recent.push(reported);
                        assert(self@ =~= (Monitors {
                            history: old(self)@.history.update(
                                i as int,
                                old(self)@.history[i as int].observed(),
                            ),
                            ..old(self)@
                        }));
                        assert(old(self)@.first_with_id(id@, i as int));
                        Ok(GpuWatchQuery { active: None, recent })
                    },
                    None => Err("GPU watcher ".to_owned().concat(id).concat(" not found")),
                }
            },
            None => {
                let mut reported: Option<GpuWatchSnapshot> = None;
                if let Some(active) = &mut self.active {
                    mark_observed(active);
                    reported = Some((&*active).copy());
                }
                let n: usize = self.history.len();
                if n > 0 {
                    assert(old(self)@.history[n - 1] == self.history@[n - 1]@);
                    mark_observed(&mut self.history[n - 1]);
                }
                assert(self@ =~= old(self)@.all_observed());
                let mut recent: Vec<GpuWatchSnapshot> = Vec::new();
                let mut i: usize = n;
                while i > 0
                    invariant
                        i <= n == self.history@.len(),
                        recent@.len() == n - i,
                        forall|j: int|
                            0 <= j < recent@.len() ==> (#[trigger] recent@[j])@
                                == self@.history[n - 1 - j],
                    decreases i,
                {
                    i -= 1;
                    assert(self@.history[i as int] == self.history@[i as int]@);
                    recent.push(self.history[i].copy());
                }
                assert(watch_views(recent@) =~= self@.history.reverse());
                Ok(GpuWatchQuery { active: reported, recent })
            },
        }
    }

    /// Ask a watch to stop. One that has ended before is reported as it is.
    pub fn request_stop(&mut self, monitor_id: &str) -> (r: Result<StopRequest, String>)
        ensures
            match r {
                Ok(StopRequest::Wait) => {
                    &&& old(self)@.is_active(monitor_id@)
                    &&& final(self)@ == (Monitors {
                        active: Some(
                            Watch {
                                status: GpuWatchStatus::Stopping,
                                ..old(self)@.active->0
                            },
                        ),
                        ..old(self)@
                    })
                },
                Ok(StopRequest::Ended(snapshot)) => {
                    &&& !old(self)@.is_active(monitor_id@)
                    &&& final(self)@ == old(self)@
                    &&& exists|i: int| #[trigger]
                        old(self)@.first_with_id(monitor_id@, i) && snapshot@
                            == old(self)@.history[i]
                },
                Err(message) => {
                    &&& !old(self)@.is_active(monitor_id@)
                    &&& old(self)@.not_in_history(monitor_id@)
                    &&& final(self)@ == old(self)@
                    &&& message@ == "GPU watcher "@ + monitor_id@ + " not found"@
                },
            },
    {
        if self.active_has_id(monitor_id) {
            if let Some(active) = &mut self.active {
                active.status = GpuWatchStatus::Stopping;
            }
            assert(self@ =~= (Monitors {
                active: Some(Watch { status: GpuWatchStatus::Stopping, ..old(self)@.active->0 }),
                ..old(self)@
            }));
            return Ok(StopRequest::Wait);
        }
        match self.find_in_history(monitor_id) {
            Some(i) => {
                assert(self@.history[i as int] == self.history@[i as int]@);
                assert(old(self)@.first_with_id(monitor_id@, i as int));
                Ok(StopRequest::Ended(self.history[i].copy()))
            },
            None => Err("GPU watcher ".to_owned().concat(monitor_id).concat(" not found")),
        }
    }

    /// The end of a watch that was told to stop, once it is known to have ended or the time to
    /// wait for it has run out.
    pub fn stop_result(&mut self, monitor_id: &str, timed_out: bool) -> (r: Result<
        GpuWatchSnapshot,
        String,
    >)
        ensures
            timed_out ==> {
                &&& r matches Err(message)
                &&& message@ == "GPU watcher "@ + monitor_id@ + " stop timed out"@
                &&& final(self)@ == old(self)@
            },
            !timed_out ==> match r {
                Ok(snapshot) => {
                    &&& !old(self)@.is_active(monitor_id@)
                    &&& exists|i: int|
                        {
                            &&& #[trigger] old(self)@.first_with_id(monitor_id@, i)
                            &&& snapshot@ == old(self)@.history[i].observed()
                            &&& final(self)@ == (Monitors {
                                history: old(self)@.history.update(
                                    i,
                                    old(self)@.history[i].observed(),
                                ),
                                ..old(self)@
                            })
                        }
                },
                Err(message) => {
                    ||| {
                        &&& old(self)@.is_active(monitor_id@)
                        &&& message@ == "GPU watcher "@ + monitor_id@
                            + " terminal state missing"@
                        &&& final(self)@ == (Monitors {
                            active: Some(old(self)@.active->0.observed()),
                            ..old(self)@
                        })
                    }
                    ||| {
                        &&& !old(self)@.is_active(monitor_id@)
                        &&& old(self)@.not_in_history(monitor_id@)
                        &&& message@ == "GPU watcher "@ + monitor_id@ + " not found"@
                        &&& final(self)@ == old(self)@
                    }
                },
            },
    {
        if timed_out {
            return Err("GPU watcher ".to_owned().concat(monitor_id).concat(" stop timed out"));
        }
        match self.query(Some(monitor_id)) {
            Err(message) => Err(message),
            Ok(answer) => {
                let mut recent = answer.recent;
                match recent.pop() {
                    Some(snapshot) => Ok(snapshot),
                    None => Err(
                        "GPU watcher ".to_owned().concat(monitor_id).concat(
                            " terminal state missing",
                        ),
                    ),
                }
            },
        }
    }

    /// Id of the watch that runs.
    pub fn active_id(&self) -> (r: Option<String>)
        ensures
            opt_view(r) == (match self@.active {
                Some(watch) => Some(watch.monitor_id),
                None => None,
            }),
    {
        match &self.active {
            Some(active) => Some(active.monitor_id.clone()),
            None => None,
        }
    }

    /// The notification about a watch that has ended was sent, or could not be.
    pub fn mark_notification(&mut self, monitor_id: &str, sent: bool)
        ensures
            old(self)@.not_in_history(monitor_id@) ==> final(self)@ == old(self)@,
            !old(self)@.not_in_history(monitor_id@) ==> exists|i: int| #[trigger]
                old(self)@.first_with_id(monitor_id@, i) && final(self)@ == (Monitors {
                    history: old(self)@.history.update(
                        i,
                        Watch {
                            notification_status: if sent {
                                NotificationStatus::TransportSent
                            } else {
                                NotificationStatus::SendFailed
                            },
                            ..old(self)@.history[i]
                        },
                    ),
                    ..old(self)@
                }),
    {
        match self.find_in_history(monitor_id) {
            Some(i) => {
                assert(self@.history[i as int] == self.history@[i as int]@);
                assert(old(self)@.first_with_id(monitor_id@, i as int));
                let status = if sent {
                    NotificationStatus::TransportSent
                } else {
                    NotificationStatus::SendFailed
                };
                self.history[i].notification_status = status;
                assert(self@ =~= (Monitors {
                    history: old(self)@.history.update(
                        i as int,
                        Watch { notification_status: status, ..old(self)@.history[i as int] },
                    ),
                    ..old(self)@
                }));
            },
            None => {},
        }
    }

    /// The SSH process of a watch has started.
    pub fn set_local_pid(&mut self, monitor_id: &str, pid: Option<u32>)
        ensures
            final(self)@ == (if old(self)@.is_active(monitor_id@) {
                Monitors {
                    active: Some(Watch { local_ssh_pid: pid, ..old(self)@.active->0 }),
                    ..old(self)@
                }
            } else {
                old(self)@
            }),
    {
        if self.active_has_id(monitor_id) {
            if let Some(active) = &mut self.active {
                active.local_ssh_pid = pid;
            }
        }
        assert(self@.history =~= old(self)@.history);
    }

    /// The remote script of a watch has reported its inventory.
    pub fn set_watching(
        &mut self,
        monitor_id: &str,
        pid: Option<u32>,
        targets: &Vec<String>,
        now_ms: u64,
    )
        ensures
            final(self)@ == old(self)@.watching(monitor_id@, pid, views(targets@), now_ms),
    {
        if self.active_has_id(monitor_id) {
            if let Some(active) = &mut self.active {
                active.status = GpuWatchStatus::Watching;
                active.remote_pid = pid;
                active.target_gpus = copy_texts(targets);
                active.started_at_ms = Some(now_ms);
            }
        }
        assert(self@ =~= old(self)@.watching(monitor_id@, pid, views(targets@), now_ms));
    }

    /// The remote script of a watch has reported a sample.
    pub fn set_sampled(&mut self, monitor_id: &str, now_ms: u64)
        ensures
            final(self)@ == old(self)@.sampled(monitor_id@, now_ms),
    {
        if self.active_has_id(monitor_id) {
            if let Some(active) = &mut self.active {
                active.last_sample_at_ms = Some(now_ms);
            }
        }
        assert(self@ =~= old(self)@.sampled(monitor_id@, now_ms));
    }

    /// A watch has ended: it moves to the history. Returns the event to publish.
    pub fn finish(&mut self, monitor_id: &str, conclusion: Conclusion, now_ms: u64) -> (r: Option<
        GpuMonitorEvent,
    >)
        ensures
            final(self)@ == old(self)@.finished(monitor_id@, conclusion@, now_ms),
            match r {
                Some(event) => {
                    &&& old(self)@.is_active(monitor_id@)
                    &&& event.snapshot@ == old(self)@.active->0.concluded(conclusion@, now_ms)
                },
                None => !old(self)@.is_active(monitor_id@),
            },
            old(self)@.bounded() ==> final(self)@.bounded(),
    {
        if !self.active_has_id(monitor_id) {
            return None;
        }
        let mut taken: Option<GpuWatchSnapshot> = None;
        std::mem::swap(&mut taken, &mut self.active);
        match taken {
            Some(mut snapshot) => {
                snapshot.status = conclusion.status;
                snapshot.idle_gpus = conclusion.idle_gpus;
                snapshot.reason = conclusion.reason;
                snapshot.diagnostic = conclusion.diagnostic;
                snapshot.completed_at_ms = Some(now_ms);
                let ghost watch = snapshot@;
                assert(watch =~= old(self)@.active->0.concluded(conclusion@, now_ms));
                let event = GpuMonitorEvent { snapshot: snapshot.copy() };
                self.history.push(snapshot);
                let ghost all = watch_views(self.history@);
                assert(all =~= old(self)@.history.push(watch));
                assert(all.skip(0) =~= all);
                while self.history.len() > MAX_HISTORY
                    invariant
                        self.active is None,
                        self.history@.len() <= all.len(),
                        self.history@.len() >= MAX_HISTORY || self.history@.len() == all.len(),
                        watch_views(self.history@) == all.skip(all.len() - self.history@.len()),
                    decreases self.history@.len(),
                {
                    let ghost before = watch_views(self.history@);
                    let _ = self.history.remove(0);
                    assert(watch_views(self.history@) =~= before.skip(1));
                    assert(before.skip(1) =~= all.skip(all.len() - self.history@.len()));
                }
                assert(self@ =~= old(self)@.finished(monitor_id@, conclusion@, now_ms));
                Some(event)
            },
            None => None,
        }
    }
}

/// How a watch ended.
#[derive(Debug, Clone, PartialEq, Eq)]
pub struct Conclusion {
    pub status: GpuWatchStatus,
    pub idle_gpus: Vec<String>,
    pub reason: Option<String>,
    pub diagnostic: Option<String>,
}

/// A [`Conclusion`] with its texts as sequences of characters.
#[verifier::ext_equal]
pub struct ConclusionView {
    pub status: GpuWatchStatus,
    pub idle_gpus: Seq<Seq<char>>,
    pub reason: Option<Seq<char>>,
    pub diagnostic: Option<Seq<char>>,
}

impl View for Conclusion {
    type V = ConclusionView;

    open spec fn view(&self) -> ConclusionView {
        ConclusionView {
            status: self.status,
            idle_gpus: views(self.idle_gpus@),
            reason: opt_view(self.reason),
            diagnostic: opt_view(self.diagnostic),
        }
    }
}

impl Watch {
    /// A watch that has ended.
    pub open spec fn concluded(self, conclusion: ConclusionView, now_ms: u64) -> Watch {
        Watch {
            status: conclusion.status,
            idle_gpus: conclusion.idle_gpus,
            reason: conclusion.reason,
            diagnostic: conclusion.diagnostic,
            completed_at_ms: Some(now_ms),
            ..self
        }
    }
}

impl Monitors {
    /// The remote script of a watch has reported its inventory.
    pub open spec fn watching(
        self,
        id: Seq<char>,
        pid: Option<u32>,
        targets: Seq<Seq<char>>,
        now_ms: u64,
    ) -> Monitors {
        if self.is_active(id) {
            Monitors {
                active: Some(
                    Watch {
                        status: GpuWatchStatus::Watching,
                        remote_pid: pid,
                        target_gpus: targets,
                        started_at_ms: Some(now_ms),
                        ..self.active->0
                    },
                ),
                ..self
            }
        } else {
            self
        }
    }

    /// The remote script of a watch has reported a sample.
    pub open spec fn sampled(self, id: Seq<char>, now_ms: u64) -> Monitors {
        if self.is_active(id) {
            Monitors {
                active: Some(Watch { last_sample_at_ms: Some(now_ms), ..self.active->0 }),
                ..self
            }
        } else {
            self
        }
    }

    /// A watch has ended.
    pub open spec fn finished(
        self,
        id: Seq<char>,
        conclusion: ConclusionView,
        now_ms: u64,
    ) -> Monitors {
        if self.is_active(id) {
            Monitors {
                active: None,
                history: self.remembered(self.active->0.concluded(conclusion, now_ms)),
            }
        } else {
            self
        }
    }
}

} // verus!
