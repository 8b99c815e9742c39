//! Shared records for tmux topology, paste buffers and tracked commands.

use crate::targets::{current_uri, uri};
use crate::text::{opt_as_str, opt_view};
use crate::timing::{elapsed_ms, millis};
use vstd::prelude::*;

verus! {

/// tmux session summary returned by list/find tools.
#[derive(Debug, Clone, PartialEq, Eq)]
pub struct Session {
    pub id: String,
    pub name: String,
    pub attached: bool,
    pub windows: u32,
}

/// tmux window summary returned by list tools.
#[derive(Debug, Clone, PartialEq, Eq)]
pub struct Window {
    pub id: String,
    pub name: String,
    pub active: bool,
    pub session_id: String,
}

/// tmux pane summary returned by list tools.
#[derive(Debug, Clone, PartialEq, Eq)]
pub struct Pane {
    pub id: String,
    pub window_id: String,
    pub active: bool,
    pub title: String,
}

/// Detailed pane metadata (cwd, command, size, pid) for targeting and layout tools.
#[derive(Debug, Clone, PartialEq, Eq)]
pub struct PaneInfo {
    pub id: String,
    pub window_id: String,
    pub session_id: String,
    pub title: String,
    pub active: bool,
    pub current_path: String,
    pub current_command: String,
    pub width: u32,
    pub height: u32,
    pub pid: Option<u32>,
    pub in_mode: bool,
}

/// Detailed window metadata (layout, zoom, active pane) for focus and layout tools.
#[derive(Debug, Clone, PartialEq, Eq)]
pub struct WindowInfo {
    pub id: String,
    pub name: String,
    pub session_id: String,
    pub active: bool,
    pub layout: String,
    pub panes: u32,
    pub width: u32,
    pub height: u32,
    pub zoomed: bool,
    pub active_pane_id: String,
}

/// Attached tmux client (TTY/session/pid) used for observer-aware operations.
#[derive(Debug, Clone, PartialEq, Eq)]
pub struct ClientInfo {
    pub tty: String,
    pub name: String,
    pub session_name: String,
    pub pid: Option<u32>,
    pub attached: bool,
}

/// Paste-buffer listing entry with size and creation metadata.
#[derive(Debug, Clone, PartialEq, Eq)]
pub struct BufferInfo {
    pub name: String,
    pub size: u32,
    pub size_bytes: u64,
    pub order_index: u32,
    pub created: Option<i64>,
}

/// Match strategy of the buffer search tools.
#[derive(Debug, Clone, Copy, PartialEq, Eq, Structural)]
pub enum SearchMode {
    Literal,
    Regex,
}

/// Window node in a session tree snapshot (window plus its panes).
#[derive(Debug, Clone, PartialEq, Eq)]
pub struct WindowTree {
    pub window: Window,
    pub panes: Vec<Pane>,
}

/// Session tree snapshot used by session resources and multi-pane planning.
#[derive(Debug, Clone, PartialEq, Eq)]
pub struct SessionTree {
    pub session: Session,
    pub windows: Vec<WindowTree>,
}

/// Shell dialect used when wrapping tracked commands with START/DONE markers.
#[derive(Debug, Clone, Copy, PartialEq, Eq, Structural)]
pub enum ShellType {
    Bash,
    Zsh,
    Fish,
    Unknown,
}

impl Default for ShellType {
    fn default() -> (r: Self)
        ensures
            r == ShellType::Bash,
    {
        ShellType::Bash
    }
}

/// Lifecycle status of a tracked command execution.
#[derive(Debug, Clone, Copy, PartialEq, Eq, Structural)]
pub enum CommandStatus {
    /// Accepted but waiting for the pane's tracked-command queue head.
    Queued,
    /// Keys sent / side-channel watcher active (or tracking disabled after send).
    Running,
    /// Side channel reported exit code 0.
    Completed,
    /// Side channel reported non-zero exit code.
    Failed,
    /// Explicitly cancelled or pane purged while active.
    Cancelled,
    /// Side channel lost, send failure after accept, or tracking deadline exceeded.
    TrackingError,
}

impl CommandStatus {
    /// The command will not change status further (except eviction).
    pub open spec fn terminal(self) -> bool {
        ||| self == CommandStatus::Completed
        ||| self == CommandStatus::Failed
        ||| self == CommandStatus::Cancelled
        ||| self == CommandStatus::TrackingError
    }

    /// Name of the status in tool and resource output.
    pub open spec fn name(self) -> Seq<char> {
        match self {
            CommandStatus::Queued => "queued"@,
            CommandStatus::Running => "running"@,
            CommandStatus::Completed => "completed"@,
            CommandStatus::Failed => "failed"@,
            CommandStatus::Cancelled => "cancelled"@,
            CommandStatus::TrackingError => "tracking_error"@,
        }
    }

    /// True when the command will not change status further (except eviction).
    pub fn is_terminal(self) -> (r: bool)
        ensures
            r == self.terminal(),
    {
        match self {
            CommandStatus::Completed => true,
            CommandStatus::Failed => true,
            CommandStatus::Cancelled => true,
            CommandStatus::TrackingError => true,
            CommandStatus::Queued => false,
            CommandStatus::Running => false,
        }
    }

    /// Name of the status in tool and resource output.
    pub fn as_str(self) -> (r: &'static str)
        ensures
            r@ == self.name(),
    {
        match self {
            CommandStatus::Queued => "queued",
            CommandStatus::Running => "running",
            CommandStatus::Completed => "completed",
            CommandStatus::Failed => "failed",
            CommandStatus::Cancelled => "cancelled",
            CommandStatus::TrackingError => "tracking_error",
        }
    }
}

/// Resource URI of a command's result on the local server.
pub open spec fn result_uri(command_id: Seq<char>) -> Seq<char> {
    "tmux://command/"@ + command_id + "/result"@
}

/// Canonical resource URI for a tracked command result.
pub fn command_resource_uri(command_id: &str) -> (r: String)
    ensures
        r@ == result_uri(command_id@),
{
    "tmux://command/".to_owned().concat(command_id).concat("/result")
}

/// In-memory record of a command sent to a pane.
///
/// Side-channel secrets are stored separately and never appear here. Points in time are
/// nanoseconds of a monotonic clock.
#[derive(Debug, Clone, PartialEq, Eq)]
pub struct CommandExecution {
    pub target: Option<String>,
    pub id: String,
    pub pane_id: String,
    pub socket: Option<String>,
    pub command: String,
    pub status: CommandStatus,
    pub exit_code: Option<i32>,
    pub output: Option<String>,
    pub output_truncated: bool,
    /// The terminal status and its final bounded capture attempt can be read.
    pub result_ready: bool,
    pub reason: Option<String>,
    pub started_at: u64,
    pub completed_at: Option<u64>,
    pub raw_mode: bool,
    pub tracking_disabled: bool,
}

/// A [`CommandExecution`] with its texts as sequences of characters.
#[verifier::ext_equal]
pub struct Execution {
    pub target: Option<Seq<char>>,
    pub id: Seq<char>,
    pub pane_id: Seq<char>,
    pub socket: Option<Seq<char>>,
    pub command: Seq<char>,
    pub status: CommandStatus,
    pub exit_code: Option<i32>,
    pub output: Option<Seq<char>>,
    pub output_truncated: bool,
    pub result_ready: bool,
    pub reason: Option<Seq<char>>,
    pub started_at: u64,
    pub completed_at: Option<u64>,
    pub raw_mode: bool,
    pub tracking_disabled: bool,
}

impl View for CommandExecution {
    type V = Execution;

    open spec fn view(&self) -> Execution {
        Execution {
            target: opt_view(self.target),
            id: self.id@,
            pane_id: self.pane_id@,
            socket: opt_view(self.socket),
            command: self.command@,
            status: self.status,
            exit_code: self.exit_code,
            output: opt_view(self.output),
            output_truncated: self.output_truncated,
            result_ready: self.result_ready,
            reason: opt_view(self.reason),
            started_at: self.started_at,
            completed_at: self.completed_at,
            raw_mode: self.raw_mode,
            tracking_disabled: self.tracking_disabled,
        }
    }
}

impl Execution {
    /// Resource URI of this command's result, under the target it runs on.
    pub open spec fn uri(self) -> Seq<char> {
        current_uri(self.target, result_uri(self.id))
    }
}

impl CommandExecution {
    /// A copy of this record.
    pub fn copy(&self) -> (r: Self)
        ensures
            r == *self,
    {
        CommandExecution {
            target: self.target.clone(),
            id: self.id.clone(),
            pane_id: self.pane_id.clone(),
            socket: self.socket.clone(),
            command: self.command.clone(),
            status: self.status,
            exit_code: self.exit_code,
            output: self.output.clone(),
            output_truncated: self.output_truncated,
            result_ready: self.result_ready,
            reason: self.reason.clone(),
            started_at: self.started_at,
            completed_at: self.completed_at,
            raw_mode: self.raw_mode,
            tracking_disabled: self.tracking_disabled,
        }
    }

    /// Resource URI of this command's result, under the target it runs on.
    pub fn resource_uri(&self) -> (r: String)
        ensures
            r@ == self@.uri(),
    {
        let plain = command_resource_uri(self.id.as_str());
        uri(opt_as_str(&self.target), plain.as_str())
    }
}

/// Shared tool/resource snapshot for a tracked command.
#[derive(Debug, Clone, PartialEq, Eq)]
pub struct CommandSnapshot {
    pub command_id: String,
    pub resource_uri: String,
    pub status: CommandStatus,
    pub exit_code: Option<i32>,
    pub command: String,
    pub pane_id: String,
    pub socket: Option<String>,
    pub output: Option<String>,
    pub output_truncated: bool,
    pub elapsed_ms: u64,
    pub reason: Option<String>,
    /// Present when a wait budget expired while the command was still not terminal.
    pub wait_timed_out: Option<bool>,
    pub schema_version: u32,
}

/// Version of the [`CommandSnapshot`] layout.
pub const SNAPSHOT_SCHEMA_VERSION: u32 = 1;

impl CommandSnapshot {
    /// The snapshot of `exec` at `now`.
    ///
    /// Time stands still once the command has completed.
    pub fn from_execution(
        exec: &CommandExecution,
        wait_timed_out: Option<bool>,
        now: u64,
    ) -> (r: Self)
        ensures
            r.command_id == exec.id,
            r.resource_uri@ == result_uri(exec.id@),
            r.status == exec.status,
            r.exit_code == exec.exit_code,
            r.command == exec.command,
            r.pane_id == exec.pane_id,
            r.socket == exec.socket,
            r.output == exec.output,
            r.output_truncated == exec.output_truncated,
            r.elapsed_ms == elapsed_ms(
                exec.started_at,
                match exec.completed_at {
                    Some(end) => end,
                    None => now,
                },
            ),
            r.reason == exec.reason,
            r.wait_timed_out == wait_timed_out,
            r.schema_version == SNAPSHOT_SCHEMA_VERSION,
    {
        let end: u64 = match exec.completed_at {
            Some(end) => end,
            None => now,
        };
        CommandSnapshot {
            command_id: exec.id.clone(),
            resource_uri: command_resource_uri(exec.id.as_str()),
            status: exec.status,
            exit_code: exec.exit_code,
            command: exec.command.clone(),
            pane_id: exec.pane_id.clone(),
            socket: exec.socket.clone(),
            output: exec.output.clone(),
            output_truncated: exec.output_truncated,
            elapsed_ms: millis(exec.started_at, end),
            reason: exec.reason.clone(),
            wait_timed_out,
            schema_version: SNAPSHOT_SCHEMA_VERSION,
        }
    }
}

/// A [`CommandSnapshot`] with its texts as sequences of characters.
#[verifier::ext_equal]
pub struct Snapshot {
    pub command_id: Seq<char>,
    pub resource_uri: Seq<char>,
    pub status: CommandStatus,
    pub exit_code: Option<i32>,
    pub command: Seq<char>,
    pub pane_id: Seq<char>,
    pub socket: Option<Seq<char>>,
    pub output: Option<Seq<char>>,
    pub output_truncated: bool,
    pub elapsed_ms: u64,
    pub reason: Option<Seq<char>>,
    pub wait_timed_out: Option<bool>,
    pub schema_version: u32,
}

impl View for CommandSnapshot {
    type V = Snapshot;

    open spec fn view(&self) -> Snapshot {
        Snapshot {
            command_id: self.command_id@,
            resource_uri: self.resource_uri@,
            status: self.status,
            exit_code: self.exit_code,
            command: self.command@,
            pane_id: self.pane_id@,
            socket: opt_view(self.socket),
            output: opt_view(self.output),
            output_truncated: self.output_truncated,
            elapsed_ms: self.elapsed_ms,
            reason: opt_view(self.reason),
            wait_timed_out: self.wait_timed_out,
            schema_version: self.schema_version,
        }
    }
}

impl CommandSnapshot {
    /// A copy of this snapshot.
    pub fn copy(&self) -> (r: Self)
        ensures
            r == *self,
    {
        CommandSnapshot {
            command_id: self.command_id.clone(),
            resource_uri: self.resource_uri.clone(),
            status: self.status,
            exit_code: self.exit_code,
            command: self.command.clone(),
            pane_id: self.pane_id.clone(),
            socket: self.socket.clone(),
            output: self.output.clone(),
            output_truncated: self.output_truncated,
            elapsed_ms: self.elapsed_ms,
            reason: self.reason.clone(),
            wait_timed_out: self.wait_timed_out,
            schema_version: self.schema_version,
        }
    }
}

} // verus!
