//! Security policy: tool surface, allowlists, command filters, buffer path sandbox.

use crate::commands::TrackingConfig;
use crate::errors::{Error, ErrorView};
use crate::paths::{
    climbs, is_absolute, is_rooted, is_under, leads_through, path_has_parent_traversal,
    path_is_under_allowed_dir, remote_path_is_under_allowed_dir, trim_end_slashes,
    without_end_slashes,
};
use crate::patterns::{fault, is_match, regex_fault, regex_matches};
use crate::statements::{
    filter_subjects, reject_unsupported_shell_filter_syntax, subjects, syntax_objection,
};
use crate::text::{copy_texts, listed, opt_str_view, views};
use crate::tools::{
    class_of, filter_objection, passes, selected, tool_class, CompiledToolFilter, ToolClass,
};
use vstd::prelude::*;

pub use crate::tools::{ToolFilter, ToolFilterMode};

verus! {

/// Mode for applying regex-based command filters.
#[derive(Debug, Clone, Copy, PartialEq, Eq, Structural)]
pub enum CommandFilterMode {
    /// Do not apply any command filtering.
    Off,
    /// Allow only commands that match at least one pattern.
    Allowlist,
    /// Deny commands that match any pattern.
    Denylist,
}

impl Default for CommandFilterMode {
    fn default() -> (r: Self)
        ensures
            r == CommandFilterMode::Off,
    {
        CommandFilterMode::Off
    }
}

/// Shell configuration.
#[derive(Debug, Clone, PartialEq, Eq)]
pub struct ShellConfig {
    pub shell_type: Option<String>,
}

impl Default for ShellConfig {
    fn default() -> (r: Self)
        ensures
            r.shell_type is None,
    {
        ShellConfig { shell_type: None }
    }
}

/// SSH configuration.
#[derive(Debug, Clone, PartialEq, Eq)]
pub struct SshConfig {
    pub remote: Option<String>,
}

impl Default for SshConfig {
    fn default() -> (r: Self)
        ensures
            r.remote is None,
    {
        SshConfig { remote: None }
    }
}

/// Search configuration.
#[derive(Debug, Clone, Copy, PartialEq, Eq, Structural)]
pub struct SearchConfig {
    pub streaming_threshold_bytes: u64,
}

impl Default for SearchConfig {
    fn default() -> (r: Self)
        ensures
            r.streaming_threshold_bytes == 262_144,
    {
        SearchConfig { streaming_threshold_bytes: 262_144 }
    }
}

/// Regex-based command filtering configuration.
#[derive(Debug, Clone, PartialEq, Eq)]
pub struct CommandFilter {
    pub mode: CommandFilterMode,
    pub patterns: Vec<String>,
}

impl Default for CommandFilter {
    fn default() -> (r: Self)
        ensures
            r.mode == CommandFilterMode::Off,
            r.patterns@.len() == 0,
    {
        CommandFilter { mode: CommandFilterMode::Off, patterns: Vec::new() }
    }
}

/// Security policy configuration.
#[derive(Debug, Clone, PartialEq, Eq)]
pub struct SecurityConfig {
    pub enabled: bool,
    pub allow_execute_command: bool,
    pub allow_raw_mode: bool,
    pub allow_send_keys: bool,
    pub allow_kill: bool,
    pub allow_create: bool,
    pub allow_split: bool,
    pub allow_rename: bool,
    pub allow_move: bool,
    pub allow_capture: bool,
    pub allow_list: bool,
    pub allowed_sockets: Option<Vec<String>>,
    pub allowed_sessions: Option<Vec<String>>,
    pub allowed_panes: Option<Vec<String>>,
    pub allowed_buffer_paths: Option<Vec<String>>,
    pub command_filter: CommandFilter,
    pub tools: ToolFilter,
}

impl Default for SecurityConfig {
    fn default() -> (r: Self)
        ensures
            r.enabled && r.allow_execute_command && r.allow_raw_mode && r.allow_send_keys
                && r.allow_kill && r.allow_create && r.allow_split && r.allow_rename && r.allow_move
                && r.allow_capture && r.allow_list,
            r.allowed_sockets is None,
            r.allowed_sessions is None,
            r.allowed_panes is None,
            r.allowed_buffer_paths is None,
            r.command_filter.mode == CommandFilterMode::Off,
            r.command_filter.patterns@.len() == 0,
            r.tools.mode == ToolFilterMode::Deny,
            r.tools.items@.len() == 0,
    {
        SecurityConfig {
            enabled: true,
            allow_execute_command: true,
            allow_raw_mode: true,
            allow_send_keys: true,
            allow_kill: true,
            allow_create: true,
            allow_split: true,
            allow_rename: true,
            allow_move: true,
            allow_capture: true,
            allow_list: true,
            allowed_sockets: None,
            allowed_sessions: None,
            allowed_panes: None,
            allowed_buffer_paths: None,
            command_filter: CommandFilter::default(),
            tools: ToolFilter::default(),
        }
    }
}

/// Root of the configuration.
#[derive(Debug, Clone, PartialEq, Eq)]
pub struct ConfigFile {
    pub shell: ShellConfig,
    pub ssh: SshConfig,
    pub security: SecurityConfig,
    pub tracking: TrackingConfig,
    pub search: SearchConfig,
}

impl Default for ConfigFile {
    fn default() -> (r: Self)
        ensures
            r.shell.shell_type is None,
            r.ssh.remote is None,
            call_ensures(SecurityConfig::default, (), r.security),
            call_ensures(TrackingConfig::default, (), r.tracking),
            call_ensures(SearchConfig::default, (), r.search),
    {
        ConfigFile {
            shell: ShellConfig::default(),
            ssh: SshConfig::default(),
            security: SecurityConfig::default(),
            tracking: TrackingConfig::default(),
            search: SearchConfig::default(),
        }
    }
}

impl SecurityConfig {
    /// The permission that tools of this class need.
    pub open spec fn permits(self, class: ToolClass) -> bool {
        match class {
            ToolClass::Execute | ToolClass::CommandResult => self.allow_execute_command,
            ToolClass::Typing | ToolClass::Bytes
            | ToolClass::SpecialKeys => self.allow_send_keys,
            ToolClass::Kill => self.allow_kill,
            ToolClass::Create => self.allow_create,
            ToolClass::Split => self.allow_split,
            ToolClass::Rename => self.allow_rename,
            ToolClass::Move => self.allow_move,
            ToolClass::Capture | ToolClass::BufferRead
            | ToolClass::BufferWrite => self.allow_capture,
            ToolClass::Socket | ToolClass::List | ToolClass::ListBuffers => self.allow_list,
            ToolClass::Overview | ToolClass::FileRead | ToolClass::GitRead | ToolClass::KillTarget
            | ToolClass::GpuWatch | ToolClass::GpuSnapshot | ToolClass::RenameTarget
            | ToolClass::SpecialKey => true,
        }
    }

    fn permission(&self, class: ToolClass) -> (r: bool)
        ensures
            r == self.permits(class),
    {
        match class {
            ToolClass::Execute | ToolClass::CommandResult => self.allow_execute_command,
            ToolClass::Typing | ToolClass::Bytes
            | ToolClass::SpecialKeys => self.allow_send_keys,
            ToolClass::Kill => self.allow_kill,
            ToolClass::Create => self.allow_create,
            ToolClass::Split => self.allow_split,
            ToolClass::Rename => self.allow_rename,
            ToolClass::Move => self.allow_move,
            ToolClass::Capture | ToolClass::BufferRead
            | ToolClass::BufferWrite => self.allow_capture,
            ToolClass::Socket | ToolClass::List | ToolClass::ListBuffers => self.allow_list,
            ToolClass::Overview | ToolClass::FileRead | ToolClass::GitRead | ToolClass::KillTarget
            | ToolClass::GpuWatch | ToolClass::GpuSnapshot | ToolClass::RenameTarget
            | ToolClass::SpecialKey => true,
        }
    }

    /// Why this configuration cannot be used, if it cannot: the fault of the first pattern that
    /// does not compile, then the objection to the tool filter.
    pub open spec fn objection(self) -> Option<Seq<char>> {
        match first_fault(views(self.command_filter.patterns@)) {
            Some(words) => Some("invalid regex pattern: "@ + words),
            None => filter_objection(views(self.tools.items@)),
        }
    }

    /// Why a tool may not be used, if it may not.
    pub open spec fn tool_denial(self, tool: Seq<char>) -> Option<Seq<char>> {
        if !self.enabled {
            None
        } else if class_of(tool) is Some && !self.permits(class_of(tool)->0) {
            Some("tool '"@ + tool + "' is not allowed by security policy"@)
        } else if !passes(self.tools.mode, views(self.tools.items@), tool) {
            Some("tool '"@ + tool + "' is not allowed by configured tool filter"@)
        } else {
            None
        }
    }

    /// Some pattern of the command filter matches the statement.
    pub open spec fn pattern_hits(self, statement: Seq<char>) -> bool {
        exists|i: int|
            0 <= i < self.command_filter.patterns@.len() && regex_matches(
                (#[trigger] self.command_filter.patterns@[i])@,
                statement,
            )
    }

    /// Why a single statement may not be run, if it may not.
    pub open spec fn statement_denial(self, statement: Seq<char>) -> Option<Seq<char>> {
        match self.command_filter.mode {
            CommandFilterMode::Off => None,
            CommandFilterMode::Allowlist => if self.pattern_hits(statement) {
                None
            } else {
                Some("command '"@ + statement + "' is not in the allowlist"@)
            },
            CommandFilterMode::Denylist => if self.pattern_hits(statement) {
                Some("command '"@ + statement + "' is in the denylist"@)
            } else {
                None
            },
        }
    }

    /// The denial of the first statement that has one.
    pub open spec fn first_denial(self, list: Seq<Seq<char>>) -> Option<Seq<char>>
        decreases list.len(),
    {
        if list.len() == 0 {
            None
        } else if self.statement_denial(list[0]) is Some {
            self.statement_denial(list[0])
        } else {
            self.first_denial(list.skip(1))
        }
    }

    /// Why a command may not be run, if it may not: syntax that the filter cannot follow, or a
    /// statement that it denies.
    pub open spec fn command_denial(self, command: Seq<char>) -> Option<Seq<char>> {
        if !self.enabled || self.command_filter.mode == CommandFilterMode::Off {
            None
        } else if syntax_objection(command) is Some {
            syntax_objection(command)
        } else {
            self.first_denial(subjects(command))
        }
    }

    /// Why a socket may not be used, if it may not.
    pub open spec fn socket_denial(self, socket: Option<Seq<char>>) -> Option<Seq<char>> {
        match (self.enabled, self.allowed_sockets) {
            (true, Some(allowed)) => match socket {
                None => Some("effective socket is not in allowed sockets list"@),
                Some(path) => if views(allowed@).contains(path) {
                    None
                } else {
                    Some("socket '"@ + path + "' is not in allowed sockets list"@)
                },
            },
            _ => None,
        }
    }

    /// Why a session may not be used, if it may not: neither its id nor its name is listed.
    pub open spec fn session_denial(self, id: Seq<char>, name: Option<Seq<char>>) -> Option<
        Seq<char>,
    > {
        match (self.enabled, self.allowed_sessions) {
            (true, Some(allowed)) => if views(allowed@).contains(id) || (name is Some && views(
                allowed@,
            ).contains(name->0)) {
                None
            } else {
                Some(
                    match name {
                        Some(n) => "session '"@ + id + "' (name '"@ + n + "')"@,
                        None => "session '"@ + id + "'"@,
                    } + " is not in allowed sessions list"@,
                )
            },
            _ => None,
        }
    }

    /// Why a pane may not be used, if it may not.
    pub open spec fn pane_denial(self, pane_id: Seq<char>) -> Option<Seq<char>> {
        match (self.enabled, self.allowed_panes) {
            (true, Some(allowed)) => if views(allowed@).contains(pane_id) {
                None
            } else {
                Some("pane '"@ + pane_id + "' is not in allowed panes list"@)
            },
            _ => None,
        }
    }

    /// Why a buffer path is refused as it is written, if it is: it climbs, or starts at the
    /// root although no directories are configured.
    pub open spec fn path_objection(self, path: Seq<char>) -> Option<Seq<char>> {
        if climbs(path) {
            Some(
                "buffer path '"@ + path + "' contains parent directory traversal ('..')"@,
            )
        } else if self.allowed_buffer_paths is None && is_rooted(path) {
            Some(
                "buffer path '"@ + path
                    + "' must be relative when no allowed_buffer_paths are configured"@,
            )
        } else {
            None
        }
    }
}

/// The fault of the first pattern that has one.
pub open spec fn first_fault(patterns: Seq<Seq<char>>) -> Option<Seq<char>>
    decreases patterns.len(),
{
    if patterns.len() == 0 {
        None
    } else if regex_fault(patterns[0]) is Some {
        regex_fault(patterns[0])
    } else {
        first_fault(patterns.skip(1))
    }
}

/// Outcome of a check: it passes exactly where there is no denial.
pub open spec fn decides(r: Result<(), Error>, denial: Option<Seq<char>>) -> bool {
    match r {
        Ok(_) => denial is None,
        Err(e) => denial matches Some(message) && e@ == ErrorView::PolicyDenied(message),
    }
}

/// Name of the directory that buffers are kept in by default.
pub const DEFAULT_BUFFER_DIR_NAME: &'static str = "tmux-mcp-buffers";

/// Directory that remote buffers are kept in by default.
pub fn default_remote_buffer_dir() -> (r: String)
    ensures
        r@ == "/tmp/"@ + "tmux-mcp-buffers"@,
{
    "/tmp/".to_owned().concat("tmux-mcp-buffers")
}

/// What a local buffer path needs before it can be decided.
#[derive(Debug, Clone, PartialEq, Eq)]
pub enum BufferPath {
    /// The path is used as it is.
    Unchecked(String),
    /// The path has to be looked up below the default directory.
    BelowDefault,
    /// The path has to be looked up as it is.
    AsGiven,
}

/// Enforces security rules derived from configuration.
#[derive(Debug, Clone, PartialEq, Eq)]
pub struct SecurityPolicy {
    config: SecurityConfig,
    tool_filter: CompiledToolFilter,
}

impl SecurityPolicy {
    /// The configuration that this policy enforces.
    pub closed spec fn config(&self) -> SecurityConfig {
        self.config
    }

    /// The tool filter is the configured one.
    pub closed spec fn wf(&self) -> bool {
        forall|tool: Seq<char>|
            self.tool_filter.lets_through(tool) == passes(
                self.config.tools.mode,
                views(self.config.tools.items@),
                tool,
            )
    }

    /// Accept a configuration whose patterns compile and whose tool filter is valid.
    pub fn from_config(config: SecurityConfig) -> (r: Result<SecurityPolicy, Error>)
        ensures
            match r {
                Ok(policy) => {
                    &&& config.objection() is None
                    &&& policy.wf()
                    &&& policy.config() == config
                },
                Err(e) => config.objection() matches Some(message) && e@ == ErrorView::Config(
                    message,
                ),
            },
    {
        let ghost all = views(config.command_filter.patterns@);
        let mut i: usize = 0;
        assert(all.skip(0) =~= all);
        while i < config.command_filter.patterns.len()
            invariant
                i <= config.command_filter.patterns@.len(),
                all == views(config.command_filter.patterns@),
                first_fault(all) == first_fault(all.skip(i as int)),
            decreases config.command_filter.patterns@.len() - i,
        {
            proof {
                assert(all.skip(i as int)[0] == config.command_filter.patterns@[i as int]@);
                assert(all.skip(i as int).skip(1) =~= all.skip(i as int + 1));
            }
            match fault(config.command_filter.patterns[i].as_str()) {
                Some(words) => {
                    let message = "invalid regex pattern: ".to_owned().concat(words.as_str());
                    return Err(Error::Config { message });
                },
                None => {},
            }
            i += 1;
        }
        match CompiledToolFilter::compile(&config.tools) {
            Ok(tool_filter) => Ok(SecurityPolicy { config, tool_filter }),
            Err(e) => Err(e),
        }
    }

    /// As [`SecurityPolicy::from_config`], with the tool filter replaced by one that the
    /// environment asks for.
    pub fn from_config_with_override(config: SecurityConfig, tools: Option<ToolFilter>) -> (r:
        Result<SecurityPolicy, Error>)
        ensures
            ({
                let effective = match tools {
                    Some(filter) => SecurityConfig { tools: filter, ..config },
                    None => config,
                };
                match r {
                    Ok(policy) => {
                        &&& effective.objection() is None
                        &&& policy.wf()
                        &&& policy.config() == effective
                    },
                    Err(e) => effective.objection() matches Some(message) && e@
                        == ErrorView::Config(message),
                }
            }),
    {
        let mut effective = config;
        if let Some(filter) = tools {
            effective.tools = filter;
        }
        SecurityPolicy::from_config(effective)
    }

    /// Validate whether a tool is allowed under the current policy.
    pub fn check_tool(&self, tool_name: &str) -> (r: Result<(), Error>)
        requires
            self.wf(),
        ensures
            decides(r, self.config().tool_denial(tool_name@)),
    {
        if !self.config.enabled {
            return Ok(());
        }
        let allowed = match tool_class(tool_name) {
            Some(class) => self.config.permission(class),
            None => true,
        };
        if !allowed {
            let message = "tool '".to_owned().concat(tool_name).concat(
                "' is not allowed by security policy",
            );
            return Err(Error::denied(message));
        }
        if !self.tool_filter.allows(tool_name) {
            let message = "tool '".to_owned().concat(tool_name).concat(
                "' is not allowed by configured tool filter",
            );
            return Err(Error::denied(message));
        }
        Ok(())
    }

    fn check_command_line(&self, command: &str) -> (r: Result<(), Error>)
        ensures
            decides(r, self.config().statement_denial(command@)),
    {
        let mut hit: bool = false;
        let mut i: usize = 0;
        while i < self.config.command_filter.patterns.len()
            invariant
                i <= self.config.command_filter.patterns@.len(),
                hit == exists|j: int|
                    0 <= j < i && regex_matches(
                        (#[trigger] self.config.command_filter.patterns@[j])@,
                        command@,
                    ),
            decreases self.config.command_filter.patterns@.len() - i,
        {
            if is_match(self.config.command_filter.patterns[i].as_str(), command) {
                assert(regex_matches(
                    self.config.command_filter.patterns@[i as int]@,
                    command@,
                ));
                hit = true;
            }
            i += 1;
        }
        match self.config.command_filter.mode {
            CommandFilterMode::Off => Ok(()),
            CommandFilterMode::Allowlist => if hit {
                Ok(())
            } else {
                let message = "command '".to_owned().concat(command).concat(
                    "' is not in the allowlist",
                );
                Err(Error::denied(message))
            },
            CommandFilterMode::Denylist => if hit {
                let message = "command '".to_owned().concat(command).concat(
                    "' is in the denylist",
                );
                Err(Error::denied(message))
            } else {
                Ok(())
            },
        }
    }

    /// Validate command text against allow/deny patterns.
    ///
    /// The command is typed into a shell, which would run every statement in it. Each one is
    /// checked, and a command whose statements cannot be told apart is denied.
    pub fn check_command(&self, command: &str) -> (r: Result<(), Error>)
        ensures
            decides(r, self.config().command_denial(command@)),
    {
        if !self.config.enabled {
            return Ok(());
        }
        match self.config.command_filter.mode {
            CommandFilterMode::Off => {
                return Ok(());
            },
            _ => {},
        }
        match reject_unsupported_shell_filter_syntax(command) {
            Ok(_) => {},
            Err(e) => {
                return Err(e);
            },
        }
        let lines = filter_subjects(command);
        let ghost all = subjects(command@);
        let mut i: usize = 0;
        assert(all.skip(0) =~= all);
        while i < lines.len()
            invariant
                i <= lines@.len(),
                views(lines@) == all,
                all == subjects(command@),
                self.config.enabled,
                self.config.command_filter.mode != CommandFilterMode::Off,
                syntax_objection(command@) is None,
                self.config().first_denial(all) == self.config().first_denial(all.skip(i as int)),
            decreases lines@.len() - i,
        {
            proof {
                assert(all.skip(i as int)[0] == lines@[i as int]@);
                assert(all.skip(i as int).skip(1) =~= all.skip(i as int + 1));
            }
            match self.check_command_line(lines[i].as_str()) {
                Ok(_) => {},
                Err(e) => {
                    return Err(e);
                },
            }
            i += 1;
        }
        Ok(())
    }

    /// Validate a socket path against the allowed sockets list.
    pub fn check_socket(&self, socket: Option<&str>) -> (r: Result<(), Error>)
        ensures
            decides(r, self.config().socket_denial(opt_str_view(socket))),
    {
        if !self.config.enabled {
            return Ok(());
        }
        match &self.config.allowed_sockets {
            None => Ok(()),
            Some(allowed) => match socket {
                None => Err(
                    Error::denied("effective socket is not in allowed sockets list".to_owned()),
                ),
                Some(path) => if listed(allowed, path) {
                    Ok(())
                } else {
                    let message = "socket '".to_owned().concat(path).concat(
                        "' is not in allowed sockets list",
                    );
                    Err(Error::denied(message))
                },
            },
        }
    }

    /// Validate a session id against the allowed sessions list.
    pub fn check_session(&self, session: &str) -> (r: Result<(), Error>)
        ensures
            decides(r, self.config().session_denial(session@, None)),
    {
        self.check_session_identity(session, None)
    }

    /// Validate a session id/name pair against the allowed sessions list.
    pub fn check_session_identity(&self, session_id: &str, session_name: Option<&str>) -> (r:
        Result<(), Error>)
        ensures
            decides(r, self.config().session_denial(session_id@, opt_str_view(session_name))),
    {
        if !self.config.enabled {
            return Ok(());
        }
        match &self.config.allowed_sessions {
            None => Ok(()),
            Some(allowed) => {
                let by_name = match session_name {
                    Some(name) => listed(allowed, name),
                    None => false,
                };
                if by_name || listed(allowed, session_id) {
                    return Ok(());
                }
                let who = match session_name {
                    Some(name) => "session '".to_owned().concat(session_id).concat(
                        "' (name '",
                    ).concat(name).concat("')"),
                    None => "session '".to_owned().concat(session_id).concat("'"),
                };
                Err(Error::denied(who.concat(" is not in allowed sessions list")))
            },
        }
    }

    /// Validate a pane id against the allowed panes list.
    pub fn check_pane(&self, pane_id: &str) -> (r: Result<(), Error>)
        ensures
            decides(r, self.config().pane_denial(pane_id@)),
    {
        if !self.config.enabled {
            return Ok(());
        }
        match &self.config.allowed_panes {
            None => Ok(()),
            Some(allowed) => if listed(allowed, pane_id) {
                Ok(())
            } else {
                let message = "pane '".to_owned().concat(pane_id).concat(
                    "' is not in allowed panes list",
                );
                Err(Error::denied(message))
            },
        }
    }

    /// Validate that raw mode is permitted by policy.
    pub fn check_raw_mode(&self) -> (r: Result<(), Error>)
        ensures
            decides(
                r,
                if self.config().enabled && !self.config().allow_raw_mode {
                    Some("raw mode is not allowed by security policy"@)
                } else {
                    None
                },
            ),
    {
        if !self.config.enabled || self.config.allow_raw_mode {
            Ok(())
        } else {
            Err(Error::denied("raw mode is not allowed by security policy".to_owned()))
        }
    }

    /// Returns true if session allowlist enforcement is configured.
    pub fn has_session_allowlist(&self) -> (r: bool)
        ensures
            r == self.config().allowed_sessions is Some,
    {
        self.config.allowed_sessions.is_some()
    }

    /// Returns true if pane allowlist enforcement is configured.
    pub fn has_pane_allowlist(&self) -> (r: bool)
        ensures
            r == self.config().allowed_panes is Some,
    {
        self.config.allowed_panes.is_some()
    }

    fn check_path_text(&self, path: &str) -> (r: Result<(), Error>)
        ensures
            decides(r, self.config().path_objection(path@)),
    {
        if path_has_parent_traversal(path) {
            let message = "buffer path '".to_owned().concat(path).concat(
                "' contains parent directory traversal ('..')",
            );
            return Err(Error::denied(message));
        }
        if self.config.allowed_buffer_paths.is_none() && is_absolute(path) {
            let message = "buffer path '".to_owned().concat(path).concat(
                "' must be relative when no allowed_buffer_paths are configured",
            );
            return Err(Error::denied(message));
        }
        Ok(())
    }

    /// Validate a local buffer path as it is written, and say where it has to be looked up.
    pub fn local_buffer_lookup(&self, path: &str) -> (r: Result<BufferPath, Error>)
        ensures
            match r {
                Ok(BufferPath::Unchecked(same_path)) => !self.config().enabled && same_path@
                    == path@,
                Ok(BufferPath::BelowDefault) => {
                    &&& self.config().enabled
                    &&& self.config().path_objection(path@) is None
                    &&& self.config().allowed_buffer_paths is None
                },
                Ok(BufferPath::AsGiven) => {
                    &&& self.config().enabled
                    &&& self.config().path_objection(path@) is None
                    &&& self.config().allowed_buffer_paths is Some
                },
                Err(e) => {
                    &&& self.config().enabled
                    &&& self.config().path_objection(path@) matches Some(message)
                    &&& e@ == ErrorView::PolicyDenied(message)
                },
            },
    {
        if !self.config.enabled {
            return Ok(BufferPath::Unchecked(path.to_owned()));
        }
        match self.check_path_text(path) {
            Ok(_) => {},
            Err(e) => {
                return Err(e);
            },
        }
        if self.config.allowed_buffer_paths.is_some() {
            Ok(BufferPath::AsGiven)
        } else {
            Ok(BufferPath::BelowDefault)
        }
    }

    /// The local path to pass to tmux. `canonical_path` and `canonical_dirs` are what looking up
    /// the path and the allowed directories gave: the path must lie under one of those that
    /// exist.
    pub fn resolve_local_buffer_path(
        &self,
        path: &str,
        canonical_path: Result<String, String>,
        canonical_dirs: &[String],
    ) -> (r: Result<String, Error>)
        ensures
            match r {
                Ok(resolved) => if !self.config().enabled {
                    resolved@ == path@
                } else {
                    &&& self.config().path_objection(path@) is None
                    &&& canonical_path matches Ok(canonical) && resolved@ == canonical@
                    &&& exists|i: int|
                        0 <= i < canonical_dirs@.len() && leads_through(
                            resolved@,
                            (#[trigger] canonical_dirs@[i])@,
                        )
                },
                Err(e) => self.config().enabled && (match self.config().path_objection(path@) {
                    Some(message) => e@ == ErrorView::PolicyDenied(message),
                    None => match canonical_path {
                        Ok(canonical) => {
                            &&& forall|i: int|
                                0 <= i < canonical_dirs@.len() ==> !leads_through(
                                    canonical@,
                                    (#[trigger] canonical_dirs@[i])@,
                                )
                            &&& e@ == ErrorView::PolicyDenied(
                                "buffer path '"@ + path@ + "' is not under allowed buffer paths"@,
                            )
                        },
                        Err(words) => e@ == ErrorView::PolicyDenied(
                            "buffer path '"@ + path@ + "' is not accessible: "@ + words@,
                        ),
                    },
                }),
            },
    {
        match self.local_buffer_lookup(path) {
            Ok(BufferPath::Unchecked(unchecked)) => {
                return Ok(unchecked);
            },
            Ok(_) => {},
            Err(e) => {
                return Err(e);
            },
        }
        let canonical = match canonical_path {
            Ok(canonical) => canonical,
            Err(words) => {
                let message = "buffer path '".to_owned().concat(path).concat(
                    "' is not accessible: ",
                ).concat(words.as_str());
                return Err(Error::denied(message));
            },
        };
        let mut i: usize = 0;
        while i < canonical_dirs.len()
            invariant
                i <= canonical_dirs@.len(),
                canonical_path matches Ok(c) && c == canonical,
                self.config().enabled,
                self.config().path_objection(path@) is None,
                forall|j: int|
                    0 <= j < i ==> !leads_through(canonical@, (#[trigger] canonical_dirs@[j])@),
            decreases canonical_dirs@.len() - i,
        {
            if path_is_under_allowed_dir(canonical_dirs[i].as_str(), canonical.as_str()) {
                return Ok(canonical);
            }
            i += 1;
        }
        let message = "buffer path '".to_owned().concat(path).concat(
            "' is not under allowed buffer paths",
        );
        Err(Error::denied(message))
    }

    /// Validate a remotely canonicalized buffer path and return the path to pass to remote tmux.
    pub fn resolve_remote_buffer_path(
        &self,
        path: &str,
        canonical_path: &str,
        canonical_allowed_dirs: &[String],
    ) -> (r: Result<String, Error>)
        ensures
            match r {
                Ok(resolved) => if !self.config().enabled {
                    resolved@ == path@
                } else {
                    &&& self.config().path_objection(path@) is None
                    &&& resolved@ == canonical_path@
                    &&& exists|i: int|
                        0 <= i < canonical_allowed_dirs@.len() && is_under(
                            canonical_path@,
                            (#[trigger] canonical_allowed_dirs@[i])@,
                        )
                },
                Err(e) => self.config().enabled && (match self.config().path_objection(path@) {
                    Some(message) => e@ == ErrorView::PolicyDenied(message),
                    None => {
                        &&& forall|i: int|
                            0 <= i < canonical_allowed_dirs@.len() ==> !is_under(
                                canonical_path@,
                                (#[trigger] canonical_allowed_dirs@[i])@,
                            )
                        &&& e@ == ErrorView::PolicyDenied(
                            "buffer path '"@ + path@ + "' is not under allowed buffer paths"@,
                        )
                    },
                }),
            },
    {
        if !self.config.enabled {
            return Ok(path.to_owned());
        }
        match self.check_path_text(path) {
            Ok(_) => {},
            Err(e) => {
                return Err(e);
            },
        }
        let mut i: usize = 0;
        while i < canonical_allowed_dirs.len()
            invariant
                i <= canonical_allowed_dirs@.len(),
                self.config().enabled,
                self.config().path_objection(path@) is None,
                forall|j: int|
                    0 <= j < i ==> !is_under(
                        canonical_path@,
                        (#[trigger] canonical_allowed_dirs@[j])@,
                    ),
            decreases canonical_allowed_dirs@.len() - i,
        {
            if remote_path_is_under_allowed_dir(
                canonical_path,
                canonical_allowed_dirs[i].as_str(),
            ) {
                return Ok(canonical_path.to_owned());
            }
            i += 1;
        }
        let message = "buffer path '".to_owned().concat(path).concat(
            "' is not under allowed buffer paths",
        );
        Err(Error::denied(message))
    }

    /// Remote directories that buffers may lie in.
    pub fn remote_buffer_allowlist_candidates(&self) -> (r: Vec<String>)
        ensures
            match self.config().allowed_buffer_paths {
                Some(paths) => views(r@) == views(paths@),
                None => views(r@) == seq!["/tmp/"@ + "tmux-mcp-buffers"@],
            },
    {
        match &self.config.allowed_buffer_paths {
            Some(paths) => copy_texts(paths),
            None => {
                let mut r: Vec<String> = Vec::new();
                r.push(default_remote_buffer_dir());
                assert(views(r@) =~= seq!["/tmp/"@ + "tmux-mcp-buffers"@]);
                r
            },
        }
    }

    /// The remote path to canonicalize for a buffer path.
    pub fn remote_buffer_path_candidate(&self, path: &str) -> (r: Result<String, Error>)
        ensures
            match r {
                Ok(candidate) => if !self.config().enabled {
                    candidate@ == path@
                } else {
                    &&& self.config().path_objection(path@) is None
                    &&& candidate@ == (if self.config().allowed_buffer_paths is Some {
                        path@
                    } else {
                        without_end_slashes("/tmp/"@ + "tmux-mcp-buffers"@) + "/"@ + path@
                    })
                },
                Err(e) => {
                    &&& self.config().enabled
                    &&& self.config().path_objection(path@) matches Some(message)
                    &&& e@ == ErrorView::PolicyDenied(message)
                },
            },
    {
        if !self.config.enabled {
            return Ok(path.to_owned());
        }
        match self.check_path_text(path) {
            Ok(_) => {},
            Err(e) => {
                return Err(e);
            },
        }
        if self.config.allowed_buffer_paths.is_some() {
            return Ok(path.to_owned());
        }
        let dir = trim_end_slashes(default_remote_buffer_dir().as_str());
        Ok(dir.concat("/").concat(path))
    }
}

impl Default for SecurityPolicy {
    fn default() -> (r: Self)
        ensures
            r.wf(),
            call_ensures(SecurityConfig::default, (), r.config()),
            r.config().enabled,
            r.config().allow_raw_mode,
            r.config().allowed_buffer_paths is None,
            forall|tool: Seq<char>| r.config().tool_denial(tool) is None,
            forall|command: Seq<char>| r.config().command_denial(command) is None,
            forall|socket: Option<Seq<char>>| r.config().socket_denial(socket) is None,
            forall|id: Seq<char>, name: Option<Seq<char>>|
                r.config().session_denial(id, name) is None,
            forall|pane: Seq<char>| r.config().pane_denial(pane) is None,
    {
        let r = SecurityPolicy {
            config: SecurityConfig::default(),
            tool_filter: CompiledToolFilter::none(),
        };
        assert forall|tool: Seq<char>| r.config().tool_denial(tool) is None by {
            assert(!selected(views(r.config.tools.items@), tool));
        }
        r
    }
}

/// A disabled policy denies nothing.
pub proof fn disabled_policy_allows_everything(
    config: SecurityConfig,
    tool: Seq<char>,
    command: Seq<char>,
    socket: Option<Seq<char>>,
    session: Seq<char>,
    name: Option<Seq<char>>,
    pane: Seq<char>,
)
    requires
        !config.enabled,
    ensures
        config.tool_denial(tool) is None,
        config.command_denial(command) is None,
        config.socket_denial(socket) is None,
        config.session_denial(session, name) is None,
        config.pane_denial(pane) is None,
{
}

proof fn lemma_first_denial(config: SecurityConfig, list: Seq<Seq<char>>)
    ensures
        config.first_denial(list) is None <==> forall|i: int|
            0 <= i < list.len() ==> config.statement_denial(#[trigger] list[i]) is None,
    decreases list.len(),
{
    if list.len() > 0 {
        lemma_first_denial(config, list.skip(1));
        assert forall|i: int| 1 <= i < list.len() implies list[i] == list.skip(1)[i - 1] by {}
        if config.first_denial(list) is None {
            assert forall|i: int| 0 <= i < list.len() implies config.statement_denial(
                #[trigger] list[i],
            ) is None by {
                if i > 0 {
                    assert(config.statement_denial(list.skip(1)[i - 1]) is None);
                }
            }
        } else if config.statement_denial(list[0]) is None {
            let j = choose|j: int|
                0 <= j < list.skip(1).len() && config.statement_denial(
                    #[trigger] list.skip(1)[j],
                ) is Some;
            assert(list[j + 1] == list.skip(1)[j]);
        }
    }
}

/// A filter judges every statement of a command: the command is let through only when each one
/// is, and only when the filter can follow its syntax.
pub proof fn every_statement_is_judged(config: SecurityConfig, command: Seq<char>)
    requires
        config.enabled,
        config.command_filter.mode != CommandFilterMode::Off,
    ensures
        config.command_denial(command) is None <==> (syntax_objection(command) is None && forall|
            i: int,
        |
            0 <= i < subjects(command).len() ==> config.statement_denial(
                #[trigger] subjects(command)[i],
            ) is None),
{
    lemma_first_denial(config, subjects(command));
}

/// With the same patterns an allowlist lets through exactly the statements that a denylist
/// keeps out.
pub proof fn lists_are_opposites(allow: SecurityConfig, deny: SecurityConfig, statement: Seq<char>)
    requires
        allow.command_filter.patterns == deny.command_filter.patterns,
        allow.command_filter.mode == CommandFilterMode::Allowlist,
        deny.command_filter.mode == CommandFilterMode::Denylist,
    ensures
        allow.statement_denial(statement) is None <==> deny.statement_denial(statement) is Some,
{
    assert(allow.pattern_hits(statement) == deny.pattern_hits(statement));
}

} // verus!
