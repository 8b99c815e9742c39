//! The tools that the control plane offers, and the filter over them.

use crate::errors::{Error, ErrorView};
use crate::text::{
    from_range, lower, lowered, same, split, split_at_char, to_chars, trim, trimmed, views,
};
use vstd::prelude::*;

verus! {

/// Environment variable that overrides the configured tool filter.
pub const TOOLS_ENV_VAR: &'static str = "TMUX_MCP_TOOLS";

/// What a tool is for. Tools of one class belong to the same groups and need the same
/// permission.
#[derive(Debug, Clone, Copy, PartialEq, Eq, Structural)]
pub enum ToolClass {
    /// Finding a socket.
    Socket,
    /// All of the topology, or all of the targets, at once.
    Overview,
    /// Parts of the topology.
    List,
    /// The paste buffers.
    ListBuffers,
    /// What a pane shows.
    Capture,
    /// Directories and files, to be read.
    FileRead,
    /// Repositories, to be read.
    GitRead,
    /// Paste buffers, to be read.
    BufferRead,
    /// Paste buffers, to be changed.
    BufferWrite,
    /// New sessions and windows.
    Create,
    /// New panes.
    Split,
    /// Ending whatever an id names.
    KillTarget,
    /// Ending what runs.
    Kill,
    /// Running a command.
    Execute,
    /// What became of a command.
    CommandResult,
    /// Waiting for idle GPUs.
    GpuWatch,
    /// The GPUs as they are.
    GpuSnapshot,
    /// The name of whatever an id names.
    RenameTarget,
    /// Names.
    Rename,
    /// Navigation and layout.
    Move,
    /// Typed or pasted text.
    Typing,
    /// Bytes as they are.
    Bytes,
    /// Any special key.
    SpecialKey,
    /// One special key each.
    SpecialKeys,
}

/// The class of the tool with this name, if there is one.
pub open spec fn class_of(name: Seq<char>) -> Option<ToolClass> {
    if name == "socket-for-path"@ {
        Some(ToolClass::Socket)
    } else if name == "get-tmux-state"@ || name == "list-targets"@ {
        Some(ToolClass::Overview)
    } else if name == "list-sessions"@ || name == "find-session"@ || name == "list-windows"@
        || name == "list-panes"@ || name == "list-clients"@
        || name == "get-current-session"@ {
        Some(ToolClass::List)
    } else if name == "list-buffers"@ {
        Some(ToolClass::ListBuffers)
    } else if name == "capture-pane"@ {
        Some(ToolClass::Capture)
    } else if name == "list-directory"@ || name == "read-file"@ || name == "find-files"@
        || name == "search-text"@ || name == "file-stat"@ {
        Some(ToolClass::FileRead)
    } else if name == "git-status"@ || name == "git-diff"@ || name == "git-log"@
        || name == "git-show"@ {
        Some(ToolClass::GitRead)
    } else if name == "show-buffer"@ || name == "search-buffer"@
        || name == "subsearch-buffer"@ {
        Some(ToolClass::BufferRead)
    } else if name == "save-buffer"@ || name == "load-buffer"@ || name == "delete-buffer"@
        || name == "set-buffer"@ || name == "append-buffer"@ || name == "rename-buffer"@ {
        Some(ToolClass::BufferWrite)
    } else if name == "create-session"@ || name == "create-window"@ {
        Some(ToolClass::Create)
    } else if name == "split-pane"@ {
        Some(ToolClass::Split)
    } else if name == "kill-target"@ {
        Some(ToolClass::KillTarget)
    } else if name == "kill-session"@ || name == "kill-window"@ || name == "kill-pane"@
        || name == "detach-client"@ {
        Some(ToolClass::Kill)
    } else if name == "execute-command"@ {
        Some(ToolClass::Execute)
    } else if name == "get-command-result"@ {
        Some(ToolClass::CommandResult)
    } else if name == "watch-gpu-idle"@ || name == "get-gpu-watch"@
        || name == "stop-gpu-watch"@ {
        Some(ToolClass::GpuWatch)
    } else if name == "gpu-snapshot"@ {
        Some(ToolClass::GpuSnapshot)
    } else if name == "rename-target"@ {
        Some(ToolClass::RenameTarget)
    } else if name == "rename-session"@ || name == "rename-window"@
        || name == "rename-pane"@ {
        Some(ToolClass::Rename)
    } else if name == "move-window"@ || name == "select-window"@ || name == "select-pane"@
        || name == "resize-pane"@ || name == "zoom-pane"@ || name == "select-layout"@
        || name == "join-pane"@ || name == "break-pane"@ || name == "swap-pane"@
        || name == "set-synchronize-panes"@ {
        Some(ToolClass::Move)
    } else if name == "send-keys"@ || name == "paste-text"@ {
        Some(ToolClass::Typing)
    } else if name == "send-hex"@ {
        Some(ToolClass::Bytes)
    } else if name == "press-special-key"@ {
        Some(ToolClass::SpecialKey)
    } else if name == "send-cancel"@ || name == "send-eof"@ || name == "send-escape"@
        || name == "send-enter"@ || name == "send-tab"@ || name == "send-backspace"@
        || name == "send-up"@ || name == "send-down"@ || name == "send-left"@
        || name == "send-right"@ || name == "send-page-up"@ || name == "send-page-down"@
        || name == "send-home"@ || name == "send-end"@ {
        Some(ToolClass::SpecialKeys)
    } else {
        None
    }
}

/// The class of the tool with this name, if there is one.
pub fn tool_class(name: &str) -> (r: Option<ToolClass>)
    ensures
        r == class_of(name@),
{
    if same(name, "socket-for-path") {
        Some(ToolClass::Socket)
    } else if same(name, "get-tmux-state") || same(name, "list-targets") {
        Some(ToolClass::Overview)
    } else if same(name, "list-sessions") || same(name, "find-session")
        || same(name, "list-windows") || same(name, "list-panes")
        || same(name, "list-clients") || same(name, "get-current-session") {
        Some(ToolClass::List)
    } else if same(name, "list-buffers") {
        Some(ToolClass::ListBuffers)
    } else if same(name, "capture-pane") {
        Some(ToolClass::Capture)
    } else if same(name, "list-directory") || same(name, "read-file")
        || same(name, "find-files") || same(name, "search-text") || same(name, "file-stat") {
        Some(ToolClass::FileRead)
    } else if same(name, "git-status") || same(name, "git-diff") || same(name, "git-log")
        || same(name, "git-show") {
        Some(ToolClass::GitRead)
    } else if same(name, "show-buffer") || same(name, "search-buffer")
        || same(name, "subsearch-buffer") {
        Some(ToolClass::BufferRead)
    } else if same(name, "save-buffer") || same(name, "load-buffer")
        || same(name, "delete-buffer") || same(name, "set-buffer")
        || same(name, "append-buffer") || same(name, "rename-buffer") {
        Some(ToolClass::BufferWrite)
    } else if same(name, "create-session") || same(name, "create-window") {
        Some(ToolClass::Create)
    } else if same(name, "split-pane") {
        Some(ToolClass::Split)
    } else if same(name, "kill-target") {
        Some(ToolClass::KillTarget)
    } else if same(name, "kill-session") || same(name, "kill-window")
        || same(name, "kill-pane") || same(name, "detach-client") {
        Some(ToolClass::Kill)
    } else if same(name, "execute-command") {
        Some(ToolClass::Execute)
    } else if same(name, "get-command-result") {
        Some(ToolClass::CommandResult)
    } else if same(name, "watch-gpu-idle") || same(name, "get-gpu-watch")
        || same(name, "stop-gpu-watch") {
        Some(ToolClass::GpuWatch)
    } else if same(name, "gpu-snapshot") {
        Some(ToolClass::GpuSnapshot)
    } else if same(name, "rename-target") {
        Some(ToolClass::RenameTarget)
    } else if same(name, "rename-session") || same(name, "rename-window")
        || same(name, "rename-pane") {
        Some(ToolClass::Rename)
    } else if same(name, "move-window") || same(name, "select-window")
        || same(name, "select-pane") || same(name, "resize-pane") || same(name, "zoom-pane")
        || same(name, "select-layout") || same(name, "join-pane")
        || same(name, "break-pane") || same(name, "swap-pane")
        || same(name, "set-synchronize-panes") {
        Some(ToolClass::Move)
    } else if same(name, "send-keys") || same(name, "paste-text") {
        Some(ToolClass::Typing)
    } else if same(name, "send-hex") {
        Some(ToolClass::Bytes)
    } else if same(name, "press-special-key") {
        Some(ToolClass::SpecialKey)
    } else if same(name, "send-cancel") || same(name, "send-eof")
        || same(name, "send-escape") || same(name, "send-enter") || same(name, "send-tab")
        || same(name, "send-backspace") || same(name, "send-up") || same(name, "send-down")
        || same(name, "send-left") || same(name, "send-right") || same(name, "send-page-up")
        || same(name, "send-page-down") || same(name, "send-home") || same(name, "send-end") {
        Some(ToolClass::SpecialKeys)
    } else {
        None
    }
}

/// Tools of this class belong to the group.
pub open spec fn in_group(class: ToolClass, group: Seq<char>) -> bool {
    match class {
        ToolClass::Socket => group == "socket"@ || group == "read"@,
        ToolClass::Overview => group == "agent-core"@ || group == "list"@
            || group == "read"@,
        ToolClass::List => group == "list"@ || group == "read"@,
        ToolClass::ListBuffers => group == "list"@ || group == "buffer-read"@
            || group == "read"@,
        ToolClass::Capture => group == "agent-core"@ || group == "capture"@
            || group == "read"@,
        ToolClass::FileRead => group == "agent-core"@ || group == "file-read"@
            || group == "read"@,
        ToolClass::GitRead => group == "agent-core"@ || group == "git-read"@
            || group == "read"@,
        ToolClass::BufferRead => group == "buffer-read"@ || group == "read"@,
        ToolClass::BufferWrite => group == "buffer-write"@,
        ToolClass::Create => group == "agent-core"@ || group == "create"@,
        ToolClass::Split => group == "agent-core"@ || group == "split"@,
        ToolClass::KillTarget => group == "kill"@,
        ToolClass::Kill => group == "kill"@,
        ToolClass::Execute => group == "agent-core"@ || group == "execute"@,
        ToolClass::CommandResult => group == "agent-core"@ || group == "execute"@
            || group == "read"@,
        ToolClass::GpuWatch => group == "agent-core"@ || group == "gpu-monitor"@,
        ToolClass::GpuSnapshot => group == "agent-core"@ || group == "gpu-monitor"@
            || group == "read"@,
        ToolClass::RenameTarget => group == "rename"@,
        ToolClass::Rename => group == "rename"@,
        ToolClass::Move => group == "move"@,
        ToolClass::Typing => group == "agent-core"@ || group == "interactive"@
            || group == "raw-input"@,
        ToolClass::Bytes => group == "interactive"@ || group == "raw-input"@,
        ToolClass::SpecialKey => group == "agent-core"@ || group == "special-keys"@
            || group == "raw-input"@,
        ToolClass::SpecialKeys => group == "special-keys"@ || group == "raw-input"@,
    }
}

/// Whether tools of this class belong to the group.
pub fn class_in_group(class: ToolClass, group: &str) -> (r: bool)
    ensures
        r == in_group(class, group@),
{
    match class {
        ToolClass::Socket => same(group, "socket") || same(group, "read"),
        ToolClass::Overview => same(group, "agent-core") || same(group, "list")
            || same(group, "read"),
        ToolClass::List => same(group, "list") || same(group, "read"),
        ToolClass::ListBuffers => same(group, "list") || same(group, "buffer-read")
            || same(group, "read"),
        ToolClass::Capture => same(group, "agent-core") || same(group, "capture")
            || same(group, "read"),
        ToolClass::FileRead => same(group, "agent-core") || same(group, "file-read")
            || same(group, "read"),
        ToolClass::GitRead => same(group, "agent-core") || same(group, "git-read")
            || same(group, "read"),
        ToolClass::BufferRead => same(group, "buffer-read") || same(group, "read"),
        ToolClass::BufferWrite => same(group, "buffer-write"),
        ToolClass::Create => same(group, "agent-core") || same(group, "create"),
        ToolClass::Split => same(group, "agent-core") || same(group, "split"),
        ToolClass::KillTarget => same(group, "kill"),
        ToolClass::Kill => same(group, "kill"),
        ToolClass::Execute => same(group, "agent-core") || same(group, "execute"),
        ToolClass::CommandResult => same(group, "agent-core") || same(group, "execute")
            || same(group, "read"),
        ToolClass::GpuWatch => same(group, "agent-core") || same(group, "gpu-monitor"),
        ToolClass::GpuSnapshot => same(group, "agent-core") || same(group, "gpu-monitor")
            || same(group, "read"),
        ToolClass::RenameTarget => same(group, "rename"),
        ToolClass::Rename => same(group, "rename"),
        ToolClass::Move => same(group, "move"),
        ToolClass::Typing => same(group, "agent-core") || same(group, "interactive")
            || same(group, "raw-input"),
        ToolClass::Bytes => same(group, "interactive") || same(group, "raw-input"),
        ToolClass::SpecialKey => same(group, "agent-core") || same(group, "special-keys")
            || same(group, "raw-input"),
        ToolClass::SpecialKeys => same(group, "special-keys") || same(group, "raw-input"),
    }
}

/// Whether this is the name of a tool.
pub fn is_known_tool(name: &str) -> (r: bool)
    ensures
        r == class_of(name@) is Some,
{
    tool_class(name).is_some()
}

/// The groups that a filter can name.
pub open spec fn known_group(group: Seq<char>) -> bool {
    group == "agent-core"@ || group == "read"@ || group == "file-read"@
        || group == "git-read"@ || group == "buffer-read"@ || group == "buffer-write"@
        || group == "list"@ || group == "capture"@ || group == "create"@
        || group == "split"@ || group == "kill"@ || group == "execute"@
        || group == "gpu-monitor"@ || group == "rename"@ || group == "move"@
        || group == "interactive"@ || group == "special-keys"@ || group == "raw-input"@
        || group == "socket"@ || group == "all"@
}

/// Whether a filter can name this group.
pub fn is_known_group(name: &str) -> (r: bool)
    ensures
        r == known_group(name@),
{
    same(name, "agent-core") || same(name, "read") || same(name, "file-read")
        || same(name, "git-read") || same(name, "buffer-read") || same(name, "buffer-write")
        || same(name, "list") || same(name, "capture") || same(name, "create")
        || same(name, "split") || same(name, "kill") || same(name, "execute")
        || same(name, "gpu-monitor") || same(name, "rename") || same(name, "move")
        || same(name, "interactive") || same(name, "special-keys")
        || same(name, "raw-input") || same(name, "socket") || same(name, "all")
}

/// The tools that an agent has from the start.
pub open spec fn is_core_tool(name: Seq<char>) -> bool {
    name == "get-tmux-state"@ || name == "list-targets"@ || name == "capture-pane"@
        || name == "list-directory"@ || name == "read-file"@ || name == "find-files"@
        || name == "search-text"@ || name == "file-stat"@ || name == "git-status"@
        || name == "git-diff"@ || name == "git-log"@ || name == "git-show"@
        || name == "create-session"@ || name == "create-window"@ || name == "split-pane"@
        || name == "execute-command"@ || name == "get-command-result"@
        || name == "watch-gpu-idle"@ || name == "get-gpu-watch"@
        || name == "stop-gpu-watch"@ || name == "gpu-snapshot"@ || name == "send-keys"@
        || name == "paste-text"@ || name == "press-special-key"@
}

/// What the listed tools are: those to keep out, or the only ones to let in.
#[derive(Debug, Clone, Copy, PartialEq, Eq, Structural)]
pub enum ToolFilterMode {
    /// Disable the listed tools/groups; every other tool remains available.
    Deny,
    /// Enable only the listed tools/groups.
    Allow,
}

impl Default for ToolFilterMode {
    fn default() -> (r: Self)
        ensures
            r == ToolFilterMode::Deny,
    {
        ToolFilterMode::Deny
    }
}

/// Runtime tool-surface filtering configuration.
#[derive(Debug, Clone, PartialEq, Eq)]
pub struct ToolFilter {
    pub mode: ToolFilterMode,
    pub items: Vec<String>,
}

impl Default for ToolFilter {
    fn default() -> (r: Self)
        ensures
            r.mode == ToolFilterMode::Deny,
            r.items@.len() == 0,
    {
        ToolFilter { mode: ToolFilterMode::Deny, items: Vec::new() }
    }
}

/// An item as it is compared: trimmed, in small letters.
pub open spec fn normalized(item: Seq<char>) -> Seq<char> {
    lowered(trimmed(item))
}

/// Why a normalized item cannot stand in a filter, if it cannot.
pub open spec fn item_objection(item: Seq<char>) -> Option<Seq<char>> {
    if item.len() == 0 {
        None
    } else if item[0] == '@' {
        if known_group(item.skip(1)) {
            None
        } else {
            Some("unknown tool group '@"@ + item.skip(1) + "' in tool filter"@)
        }
    } else if class_of(item) is Some {
        None
    } else {
        Some("unknown tool '"@ + item + "' in tool filter"@)
    }
}

/// A normalized item selects the tool: by its name, or by one of its groups.
pub open spec fn selects(item: Seq<char>, tool: Seq<char>) -> bool {
    if item.len() == 0 {
        false
    } else if item[0] == '@' {
        &&& class_of(tool) is Some
        &&& item.skip(1) == "all"@ || in_group(class_of(tool)->0, item.skip(1))
    } else {
        item == tool
    }
}

/// Some item of the list selects the tool.
pub open spec fn selected(items: Seq<Seq<char>>, tool: Seq<char>) -> bool {
    exists|i: int| 0 <= i < items.len() && selects(normalized(#[trigger] items[i]), tool)
}

/// The filter lets the tool through.
pub open spec fn passes(mode: ToolFilterMode, items: Seq<Seq<char>>, tool: Seq<char>) -> bool {
    match mode {
        ToolFilterMode::Deny => !selected(items, tool),
        ToolFilterMode::Allow => selected(items, tool),
    }
}

/// Why a filter is not valid, if it is not: the objection to the first item that has one.
pub open spec fn filter_objection(items: Seq<Seq<char>>) -> Option<Seq<char>>
    decreases items.len(),
{
    if items.len() == 0 {
        None
    } else if item_objection(normalized(items[0])) is Some {
        item_objection(normalized(items[0]))
    } else {
        filter_objection(items.skip(1))
    }
}

/// A filter whose items all name tools or groups.
#[derive(Debug, Clone, PartialEq, Eq)]
pub struct CompiledToolFilter {
    mode: ToolFilterMode,
    items: Vec<String>,
}

fn item_selects(item: &str, tool: &str) -> (r: bool)
    ensures
        r == selects(item@, tool@),
{
    let chars = to_chars(item);
    if chars.len() == 0 {
        return false;
    }
    if chars[0] == '@' {
        let group = from_range(&chars, 1, chars.len());
        assert(group@ =~= item@.skip(1));
        match tool_class(tool) {
            Some(class) => same(group.as_str(), "all") || class_in_group(class, group.as_str()),
            None => false,
        }
    } else {
        same(item, tool)
    }
}

fn check_item(item: &str) -> (r: Result<(), Error>)
    ensures
        match r {
            Ok(_) => item_objection(item@) is None,
            Err(e) => item_objection(item@) matches Some(message) && e@ == ErrorView::Config(
                message,
            ),
        },
{
    let chars = to_chars(item);
    if chars.len() == 0 {
        return Ok(());
    }
    if chars[0] == '@' {
        let group = from_range(&chars, 1, chars.len());
        assert(group@ =~= item@.skip(1));
        if is_known_group(group.as_str()) {
            return Ok(());
        }
        let message = "unknown tool group '@".to_owned().concat(group.as_str()).concat(
            "' in tool filter",
        );
        return Err(Error::Config { message });
    }
    if is_known_tool(item) {
        Ok(())
    } else {
        let message = "unknown tool '".to_owned().concat(item).concat("' in tool filter");
        Err(Error::Config { message })
    }
}

impl CompiledToolFilter {
    /// How the listed tools are meant.
    pub closed spec fn mode(&self) -> ToolFilterMode {
        self.mode
    }

    /// The items, trimmed and in small letters.
    pub closed spec fn items(&self) -> Seq<Seq<char>> {
        views(self.items@)
    }

    /// The filter lets the tool through.
    pub open spec fn lets_through(&self, tool: Seq<char>) -> bool {
        let chosen = exists|i: int|
            0 <= i < self.items().len() && selects(#[trigger] self.items()[i], tool);
        match self.mode() {
            ToolFilterMode::Deny => !chosen,
            ToolFilterMode::Allow => chosen,
        }
    }

    /// Accept a filter whose items all name tools or groups.
    pub fn compile(filter: &ToolFilter) -> (r: Result<CompiledToolFilter, Error>)
        ensures
            match r {
                Ok(compiled) => {
                    &&& filter_objection(views(filter.items@)) is None
                    &&& compiled.mode() == filter.mode
                    &&& compiled.items().len() == filter.items@.len()
                    &&& forall|i: int|
                        0 <= i < filter.items@.len() ==> #[trigger] compiled.items()[i]
                            == normalized(filter.items@[i]@)
                    &&& forall|tool: Seq<char>|
                        compiled.lets_through(tool) == passes(
                            filter.mode,
                            views(filter.items@),
                            tool,
                        )
                },
                Err(e) => filter_objection(views(filter.items@)) matches Some(message) && e@
                    == ErrorView::Config(message),
            },
    {
        let ghost all = views(filter.items@);
        let mut items: Vec<String> = Vec::new();
        let mut i: usize = 0;
        assert(all.skip(0) =~= all);
        while i < filter.items.len()
            invariant
                i <= filter.items@.len(),
                all == views(filter.items@),
                items@.len() == i,
                forall|j: int| 0 <= j < i ==> (#[trigger] items@[j])@ == normalized(all[j]),
                filter_objection(all) == filter_objection(all.skip(i as int)),
            decreases filter.items@.len() - i,
        {
            let item = lower(trim(filter.items[i].as_str()).as_str());
            proof {
                assert(all.skip(i as int)[0] == all[i as int]);
                assert(all.skip(i as int).skip(1) =~= all.skip(i as int + 1));
            }
            match check_item(item.as_str()) {
                Ok(_) => {},
                Err(e) => {
                    return Err(e);
                },
            }
            items.push(item);
            i += 1;
        }
        let compiled = CompiledToolFilter { mode: filter.mode, items };
        proof {
            assert forall|tool: Seq<char>| compiled.lets_through(tool) == passes(
                filter.mode,
                all,
                tool,
            ) by {
                assert forall|j: int| 0 <= j < all.len() implies #[trigger] compiled.items()[j]
                    == normalized(all[j]) by {
                    assert(items@[j]@ == normalized(all[j]));
                }
                if selected(all, tool) {
                    let j = choose|j: int|
                        0 <= j < all.len() && selects(normalized(#[trigger] all[j]), tool);
                    assert(selects(compiled.items()[j], tool));
                }
                if exists|j: int|
                    0 <= j < compiled.items().len() && selects(
                        #[trigger] compiled.items()[j],
                        tool,
                    ) {
                    let j = choose|j: int|
                        0 <= j < compiled.items().len() && selects(
                            #[trigger] compiled.items()[j],
                            tool,
                        );
                    assert(selects(normalized(all[j]), tool));
                }
            }
        }
        Ok(compiled)
    }

    /// The filter that keeps nothing out.
    pub fn none() -> (r: CompiledToolFilter)
        ensures
            r.mode() == ToolFilterMode::Deny,
            r.items().len() == 0,
            forall|tool: Seq<char>| r.lets_through(tool),
    {
        CompiledToolFilter { mode: ToolFilterMode::Deny, items: Vec::new() }
    }

    /// Whether the filter lets the tool through.
    pub fn allows(&self, tool: &str) -> (r: bool)
        ensures
            r == self.lets_through(tool@),
    {
        let mut chosen: bool = false;
        let mut i: usize = 0;
        while i < self.items.len()
            invariant
                i <= self.items@.len(),
                chosen == exists|j: int|
                    0 <= j < i && selects(#[trigger] self.items()[j], tool@),
            decreases self.items@.len() - i,
        {
            let hit = item_selects(self.items[i].as_str(), tool);
            assert(self.items()[i as int] == self.items@[i as int]@);
            if hit {
                chosen = true;
            }
            i += 1;
        }
        match self.mode {
            ToolFilterMode::Deny => !chosen,
            ToolFilterMode::Allow => chosen,
        }
    }
}

/// The parts that are not empty, trimmed.
pub open spec fn filled_parts(parts: Seq<Seq<char>>) -> Seq<Seq<char>>
    decreases parts.len(),
{
    if parts.len() == 0 {
        Seq::empty()
    } else {
        let rest = filled_parts(parts.drop_last());
        if trimmed(parts.last()).len() == 0 {
            rest
        } else {
            rest.push(trimmed(parts.last()))
        }
    }
}

/// The items of a comma-separated list, trimmed; empty ones are dropped.
pub fn parse_tool_filter_items(items: &str) -> (r: Vec<String>)
    ensures
        views(r@) == filled_parts(split_at_char(items@, ',')),
{
    let parts = split(items, ',');
    let ghost all = views(parts@);
    let mut r: Vec<String> = Vec::new();
    let mut i: usize = 0;
    assert(views(r@) =~= filled_parts(all.take(0)));
    while i < parts.len()
        invariant
            i <= parts@.len(),
            all == views(parts@),
            views(r@) == filled_parts(all.take(i as int)),
        decreases parts@.len() - i,
    {
        let item = trim(parts[i].as_str());
        let ghost before = views(r@);
        proof {
            assert(all.take(i as int + 1).drop_last() =~= all.take(i as int));
            assert(all.take(i as int + 1).last() == parts@[i as int]@);
        }
        if !item.as_str().is_empty() {
            r.push(item);
            assert(views(r@) =~= before.push(item@));
        }
        i += 1;
    }
    assert(all.take(all.len() as int) =~= all);
    r
}

/// Position of the first `c` in `s`; the length where there is none.
pub open spec fn first_index(s: Seq<char>, c: char) -> int
    decreases s.len(),
{
    if s.len() == 0 || s[0] == c {
        0
    } else {
        1 + first_index(s.skip(1), c)
    }
}

/// Position of the first `c` in `chars`; the length where there is none.
pub fn find_char(chars: &Vec<char>, c: char) -> (r: usize)
    ensures
        r == first_index(chars@, c),
        r <= chars@.len(),
        r < chars@.len() ==> chars@[r as int] == c,
{
    let mut i: usize = 0;
    assert(chars@.skip(0) =~= chars@);
    while i < chars.len() && chars[i] != c
        invariant
            i <= chars@.len(),
            first_index(chars@, c) == i + first_index(chars@.skip(i as int), c),
        decreases chars@.len() - i,
    {
        assert(chars@.skip(i as int).skip(1) =~= chars@.skip(i as int + 1));
        i += 1;
    }
    i
}

/// What the environment says about tools, read from its trimmed value: the mode before the
/// first colon, if there is one, and the list of items.
pub open spec fn env_mode(value: Seq<char>) -> Option<ToolFilterMode> {
    let colon = first_index(value, ':');
    if colon >= value.len() {
        Some(ToolFilterMode::Deny)
    } else if lowered(value.take(colon)) == "allow"@ {
        Some(ToolFilterMode::Allow)
    } else if lowered(value.take(colon)) == "deny"@ {
        Some(ToolFilterMode::Deny)
    } else {
        None
    }
}

/// The list of items in the trimmed value of the environment.
pub open spec fn env_items(value: Seq<char>) -> Seq<char> {
    let colon = first_index(value, ':');
    if colon >= value.len() {
        value
    } else {
        value.skip(colon + 1)
    }
}

/// The tool filter that the environment asks for: `allow:` or `deny:` and a comma-separated
/// list; a list alone denies. Nothing is asked for by an empty value.
pub fn tool_filter_from_value(value: &str) -> (r: Result<Option<ToolFilter>, Error>)
    ensures
        match r {
            Ok(None) => trimmed(value@).len() == 0,
            Ok(Some(filter)) => {
                &&& trimmed(value@).len() > 0
                &&& env_mode(trimmed(value@)) == Some(filter.mode)
                &&& views(filter.items@) == filled_parts(
                    split_at_char(env_items(trimmed(value@)), ','),
                )
            },
            Err(e) => {
                &&& trimmed(value@).len() > 0
                &&& env_mode(trimmed(value@)) is None
                &&& e@ == ErrorView::Config(
                    "invalid TMUX_MCP_TOOLS mode '"@ + trimmed(value@).take(
                        first_index(trimmed(value@), ':'),
                    ) + "', expected 'allow:' or 'deny:'"@,
                )
            },
        },
{
    let text = trim(value);
    if text.as_str().is_empty() {
        return Ok(None);
    }
    let chars = to_chars(text.as_str());
    let colon: usize = find_char(&chars, ':');
    if colon == chars.len() {
        return Ok(
            Some(
                ToolFilter {
                    mode: ToolFilterMode::Deny,
                    items: parse_tool_filter_items(text.as_str()),
                },
            ),
        );
    }
    let name = from_range(&chars, 0, colon);
    let items = from_range(&chars, colon + 1, chars.len());
    proof {
        assert(name@ =~= text@.take(colon as int));
        assert(items@ =~= text@.skip(colon as int + 1));
    }
    let folded = lower(name.as_str());
    if same(folded.as_str(), "allow") {
        Ok(
            Some(
                ToolFilter {
                    mode: ToolFilterMode::Allow,
                    items: parse_tool_filter_items(items.as_str()),
                },
            ),
        )
    } else if same(folded.as_str(), "deny") {
        Ok(
            Some(
                ToolFilter {
                    mode: ToolFilterMode::Deny,
                    items: parse_tool_filter_items(items.as_str()),
                },
            ),
        )
    } else {
        let message = "invalid TMUX_MCP_TOOLS mode '".to_owned().concat(name.as_str()).concat(
            "', expected 'allow:' or 'deny:'",
        );
        Err(Error::Config { message })
    }
}

/// The two modes are opposites: a tool passes one exactly when it does not pass the other.
pub proof fn modes_are_opposites(items: Seq<Seq<char>>, tool: Seq<char>)
    ensures
        passes(ToolFilterMode::Allow, items, tool) != passes(ToolFilterMode::Deny, items, tool),
{
}

/// A filter without items denies nothing, and allows nothing.
pub proof fn empty_filter(tool: Seq<char>)
    ensures
        passes(ToolFilterMode::Deny, Seq::empty(), tool),
        !passes(ToolFilterMode::Allow, Seq::empty(), tool),
{
}

/// Every group that a filter can name holds some class of tools, and no other group does; `all`
/// holds every tool.
pub proof fn groups_hold_tools(group: Seq<char>)
    ensures
        known_group(group) <==> group == "all"@ || exists|class: ToolClass| in_group(class, group),
{
    assert(group == "agent-core"@ ==> in_group(ToolClass::Overview, group));
    assert(group == "read"@ ==> in_group(ToolClass::Socket, group));
    assert(group == "file-read"@ ==> in_group(ToolClass::FileRead, group));
    assert(group == "git-read"@ ==> in_group(ToolClass::GitRead, group));
    assert(group == "buffer-read"@ ==> in_group(ToolClass::ListBuffers, group));
    assert(group == "buffer-write"@ ==> in_group(ToolClass::BufferWrite, group));
    assert(group == "list"@ ==> in_group(ToolClass::Overview, group));
    assert(group == "capture"@ ==> in_group(ToolClass::Capture, group));
    assert(group == "create"@ ==> in_group(ToolClass::Create, group));
    assert(group == "split"@ ==> in_group(ToolClass::Split, group));
    assert(group == "kill"@ ==> in_group(ToolClass::KillTarget, group));
    assert(group == "execute"@ ==> in_group(ToolClass::Execute, group));
    assert(group == "gpu-monitor"@ ==> in_group(ToolClass::GpuWatch, group));
    assert(group == "rename"@ ==> in_group(ToolClass::RenameTarget, group));
    assert(group == "move"@ ==> in_group(ToolClass::Move, group));
    assert(group == "interactive"@ ==> in_group(ToolClass::Typing, group));
    assert(group == "special-keys"@ ==> in_group(ToolClass::SpecialKey, group));
    assert(group == "raw-input"@ ==> in_group(ToolClass::Typing, group));
    assert(group == "socket"@ ==> in_group(ToolClass::Socket, group));
}

/// `@agent-core` selects exactly the tools that an agent has from the start.
pub proof fn core_group_is_exact(tool: Seq<char>)
    ensures
        selects("@agent-core"@, tool) <==> is_core_tool(tool),
{
    reveal_strlit("@agent-core");
    reveal_strlit("agent-core");
    reveal_strlit("all");
    assert("agent-core"@.len() != "all"@.len());
    assert("@agent-core"@.skip(1) =~= "agent-core"@);
    lemma_core_tools(tool);
    if class_of(tool) is Some {
        lemma_core_classes(class_of(tool)->0);
    }
}

/// The classes that an agent has from the start.
spec fn is_core_class(class: ToolClass) -> bool {
    match class {
        ToolClass::Overview => true,
        ToolClass::Capture => true,
        ToolClass::FileRead => true,
        ToolClass::GitRead => true,
        ToolClass::Create => true,
        ToolClass::Split => true,
        ToolClass::Execute => true,
        ToolClass::CommandResult => true,
        ToolClass::GpuWatch => true,
        ToolClass::GpuSnapshot => true,
        ToolClass::Typing => true,
        ToolClass::SpecialKey => true,
        _ => false,
    }
}

proof fn lemma_core_classes(class: ToolClass)
    ensures
        in_group(class, "agent-core"@) == is_core_class(class),
{
    reveal_strlit("agent-core");
    assert("agent-core"@.len() == 10);
    reveal_strlit("read");
    assert("read"@.len() == 4);
    reveal_strlit("file-read");
    assert("file-read"@.len() == 9);
    reveal_strlit("git-read");
    assert("git-read"@.len() == 8);
    reveal_strlit("buffer-read");
    assert("buffer-read"@.len() == 11);
    reveal_strlit("buffer-write");
    assert("buffer-write"@.len() == 12);
    reveal_strlit("list");
    assert("list"@.len() == 4);
    reveal_strlit("capture");
    assert("capture"@.len() == 7);
    reveal_strlit("create");
    assert("create"@.len() == 6);
    reveal_strlit("split");
    assert("split"@.len() == 5);
    reveal_strlit("kill");
    assert("kill"@.len() == 4);
    reveal_strlit("execute");
    assert("execute"@.len() == 7);
    reveal_strlit("gpu-monitor");
    assert("gpu-monitor"@.len() == 11);
    reveal_strlit("rename");
    assert("rename"@.len() == 6);
    reveal_strlit("move");
    assert("move"@.len() == 4);
    reveal_strlit("interactive");
    assert("interactive"@.len() == 11);
    reveal_strlit("special-keys");
    assert("special-keys"@.len() == 12);
    reveal_strlit("raw-input");
    assert("raw-input"@.len() == 9);
    reveal_strlit("socket");
    assert("socket"@.len() == 6);
    reveal_strlit("all");
    assert("all"@.len() == 3);
}

proof fn lemma_core_tools(tool: Seq<char>)
    ensures
        is_core_tool(tool) <==> (class_of(tool) matches Some(class) && is_core_class(class)),
{
    reveal_strlit("socket-for-path");
    assert("socket-for-path"@.len() == 15);
    reveal_strlit("get-tmux-state");
    assert("get-tmux-state"@.len() == 14);
    reveal_strlit("list-targets");
    assert("list-targets"@.len() == 12);
    reveal_strlit("list-sessions");
    assert("list-sessions"@.len() == 13);
    reveal_strlit("find-session");
    assert("find-session"@.len() == 12);
    reveal_strlit("list-windows");
    assert("list-windows"@.len() == 12);
    reveal_strlit("list-panes");
    assert("list-panes"@.len() == 10);
    reveal_strlit("list-clients");
    assert("list-clients"@.len() == 12);
    reveal_strlit("get-current-session");
    assert("get-current-session"@.len() == 19);
    reveal_strlit("list-buffers");
    assert("list-buffers"@.len() == 12);
    reveal_strlit("capture-pane");
    assert("capture-pane"@.len() == 12);
    reveal_strlit("list-directory");
    assert("list-directory"@.len() == 14);
    reveal_strlit("read-file");
    assert("read-file"@.len() == 9);
    reveal_strlit("find-files");
    assert("find-files"@.len() == 10);
    reveal_strlit("search-text");
    assert("search-text"@.len() == 11);
    reveal_strlit("file-stat");
    assert("file-stat"@.len() == 9);
    reveal_strlit("git-status");
    assert("git-status"@.len() == 10);
    reveal_strlit("git-diff");
    assert("git-diff"@.len() == 8);
    reveal_strlit("git-log");
    assert("git-log"@.len() == 7);
    reveal_strlit("git-show");
    assert("git-show"@.len() == 8);
    reveal_strlit("show-buffer");
    assert("show-buffer"@.len() == 11);
    reveal_strlit("search-buffer");
    assert("search-buffer"@.len() == 13);
    reveal_strlit("subsearch-buffer");
    assert("subsearch-buffer"@.len() == 16);
    reveal_strlit("save-buffer");
    assert("save-buffer"@.len() == 11);
    reveal_strlit("load-buffer");
    assert("load-buffer"@.len() == 11);
    reveal_strlit("delete-buffer");
    assert("delete-buffer"@.len() == 13);
    reveal_strlit("set-buffer");
    assert("set-buffer"@.len() == 10);
    reveal_strlit("append-buffer");
    assert("append-buffer"@.len() == 13);
    reveal_strlit("rename-buffer");
    assert("rename-buffer"@.len() == 13);
    reveal_strlit("create-session");
    assert("create-session"@.len() == 14);
    reveal_strlit("create-window");
    assert("create-window"@.len() == 13);
    reveal_strlit("split-pane");
    assert("split-pane"@.len() == 10);
    reveal_strlit("kill-target");
    assert("kill-target"@.len() == 11);
    reveal_strlit("kill-session");
    assert("kill-session"@.len() == 12);
    reveal_strlit("kill-window");
    assert("kill-window"@.len() == 11);
    reveal_strlit("kill-pane");
    assert("kill-pane"@.len() == 9);
    reveal_strlit("detach-client");
    assert("detach-client"@.len() == 13);
    reveal_strlit("execute-command");
    assert("execute-command"@.len() == 15);
    reveal_strlit("get-command-result");
    assert("get-command-result"@.len() == 18);
    reveal_strlit("watch-gpu-idle");
    assert("watch-gpu-idle"@.len() == 14);
    reveal_strlit("get-gpu-watch");
    assert("get-gpu-watch"@.len() == 13);
    reveal_strlit("stop-gpu-watch");
    assert("stop-gpu-watch"@.len() == 14);
    reveal_strlit("gpu-snapshot");
    assert("gpu-snapshot"@.len() == 12);
    reveal_strlit("rename-target");
    assert("rename-target"@.len() == 13);
    reveal_strlit("rename-session");
    assert("rename-session"@.len() == 14);
    reveal_strlit("rename-window");
    assert("rename-window"@.len() == 13);
    reveal_strlit("rename-pane");
    assert("rename-pane"@.len() == 11);
    reveal_strlit("move-window");
    assert("move-window"@.len() == 11);
    reveal_strlit("select-window");
    assert("select-window"@.len() == 13);
    reveal_strlit("select-pane");
    assert("select-pane"@.len() == 11);
    reveal_strlit("resize-pane");
    assert("resize-pane"@.len() == 11);
    reveal_strlit("zoom-pane");
    assert("zoom-pane"@.len() == 9);
    reveal_strlit("select-layout");
    assert("select-layout"@.len() == 13);
    reveal_strlit("join-pane");
    assert("join-pane"@.len() == 9);
    reveal_strlit("break-pane");
    assert("break-pane"@.len() == 10);
    reveal_strlit("swap-pane");
    assert("swap-pane"@.len() == 9);
    reveal_strlit("set-synchronize-panes");
    assert("set-synchronize-panes"@.len() == 21);
    reveal_strlit("send-keys");
    assert("send-keys"@.len() == 9);
    reveal_strlit("paste-text");
    assert("paste-text"@.len() == 10);
    reveal_strlit("send-hex");
    assert("send-hex"@.len() == 8);
    reveal_strlit("press-special-key");
    assert("press-special-key"@.len() == 17);
    assert("capture-pane"@[0] != "list-targets"@[0]);
    assert("capture-pane"@[0] != "find-session"@[0]);
    assert("capture-pane"@[0] != "list-windows"@[0]);
    assert("capture-pane"@[0] != "list-clients"@[0]);
    assert("capture-pane"@[0] != "list-buffers"@[0]);
    assert("list-directory"@[0] != "get-tmux-state"@[0]);
    assert("find-files"@[0] != "list-panes"@[0]);
    assert("git-status"@[0] != "list-panes"@[0]);
    assert("git-status"@[0] != "find-files"@[0]);
    assert("create-session"@[0] != "get-tmux-state"@[0]);
    assert("create-session"@[0] != "list-directory"@[0]);
    assert("create-window"@[0] != "list-sessions"@[0]);
    assert("create-window"@[0] != "search-buffer"@[0]);
    assert("create-window"@[0] != "delete-buffer"@[0]);
    assert("create-window"@[0] != "append-buffer"@[0]);
    assert("create-window"@[0] != "rename-buffer"@[0]);
    assert("split-pane"@[0] != "list-panes"@[0]);
    assert("split-pane"@[0] != "find-files"@[0]);
    assert("split-pane"@[0] != "git-status"@[0]);
    assert("split-pane"@[1] != "set-buffer"@[1]);
    assert("execute-command"@[0] != "socket-for-path"@[0]);
    assert("watch-gpu-idle"@[0] != "get-tmux-state"@[0]);
    assert("watch-gpu-idle"@[0] != "list-directory"@[0]);
    assert("watch-gpu-idle"@[0] != "create-session"@[0]);
    assert("get-gpu-watch"@[0] != "list-sessions"@[0]);
    assert("get-gpu-watch"@[0] != "search-buffer"@[0]);
    assert("get-gpu-watch"@[0] != "delete-buffer"@[0]);
    assert("get-gpu-watch"@[0] != "append-buffer"@[0]);
    assert("get-gpu-watch"@[0] != "rename-buffer"@[0]);
    assert("get-gpu-watch"@[0] != "create-window"@[0]);
    assert("get-gpu-watch"@[0] != "detach-client"@[0]);
    assert("stop-gpu-watch"@[0] != "get-tmux-state"@[0]);
    assert("stop-gpu-watch"@[0] != "list-directory"@[0]);
    assert("stop-gpu-watch"@[0] != "create-session"@[0]);
    assert("gpu-snapshot"@[0] != "list-targets"@[0]);
    assert("gpu-snapshot"@[0] != "find-session"@[0]);
    assert("gpu-snapshot"@[0] != "list-windows"@[0]);
    assert("gpu-snapshot"@[0] != "list-clients"@[0]);
    assert("gpu-snapshot"@[0] != "list-buffers"@[0]);
    assert("gpu-snapshot"@[0] != "capture-pane"@[0]);
    assert("gpu-snapshot"@[0] != "kill-session"@[0]);
    assert("send-keys"@[0] != "read-file"@[0]);
    assert("send-keys"@[0] != "file-stat"@[0]);
    assert("send-keys"@[0] != "kill-pane"@[0]);
    assert("send-keys"@[0] != "zoom-pane"@[0]);
    assert("send-keys"@[0] != "join-pane"@[0]);
    assert("send-keys"@[1] != "swap-pane"@[1]);
    assert("paste-text"@[0] != "list-panes"@[0]);
    assert("paste-text"@[0] != "find-files"@[0]);
    assert("paste-text"@[0] != "git-status"@[0]);
    assert("paste-text"@[0] != "set-buffer"@[0]);
    assert("paste-text"@[0] != "split-pane"@[0]);
    assert("paste-text"@[0] != "break-pane"@[0]);
    assert(class_of("get-tmux-state"@) == Some(ToolClass::Overview));
    assert(class_of("list-targets"@) == Some(ToolClass::Overview));
    assert(class_of("capture-pane"@) == Some(ToolClass::Capture));
    assert(class_of("list-directory"@) == Some(ToolClass::FileRead));
    assert(class_of("read-file"@) == Some(ToolClass::FileRead));
    assert(class_of("find-files"@) == Some(ToolClass::FileRead));
    assert(class_of("search-text"@) == Some(ToolClass::FileRead));
    assert(class_of("file-stat"@) == Some(ToolClass::FileRead));
    assert(class_of("git-status"@) == Some(ToolClass::GitRead));
    assert(class_of("git-diff"@) == Some(ToolClass::GitRead));
    assert(class_of("git-log"@) == Some(ToolClass::GitRead));
    assert(class_of("git-show"@) == Some(ToolClass::GitRead));
    assert(class_of("create-session"@) == Some(ToolClass::Create));
    assert(class_of("create-window"@) == Some(ToolClass::Create));
    assert(class_of("split-pane"@) == Some(ToolClass::Split));
    assert(class_of("execute-command"@) == Some(ToolClass::Execute));
    assert(class_of("get-command-result"@) == Some(ToolClass::CommandResult));
    assert(class_of("watch-gpu-idle"@) == Some(ToolClass::GpuWatch));
    assert(class_of("get-gpu-watch"@) == Some(ToolClass::GpuWatch));
    assert(class_of("stop-gpu-watch"@) == Some(ToolClass::GpuWatch));
    assert(class_of("gpu-snapshot"@) == Some(ToolClass::GpuSnapshot));
    assert(class_of("send-keys"@) == Some(ToolClass::Typing));
    assert(class_of("paste-text"@) == Some(ToolClass::Typing));
    assert(class_of("press-special-key"@) == Some(ToolClass::SpecialKey));
}

} // verus!
