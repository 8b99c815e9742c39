//! What the policy over tools promises: every switch and every group by the names of its tools.

use crate::security::SecurityConfig;
use crate::text::views;
use crate::tools::{class_of, passes, selects, ToolClass};
use vstd::prelude::*;

verus! {

/// Running commands and asking what became of them.
pub open spec fn needs_execute_command(tool: Seq<char>) -> bool {
    tool == "execute-command"@ || tool == "get-command-result"@
}

/// Keys of every sort.
pub open spec fn needs_send_keys(tool: Seq<char>) -> bool {
    tool == "send-keys"@ || tool == "send-hex"@ || tool == "paste-text"@
        || tool == "send-cancel"@ || tool == "send-eof"@ || tool == "send-escape"@
        || tool == "send-enter"@ || tool == "send-tab"@ || tool == "send-backspace"@
        || tool == "send-up"@ || tool == "send-down"@ || tool == "send-left"@
        || tool == "send-right"@ || tool == "send-page-up"@ || tool == "send-page-down"@
        || tool == "send-home"@ || tool == "send-end"@
}

/// Ending what runs.
pub open spec fn needs_kill(tool: Seq<char>) -> bool {
    tool == "kill-session"@ || tool == "kill-window"@ || tool == "kill-pane"@
        || tool == "detach-client"@
}

/// New sessions and windows.
pub open spec fn needs_create(tool: Seq<char>) -> bool {
    tool == "create-session"@ || tool == "create-window"@
}

/// New panes.
pub open spec fn needs_split(tool: Seq<char>) -> bool {
    tool == "split-pane"@
}

/// Names.
pub open spec fn needs_rename(tool: Seq<char>) -> bool {
    tool == "rename-session"@ || tool == "rename-window"@ || tool == "rename-pane"@
}

/// Navigation and layout.
pub open spec fn needs_move(tool: Seq<char>) -> bool {
    tool == "move-window"@ || tool == "select-window"@ || tool == "select-pane"@
        || tool == "resize-pane"@ || tool == "zoom-pane"@ || tool == "select-layout"@
        || tool == "join-pane"@ || tool == "break-pane"@ || tool == "swap-pane"@
        || tool == "set-synchronize-panes"@
}

/// What panes and paste buffers hold.
pub open spec fn needs_capture(tool: Seq<char>) -> bool {
    tool == "capture-pane"@ || tool == "show-buffer"@ || tool == "save-buffer"@
        || tool == "load-buffer"@ || tool == "delete-buffer"@ || tool == "set-buffer"@
        || tool == "append-buffer"@ || tool == "rename-buffer"@ || tool == "search-buffer"@
        || tool == "subsearch-buffer"@
}

/// The topology.
pub open spec fn needs_list(tool: Seq<char>) -> bool {
    tool == "socket-for-path"@ || tool == "list-sessions"@ || tool == "list-windows"@
        || tool == "list-panes"@ || tool == "find-session"@
        || tool == "get-current-session"@ || tool == "list-clients"@
        || tool == "list-buffers"@
}

/// A switch of the policy that is off keeps the tool out.
pub open spec fn switched_off(config: SecurityConfig, tool: Seq<char>) -> bool {
    ||| needs_execute_command(tool) && !config.allow_execute_command
    ||| needs_send_keys(tool) && !config.allow_send_keys
    ||| needs_kill(tool) && !config.allow_kill
    ||| needs_create(tool) && !config.allow_create
    ||| needs_split(tool) && !config.allow_split
    ||| needs_rename(tool) && !config.allow_rename
    ||| needs_move(tool) && !config.allow_move
    ||| needs_capture(tool) && !config.allow_capture
    ||| needs_list(tool) && !config.allow_list
}

/// Every switch of the policy keeps out its own tools, by name, and no others: in an enabled
/// policy a tool is denied by it exactly where its switch is off.
pub proof fn switches_keep_out_their_tools(config: SecurityConfig, tool: Seq<char>)
    requires
        config.enabled,
    ensures
        switched_off(config, tool) ==> config.tool_denial(tool) == Some(
            "tool '"@ + tool + "' is not allowed by security policy"@,
        ),
        !switched_off(config, tool) ==> (config.tool_denial(tool) is None <==> passes(
            config.tools.mode,
            views(config.tools.items@),
            tool,
        )),
        !switched_off(config, tool) && config.tool_denial(tool) is Some ==> config.tool_denial(tool)
            == Some("tool '"@ + tool + "' is not allowed by configured tool filter"@),
{
    lemma_names();
}

/// `@read` selects exactly the tools that it is documented to hold.
pub proof fn group_read_is_exact(tool: Seq<char>)
    ensures
        selects("@read"@, tool) <==> (tool == "socket-for-path"@ || tool == "get-tmux-state"@ || tool == "list-targets"@
            || tool == "list-sessions"@ || tool == "find-session"@
            || tool == "list-windows"@ || tool == "list-panes"@ || tool == "list-clients"@
            || tool == "get-current-session"@ || tool == "list-buffers"@
            || tool == "capture-pane"@ || tool == "list-directory"@ || tool == "read-file"@
            || tool == "find-files"@ || tool == "search-text"@ || tool == "file-stat"@
            || tool == "git-status"@ || tool == "git-diff"@ || tool == "git-log"@
            || tool == "git-show"@ || tool == "show-buffer"@ || tool == "search-buffer"@
            || tool == "subsearch-buffer"@ || tool == "get-command-result"@
            || tool == "gpu-snapshot"@),
{
    lemma_group_names();
    lemma_names();
}

/// `@file-read` selects exactly the tools that it is documented to hold.
pub proof fn group_file_read_is_exact(tool: Seq<char>)
    ensures
        selects("@file-read"@, tool) <==> (tool == "list-directory"@ || tool == "read-file"@ || tool == "find-files"@
            || tool == "search-text"@ || tool == "file-stat"@),
{
    lemma_group_names();
    lemma_names();
}

/// `@git-read` selects exactly the tools that it is documented to hold.
pub proof fn group_git_read_is_exact(tool: Seq<char>)
    ensures
        selects("@git-read"@, tool) <==> (tool == "git-status"@ || tool == "git-diff"@ || tool == "git-log"@ || tool == "git-show"@),
{
    lemma_group_names();
    lemma_names();
}

/// `@buffer-read` selects exactly the tools that it is documented to hold.
pub proof fn group_buffer_read_is_exact(tool: Seq<char>)
    ensures
        selects("@buffer-read"@, tool) <==> (tool == "list-buffers"@ || tool == "show-buffer"@ || tool == "search-buffer"@
            || tool == "subsearch-buffer"@),
{
    lemma_group_names();
    lemma_names();
}

/// `@buffer-write` selects exactly the tools that it is documented to hold.
pub proof fn group_buffer_write_is_exact(tool: Seq<char>)
    ensures
        selects("@buffer-write"@, tool) <==> (tool == "save-buffer"@ || tool == "load-buffer"@ || tool == "delete-buffer"@
            || tool == "set-buffer"@ || tool == "append-buffer"@ || tool == "rename-buffer"@),
{
    lemma_group_names();
    lemma_names();
}

/// `@list` selects exactly the tools that it is documented to hold.
pub proof fn group_list_is_exact(tool: Seq<char>)
    ensures
        selects("@list"@, tool) <==> (tool == "get-tmux-state"@ || tool == "list-targets"@ || tool == "list-sessions"@
            || tool == "find-session"@ || tool == "list-windows"@ || tool == "list-panes"@
            || tool == "list-clients"@ || tool == "get-current-session"@
            || tool == "list-buffers"@),
{
    lemma_group_names();
    lemma_names();
}

/// `@capture` selects exactly the tools that it is documented to hold.
pub proof fn group_capture_is_exact(tool: Seq<char>)
    ensures
        selects("@capture"@, tool) <==> (tool == "capture-pane"@),
{
    lemma_group_names();
    lemma_names();
}

/// `@create` selects exactly the tools that it is documented to hold.
pub proof fn group_create_is_exact(tool: Seq<char>)
    ensures
        selects("@create"@, tool) <==> (tool == "create-session"@ || tool == "create-window"@),
{
    lemma_group_names();
    lemma_names();
}

/// `@split` selects exactly the tools that it is documented to hold.
pub proof fn group_split_is_exact(tool: Seq<char>)
    ensures
        selects("@split"@, tool) <==> (tool == "split-pane"@),
{
    lemma_group_names();
    lemma_names();
}

/// `@kill` selects exactly the tools that it is documented to hold.
pub proof fn group_kill_is_exact(tool: Seq<char>)
    ensures
        selects("@kill"@, tool) <==> (tool == "kill-target"@ || tool == "kill-session"@ || tool == "kill-window"@
            || tool == "kill-pane"@ || tool == "detach-client"@),
{
    lemma_group_names();
    lemma_names();
}

/// `@execute` selects exactly the tools that it is documented to hold.
pub proof fn group_execute_is_exact(tool: Seq<char>)
    ensures
        selects("@execute"@, tool) <==> (tool == "execute-command"@ || tool == "get-command-result"@),
{
    lemma_group_names();
    lemma_names();
}

/// `@gpu-monitor` selects exactly the tools that it is documented to hold.
pub proof fn group_gpu_monitor_is_exact(tool: Seq<char>)
    ensures
        selects("@gpu-monitor"@, tool) <==> (tool == "watch-gpu-idle"@ || tool == "get-gpu-watch"@ || tool == "stop-gpu-watch"@
            || tool == "gpu-snapshot"@),
{
    lemma_group_names();
    lemma_names();
}

/// `@rename` selects exactly the tools that it is documented to hold.
pub proof fn group_rename_is_exact(tool: Seq<char>)
    ensures
        selects("@rename"@, tool) <==> (tool == "rename-target"@ || tool == "rename-session"@ || tool == "rename-window"@
            || tool == "rename-pane"@),
{
    lemma_group_names();
    lemma_names();
}

/// `@move` selects exactly the tools that it is documented to hold.
pub proof fn group_move_is_exact(tool: Seq<char>)
    ensures
        selects("@move"@, tool) <==> (tool == "move-window"@ || tool == "select-window"@ || tool == "select-pane"@
            || tool == "resize-pane"@ || tool == "zoom-pane"@ || tool == "select-layout"@
            || tool == "join-pane"@ || tool == "break-pane"@ || tool == "swap-pane"@
            || tool == "set-synchronize-panes"@),
{
    lemma_group_names();
    lemma_names();
}

/// `@interactive` selects exactly the tools that it is documented to hold.
pub proof fn group_interactive_is_exact(tool: Seq<char>)
    ensures
        selects("@interactive"@, tool) <==> (tool == "send-keys"@ || tool == "paste-text"@ || tool == "send-hex"@),
{
    lemma_group_names();
    lemma_names();
}

/// `@special-keys` selects exactly the tools that it is documented to hold.
pub proof fn group_special_keys_is_exact(tool: Seq<char>)
    ensures
        selects("@special-keys"@, tool) <==> (tool == "press-special-key"@ || tool == "send-cancel"@ || tool == "send-eof"@
            || tool == "send-escape"@ || tool == "send-enter"@ || tool == "send-tab"@
            || tool == "send-backspace"@ || tool == "send-up"@ || tool == "send-down"@
            || tool == "send-left"@ || tool == "send-right"@ || tool == "send-page-up"@
            || tool == "send-page-down"@ || tool == "send-home"@ || tool == "send-end"@),
{
    lemma_group_names();
    lemma_names();
}

/// `@raw-input` selects exactly the tools that it is documented to hold.
pub proof fn group_raw_input_is_exact(tool: Seq<char>)
    ensures
        selects("@raw-input"@, tool) <==> (tool == "send-keys"@ || tool == "paste-text"@ || tool == "send-hex"@
            || tool == "press-special-key"@ || tool == "send-cancel"@ || tool == "send-eof"@
            || tool == "send-escape"@ || tool == "send-enter"@ || tool == "send-tab"@
            || tool == "send-backspace"@ || tool == "send-up"@ || tool == "send-down"@
            || tool == "send-left"@ || tool == "send-right"@ || tool == "send-page-up"@
            || tool == "send-page-down"@ || tool == "send-home"@ || tool == "send-end"@),
{
    lemma_group_names();
    lemma_names();
}

/// `@socket` selects exactly the tools that it is documented to hold.
pub proof fn group_socket_is_exact(tool: Seq<char>)
    ensures
        selects("@socket"@, tool) <==> (tool == "socket-for-path"@),
{
    lemma_group_names();
    lemma_names();
}

/// `@all` selects every tool that there is, and no other name.
pub proof fn group_all_is_exact(tool: Seq<char>)
    ensures
        selects("@all"@, tool) <==> class_of(tool) is Some,
{
    lemma_group_names();
}

proof fn lemma_group_names()
    ensures
        "@agent-core"@.len() == 11 && "@agent-core"@[0] == '@' && "@agent-core"@.skip(1) == "agent-core"@,
        "@read"@.len() == 5 && "@read"@[0] == '@' && "@read"@.skip(1) == "read"@,
        "@file-read"@.len() == 10 && "@file-read"@[0] == '@' && "@file-read"@.skip(1) == "file-read"@,
        "@git-read"@.len() == 9 && "@git-read"@[0] == '@' && "@git-read"@.skip(1) == "git-read"@,
        "@buffer-read"@.len() == 12 && "@buffer-read"@[0] == '@' && "@buffer-read"@.skip(1) == "buffer-read"@,
        "@buffer-write"@.len() == 13 && "@buffer-write"@[0] == '@' && "@buffer-write"@.skip(1) == "buffer-write"@,
        "@list"@.len() == 5 && "@list"@[0] == '@' && "@list"@.skip(1) == "list"@,
        "@capture"@.len() == 8 && "@capture"@[0] == '@' && "@capture"@.skip(1) == "capture"@,
        "@create"@.len() == 7 && "@create"@[0] == '@' && "@create"@.skip(1) == "create"@,
        "@split"@.len() == 6 && "@split"@[0] == '@' && "@split"@.skip(1) == "split"@,
        "@kill"@.len() == 5 && "@kill"@[0] == '@' && "@kill"@.skip(1) == "kill"@,
        "@execute"@.len() == 8 && "@execute"@[0] == '@' && "@execute"@.skip(1) == "execute"@,
        "@gpu-monitor"@.len() == 12 && "@gpu-monitor"@[0] == '@' && "@gpu-monitor"@.skip(1) == "gpu-monitor"@,
        "@rename"@.len() == 7 && "@rename"@[0] == '@' && "@rename"@.skip(1) == "rename"@,
        "@move"@.len() == 5 && "@move"@[0] == '@' && "@move"@.skip(1) == "move"@,
        "@interactive"@.len() == 12 && "@interactive"@[0] == '@' && "@interactive"@.skip(1) == "interactive"@,
        "@special-keys"@.len() == 13 && "@special-keys"@[0] == '@' && "@special-keys"@.skip(1) == "special-keys"@,
        "@raw-input"@.len() == 10 && "@raw-input"@[0] == '@' && "@raw-input"@.skip(1) == "raw-input"@,
        "@socket"@.len() == 7 && "@socket"@[0] == '@' && "@socket"@.skip(1) == "socket"@,
        "@all"@.len() == 4 && "@all"@[0] == '@' && "@all"@.skip(1) == "all"@,
        "agent-core"@.len() == 10,
        "read"@.len() == 4,
        "file-read"@.len() == 9,
        "git-read"@.len() == 8,
        "buffer-read"@.len() == 11,
        "buffer-write"@.len() == 12,
        "list"@.len() == 4,
        "capture"@.len() == 7,
        "create"@.len() == 6,
        "split"@.len() == 5,
        "kill"@.len() == 4,
        "execute"@.len() == 7,
        "gpu-monitor"@.len() == 11,
        "rename"@.len() == 6,
        "move"@.len() == 4,
        "interactive"@.len() == 11,
        "special-keys"@.len() == 12,
        "raw-input"@.len() == 9,
        "socket"@.len() == 6,
        "all"@.len() == 3,
        "read"@ != "list"@,
        "read"@ != "kill"@,
        "read"@ != "move"@,
        "file-read"@ != "raw-input"@,
        "buffer-read"@ != "gpu-monitor"@,
        "buffer-read"@ != "interactive"@,
        "buffer-write"@ != "special-keys"@,
        "list"@ != "kill"@,
        "list"@ != "move"@,
        "capture"@ != "execute"@,
        "create"@ != "rename"@,
        "create"@ != "socket"@,
        "kill"@ != "move"@,
        "gpu-monitor"@ != "interactive"@,
        "rename"@ != "socket"@,

{
    reveal_strlit("@agent-core");
    reveal_strlit("agent-core");
    assert("agent-core"@.len() == 10);
    assert("@agent-core"@.skip(1) =~= "agent-core"@);
    assert("@agent-core"@[0] == '@');
    reveal_strlit("@read");
    reveal_strlit("read");
    assert("read"@.len() == 4);
    assert("@read"@.skip(1) =~= "read"@);
    assert("@read"@[0] == '@');
    reveal_strlit("@file-read");
    reveal_strlit("file-read");
    assert("file-read"@.len() == 9);
    assert("@file-read"@.skip(1) =~= "file-read"@);
    assert("@file-read"@[0] == '@');
    reveal_strlit("@git-read");
    reveal_strlit("git-read");
    assert("git-read"@.len() == 8);
    assert("@git-read"@.skip(1) =~= "git-read"@);
    assert("@git-read"@[0] == '@');
    reveal_strlit("@buffer-read");
    reveal_strlit("buffer-read");
    assert("buffer-read"@.len() == 11);
    assert("@buffer-read"@.skip(1) =~= "buffer-read"@);
    assert("@buffer-read"@[0] == '@');
    reveal_strlit("@buffer-write");
    reveal_strlit("buffer-write");
    assert("buffer-write"@.len() == 12);
    assert("@buffer-write"@.skip(1) =~= "buffer-write"@);
    assert("@buffer-write"@[0] == '@');
    reveal_strlit("@list");
    reveal_strlit("list");
    assert("list"@.len() == 4);
    assert("@list"@.skip(1) =~= "list"@);
    assert("@list"@[0] == '@');
    reveal_strlit("@capture");
    reveal_strlit("capture");
    assert("capture"@.len() == 7);
    assert("@capture"@.skip(1) =~= "capture"@);
    assert("@capture"@[0] == '@');
    reveal_strlit("@create");
    reveal_strlit("create");
    assert("create"@.len() == 6);
    assert("@create"@.skip(1) =~= "create"@);
    assert("@create"@[0] == '@');
    reveal_strlit("@split");
    reveal_strlit("split");
    assert("split"@.len() == 5);
    assert("@split"@.skip(1) =~= "split"@);
    assert("@split"@[0] == '@');
    reveal_strlit("@kill");
    reveal_strlit("kill");
    assert("kill"@.len() == 4);
    assert("@kill"@.skip(1) =~= "kill"@);
    assert("@kill"@[0] == '@');
    reveal_strlit("@execute");
    reveal_strlit("execute");
    assert("execute"@.len() == 7);
    assert("@execute"@.skip(1) =~= "execute"@);
    assert("@execute"@[0] == '@');
    reveal_strlit("@gpu-monitor");
    reveal_strlit("gpu-monitor");
    assert("gpu-monitor"@.len() == 11);
    assert("@gpu-monitor"@.skip(1) =~= "gpu-monitor"@);
    assert("@gpu-monitor"@[0] == '@');
    reveal_strlit("@rename");
    reveal_strlit("rename");
    assert("rename"@.len() == 6);
    assert("@rename"@.skip(1) =~= "rename"@);
    assert("@rename"@[0] == '@');
    reveal_strlit("@move");
    reveal_strlit("move");
    assert("move"@.len() == 4);
    assert("@move"@.skip(1) =~= "move"@);
    assert("@move"@[0] == '@');
    reveal_strlit("@interactive");
    reveal_strlit("interactive");
    assert("interactive"@.len() == 11);
    assert("@interactive"@.skip(1) =~= "interactive"@);
    assert("@interactive"@[0] == '@');
    reveal_strlit("@special-keys");
    reveal_strlit("special-keys");
    assert("special-keys"@.len() == 12);
    assert("@special-keys"@.skip(1) =~= "special-keys"@);
    assert("@special-keys"@[0] == '@');
    reveal_strlit("@raw-input");
    reveal_strlit("raw-input");
    assert("raw-input"@.len() == 9);
    assert("@raw-input"@.skip(1) =~= "raw-input"@);
    assert("@raw-input"@[0] == '@');
    reveal_strlit("@socket");
    reveal_strlit("socket");
    assert("socket"@.len() == 6);
    assert("@socket"@.skip(1) =~= "socket"@);
    assert("@socket"@[0] == '@');
    reveal_strlit("@all");
    reveal_strlit("all");
    assert("all"@.len() == 3);
    assert("@all"@.skip(1) =~= "all"@);
    assert("@all"@[0] == '@');
    assert("read"@[0] != "list"@[0]);
    assert("read"@[0] != "kill"@[0]);
    assert("read"@[0] != "move"@[0]);
    assert("file-read"@[0] != "raw-input"@[0]);
    assert("buffer-read"@[0] != "gpu-monitor"@[0]);
    assert("buffer-read"@[0] != "interactive"@[0]);
    assert("buffer-write"@[0] != "special-keys"@[0]);
    assert("list"@[0] != "kill"@[0]);
    assert("list"@[0] != "move"@[0]);
    assert("capture"@[0] != "execute"@[0]);
    assert("create"@[0] != "rename"@[0]);
    assert("create"@[0] != "socket"@[0]);
    assert("kill"@[0] != "move"@[0]);
    assert("gpu-monitor"@[0] != "interactive"@[0]);
    assert("rename"@[0] != "socket"@[0]);
}

proof fn lemma_names_socket()
    ensures
        class_of("socket-for-path"@) == Some(ToolClass::Socket),
{
    lemma_lengths();
}

proof fn lemma_names_overview()
    ensures
        class_of("get-tmux-state"@) == Some(ToolClass::Overview),
        class_of("list-targets"@) == Some(ToolClass::Overview),
{
    lemma_lengths();
}

proof fn lemma_names_list()
    ensures
        class_of("list-sessions"@) == Some(ToolClass::List),
        class_of("find-session"@) == Some(ToolClass::List),
        class_of("list-windows"@) == Some(ToolClass::List),
        class_of("list-panes"@) == Some(ToolClass::List),
        class_of("list-clients"@) == Some(ToolClass::List),
        class_of("get-current-session"@) == Some(ToolClass::List),
{
    lemma_lengths();
    reveal_strlit("find-session");
    reveal_strlit("list-targets");
    reveal_strlit("list-windows");
    reveal_strlit("list-clients");
    assert("find-session"@[0] != "list-targets"@[0]);
    assert("list-windows"@[5] != "list-targets"@[5]);
    assert("list-clients"@[5] != "list-targets"@[5]);
}

proof fn lemma_names_list_buffers()
    ensures
        class_of("list-buffers"@) == Some(ToolClass::ListBuffers),
{
    lemma_lengths();
    reveal_strlit("list-buffers");
    reveal_strlit("list-targets");
    reveal_strlit("find-session");
    reveal_strlit("list-windows");
    reveal_strlit("list-clients");
    assert("list-buffers"@[5] != "list-targets"@[5]);
    assert("list-buffers"@[0] != "find-session"@[0]);
    assert("list-buffers"@[5] != "list-windows"@[5]);
    assert("list-buffers"@[5] != "list-clients"@[5]);
}

proof fn lemma_names_capture()
    ensures
        class_of("capture-pane"@) == Some(ToolClass::Capture),
{
    lemma_lengths();
    reveal_strlit("capture-pane");
    reveal_strlit("list-targets");
    reveal_strlit("find-session");
    reveal_strlit("list-windows");
    reveal_strlit("list-clients");
    reveal_strlit("list-buffers");
    assert("capture-pane"@[0] != "list-targets"@[0]);
    assert("capture-pane"@[0] != "find-session"@[0]);
    assert("capture-pane"@[0] != "list-windows"@[0]);
    assert("capture-pane"@[0] != "list-clients"@[0]);
    assert("capture-pane"@[0] != "list-buffers"@[0]);
}

proof fn lemma_names_file_read()
    ensures
        class_of("list-directory"@) == Some(ToolClass::FileRead),
        class_of("read-file"@) == Some(ToolClass::FileRead),
        class_of("find-files"@) == Some(ToolClass::FileRead),
        class_of("search-text"@) == Some(ToolClass::FileRead),
        class_of("file-stat"@) == Some(ToolClass::FileRead),
{
    lemma_lengths();
    reveal_strlit("list-directory");
    reveal_strlit("get-tmux-state");
    reveal_strlit("find-files");
    reveal_strlit("list-panes");
    assert("list-directory"@[0] != "get-tmux-state"@[0]);
    assert("find-files"@[0] != "list-panes"@[0]);
}

proof fn lemma_names_git_read()
    ensures
        class_of("git-status"@) == Some(ToolClass::GitRead),
        class_of("git-diff"@) == Some(ToolClass::GitRead),
        class_of("git-log"@) == Some(ToolClass::GitRead),
        class_of("git-show"@) == Some(ToolClass::GitRead),
{
    lemma_lengths();
    reveal_strlit("git-status");
    reveal_strlit("list-panes");
    reveal_strlit("find-files");
    assert("git-status"@[0] != "list-panes"@[0]);
    assert("git-status"@[0] != "find-files"@[0]);
}

proof fn lemma_names_buffer_read()
    ensures
        class_of("show-buffer"@) == Some(ToolClass::BufferRead),
        class_of("search-buffer"@) == Some(ToolClass::BufferRead),
        class_of("subsearch-buffer"@) == Some(ToolClass::BufferRead),
{
    lemma_lengths();
    reveal_strlit("show-buffer");
    reveal_strlit("search-text");
    reveal_strlit("search-buffer");
    reveal_strlit("list-sessions");
    assert("show-buffer"@[1] != "search-text"@[1]);
    assert("search-buffer"@[0] != "list-sessions"@[0]);
}

proof fn lemma_names_buffer_write()
    ensures
        class_of("save-buffer"@) == Some(ToolClass::BufferWrite),
        class_of("load-buffer"@) == Some(ToolClass::BufferWrite),
        class_of("delete-buffer"@) == Some(ToolClass::BufferWrite),
        class_of("set-buffer"@) == Some(ToolClass::BufferWrite),
        class_of("append-buffer"@) == Some(ToolClass::BufferWrite),
        class_of("rename-buffer"@) == Some(ToolClass::BufferWrite),
{
    lemma_lengths();
    reveal_strlit("save-buffer");
    reveal_strlit("search-text");
    reveal_strlit("show-buffer");
    reveal_strlit("load-buffer");
    reveal_strlit("delete-buffer");
    reveal_strlit("list-sessions");
    reveal_strlit("search-buffer");
    reveal_strlit("set-buffer");
    reveal_strlit("list-panes");
    reveal_strlit("find-files");
    reveal_strlit("git-status");
    reveal_strlit("append-buffer");
    reveal_strlit("rename-buffer");
    assert("save-buffer"@[1] != "search-text"@[1]);
    assert("save-buffer"@[1] != "show-buffer"@[1]);
    assert("load-buffer"@[0] != "search-text"@[0]);
    assert("load-buffer"@[0] != "show-buffer"@[0]);
    assert("delete-buffer"@[0] != "list-sessions"@[0]);
    assert("delete-buffer"@[0] != "search-buffer"@[0]);
    assert("set-buffer"@[0] != "list-panes"@[0]);
    assert("set-buffer"@[0] != "find-files"@[0]);
    assert("set-buffer"@[0] != "git-status"@[0]);
    assert("append-buffer"@[0] != "list-sessions"@[0]);
    assert("append-buffer"@[0] != "search-buffer"@[0]);
    assert("rename-buffer"@[0] != "list-sessions"@[0]);
    assert("rename-buffer"@[0] != "search-buffer"@[0]);
}

proof fn lemma_names_create()
    ensures
        class_of("create-session"@) == Some(ToolClass::Create),
        class_of("create-window"@) == Some(ToolClass::Create),
{
    lemma_lengths();
    reveal_strlit("create-session");
    reveal_strlit("get-tmux-state");
    reveal_strlit("list-directory");
    reveal_strlit("create-window");
    reveal_strlit("list-sessions");
    reveal_strlit("search-buffer");
    reveal_strlit("delete-buffer");
    reveal_strlit("append-buffer");
    reveal_strlit("rename-buffer");
    assert("create-session"@[0] != "get-tmux-state"@[0]);
    assert("create-session"@[0] != "list-directory"@[0]);
    assert("create-window"@[0] != "list-sessions"@[0]);
    assert("create-window"@[0] != "search-buffer"@[0]);
    assert("create-window"@[0] != "delete-buffer"@[0]);
    assert("create-window"@[0] != "append-buffer"@[0]);
    assert("create-window"@[0] != "rename-buffer"@[0]);
}

proof fn lemma_names_split()
    ensures
        class_of("split-pane"@) == Some(ToolClass::Split),
{
    lemma_lengths();
    reveal_strlit("split-pane");
    reveal_strlit("list-panes");
    reveal_strlit("find-files");
    reveal_strlit("git-status");
    reveal_strlit("set-buffer");
    assert("split-pane"@[0] != "list-panes"@[0]);
    assert("split-pane"@[0] != "find-files"@[0]);
    assert("split-pane"@[0] != "git-status"@[0]);
    assert("split-pane"@[1] != "set-buffer"@[1]);
}

proof fn lemma_names_kill_target()
    ensures
        class_of("kill-target"@) == Some(ToolClass::KillTarget),
{
    lemma_lengths();
    reveal_strlit("kill-target");
    reveal_strlit("search-text");
    reveal_strlit("show-buffer");
    reveal_strlit("save-buffer");
    reveal_strlit("load-buffer");
    assert("kill-target"@[0] != "search-text"@[0]);
    assert("kill-target"@[0] != "show-buffer"@[0]);
    assert("kill-target"@[0] != "save-buffer"@[0]);
    assert("kill-target"@[0] != "load-buffer"@[0]);
}

proof fn lemma_names_kill()
    ensures
        class_of("kill-session"@) == Some(ToolClass::Kill),
        class_of("kill-window"@) == Some(ToolClass::Kill),
        class_of("kill-pane"@) == Some(ToolClass::Kill),
        class_of("detach-client"@) == Some(ToolClass::Kill),
{
    lemma_lengths();
    reveal_strlit("kill-session");
    reveal_strlit("list-targets");
    reveal_strlit("find-session");
    reveal_strlit("list-windows");
    reveal_strlit("list-clients");
    reveal_strlit("list-buffers");
    reveal_strlit("capture-pane");
    reveal_strlit("kill-window");
    reveal_strlit("search-text");
    reveal_strlit("show-buffer");
    reveal_strlit("save-buffer");
    reveal_strlit("load-buffer");
    reveal_strlit("kill-target");
    reveal_strlit("kill-pane");
    reveal_strlit("read-file");
    reveal_strlit("file-stat");
    reveal_strlit("detach-client");
    reveal_strlit("list-sessions");
    reveal_strlit("search-buffer");
    reveal_strlit("delete-buffer");
    reveal_strlit("append-buffer");
    reveal_strlit("rename-buffer");
    reveal_strlit("create-window");
    assert("kill-session"@[0] != "list-targets"@[0]);
    assert("kill-session"@[0] != "find-session"@[0]);
    assert("kill-session"@[0] != "list-windows"@[0]);
    assert("kill-session"@[0] != "list-clients"@[0]);
    assert("kill-session"@[0] != "list-buffers"@[0]);
    assert("kill-session"@[0] != "capture-pane"@[0]);
    assert("kill-window"@[0] != "search-text"@[0]);
    assert("kill-window"@[0] != "show-buffer"@[0]);
    assert("kill-window"@[0] != "save-buffer"@[0]);
    assert("kill-window"@[0] != "load-buffer"@[0]);
    assert("kill-window"@[5] != "kill-target"@[5]);
    assert("kill-pane"@[0] != "read-file"@[0]);
    assert("kill-pane"@[0] != "file-stat"@[0]);
    assert("detach-client"@[0] != "list-sessions"@[0]);
    assert("detach-client"@[0] != "search-buffer"@[0]);
    assert("detach-client"@[2] != "delete-buffer"@[2]);
    assert("detach-client"@[0] != "append-buffer"@[0]);
    assert("detach-client"@[0] != "rename-buffer"@[0]);
    assert("detach-client"@[0] != "create-window"@[0]);
}

proof fn lemma_names_execute()
    ensures
        class_of("execute-command"@) == Some(ToolClass::Execute),
{
    lemma_lengths();
    reveal_strlit("execute-command");
    reveal_strlit("socket-for-path");
    assert("execute-command"@[0] != "socket-for-path"@[0]);
}

proof fn lemma_names_command_result()
    ensures
        class_of("get-command-result"@) == Some(ToolClass::CommandResult),
{
    lemma_lengths();
}

proof fn lemma_names_gpu_watch()
    ensures
        class_of("watch-gpu-idle"@) == Some(ToolClass::GpuWatch),
        class_of("get-gpu-watch"@) == Some(ToolClass::GpuWatch),
        class_of("stop-gpu-watch"@) == Some(ToolClass::GpuWatch),
{
    lemma_lengths();
    reveal_strlit("watch-gpu-idle");
    reveal_strlit("get-tmux-state");
    reveal_strlit("list-directory");
    reveal_strlit("create-session");
    reveal_strlit("get-gpu-watch");
    reveal_strlit("list-sessions");
    reveal_strlit("search-buffer");
    reveal_strlit("delete-buffer");
    reveal_strlit("append-buffer");
    reveal_strlit("rename-buffer");
    reveal_strlit("create-window");
    reveal_strlit("detach-client");
    reveal_strlit("stop-gpu-watch");
    assert("watch-gpu-idle"@[0] != "get-tmux-state"@[0]);
    assert("watch-gpu-idle"@[0] != "list-directory"@[0]);
    assert("watch-gpu-idle"@[0] != "create-session"@[0]);
    assert("get-gpu-watch"@[0] != "list-sessions"@[0]);
    assert("get-gpu-watch"@[0] != "search-buffer"@[0]);
    assert("get-gpu-watch"@[0] != "delete-buffer"@[0]);
    assert("get-gpu-watch"@[0] != "append-buffer"@[0]);
    assert("get-gpu-watch"@[0] != "rename-buffer"@[0]);
    assert("get-gpu-watch"@[0] != "create-window"@[0]);
    assert("get-gpu-watch"@[0] != "detach-client"@[0]);
    assert("stop-gpu-watch"@[0] != "get-tmux-state"@[0]);
    assert("stop-gpu-watch"@[0] != "list-directory"@[0]);
    assert("stop-gpu-watch"@[0] != "create-session"@[0]);
}

proof fn lemma_names_gpu_snapshot()
    ensures
        class_of("gpu-snapshot"@) == Some(ToolClass::GpuSnapshot),
{
    lemma_lengths();
    reveal_strlit("gpu-snapshot");
    reveal_strlit("list-targets");
    reveal_strlit("find-session");
    reveal_strlit("list-windows");
    reveal_strlit("list-clients");
    reveal_strlit("list-buffers");
    reveal_strlit("capture-pane");
    reveal_strlit("kill-session");
    assert("gpu-snapshot"@[0] != "list-targets"@[0]);
    assert("gpu-snapshot"@[0] != "find-session"@[0]);
    assert("gpu-snapshot"@[0] != "list-windows"@[0]);
    assert("gpu-snapshot"@[0] != "list-clients"@[0]);
    assert("gpu-snapshot"@[0] != "list-buffers"@[0]);
    assert("gpu-snapshot"@[0] != "capture-pane"@[0]);
    assert("gpu-snapshot"@[0] != "kill-session"@[0]);
}

proof fn lemma_names_rename_target()
    ensures
        class_of("rename-target"@) == Some(ToolClass::RenameTarget),
{
    lemma_lengths();
    reveal_strlit("rename-target");
    reveal_strlit("list-sessions");
    reveal_strlit("search-buffer");
    reveal_strlit("delete-buffer");
    reveal_strlit("append-buffer");
    reveal_strlit("rename-buffer");
    reveal_strlit("create-window");
    reveal_strlit("detach-client");
    reveal_strlit("get-gpu-watch");
    assert("rename-target"@[0] != "list-sessions"@[0]);
    assert("rename-target"@[0] != "search-buffer"@[0]);
    assert("rename-target"@[0] != "delete-buffer"@[0]);
    assert("rename-target"@[0] != "append-buffer"@[0]);
    assert("rename-target"@[7] != "rename-buffer"@[7]);
    assert("rename-target"@[0] != "create-window"@[0]);
    assert("rename-target"@[0] != "detach-client"@[0]);
    assert("rename-target"@[0] != "get-gpu-watch"@[0]);
}

proof fn lemma_names_rename()
    ensures
        class_of("rename-session"@) == Some(ToolClass::Rename),
        class_of("rename-window"@) == Some(ToolClass::Rename),
        class_of("rename-pane"@) == Some(ToolClass::Rename),
{
    lemma_lengths();
    reveal_strlit("rename-session");
    reveal_strlit("get-tmux-state");
    reveal_strlit("list-directory");
    reveal_strlit("create-session");
    reveal_strlit("watch-gpu-idle");
    reveal_strlit("stop-gpu-watch");
    reveal_strlit("rename-window");
    reveal_strlit("list-sessions");
    reveal_strlit("search-buffer");
    reveal_strlit("delete-buffer");
    reveal_strlit("append-buffer");
    reveal_strlit("rename-buffer");
    reveal_strlit("create-window");
    reveal_strlit("detach-client");
    reveal_strlit("get-gpu-watch");
    reveal_strlit("rename-target");
    reveal_strlit("rename-pane");
    reveal_strlit("search-text");
    reveal_strlit("show-buffer");
    reveal_strlit("save-buffer");
    reveal_strlit("load-buffer");
    reveal_strlit("kill-target");
    reveal_strlit("kill-window");
    assert("rename-session"@[0] != "get-tmux-state"@[0]);
    assert("rename-session"@[0] != "list-directory"@[0]);
    assert("rename-session"@[0] != "create-session"@[0]);
    assert("rename-session"@[0] != "watch-gpu-idle"@[0]);
    assert("rename-session"@[0] != "stop-gpu-watch"@[0]);
    assert("rename-window"@[0] != "list-sessions"@[0]);
    assert("rename-window"@[0] != "search-buffer"@[0]);
    assert("rename-window"@[0] != "delete-buffer"@[0]);
    assert("rename-window"@[0] != "append-buffer"@[0]);
    assert("rename-window"@[7] != "rename-buffer"@[7]);
    assert("rename-window"@[0] != "create-window"@[0]);
    assert("rename-window"@[0] != "detach-client"@[0]);
    assert("rename-window"@[0] != "get-gpu-watch"@[0]);
    assert("rename-window"@[7] != "rename-target"@[7]);
    assert("rename-pane"@[0] != "search-text"@[0]);
    assert("rename-pane"@[0] != "show-buffer"@[0]);
    assert("rename-pane"@[0] != "save-buffer"@[0]);
    assert("rename-pane"@[0] != "load-buffer"@[0]);
    assert("rename-pane"@[0] != "kill-target"@[0]);
    assert("rename-pane"@[0] != "kill-window"@[0]);
}

proof fn lemma_names_move()
    ensures
        class_of("move-window"@) == Some(ToolClass::Move),
        class_of("select-window"@) == Some(ToolClass::Move),
        class_of("select-pane"@) == Some(ToolClass::Move),
        class_of("resize-pane"@) == Some(ToolClass::Move),
        class_of("zoom-pane"@) == Some(ToolClass::Move),
        class_of("select-layout"@) == Some(ToolClass::Move),
        class_of("join-pane"@) == Some(ToolClass::Move),
        class_of("break-pane"@) == Some(ToolClass::Move),
        class_of("swap-pane"@) == Some(ToolClass::Move),
        class_of("set-synchronize-panes"@) == Some(ToolClass::Move),
{
    lemma_lengths();
    reveal_strlit("move-window");
    reveal_strlit("search-text");
    reveal_strlit("show-buffer");
    reveal_strlit("save-buffer");
    reveal_strlit("load-buffer");
    reveal_strlit("kill-target");
    reveal_strlit("kill-window");
    reveal_strlit("rename-pane");
    reveal_strlit("select-window");
    reveal_strlit("list-sessions");
    reveal_strlit("search-buffer");
    reveal_strlit("delete-buffer");
    reveal_strlit("append-buffer");
    reveal_strlit("rename-buffer");
    reveal_strlit("create-window");
    reveal_strlit("detach-client");
    reveal_strlit("get-gpu-watch");
    reveal_strlit("rename-target");
    reveal_strlit("rename-window");
    reveal_strlit("select-pane");
    reveal_strlit("resize-pane");
    reveal_strlit("zoom-pane");
    reveal_strlit("read-file");
    reveal_strlit("file-stat");
    reveal_strlit("kill-pane");
    reveal_strlit("select-layout");
    reveal_strlit("join-pane");
    reveal_strlit("break-pane");
    reveal_strlit("list-panes");
    reveal_strlit("find-files");
    reveal_strlit("git-status");
    reveal_strlit("set-buffer");
    reveal_strlit("split-pane");
    reveal_strlit("swap-pane");
    assert("move-window"@[0] != "search-text"@[0]);
    assert("move-window"@[0] != "show-buffer"@[0]);
    assert("move-window"@[0] != "save-buffer"@[0]);
    assert("move-window"@[0] != "load-buffer"@[0]);
    assert("move-window"@[0] != "kill-target"@[0]);
    assert("move-window"@[0] != "kill-window"@[0]);
    assert("move-window"@[0] != "rename-pane"@[0]);
    assert("select-window"@[0] != "list-sessions"@[0]);
    assert("select-window"@[2] != "search-buffer"@[2]);
    assert("select-window"@[0] != "delete-buffer"@[0]);
    assert("select-window"@[0] != "append-buffer"@[0]);
    assert("select-window"@[0] != "rename-buffer"@[0]);
    assert("select-window"@[0] != "create-window"@[0]);
    assert("select-window"@[0] != "detach-client"@[0]);
    assert("select-window"@[0] != "get-gpu-watch"@[0]);
    assert("select-window"@[0] != "rename-target"@[0]);
    assert("select-window"@[0] != "rename-window"@[0]);
    assert("select-pane"@[2] != "search-text"@[2]);
    assert("select-pane"@[1] != "show-buffer"@[1]);
    assert("select-pane"@[1] != "save-buffer"@[1]);
    assert("select-pane"@[0] != "load-buffer"@[0]);
    assert("select-pane"@[0] != "kill-target"@[0]);
    assert("select-pane"@[0] != "kill-window"@[0]);
    assert("select-pane"@[0] != "rename-pane"@[0]);
    assert("resize-pane"@[0] != "search-text"@[0]);
    assert("resize-pane"@[0] != "show-buffer"@[0]);
    assert("resize-pane"@[0] != "save-buffer"@[0]);
    assert("resize-pane"@[0] != "load-buffer"@[0]);
    assert("resize-pane"@[0] != "kill-target"@[0]);
    assert("resize-pane"@[0] != "kill-window"@[0]);
    assert("resize-pane"@[2] != "rename-pane"@[2]);
    assert("zoom-pane"@[0] != "read-file"@[0]);
    assert("zoom-pane"@[0] != "file-stat"@[0]);
    assert("zoom-pane"@[0] != "kill-pane"@[0]);
    assert("select-layout"@[0] != "list-sessions"@[0]);
    assert("select-layout"@[2] != "search-buffer"@[2]);
    assert("select-layout"@[0] != "delete-buffer"@[0]);
    assert("select-layout"@[0] != "append-buffer"@[0]);
    assert("select-layout"@[0] != "rename-buffer"@[0]);
    assert("select-layout"@[0] != "create-window"@[0]);
    assert("select-layout"@[0] != "detach-client"@[0]);
    assert("select-layout"@[0] != "get-gpu-watch"@[0]);
    assert("select-layout"@[0] != "rename-target"@[0]);
    assert("select-layout"@[0] != "rename-window"@[0]);
    assert("join-pane"@[0] != "read-file"@[0]);
    assert("join-pane"@[0] != "file-stat"@[0]);
    assert("join-pane"@[0] != "kill-pane"@[0]);
    assert("break-pane"@[0] != "list-panes"@[0]);
    assert("break-pane"@[0] != "find-files"@[0]);
    assert("break-pane"@[0] != "git-status"@[0]);
    assert("break-pane"@[0] != "set-buffer"@[0]);
    assert("break-pane"@[0] != "split-pane"@[0]);
    assert("swap-pane"@[0] != "read-file"@[0]);
    assert("swap-pane"@[0] != "file-stat"@[0]);
    assert("swap-pane"@[0] != "kill-pane"@[0]);
}

proof fn lemma_names_typing()
    ensures
        class_of("send-keys"@) == Some(ToolClass::Typing),
        class_of("paste-text"@) == Some(ToolClass::Typing),
{
    lemma_lengths();
    reveal_strlit("send-keys");
    reveal_strlit("read-file");
    reveal_strlit("file-stat");
    reveal_strlit("kill-pane");
    reveal_strlit("zoom-pane");
    reveal_strlit("join-pane");
    reveal_strlit("swap-pane");
    reveal_strlit("paste-text");
    reveal_strlit("list-panes");
    reveal_strlit("find-files");
    reveal_strlit("git-status");
    reveal_strlit("set-buffer");
    reveal_strlit("split-pane");
    reveal_strlit("break-pane");
    assert("send-keys"@[0] != "read-file"@[0]);
    assert("send-keys"@[0] != "file-stat"@[0]);
    assert("send-keys"@[0] != "kill-pane"@[0]);
    assert("send-keys"@[0] != "zoom-pane"@[0]);
    assert("send-keys"@[0] != "join-pane"@[0]);
    assert("send-keys"@[1] != "swap-pane"@[1]);
    assert("paste-text"@[0] != "list-panes"@[0]);
    assert("paste-text"@[0] != "find-files"@[0]);
    assert("paste-text"@[0] != "git-status"@[0]);
    assert("paste-text"@[0] != "set-buffer"@[0]);
    assert("paste-text"@[0] != "split-pane"@[0]);
    assert("paste-text"@[0] != "break-pane"@[0]);
}

proof fn lemma_names_bytes()
    ensures
        class_of("send-hex"@) == Some(ToolClass::Bytes),
{
    lemma_lengths();
    reveal_strlit("send-hex");
    reveal_strlit("git-diff");
    reveal_strlit("git-show");
    assert("send-hex"@[0] != "git-diff"@[0]);
    assert("send-hex"@[0] != "git-show"@[0]);
}

proof fn lemma_names_special_key()
    ensures
        class_of("press-special-key"@) == Some(ToolClass::SpecialKey),
{
    lemma_lengths();
}

proof fn lemma_names_special_keys()
    ensures
        class_of("send-cancel"@) == Some(ToolClass::SpecialKeys),
        class_of("send-eof"@) == Some(ToolClass::SpecialKeys),
        class_of("send-escape"@) == Some(ToolClass::SpecialKeys),
        class_of("send-enter"@) == Some(ToolClass::SpecialKeys),
        class_of("send-tab"@) == Some(ToolClass::SpecialKeys),
        class_of("send-backspace"@) == Some(ToolClass::SpecialKeys),
        class_of("send-up"@) == Some(ToolClass::SpecialKeys),
        class_of("send-down"@) == Some(ToolClass::SpecialKeys),
        class_of("send-left"@) == Some(ToolClass::SpecialKeys),
        class_of("send-right"@) == Some(ToolClass::SpecialKeys),
        class_of("send-page-up"@) == Some(ToolClass::SpecialKeys),
        class_of("send-page-down"@) == Some(ToolClass::SpecialKeys),
        class_of("send-home"@) == Some(ToolClass::SpecialKeys),
        class_of("send-end"@) == Some(ToolClass::SpecialKeys),
{
    lemma_lengths();
    reveal_strlit("send-cancel");
    reveal_strlit("search-text");
    reveal_strlit("show-buffer");
    reveal_strlit("save-buffer");
    reveal_strlit("load-buffer");
    reveal_strlit("kill-target");
    reveal_strlit("kill-window");
    reveal_strlit("rename-pane");
    reveal_strlit("move-window");
    reveal_strlit("select-pane");
    reveal_strlit("resize-pane");
    reveal_strlit("send-eof");
    reveal_strlit("git-diff");
    reveal_strlit("git-show");
    reveal_strlit("send-hex");
    reveal_strlit("send-escape");
    reveal_strlit("send-enter");
    reveal_strlit("list-panes");
    reveal_strlit("find-files");
    reveal_strlit("git-status");
    reveal_strlit("set-buffer");
    reveal_strlit("split-pane");
    reveal_strlit("break-pane");
    reveal_strlit("paste-text");
    reveal_strlit("send-tab");
    reveal_strlit("send-backspace");
    reveal_strlit("get-tmux-state");
    reveal_strlit("list-directory");
    reveal_strlit("create-session");
    reveal_strlit("watch-gpu-idle");
    reveal_strlit("stop-gpu-watch");
    reveal_strlit("rename-session");
    reveal_strlit("send-up");
    reveal_strlit("git-log");
    reveal_strlit("send-down");
    reveal_strlit("read-file");
    reveal_strlit("file-stat");
    reveal_strlit("kill-pane");
    reveal_strlit("zoom-pane");
    reveal_strlit("join-pane");
    reveal_strlit("swap-pane");
    reveal_strlit("send-keys");
    reveal_strlit("send-left");
    reveal_strlit("send-right");
    reveal_strlit("send-page-up");
    reveal_strlit("list-targets");
    reveal_strlit("find-session");
    reveal_strlit("list-windows");
    reveal_strlit("list-clients");
    reveal_strlit("list-buffers");
    reveal_strlit("capture-pane");
    reveal_strlit("kill-session");
    reveal_strlit("gpu-snapshot");
    reveal_strlit("send-page-down");
    reveal_strlit("send-home");
    reveal_strlit("send-end");
    assert("send-cancel"@[2] != "search-text"@[2]);
    assert("send-cancel"@[1] != "show-buffer"@[1]);
    assert("send-cancel"@[1] != "save-buffer"@[1]);
    assert("send-cancel"@[0] != "load-buffer"@[0]);
    assert("send-cancel"@[0] != "kill-target"@[0]);
    assert("send-cancel"@[0] != "kill-window"@[0]);
    assert("send-cancel"@[0] != "rename-pane"@[0]);
    assert("send-cancel"@[0] != "move-window"@[0]);
    assert("send-cancel"@[2] != "select-pane"@[2]);
    assert("send-cancel"@[0] != "resize-pane"@[0]);
    assert("send-eof"@[0] != "git-diff"@[0]);
    assert("send-eof"@[0] != "git-show"@[0]);
    assert("send-eof"@[5] != "send-hex"@[5]);
    assert("send-escape"@[2] != "search-text"@[2]);
    assert("send-escape"@[1] != "show-buffer"@[1]);
    assert("send-escape"@[1] != "save-buffer"@[1]);
    assert("send-escape"@[0] != "load-buffer"@[0]);
    assert("send-escape"@[0] != "kill-target"@[0]);
    assert("send-escape"@[0] != "kill-window"@[0]);
    assert("send-escape"@[0] != "rename-pane"@[0]);
    assert("send-escape"@[0] != "move-window"@[0]);
    assert("send-escape"@[2] != "select-pane"@[2]);
    assert("send-escape"@[0] != "resize-pane"@[0]);
    assert("send-enter"@[0] != "list-panes"@[0]);
    assert("send-enter"@[0] != "find-files"@[0]);
    assert("send-enter"@[0] != "git-status"@[0]);
    assert("send-enter"@[2] != "set-buffer"@[2]);
    assert("send-enter"@[1] != "split-pane"@[1]);
    assert("send-enter"@[0] != "break-pane"@[0]);
    assert("send-enter"@[0] != "paste-text"@[0]);
    assert("send-tab"@[0] != "git-diff"@[0]);
    assert("send-tab"@[0] != "git-show"@[0]);
    assert("send-tab"@[5] != "send-hex"@[5]);
    assert("send-backspace"@[0] != "get-tmux-state"@[0]);
    assert("send-backspace"@[0] != "list-directory"@[0]);
    assert("send-backspace"@[0] != "create-session"@[0]);
    assert("send-backspace"@[0] != "watch-gpu-idle"@[0]);
    assert("send-backspace"@[1] != "stop-gpu-watch"@[1]);
    assert("send-backspace"@[0] != "rename-session"@[0]);
    assert("send-up"@[0] != "git-log"@[0]);
    assert("send-down"@[0] != "read-file"@[0]);
    assert("send-down"@[0] != "file-stat"@[0]);
    assert("send-down"@[0] != "kill-pane"@[0]);
    assert("send-down"@[0] != "zoom-pane"@[0]);
    assert("send-down"@[0] != "join-pane"@[0]);
    assert("send-down"@[1] != "swap-pane"@[1]);
    assert("send-down"@[5] != "send-keys"@[5]);
    assert("send-left"@[0] != "read-file"@[0]);
    assert("send-left"@[0] != "file-stat"@[0]);
    assert("send-left"@[0] != "kill-pane"@[0]);
    assert("send-left"@[0] != "zoom-pane"@[0]);
    assert("send-left"@[0] != "join-pane"@[0]);
    assert("send-left"@[1] != "swap-pane"@[1]);
    assert("send-left"@[5] != "send-keys"@[5]);
    assert("send-right"@[0] != "list-panes"@[0]);
    assert("send-right"@[0] != "find-files"@[0]);
    assert("send-right"@[0] != "git-status"@[0]);
    assert("send-right"@[2] != "set-buffer"@[2]);
    assert("send-right"@[1] != "split-pane"@[1]);
    assert("send-right"@[0] != "break-pane"@[0]);
    assert("send-right"@[0] != "paste-text"@[0]);
    assert("send-page-up"@[0] != "list-targets"@[0]);
    assert("send-page-up"@[0] != "find-session"@[0]);
    assert("send-page-up"@[0] != "list-windows"@[0]);
    assert("send-page-up"@[0] != "list-clients"@[0]);
    assert("send-page-up"@[0] != "list-buffers"@[0]);
    assert("send-page-up"@[0] != "capture-pane"@[0]);
    assert("send-page-up"@[0] != "kill-session"@[0]);
    assert("send-page-up"@[0] != "gpu-snapshot"@[0]);
    assert("send-page-down"@[0] != "get-tmux-state"@[0]);
    assert("send-page-down"@[0] != "list-directory"@[0]);
    assert("send-page-down"@[0] != "create-session"@[0]);
    assert("send-page-down"@[0] != "watch-gpu-idle"@[0]);
    assert("send-page-down"@[1] != "stop-gpu-watch"@[1]);
    assert("send-page-down"@[0] != "rename-session"@[0]);
    assert("send-home"@[0] != "read-file"@[0]);
    assert("send-home"@[0] != "file-stat"@[0]);
    assert("send-home"@[0] != "kill-pane"@[0]);
    assert("send-home"@[0] != "zoom-pane"@[0]);
    assert("send-home"@[0] != "join-pane"@[0]);
    assert("send-home"@[1] != "swap-pane"@[1]);
    assert("send-home"@[5] != "send-keys"@[5]);
    assert("send-end"@[0] != "git-diff"@[0]);
    assert("send-end"@[0] != "git-show"@[0]);
    assert("send-end"@[5] != "send-hex"@[5]);
}

/// The lengths of the names of tools.
proof fn lemma_lengths()
    ensures
        "socket-for-path"@.len() == 15,
        "get-tmux-state"@.len() == 14,
        "list-targets"@.len() == 12,
        "list-sessions"@.len() == 13,
        "find-session"@.len() == 12,
        "list-windows"@.len() == 12,
        "list-panes"@.len() == 10,
        "list-clients"@.len() == 12,
        "get-current-session"@.len() == 19,
        "list-buffers"@.len() == 12,
        "capture-pane"@.len() == 12,
        "list-directory"@.len() == 14,
        "read-file"@.len() == 9,
        "find-files"@.len() == 10,
        "search-text"@.len() == 11,
        "file-stat"@.len() == 9,
        "git-status"@.len() == 10,
        "git-diff"@.len() == 8,
        "git-log"@.len() == 7,
        "git-show"@.len() == 8,
        "show-buffer"@.len() == 11,
        "search-buffer"@.len() == 13,
        "subsearch-buffer"@.len() == 16,
        "save-buffer"@.len() == 11,
        "load-buffer"@.len() == 11,
        "delete-buffer"@.len() == 13,
        "set-buffer"@.len() == 10,
        "append-buffer"@.len() == 13,
        "rename-buffer"@.len() == 13,
        "create-session"@.len() == 14,
        "create-window"@.len() == 13,
        "split-pane"@.len() == 10,
        "kill-target"@.len() == 11,
        "kill-session"@.len() == 12,
        "kill-window"@.len() == 11,
        "kill-pane"@.len() == 9,
        "detach-client"@.len() == 13,
        "execute-command"@.len() == 15,
        "get-command-result"@.len() == 18,
        "watch-gpu-idle"@.len() == 14,
        "get-gpu-watch"@.len() == 13,
        "stop-gpu-watch"@.len() == 14,
        "gpu-snapshot"@.len() == 12,
        "rename-target"@.len() == 13,
        "rename-session"@.len() == 14,
        "rename-window"@.len() == 13,
        "rename-pane"@.len() == 11,
        "move-window"@.len() == 11,
        "select-window"@.len() == 13,
        "select-pane"@.len() == 11,
        "resize-pane"@.len() == 11,
        "zoom-pane"@.len() == 9,
        "select-layout"@.len() == 13,
        "join-pane"@.len() == 9,
        "break-pane"@.len() == 10,
        "swap-pane"@.len() == 9,
        "set-synchronize-panes"@.len() == 21,
        "send-keys"@.len() == 9,
        "paste-text"@.len() == 10,
        "send-hex"@.len() == 8,
        "press-special-key"@.len() == 17,
        "send-cancel"@.len() == 11,
        "send-eof"@.len() == 8,
        "send-escape"@.len() == 11,
        "send-enter"@.len() == 10,
        "send-tab"@.len() == 8,
        "send-backspace"@.len() == 14,
        "send-up"@.len() == 7,
        "send-down"@.len() == 9,
        "send-left"@.len() == 9,
        "send-right"@.len() == 10,
        "send-page-up"@.len() == 12,
        "send-page-down"@.len() == 14,
        "send-home"@.len() == 9,
        "send-end"@.len() == 8,
{
    reveal_strlit("socket-for-path");
    reveal_strlit("get-tmux-state");
    reveal_strlit("list-targets");
    reveal_strlit("list-sessions");
    reveal_strlit("find-session");
    reveal_strlit("list-windows");
    reveal_strlit("list-panes");
    reveal_strlit("list-clients");
    reveal_strlit("get-current-session");
    reveal_strlit("list-buffers");
    reveal_strlit("capture-pane");
    reveal_strlit("list-directory");
    reveal_strlit("read-file");
    reveal_strlit("find-files");
    reveal_strlit("search-text");
    reveal_strlit("file-stat");
    reveal_strlit("git-status");
    reveal_strlit("git-diff");
    reveal_strlit("git-log");
    reveal_strlit("git-show");
    reveal_strlit("show-buffer");
    reveal_strlit("search-buffer");
    reveal_strlit("subsearch-buffer");
    reveal_strlit("save-buffer");
    reveal_strlit("load-buffer");
    reveal_strlit("delete-buffer");
    reveal_strlit("set-buffer");
    reveal_strlit("append-buffer");
    reveal_strlit("rename-buffer");
    reveal_strlit("create-session");
    reveal_strlit("create-window");
    reveal_strlit("split-pane");
    reveal_strlit("kill-target");
    reveal_strlit("kill-session");
    reveal_strlit("kill-window");
    reveal_strlit("kill-pane");
    reveal_strlit("detach-client");
    reveal_strlit("execute-command");
    reveal_strlit("get-command-result");
    reveal_strlit("watch-gpu-idle");
    reveal_strlit("get-gpu-watch");
    reveal_strlit("stop-gpu-watch");
    reveal_strlit("gpu-snapshot");
    reveal_strlit("rename-target");
    reveal_strlit("rename-session");
    reveal_strlit("rename-window");
    reveal_strlit("rename-pane");
    reveal_strlit("move-window");
    reveal_strlit("select-window");
    reveal_strlit("select-pane");
    reveal_strlit("resize-pane");
    reveal_strlit("zoom-pane");
    reveal_strlit("select-layout");
    reveal_strlit("join-pane");
    reveal_strlit("break-pane");
    reveal_strlit("swap-pane");
    reveal_strlit("set-synchronize-panes");
    reveal_strlit("send-keys");
    reveal_strlit("paste-text");
    reveal_strlit("send-hex");
    reveal_strlit("press-special-key");
    reveal_strlit("send-cancel");
    reveal_strlit("send-eof");
    reveal_strlit("send-escape");
    reveal_strlit("send-enter");
    reveal_strlit("send-tab");
    reveal_strlit("send-backspace");
    reveal_strlit("send-up");
    reveal_strlit("send-down");
    reveal_strlit("send-left");
    reveal_strlit("send-right");
    reveal_strlit("send-page-up");
    reveal_strlit("send-page-down");
    reveal_strlit("send-home");
    reveal_strlit("send-end");
}

/// The class of every tool by its name.
proof fn lemma_names()
    ensures
        class_of("socket-for-path"@) == Some(ToolClass::Socket),
        class_of("get-tmux-state"@) == Some(ToolClass::Overview),
        class_of("list-targets"@) == Some(ToolClass::Overview),
        class_of("list-sessions"@) == Some(ToolClass::List),
        class_of("find-session"@) == Some(ToolClass::List),
        class_of("list-windows"@) == Some(ToolClass::List),
        class_of("list-panes"@) == Some(ToolClass::List),
        class_of("list-clients"@) == Some(ToolClass::List),
        class_of("get-current-session"@) == Some(ToolClass::List),
        class_of("list-buffers"@) == Some(ToolClass::ListBuffers),
        class_of("capture-pane"@) == Some(ToolClass::Capture),
        class_of("list-directory"@) == Some(ToolClass::FileRead),
        class_of("read-file"@) == Some(ToolClass::FileRead),
        class_of("find-files"@) == Some(ToolClass::FileRead),
        class_of("search-text"@) == Some(ToolClass::FileRead),
        class_of("file-stat"@) == Some(ToolClass::FileRead),
        class_of("git-status"@) == Some(ToolClass::GitRead),
        class_of("git-diff"@) == Some(ToolClass::GitRead),
        class_of("git-log"@) == Some(ToolClass::GitRead),
        class_of("git-show"@) == Some(ToolClass::GitRead),
        class_of("show-buffer"@) == Some(ToolClass::BufferRead),
        class_of("search-buffer"@) == Some(ToolClass::BufferRead),
        class_of("subsearch-buffer"@) == Some(ToolClass::BufferRead),
        class_of("save-buffer"@) == Some(ToolClass::BufferWrite),
        class_of("load-buffer"@) == Some(ToolClass::BufferWrite),
        class_of("delete-buffer"@) == Some(ToolClass::BufferWrite),
        class_of("set-buffer"@) == Some(ToolClass::BufferWrite),
        class_of("append-buffer"@) == Some(ToolClass::BufferWrite),
        class_of("rename-buffer"@) == Some(ToolClass::BufferWrite),
        class_of("create-session"@) == Some(ToolClass::Create),
        class_of("create-window"@) == Some(ToolClass::Create),
        class_of("split-pane"@) == Some(ToolClass::Split),
        class_of("kill-target"@) == Some(ToolClass::KillTarget),
        class_of("kill-session"@) == Some(ToolClass::Kill),
        class_of("kill-window"@) == Some(ToolClass::Kill),
        class_of("kill-pane"@) == Some(ToolClass::Kill),
        class_of("detach-client"@) == Some(ToolClass::Kill),
        class_of("execute-command"@) == Some(ToolClass::Execute),
        class_of("get-command-result"@) == Some(ToolClass::CommandResult),
        class_of("watch-gpu-idle"@) == Some(ToolClass::GpuWatch),
        class_of("get-gpu-watch"@) == Some(ToolClass::GpuWatch),
        class_of("stop-gpu-watch"@) == Some(ToolClass::GpuWatch),
        class_of("gpu-snapshot"@) == Some(ToolClass::GpuSnapshot),
        class_of("rename-target"@) == Some(ToolClass::RenameTarget),
        class_of("rename-session"@) == Some(ToolClass::Rename),
        class_of("rename-window"@) == Some(ToolClass::Rename),
        class_of("rename-pane"@) == Some(ToolClass::Rename),
        class_of("move-window"@) == Some(ToolClass::Move),
        class_of("select-window"@) == Some(ToolClass::Move),
        class_of("select-pane"@) == Some(ToolClass::Move),
        class_of("resize-pane"@) == Some(ToolClass::Move),
        class_of("zoom-pane"@) == Some(ToolClass::Move),
        class_of("select-layout"@) == Some(ToolClass::Move),
        class_of("join-pane"@) == Some(ToolClass::Move),
        class_of("break-pane"@) == Some(ToolClass::Move),
        class_of("swap-pane"@) == Some(ToolClass::Move),
        class_of("set-synchronize-panes"@) == Some(ToolClass::Move),
        class_of("send-keys"@) == Some(ToolClass::Typing),
        class_of("paste-text"@) == Some(ToolClass::Typing),
        class_of("send-hex"@) == Some(ToolClass::Bytes),
        class_of("press-special-key"@) == Some(ToolClass::SpecialKey),
        class_of("send-cancel"@) == Some(ToolClass::SpecialKeys),
        class_of("send-eof"@) == Some(ToolClass::SpecialKeys),
        class_of("send-escape"@) == Some(ToolClass::SpecialKeys),
        class_of("send-enter"@) == Some(ToolClass::SpecialKeys),
        class_of("send-tab"@) == Some(ToolClass::SpecialKeys),
        class_of("send-backspace"@) == Some(ToolClass::SpecialKeys),
        class_of("send-up"@) == Some(ToolClass::SpecialKeys),
        class_of("send-down"@) == Some(ToolClass::SpecialKeys),
        class_of("send-left"@) == Some(ToolClass::SpecialKeys),
        class_of("send-right"@) == Some(ToolClass::SpecialKeys),
        class_of("send-page-up"@) == Some(ToolClass::SpecialKeys),
        class_of("send-page-down"@) == Some(ToolClass::SpecialKeys),
        class_of("send-home"@) == Some(ToolClass::SpecialKeys),
        class_of("send-end"@) == Some(ToolClass::SpecialKeys),
{
    lemma_names_socket();
    lemma_names_overview();
    lemma_names_list();
    lemma_names_list_buffers();
    lemma_names_capture();
    lemma_names_file_read();
    lemma_names_git_read();
    lemma_names_buffer_read();
    lemma_names_buffer_write();
    lemma_names_create();
    lemma_names_split();
    lemma_names_kill_target();
    lemma_names_kill();
    lemma_names_execute();
    lemma_names_command_result();
    lemma_names_gpu_watch();
    lemma_names_gpu_snapshot();
    lemma_names_rename_target();
    lemma_names_rename();
    lemma_names_move();
    lemma_names_typing();
    lemma_names_bytes();
    lemma_names_special_key();
    lemma_names_special_keys();
}

} // verus!
