use tmux_mcp::control::{gate_content, new_token, validate_token, GateFile, GateMode, StatePaths};
use tmux_mcp::gpu_protocol::update_idle_state;
use tmux_mcp::keyed::Keyed;
use tmux_mcp::security::{
    CommandFilter, CommandFilterMode, SecurityConfig, SecurityPolicy, ToolFilter, ToolFilterMode,
};
use tmux_mcp::shell::shell_single_quote;
use tmux_mcp::statements::{
    collect_shell_statements, find_matching_paren, has_ansi_c_quote, has_shell_c_wrapper, has_shell_escape_in_word,
    has_unsupported_shell_grouping, is_shell_c_invocation, shell_command_index,
};
use tmux_mcp::tools::{class_in_group, is_known_group, tool_class, CompiledToolFilter};

fn statements(command: &str) -> Vec<String> {
    let mut out = Vec::new();
    collect_shell_statements(command, &mut out);
    out
}

fn words(list: &[&str]) -> Vec<String> {
    list.iter().map(|word| word.to_string()).collect()
}

#[test]
fn plain_commands_and_separators() {
    assert_eq!(statements("  ls -l "), ["ls -l"]);
    assert_eq!(statements("  "), Vec::<String>::new());
    for separator in [";", "|", "&", "\n", "\r"] {
        assert_eq!(
            statements(&format!("echo 'a;b' \"c;d\" e\\;f{separator}rm x")),
            ["echo 'a;b' \"c;d\" e\\;f", "rm x"]
        );
    }
    assert_eq!(statements("a && b || c"), ["a", "b", "c"]);
}

#[test]
fn substitutions_come_before_the_statement_around_them() {
    assert_eq!(statements("echo \"$(rm x; ls)\" y"), ["rm x", "ls", "echo \"\" y"]);
    assert_eq!(statements("diff <(ls a) >(cat)"), ["ls a", "cat", "diff"]);
    assert_eq!(statements("echo \"<(ls)\""), ["echo \"<(ls)\""]);
    assert_eq!(statements("echo `rm x` y"), ["rm x", "echo  y"]);
    assert_eq!(statements("echo '$(rm x)' '`rm y`'"), ["echo '$(rm x)' '`rm y`'"]);
    assert_eq!(statements("echo $(a $(b ')') c"), ["b ')'", "a  c", "echo"]);
}

#[test]
fn a_parenthesis_is_matched_from_any_position() {
    let at = |text: &str, start: usize| {
        find_matching_paren(&text.chars().collect::<Vec<char>>(), start)
    };
    assert_eq!(at("a)b", 0), 1);
    assert_eq!(at("(a)b)", 0), 4);
    assert_eq!(at("$(a ')' \")\" \\) b)", 2), 16);
    assert_eq!(at("((", 0), 2);
    assert_eq!(at("", 0), 0);
    assert_eq!(at("a\\", 0), 3);
}

#[test]
fn a_busy_gpu_is_never_idle() {
    let targets = words(&["GPU-a", "GPU-b"]);
    let mut idle_since = Keyed::new();
    for hour in 0..24 {
        let at = hour * 3_600_000_000_000;
        let due = update_idle_state(&targets, &words(&["GPU-a"]), &mut idle_since, at, 60);
        assert!(!due.contains(&"GPU-a".to_string()));
    }
}

#[test]
fn shells_are_found_behind_env() {
    assert_eq!(shell_command_index(&words(&["/bin/bash", "-c"])), Some(0));
    assert_eq!(shell_command_index(&words(&["env", "-i", "A=sh", "x", "sh"])), Some(4));
    assert_eq!(shell_command_index(&words(&["sudo", "sh"])), None);
    assert_eq!(shell_command_index(&words(&[])), None);
    assert!(is_shell_c_invocation(&words(&["sh", "-xc", "ls"])));
    assert!(!is_shell_c_invocation(&words(&["sh", "x", "-c"])));
    assert!(has_shell_c_wrapper("ls; zsh -c 'rm x'"));
    assert!(!has_shell_c_wrapper("echo sh -c"));
    assert!(has_ansi_c_quote("echo $'x'"));
    assert!(!has_ansi_c_quote("echo \"$'x'\""));
    assert!(has_shell_escape_in_word("r\\m x"));
    assert!(!has_shell_escape_in_word("echo 'a\\b'"));
    assert!(has_unsupported_shell_grouping("(ls)"));
    assert!(!has_unsupported_shell_grouping("echo $(ls)"));
}

#[test]
fn a_quoted_argument_is_one_word_again() {
    for text in ["", "a b", "it's", "'", "''x", "$(rm) `x` \\ \"", "界\n"] {
        let quoted = shell_single_quote(text);
        assert_eq!(shell_words::split(&quoted).unwrap(), [text.to_string()]);
    }
}

#[test]
fn an_allow_filter_and_a_deny_filter_are_opposites() {
    let compiled = |mode, items: &[&str]| {
        CompiledToolFilter::compile(&ToolFilter { mode, items: words(items) }).unwrap()
    };
    let items = ["@read", " Kill-Pane "];
    let allow = compiled(ToolFilterMode::Allow, &items);
    let deny = compiled(ToolFilterMode::Deny, &items);
    for tool in ["list-panes", "get-command-result", "kill-pane", "kill-window", "send-keys"] {
        assert_eq!(allow.allows(tool), !deny.allows(tool), "{tool}");
    }
    assert!(allow.allows("show-buffer"));
    assert!(compiled(ToolFilterMode::Deny, &[]).allows("kill-pane"));
    assert!(!compiled(ToolFilterMode::Allow, &[]).allows("kill-pane"));
    assert!(CompiledToolFilter::none().allows("kill-pane"));
    assert!(is_known_group("all") && is_known_group("raw-input") && !is_known_group("raw"));
    let buffers = tool_class("list-buffers").unwrap();
    for group in ["list", "buffer-read", "read"] {
        assert!(class_in_group(buffers, group));
    }
    assert!(!class_in_group(buffers, "buffer-write"));
}

#[test]
fn the_core_group_holds_the_core_tools_and_no_others() {
    let filter = ToolFilter {
        mode: ToolFilterMode::Allow,
        items: words(&["@agent-core", "@move"]),
    };
    let compiled = CompiledToolFilter::compile(&filter).unwrap();
    for tool in ["capture-pane", "execute-command", "move-window"] {
        assert!(compiled.allows(tool), "{tool}");
    }
    let core = CompiledToolFilter::compile(&ToolFilter {
        mode: ToolFilterMode::Allow,
        items: words(&["@agent-core"]),
    })
    .unwrap();
    for tool in [
        "get-tmux-state", "capture-pane", "list-directory", "read-file", "find-files",
        "search-text", "git-status", "git-diff", "git-log", "git-show", "execute-command",
        "get-command-result", "create-session", "create-window", "split-pane", "send-keys",
        "paste-text", "press-special-key", "watch-gpu-idle", "get-gpu-watch", "stop-gpu-watch",
        "list-targets", "file-stat", "gpu-snapshot",
    ] {
        assert!(core.allows(tool), "{tool}");
    }
    for tool in [
        "list-sessions", "send-hex", "move-window", "kill-target", "rename-target", "show-buffer",
        "detach-client", "send-enter", "no-such-tool",
    ] {
        assert!(!core.allows(tool), "{tool}");
    }
    for group in [
        "agent-core", "read", "file-read", "git-read", "buffer-read", "buffer-write", "list",
        "capture", "create", "split", "kill", "execute", "gpu-monitor", "rename", "move",
        "interactive", "special-keys", "raw-input", "socket", "all",
    ] {
        assert!(is_known_group(group), "{group}");
    }
}

#[test]
fn tools_without_a_permission_of_their_own_are_left_to_the_filter() {
    let policy = SecurityPolicy::from_config(SecurityConfig {
        allow_kill: false,
        allow_send_keys: false,
        allow_rename: false,
        allow_list: false,
        ..Default::default()
    })
    .unwrap();
    for tool in ["kill-pane", "send-enter", "rename-pane", "list-panes"] {
        assert!(policy.check_tool(tool).is_err(), "{tool}");
    }
    for tool in [
        "kill-target", "press-special-key", "rename-target", "get-tmux-state", "list-targets",
        "read-file", "git-log", "gpu-snapshot",
    ] {
        assert!(policy.check_tool(tool).is_ok(), "{tool}");
    }
}

#[test]
fn an_allowlist_and_a_denylist_are_opposites() {
    let policy = |mode, enabled| {
        SecurityPolicy::from_config(SecurityConfig {
            enabled,
            command_filter: CommandFilter { mode, patterns: words(&["^ls", "^git"]) },
            ..Default::default()
        })
        .unwrap()
    };
    let allow = policy(CommandFilterMode::Allowlist, true);
    let deny = policy(CommandFilterMode::Denylist, true);
    let disabled = policy(CommandFilterMode::Denylist, false);
    for command in ["ls -l", "git status", "rm -rf x", "echo ls"] {
        assert_eq!(allow.check_command(command).is_ok(), deny.check_command(command).is_err());
        assert!(disabled.check_command(command).is_ok());
    }
    assert!(allow.check_command("ls; git log").is_ok());
    assert!(allow.check_command("ls; rm x").is_err());
}

#[test]
fn what_is_written_to_the_state_directory_is_read_back() {
    for mode in [GateMode::Tools, GateMode::Approval] {
        let content = gate_content(mode).unwrap().to_string();
        assert_eq!(StatePaths::gate_mode(&GateFile::Content(content)), mode);
    }
    let token = new_token();
    assert_eq!(validate_token(&format!(" {token}\r\n")), Ok(token));
}

#[test]
fn an_idle_timer_keeps_its_start() {
    let targets = words(&["GPU-a"]);
    let mut idle_since = Keyed::new();
    for second in [10, 20, 30] {
        let due = update_idle_state(&targets, &vec![], &mut idle_since, second * 1_000_000_000, 20);
        assert_eq!(due.is_empty(), second < 30);
        assert_eq!(idle_since.get("GPU-a"), Some(&10_000_000_000));
    }
}
