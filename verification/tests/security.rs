use tmux_mcp::errors::Error;
use tmux_mcp::security::{
    BufferPath, CommandFilter, CommandFilterMode, SecurityConfig, SecurityPolicy, ToolFilter,
    ToolFilterMode,
};
use tmux_mcp::tools::tool_filter_from_value;

#[test]
fn test_default_policy_allows_all() {
    let policy = SecurityPolicy::default();
    assert!(policy.check_tool("execute-command").is_ok());
    assert!(policy.check_tool("send-keys").is_ok());
    assert!(policy.check_tool("kill-session").is_ok());
    assert!(policy.check_command("rm -rf /").is_ok());
    assert!(policy.check_session("any-session").is_ok());
    assert!(policy.check_pane("%99").is_ok());
}

#[test]
fn test_tool_denial() {
    let config = SecurityConfig {
        enabled: true,
        allow_kill: false,
        ..Default::default()
    };
    let policy = SecurityPolicy::from_config(config).expect("compile policy");

    assert!(policy.check_tool("kill-session").is_err());
    assert!(policy.check_tool("kill-window").is_err());
    assert!(policy.check_tool("kill-pane").is_err());
    assert!(policy.check_tool("execute-command").is_ok());
}

#[test]
fn test_command_allowlist() {
    let config = SecurityConfig {
        enabled: true,
        command_filter: CommandFilter {
            mode: CommandFilterMode::Allowlist,
            patterns: vec!["^git ".to_string(), "^ls".to_string()],
        },
        ..Default::default()
    };
    let policy = SecurityPolicy::from_config(config).expect("compile policy");

    assert!(policy.check_command("git status").is_ok());
    assert!(policy.check_command("ls -la").is_ok());
    assert!(policy.check_command("rm -rf /").is_err());
}

#[test]
fn test_command_denylist() {
    let config = SecurityConfig {
        enabled: true,
        command_filter: CommandFilter {
            mode: CommandFilterMode::Denylist,
            patterns: vec!["^rm ".to_string(), "^sudo".to_string()],
        },
        ..Default::default()
    };
    let policy = SecurityPolicy::from_config(config).expect("compile policy");

    assert!(policy.check_command("git status").is_ok());
    assert!(policy.check_command("rm -rf /").is_err());
    assert!(policy.check_command("sudo apt install").is_err());
}

#[test]
fn test_command_filter_checks_each_non_empty_line() {
    let config = SecurityConfig {
        enabled: true,
        command_filter: CommandFilter {
            mode: CommandFilterMode::Denylist,
            patterns: vec!["^rm ".to_string()],
        },
        ..Default::default()
    };
    let policy = SecurityPolicy::from_config(config).expect("compile policy");

    assert!(policy.check_command("echo ok\nrm -rf /").is_err());
    assert!(policy.check_command("echo ok\r\nrm -rf /").is_err());
    assert!(policy.check_command("echo ok\n\nprintf done").is_ok());
}

#[test]
fn test_command_allowlist_checks_each_non_empty_line() {
    let config = SecurityConfig {
        enabled: true,
        command_filter: CommandFilter {
            mode: CommandFilterMode::Allowlist,
            patterns: vec!["^echo ".to_string(), "^printf ".to_string()],
        },
        ..Default::default()
    };
    let policy = SecurityPolicy::from_config(config).expect("compile policy");

    assert!(policy.check_command("echo ok\nprintf done").is_ok());
    assert!(policy.check_command("echo ok\nrm -rf /").is_err());
}

#[test]
fn test_command_filter_blocks_chained_statements() {
    let config = SecurityConfig {
        enabled: true,
        command_filter: CommandFilter {
            mode: CommandFilterMode::Denylist,
            patterns: vec!["^rm ".to_string()],
        },
        ..Default::default()
    };
    let policy = SecurityPolicy::from_config(config).expect("compile policy");

    // Semicolon, pipe, and ampersand chaining must not smuggle past the filter.
    assert!(policy.check_command("true; rm -rf /").is_err());
    assert!(policy.check_command("true | rm -rf /").is_err());
    assert!(policy.check_command("true && rm -rf /").is_err());
    assert!(policy.check_command("true & rm -rf /").is_err());
    // Command substitution must also be screened.
    assert!(policy.check_command("echo $(rm -rf /)").is_err());
    assert!(policy.check_command("echo `rm -rf /`").is_err());
    // Plain allowed command still passes.
    assert!(policy.check_command("true; echo ok").is_ok());
}

#[test]
fn test_command_filter_blocks_process_substitution_statements() {
    let deny_config = SecurityConfig {
        enabled: true,
        command_filter: CommandFilter {
            mode: CommandFilterMode::Denylist,
            patterns: vec!["^rm ".to_string()],
        },
        ..Default::default()
    };
    let deny_policy = SecurityPolicy::from_config(deny_config).expect("compile policy");

    assert!(deny_policy.check_command("cat <(rm -rf /)").is_err());
    assert!(deny_policy.check_command("cat >(rm -rf /)").is_err());
    assert!(deny_policy.check_command("cat <(printf ok)").is_ok());
    assert!(deny_policy.check_command("echo \"<(rm -rf /)\"").is_ok());

    let allow_config = SecurityConfig {
        enabled: true,
        command_filter: CommandFilter {
            mode: CommandFilterMode::Allowlist,
            patterns: vec!["^cat".to_string(), "^printf ".to_string()],
        },
        ..Default::default()
    };
    let allow_policy = SecurityPolicy::from_config(allow_config).expect("compile policy");

    assert!(allow_policy.check_command("cat <(printf ok)").is_ok());
    assert!(allow_policy.check_command("cat <(rm -rf /)").is_err());
}

#[test]
fn test_command_allowlist_blocks_chained_statements() {
    let config = SecurityConfig {
        enabled: true,
        command_filter: CommandFilter {
            mode: CommandFilterMode::Allowlist,
            patterns: vec!["^git ".to_string()],
        },
        ..Default::default()
    };
    let policy = SecurityPolicy::from_config(config).expect("compile policy");

    assert!(policy.check_command("git status").is_ok());
    assert!(policy.check_command("git status; git log").is_ok());
    // A disallowed statement chained after an allowed prefix is rejected.
    assert!(policy.check_command("git status; rm -rf /").is_err());
    assert!(policy.check_command("git status && curl evil").is_err());
}

#[test]
fn test_command_filter_respects_single_quotes() {
    let config = SecurityConfig {
        enabled: true,
        command_filter: CommandFilter {
            mode: CommandFilterMode::Denylist,
            patterns: vec!["^rm ".to_string()],
        },
        ..Default::default()
    };
    let policy = SecurityPolicy::from_config(config).expect("compile policy");

    // Inside single quotes the shell does not split or substitute, so the
    // literal text is not a separate statement.
    assert!(policy.check_command("echo 'true; rm -rf /'").is_ok());
    assert!(policy.check_command("echo '$(rm -rf /)'").is_ok());
}

#[test]
fn test_command_filter_treats_single_quote_inside_double_quotes_as_literal() {
    let deny_config = SecurityConfig {
        enabled: true,
        command_filter: CommandFilter {
            mode: CommandFilterMode::Denylist,
            patterns: vec!["^rm ".to_string()],
        },
        ..Default::default()
    };
    let deny_policy = SecurityPolicy::from_config(deny_config).expect("compile policy");

    assert!(deny_policy.check_command("echo \"'\"; rm -rf /").is_err());
    assert!(deny_policy.check_command("echo \"'\"; printf ok").is_ok());

    let allow_config = SecurityConfig {
        enabled: true,
        command_filter: CommandFilter {
            mode: CommandFilterMode::Allowlist,
            patterns: vec!["^echo ".to_string(), "^printf ".to_string()],
        },
        ..Default::default()
    };
    let allow_policy = SecurityPolicy::from_config(allow_config).expect("compile policy");

    assert!(allow_policy.check_command("echo \"'\"; printf ok").is_ok());
    assert!(allow_policy.check_command("echo \"'\"; rm -rf /").is_err());
}

#[test]
fn test_session_restriction() {
    let config = SecurityConfig {
        enabled: true,
        allowed_sessions: Some(vec!["work".to_string(), "dev".to_string()]),
        ..Default::default()
    };
    let policy = SecurityPolicy::from_config(config).expect("compile policy");

    assert!(policy.check_session("work").is_ok());
    assert!(policy.check_session("dev").is_ok());
    assert!(policy.check_session("personal").is_err());
}

#[test]
fn test_pane_restriction() {
    let config = SecurityConfig {
        enabled: true,
        allowed_panes: Some(vec!["%1".to_string(), "%2".to_string()]),
        ..Default::default()
    };
    let policy = SecurityPolicy::from_config(config).expect("compile policy");

    assert!(policy.check_pane("%1").is_ok());
    assert!(policy.check_pane("%2").is_ok());
    assert!(policy.check_pane("%99").is_err());
}

#[test]
fn test_socket_restriction() {
    let config = SecurityConfig {
        enabled: true,
        allowed_sockets: Some(vec!["/tmp/allowed.sock".to_string()]),
        ..Default::default()
    };
    let policy = SecurityPolicy::from_config(config).expect("compile policy");

    assert!(policy.check_socket(Some("/tmp/allowed.sock")).is_ok());
    assert!(policy.check_socket(Some("/tmp/other.sock")).is_err());
    assert!(policy.check_socket(None).is_err());
}

#[test]
fn test_disabled_security_allows_all() {
    let config = SecurityConfig {
        enabled: false,
        allow_kill: false,
        allowed_sessions: Some(vec!["only-this".to_string()]),
        command_filter: CommandFilter {
            mode: CommandFilterMode::Denylist,
            patterns: vec![".*".to_string()],
        },
        ..Default::default()
    };
    let policy = SecurityPolicy::from_config(config).expect("compile policy");

    assert!(policy.check_tool("kill-session").is_ok());
    assert!(policy.check_command("anything").is_ok());
    assert!(policy.check_session("other-session").is_ok());
    assert!(policy.check_pane("%9").is_ok());
    assert!(policy.check_socket(Some("/tmp/ignored.sock")).is_ok());
    assert!(policy.check_raw_mode().is_ok());
}

#[test]
fn test_check_tool_allows_unknown() {
    let policy = SecurityPolicy::default();
    assert!(policy.check_tool("unknown-tool").is_ok());
}

#[test]
fn test_tool_filter_denies_exact_tools() {
    let config = SecurityConfig {
        tools: ToolFilter {
            mode: ToolFilterMode::Deny,
            items: vec!["kill-session".to_string(), "paste-text".to_string()],
        },
        ..Default::default()
    };
    let policy = SecurityPolicy::from_config(config).expect("compile policy");

    assert!(policy.check_tool("kill-session").is_err());
    assert!(policy.check_tool("paste-text").is_err());
    assert!(policy.check_tool("execute-command").is_ok());
}

#[test]
fn test_tool_filter_allows_only_list_group() {
    let config = SecurityConfig {
        tools: ToolFilter {
            mode: ToolFilterMode::Allow,
            items: vec!["@list".to_string()],
        },
        ..Default::default()
    };
    let policy = SecurityPolicy::from_config(config).expect("compile policy");

    assert!(policy.check_tool("list-sessions").is_ok());
    assert!(policy.check_tool("find-session").is_ok());
    assert!(policy.check_tool("capture-pane").is_err());
    assert!(policy.check_tool("execute-command").is_err());
}

#[test]
fn test_tool_filter_group_denies_raw_input() {
    let config = SecurityConfig {
        tools: ToolFilter {
            mode: ToolFilterMode::Deny,
            items: vec!["@raw-input".to_string()],
        },
        ..Default::default()
    };
    let policy = SecurityPolicy::from_config(config).expect("compile policy");

    assert!(policy.check_tool("send-keys").is_err());
    assert!(policy.check_tool("send-enter").is_err());
    assert!(policy.check_tool("execute-command").is_ok());
}

#[test]
fn test_tool_filter_rejects_unknown_items() {
    let config = SecurityConfig {
        tools: ToolFilter {
            mode: ToolFilterMode::Deny,
            items: vec!["missing-tool".to_string()],
        },
        ..Default::default()
    };

    let err = SecurityPolicy::from_config(config).unwrap_err();
    assert!(matches!(
        err,
        Error::Config { message } if message.contains("unknown tool 'missing-tool'")
    ));
}

#[test]
fn test_tool_filter_rejects_unknown_groups() {
    let config = SecurityConfig {
        tools: ToolFilter {
            mode: ToolFilterMode::Deny,
            items: vec!["@missing".to_string()],
        },
        ..Default::default()
    };

    let err = SecurityPolicy::from_config(config).unwrap_err();
    assert!(matches!(
        err,
        Error::Config { message } if message.contains("unknown tool group '@missing'")
    ));
}

#[test]
fn test_disabled_security_ignores_tool_filter() {
    let config = SecurityConfig {
        enabled: false,
        tools: ToolFilter {
            mode: ToolFilterMode::Allow,
            items: Vec::new(),
        },
        ..Default::default()
    };
    let policy = SecurityPolicy::from_config(config).expect("compile policy");

    assert!(policy.check_tool("execute-command").is_ok());
    assert!(policy.check_tool("send-keys").is_ok());
}

#[test]
fn test_check_buffer_path_rejects_absolute_path_by_default() {
    let policy = SecurityPolicy::default();

    let err = policy.local_buffer_lookup("/etc/passwd").unwrap_err();
    assert!(matches!(
        err,
        Error::PolicyDenied { message } if message.contains("/etc/passwd")
            && message.contains("must be relative")
    ));
}

#[test]
fn test_check_buffer_path_rejects_parent_traversal() {
    let policy = SecurityPolicy::default();

    let err = policy
        .local_buffer_lookup("tests/fixtures/../old-man-and-the-sea.txt")
        .unwrap_err();
    assert!(matches!(
        err,
        Error::PolicyDenied { message } if message.contains("parent directory traversal")
    ));
}

#[test]
fn test_remote_buffer_path_uses_remote_canonical_allowlist() {
    let config = SecurityConfig {
        enabled: true,
        allowed_buffer_paths: Some(vec!["/remote/allowed".to_string()]),
        ..Default::default()
    };
    let policy = SecurityPolicy::from_config(config).expect("compile policy");

    let resolved = policy
        .resolve_remote_buffer_path(
            "/remote/allowed/file.txt",
            "/remote/allowed/file.txt",
            &["/remote/allowed".to_string()],
        )
        .expect("resolve remote path");
    assert_eq!(resolved, "/remote/allowed/file.txt");
}

#[test]
fn test_remote_buffer_path_rejects_remote_symlink_escape() {
    let config = SecurityConfig {
        enabled: true,
        allowed_buffer_paths: Some(vec!["/remote/allowed".to_string()]),
        ..Default::default()
    };
    let policy = SecurityPolicy::from_config(config).expect("compile policy");

    let err = policy
        .resolve_remote_buffer_path(
            "/remote/allowed/link.txt",
            "/remote/secret.txt",
            &["/remote/allowed".to_string()],
        )
        .unwrap_err();
    assert!(matches!(
        err,
        Error::PolicyDenied { message } if message.contains("not under allowed buffer paths")
    ));
}

#[test]
fn test_remote_default_buffer_path_is_anchored_to_safe_dir() {
    let policy = SecurityPolicy::default();
    assert_eq!(
        policy.remote_buffer_path_candidate("fixture.txt").unwrap(),
        "/tmp/tmux-mcp-buffers/fixture.txt"
    );

    let resolved = policy
        .resolve_remote_buffer_path(
            "fixture.txt",
            "/tmp/tmux-mcp-buffers/fixture.txt",
            &["/tmp/tmux-mcp-buffers".to_string()],
        )
        .expect("resolve remote default path");
    assert_eq!(resolved, "/tmp/tmux-mcp-buffers/fixture.txt");

    let err = policy
        .resolve_remote_buffer_path(
            "fixture.txt",
            "/home/user/.ssh/id_rsa",
            &["/tmp/tmux-mcp-buffers".to_string()],
        )
        .unwrap_err();
    assert!(matches!(
        err,
        Error::PolicyDenied { message } if message.contains("not under allowed buffer paths")
    ));
}

#[test]
fn test_remote_default_buffer_path_rejects_unsafe_input_before_canonicalization() {
    let policy = SecurityPolicy::default();

    let absolute = policy
        .remote_buffer_path_candidate("/etc/passwd")
        .unwrap_err();
    assert!(matches!(
        absolute,
        Error::PolicyDenied { message } if message.contains("must be relative")
    ));

    let traversal = policy
        .remote_buffer_path_candidate("../secret")
        .unwrap_err();
    assert!(matches!(
        traversal,
        Error::PolicyDenied { message } if message.contains("parent directory traversal")
    ));
}

#[test]
fn test_disabled_security_allows_absolute_buffer_path() {
    let config = SecurityConfig {
        enabled: false,
        ..Default::default()
    };
    let policy = SecurityPolicy::from_config(config).expect("compile policy");

    assert_eq!(
        policy.local_buffer_lookup("/etc/passwd").unwrap(),
        BufferPath::Unchecked("/etc/passwd".to_string())
    );
}

#[test]
fn local_paths_must_lie_under_an_allowed_directory() {
    let config = SecurityConfig {
        allowed_buffer_paths: Some(vec!["/srv/allowed".to_string()]),
        ..Default::default()
    };
    let policy = SecurityPolicy::from_config(config).expect("compile policy");
    assert_eq!(
        policy.local_buffer_lookup("/srv/allowed/file.txt").unwrap(),
        BufferPath::AsGiven
    );
    let dirs = ["/srv/allowed".to_string()];
    assert_eq!(
        policy
            .resolve_local_buffer_path(
                "/srv/allowed/file.txt",
                Ok("/srv/allowed/file.txt".to_string()),
                &dirs,
            )
            .unwrap(),
        "/srv/allowed/file.txt"
    );
    for outside in ["/srv/allowed-not/file.txt", "/srv/secret.txt", "/"] {
        let err = policy
            .resolve_local_buffer_path("/srv/allowed/link.txt", Ok(outside.to_string()), &dirs)
            .unwrap_err();
        assert!(matches!(
            err,
            Error::PolicyDenied { message } if message.contains("not under allowed buffer paths")
        ));
    }
    let err = policy
        .resolve_local_buffer_path("/srv/allowed/none", Err("no such file".to_string()), &dirs)
        .unwrap_err();
    assert_eq!(
        err.to_string(),
        "policy denied: buffer path '/srv/allowed/none' is not accessible: no such file"
    );
}

#[test]
fn default_local_paths_are_looked_up_below_the_default_directory() {
    let policy = SecurityPolicy::default();
    assert!(policy.check_raw_mode().is_ok());
    assert_eq!(
        policy.local_buffer_lookup("notes/fixture.txt").unwrap(),
        BufferPath::BelowDefault
    );
    assert_eq!(
        policy.remote_buffer_allowlist_candidates(),
        vec!["/tmp/tmux-mcp-buffers".to_string()]
    );
}

#[test]
fn a_bad_pattern_is_reported_in_the_words_of_the_regex_crate() {
    let config = SecurityConfig {
        command_filter: CommandFilter {
            mode: CommandFilterMode::Denylist,
            patterns: vec!["ok".to_string(), "(".to_string()],
        },
        ..Default::default()
    };
    match SecurityPolicy::from_config(config) {
        Err(Error::Config { message }) => {
            assert!(message.starts_with("invalid regex pattern: "));
            assert!(message.contains("unclosed group"));
        }
        other => panic!("unexpected: {other:?}"),
    }
}

#[test]
fn syntax_that_the_filter_cannot_follow_is_denied() {
    let config = SecurityConfig {
        command_filter: CommandFilter {
            mode: CommandFilterMode::Denylist,
            patterns: vec!["^rm ".to_string()],
        },
        ..Default::default()
    };
    let policy = SecurityPolicy::from_config(config).expect("compile policy");
    for (command, message) in [
        ("echo $'a'", "policy denied: command filter rejects ANSI-C quoted strings ($'...')"),
        ("r\\m -rf /", "policy denied: command filter rejects backslash escapes in command words"),
        ("(rm -rf /)", "policy denied: command filter rejects grouped shell commands"),
        ("{ rm -rf /; }", "policy denied: command filter rejects grouped shell commands"),
        ("bash -c 'rm -rf /'", "policy denied: command filter rejects shell -c wrappers"),
        ("env A=1 /bin/sh -lc true", "policy denied: command filter rejects shell -c wrappers"),
    ] {
        assert_eq!(policy.check_command(command).unwrap_err().to_string(), message);
    }
    assert!(policy.check_command("bash script.sh -c").is_ok());
    assert!(policy.check_command("echo 'bash -c x'").is_ok());
    assert_eq!(
        policy.check_command("ls; rm -rf /").unwrap_err().to_string(),
        "policy denied: command 'rm -rf /' is in the denylist"
    );
}

#[test]
fn an_allowlist_judges_an_empty_command_as_it_is() {
    let config = SecurityConfig {
        command_filter: CommandFilter {
            mode: CommandFilterMode::Allowlist,
            patterns: vec!["^git ".to_string()],
        },
        ..Default::default()
    };
    let policy = SecurityPolicy::from_config(config).expect("compile policy");
    assert_eq!(
        policy.check_command("  ;  ").unwrap_err().to_string(),
        "policy denied: command ';' is not in the allowlist"
    );
}

#[test]
fn denials_name_what_is_denied() {
    let config = SecurityConfig {
        allow_raw_mode: false,
        allowed_sessions: Some(vec!["$1".to_string()]),
        allowed_sockets: Some(vec![]),
        allow_kill: false,
        ..Default::default()
    };
    let policy = SecurityPolicy::from_config(config).expect("compile policy");
    assert!(policy.has_session_allowlist());
    assert!(!policy.has_pane_allowlist());
    assert_eq!(
        policy.check_raw_mode().unwrap_err().to_string(),
        "policy denied: raw mode is not allowed by security policy"
    );
    assert!(policy.check_session_identity("$9", Some("$1")).is_ok());
    assert_eq!(
        policy.check_session_identity("$9", Some("work")).unwrap_err().to_string(),
        "policy denied: session '$9' (name 'work') is not in allowed sessions list"
    );
    assert_eq!(
        policy.check_socket(None).unwrap_err().to_string(),
        "policy denied: effective socket is not in allowed sockets list"
    );
    assert_eq!(
        policy.check_tool("kill-pane").unwrap_err().to_string(),
        "policy denied: tool 'kill-pane' is not allowed by security policy"
    );
}

#[test]
fn the_environment_can_replace_the_tool_filter() {
    assert_eq!(tool_filter_from_value("  ").unwrap(), None);
    let allow = tool_filter_from_value(" Allow: @list , ,send-keys").unwrap().unwrap();
    assert_eq!(allow.mode, ToolFilterMode::Allow);
    assert_eq!(allow.items, vec!["@list".to_string(), "send-keys".to_string()]);
    let deny = tool_filter_from_value("kill-pane").unwrap().unwrap();
    assert_eq!(deny.mode, ToolFilterMode::Deny);
    assert_eq!(
        tool_filter_from_value("only:x").unwrap_err().to_string(),
        "config error: invalid TMUX_MCP_TOOLS mode 'only', expected 'allow:' or 'deny:'"
    );
    let policy =
        SecurityPolicy::from_config_with_override(SecurityConfig::default(), Some(allow)).unwrap();
    assert!(policy.check_tool("list-panes").is_ok());
    assert_eq!(
        policy.check_tool("kill-pane").unwrap_err().to_string(),
        "policy denied: tool 'kill-pane' is not allowed by configured tool filter"
    );
}

#[test]
fn test_check_buffer_path_resolves_default_relative_path_under_safe_dir() {
    let policy = SecurityPolicy::default();
    let name = "tmux-mcp-test-1-fixture.txt";
    assert_eq!(policy.local_buffer_lookup(name).unwrap(), BufferPath::BelowDefault);
    let dirs = ["/tmp/tmux-mcp-buffers".to_string()];
    let canonical = format!("/tmp/tmux-mcp-buffers/{name}");
    let resolved = policy
        .resolve_local_buffer_path(name, Ok(canonical.clone()), &dirs)
        .expect("resolve default buffer path");
    assert_eq!(resolved, canonical);
}

#[test]
fn test_check_buffer_path_rejects_default_relative_path_outside_safe_dir() {
    let policy = SecurityPolicy::default();
    let dirs = ["/tmp/tmux-mcp-buffers".to_string()];
    for canonical in [Err("No such file".to_string()), Ok("/etc/passwd".to_string())] {
        let err = policy
            .resolve_local_buffer_path("etc/passwd", canonical, &dirs)
            .unwrap_err();
        assert!(matches!(
            err,
            Error::PolicyDenied { message } if message.contains("etc/passwd")
        ));
    }
}

#[test]
fn test_check_buffer_path_honors_allowed_buffer_paths() {
    let config = SecurityConfig {
        allowed_buffer_paths: Some(vec!["/srv/allowed".to_string()]),
        ..Default::default()
    };
    let policy = SecurityPolicy::from_config(config).expect("compile policy");
    let dirs = ["/srv/allowed".to_string()];
    let fixture = "/srv/allowed/fixture.txt";
    let resolved = policy
        .resolve_local_buffer_path(fixture, Ok(fixture.to_string()), &dirs)
        .expect("resolve allowed path");
    assert_eq!(resolved, fixture);
    let err = policy
        .resolve_local_buffer_path("/etc/passwd", Ok("/etc/passwd".to_string()), &dirs)
        .unwrap_err();
    assert!(matches!(
        err,
        Error::PolicyDenied { message } if message.contains("not under allowed buffer paths")
    ));
}

#[test]
fn test_check_buffer_path_rejects_allowed_symlink_escape() {
    let config = SecurityConfig {
        allowed_buffer_paths: Some(vec!["/srv/allowed".to_string()]),
        ..Default::default()
    };
    let policy = SecurityPolicy::from_config(config).expect("compile policy");
    let outside = Ok("/srv/outside/secret.txt".to_string());
    let dirs = ["/srv/allowed".to_string()];
    let err = policy
        .resolve_local_buffer_path("/srv/allowed/link.txt", outside, &dirs)
        .unwrap_err();
    assert!(matches!(
        err,
        Error::PolicyDenied { message } if message.contains("not under allowed buffer paths")
    ));
}
