use tmux_mcp::control::{
    check_web_url, default_state_dir, gate_content, gate_mode_for, new_token,
    settle_authorization, token_of, validate_token, validate_web_url, ActionKind, ActionRecord, ActionStatus, ArgumentValue,
    Arguments, GateDecision, GateFile, GateMode, StatePaths, WebUrl, AGENT_RECORD_MAX_BYTES,
};
use tmux_mcp::control_client::ControlClient;
use tmux_mcp::types::{CommandSnapshot, CommandStatus, SNAPSHOT_SCHEMA_VERSION};

fn arguments(values: &[(&str, &str)]) -> Arguments {
    let mut arguments = Arguments::none();
    for (name, text) in values {
        arguments.set(name, ArgumentValue::Text(text.to_string()));
    }
    arguments
}

fn snapshot(id: &str, command: &str, output: &str) -> CommandSnapshot {
    CommandSnapshot {
        command_id: id.into(),
        resource_uri: format!("tmux://command/{id}/result"),
        status: CommandStatus::Completed,
        exit_code: Some(0),
        command: command.into(),
        pane_id: "%3".into(),
        socket: None,
        output: Some(output.into()),
        output_truncated: false,
        elapsed_ms: 12,
        reason: None,
        wait_timed_out: None,
        schema_version: SNAPSHOT_SCHEMA_VERSION,
    }
}

#[test]
fn action_record_classifies_tools_and_extracts_exact_targets() {
    let record = ActionRecord::new(
        "Codex",
        "execute-command",
        arguments(&[
            ("socket", "/tmp/agent.sock"),
            ("sessionId", "$1"),
            ("windowId", "@2"),
            ("paneId", "%3"),
            ("command", "printf ok"),
        ]),
        1,
    );

    assert_eq!(record.kind, ActionKind::Command);
    assert_eq!(record.status, ActionStatus::Requested);
    assert_eq!(record.source, "Codex");
    assert_eq!(record.target.socket.as_deref(), Some("/tmp/agent.sock"));
    assert_eq!(record.target.session_id.as_deref(), Some("$1"));
    assert_eq!(record.target.window_id.as_deref(), Some("@2"));
    assert_eq!(record.target.pane_ids, vec!["%3"]);
    assert_eq!(
        record.target.pane_ids.first().map(String::as_str),
        Some("%3")
    );
    assert_eq!(record.id.len(), 36);
}

#[test]
fn input_and_operation_tools_have_distinct_kinds() {
    let input = ActionRecord::new("Agent", "send-enter", arguments(&[("paneId", "%9")]), 1);
    let operation = ActionRecord::new("Agent", "split-pane", arguments(&[("paneId", "%9")]), 1);

    assert_eq!(input.kind, ActionKind::Input);
    assert_eq!(operation.kind, ActionKind::Operation);
}

#[test]
fn target_collects_both_panes_without_duplicates() {
    let record = ActionRecord::new(
        "Codex",
        "swap-pane",
        arguments(&[("sourcePaneId", "%1"), ("targetPaneId", "%2"), ("paneId", "%1")]),
        1,
    );

    assert_eq!(record.target.pane_ids, vec!["%1", "%2"]);
}

#[test]
fn empty_or_encoded_arguments_aim_at_nothing() {
    let mut values = arguments(&[("paneId", "")]);
    values.set("sessionId", ArgumentValue::Encoded("7".to_string()));
    let record = ActionRecord::new("Codex", "kill-session", values, 1);
    assert!(record.target.pane_ids.is_empty());
    assert_eq!(record.target.session_id, None);
    let other = ActionRecord::new("Codex", "x", Arguments::Encoded("[1]".to_string()), 1);
    assert!(other.target.pane_ids.is_empty());
}

#[test]
fn gate_file_is_absent_by_default_and_toggles_explicitly() {
    assert!(!StatePaths::gate_enabled(&GateFile::Missing));
    for enabled in [true, false] {
        let mode = gate_mode_for(None, Some(enabled)).unwrap();
        let file = match gate_content(mode) {
            Some(text) => GateFile::Content(text.to_string()),
            None => GateFile::Missing,
        };
        assert_eq!(StatePaths::gate_enabled(&file), enabled);
    }
    for mode in [GateMode::Off, GateMode::Tools, GateMode::Approval] {
        let file = match gate_content(mode) {
            Some(text) => GateFile::Content(text.to_string()),
            None => GateFile::Missing,
        };
        assert_eq!(StatePaths::gate_mode(&file), mode);
        assert_eq!(StatePaths::gate_enabled(&file), mode != GateMode::Off);
    }
    assert_eq!(StatePaths::gate_mode(&GateFile::Unreadable), GateMode::Approval);
    assert_eq!(
        StatePaths::gate_mode(&GateFile::Content("  tools".to_string())),
        GateMode::Tools
    );
}

#[test]
fn action_lifecycle_keeps_one_record_and_attaches_terminal_command() {
    let mut record = ActionRecord::new(
        "Codex",
        "execute-command",
        arguments(&[("paneId", "%3"), ("command", "printf ok")]),
        1,
    );
    let id = record.id.clone();

    record.mark_running(2);
    assert_eq!(record.status, ActionStatus::Running);

    record.mark_command(snapshot("cmd-1", "printf ok", "ok"), 3);

    assert_eq!(record.id, id);
    assert_eq!(record.status, ActionStatus::Completed);
    assert_eq!(record.updated_at_ms, 3);
    assert_eq!(record.arguments.text("command"), None);
    assert_eq!(record.arguments.text("paneId"), Some("%3"));
    assert_eq!(
        record
            .command_snapshot
            .as_ref()
            .and_then(|snapshot| snapshot.output.as_deref()),
        Some("ok")
    );
}

#[test]
fn a_command_text_that_differs_is_kept() {
    let mut record =
        ActionRecord::new("Codex", "execute-command", arguments(&[("command", "a")]), 1);
    let mut failed = snapshot("c", "b", "");
    failed.status = CommandStatus::TrackingError;
    record.mark_command(failed, 2);
    assert_eq!(record.arguments.text("command"), Some("a"));
    assert_eq!(record.status, ActionStatus::Failed);
}

#[test]
fn large_terminal_output_is_truncated_before_agent_record_upload() {
    let mut record = ActionRecord::new("Codex", "execute-command", arguments(&[]), 1);
    record.mark_command(snapshot("c", "x", "a界b"), 2);
    record.limit_output(AGENT_RECORD_MAX_BYTES - 1);
    let unchanged = record.command_snapshot.as_ref().unwrap();
    assert_eq!(unchanged.output.as_deref(), Some("a界b"));
    assert!(!unchanged.output_truncated);
    record.limit_output(AGENT_RECORD_MAX_BYTES + 1);
    let shortened = record.command_snapshot.as_ref().unwrap();
    assert_eq!(shortened.output.as_deref(), Some("a"));
    assert!(shortened.output_truncated);
    record.limit_output(2 * AGENT_RECORD_MAX_BYTES);
    assert_eq!(record.command_snapshot.unwrap().output.as_deref(), Some(""));
}

#[test]
fn token_is_created_once_and_reused() {
    let first = new_token();
    let second = validate_token(&format!("{first}\n")).expect("reuse token");

    assert_eq!(first, second);
    assert_eq!(first.len(), 64);
    assert_ne!(first, new_token());
    let (a, b) = first.split_at(32);
    for half in [a, b] {
        assert_eq!(&half[12..13], "4");
        assert!("89ab".contains(&half[16..17]));
    }
    assert_eq!(token_of(a, b), first);
    assert_ne!(token_of(b, a), first);
    assert_eq!(
        validate_token("short"),
        Err("control token must contain exactly 64 hexadecimal characters".to_string())
    );
    assert!(validate_token(&"g".repeat(64)).is_err());
}

#[test]
fn web_url_must_be_plain_http_on_loopback() {
    assert!(validate_web_url("http://127.0.0.1:38473").is_ok());
    assert!(validate_web_url("http://localhost:38473").is_ok());
    assert!(validate_web_url("https://127.0.0.1:38473").is_err());
    assert!(validate_web_url("http://example.com:38473").is_err());
}

#[test]
fn each_rejected_web_url_is_explained() {
    for (url, message) in [
        ("https://localhost", "web URL must use plain HTTP on loopback"),
        ("http://me@localhost", "web URL must not contain credentials"),
        ("http://:secret@localhost", "web URL must not contain credentials"),
        ("http://10.0.0.1", "web URL must use a loopback host"),
        ("http://127.0.0.1.example.com", "web URL must use a loopback host"),
    ] {
        assert_eq!(validate_web_url(url), Err(message.to_string()), "{url}");
    }
    assert!(validate_web_url("no url").unwrap_err().starts_with("invalid web URL: "));
    let hostless = WebUrl {
        text: "http:".to_string(),
        scheme: "http".to_string(),
        username: String::new(),
        password: None,
        host: None,
    };
    assert_eq!(
        check_web_url(Ok(hostless)),
        Err("web URL must include a loopback host".to_string())
    );
    let url = validate_web_url("HTTP://LocalHost:80/a").unwrap();
    assert_eq!(url.text, "http://localhost/a");
    assert_eq!(url.host.as_deref(), Some("localhost"));
}

#[test]
fn default_state_dir_has_a_tmux_mcp_leaf() {
    assert_eq!(
        default_state_dir(Some(""), Some("/state"), Some("/home/me"), "/tmp"),
        "/state/tmux-mcp"
    );
    assert_eq!(
        default_state_dir(None, None, Some("/home/me"), "/tmp"),
        "/home/me/.local/state/tmux-mcp"
    );
    assert_eq!(default_state_dir(None, None, None, "/tmp/"), "/tmp/tmux-mcp");
    assert_eq!(
        default_state_dir(Some("/data"), Some("/state"), None, "/tmp"),
        "/data/tmux-mcp"
    );
    let paths = StatePaths::new("/data/tmux-mcp");
    assert_eq!(paths.events, "/data/tmux-mcp/events.jsonl");
    assert_eq!(paths.gate, "/data/tmux-mcp/gate.enabled");
    assert_eq!(paths.ai_pause, "/data/tmux-mcp/ai-paused.json");
    assert_eq!(paths.token, "/data/tmux-mcp/control.token");
}

#[test]
fn unavailable_hub_is_fail_open_only_while_gate_is_off() {
    let down = || Err("connection refused".to_string());
    assert_eq!(settle_authorization(down(), false, false), Ok(GateDecision::Approved));
    for (before, after) in [(true, false), (false, true), (true, true)] {
        assert_eq!(
            settle_authorization(down(), before, after),
            Err(
                "Gate is enabled but the web control service is unavailable: connection refused"
                    .to_string()
            )
        );
    }
    assert_eq!(
        settle_authorization(Ok(GateDecision::Rejected), false, false),
        Ok(GateDecision::Rejected)
    );
}

#[test]
fn terminal_command_snapshot_updates_the_original_action() {
    let mut client = ControlClient::new("Codex".to_string());
    let record = client.action("execute-command", arguments(&[("command", "true")]), 1);
    let id = record.id.clone();
    client.track_command("cmd-1".to_string(), record);
    let done = client.complete_command(snapshot("cmd-1", "true", "ok"), 2).expect("followed");
    assert_eq!(done.id, id);
    assert_eq!(done.status, ActionStatus::Completed);
    assert!(client.complete_command(snapshot("cmd-2", "true", "ok"), 2).is_none());
    assert_eq!(client.command_ids(), vec!["cmd-1".to_string()]);
    let missing = client.forget_missing_command("cmd-1", 3).expect("was not over");
    assert_eq!(missing.status, ActionStatus::Incomplete);
    assert!(client.command_ids().is_empty());
    client.forget_command("cmd-1");
}
