use tmux_mcp::commands::CommandEventKind;
use tmux_mcp::control::{
    gate_mode_for, ActionKind, ActionRecord, ActionStatus, ArgumentValue, Arguments,
    GateDecision, GateMode,
};
use tmux_mcp::errors::Error;
use tmux_mcp::hub::{
    react_to_event, reconcile_command, EventReaction, HubState, Reconciliation,
};
use tmux_mcp::security::{SecurityConfig, SecurityPolicy};
use tmux_mcp::store::{
    all_current, complete_lines, needs_newline, recover_compaction, should_compact,
    CompactionRecovery, RecordStore, COMPACT_AT_BYTES,
};
use tmux_mcp::types::{
    CommandExecution, CommandSnapshot, CommandStatus, Pane, Session, Window,
    SNAPSHOT_SCHEMA_VERSION,
};
use tmux_mcp::web::{
    api_guard, class_is_loopback, guard_classified, index_guard, authorize_pane_action, authorize_pane_session, authorize_session_name,
    check_topology, classify_host, command_failed_reply, command_request_error, key_request_error,
    host_is_loopback, message_source, pane_activity, policy_response, record_changes_topology,
    session_is_visible, start_time_ms, validate_bind_address, validate_command_input,
    validate_key_input, validate_pane_id, visible_panes, GuardRequest, HostClass, MessageSource,
    PaneAccess, Reply, SessionNode, Topology, TopologyCache, WindowNode,
};

const SECOND: u64 = 1_000_000_000;

fn aimed(tool: &str, pane: &str, now: u64) -> ActionRecord {
    let mut arguments = Arguments::none();
    arguments.set("paneId", ArgumentValue::Text(pane.to_string()));
    ActionRecord::new("Codex", tool, arguments, now)
}

fn hub() -> HubState {
    HubState::open(RecordStore::new())
}

fn snapshot(id: &str, output: &str) -> CommandSnapshot {
    CommandSnapshot {
        command_id: id.into(),
        resource_uri: format!("tmux://command/{id}/result"),
        status: CommandStatus::Completed,
        exit_code: Some(0),
        command: "true".into(),
        pane_id: "%1".into(),
        socket: None,
        output: Some(output.into()),
        output_truncated: false,
        elapsed_ms: 42,
        reason: None,
        wait_timed_out: None,
        schema_version: SNAPSHOT_SCHEMA_VERSION,
    }
}

fn execution(status: CommandStatus, output: Option<&str>, truncated: bool) -> CommandExecution {
    CommandExecution {
        target: None,
        id: "c".into(),
        pane_id: "%1".into(),
        socket: None,
        command: "true".into(),
        status,
        exit_code: None,
        output: output.map(str::to_string),
        output_truncated: truncated,
        result_ready: true,
        reason: None,
        started_at: 0,
        completed_at: None,
        raw_mode: false,
        tracking_disabled: false,
    }
}

#[test]
fn topology_cache_reuses_fresh_errors_and_expires_stale_data() {
    let loaded_at = 100 * SECOND;
    let mut cache = TopologyCache::new();
    assert!(cache.get(loaded_at).is_none());
    cache.store(Err("tmux unavailable".into()), loaded_at);

    assert!(matches!(
        cache.get(loaded_at + 4 * SECOND),
        Some(Err(error)) if error == "tmux unavailable"
    ));
    assert!(cache.get(loaded_at + 5 * SECOND).is_none());
    cache.invalidate();
    assert!(cache.get(loaded_at).is_none());
}

#[test]
fn only_completed_mutating_operations_refresh_topology() {
    let mut split = aimed("split-pane", "%1", 1);
    assert!(!record_changes_topology(&split));
    split.mark_completed(None, 2);
    assert!(record_changes_topology(&split));

    let mut read_only = aimed("list-panes", "@1", 1);
    read_only.read_only = true;
    read_only.mark_completed(None, 2);
    assert!(!record_changes_topology(&read_only));

    let mut input = aimed("send-keys", "%1", 1);
    input.mark_completed(None, 2);
    assert!(!record_changes_topology(&input));
}

#[test]
fn command_input_limit_is_measured_in_bytes() {
    let accepted = "界".repeat(21_845) + "a";
    let rejected = "界".repeat(21_845) + "ab";
    assert!(validate_command_input(&accepted).is_ok());
    assert!(validate_command_input(&rejected).is_err());
}

#[test]
fn bind_address_must_be_loopback() {
    assert!(validate_bind_address(true).is_ok());
    assert_eq!(
        validate_bind_address(false),
        Err("web bind address must be loopback".to_string())
    );
}

#[test]
fn interactive_key_input_is_small_and_explicit() {
    assert!(validate_key_input("hello 世界", true).is_ok());
    assert!(validate_key_input("Enter", false).is_ok());
    assert!(validate_key_input("C-c", false).is_ok());
    assert!(validate_key_input("C-z", false).is_err());
    assert!(validate_key_input(&"x".repeat(65_537), true).is_err());
}

#[test]
fn web_command_terminal_snapshot_updates_same_record() {
    let mut state = hub();
    let mut record = aimed("execute-command", "%1", 1);
    record.mark_running(2);
    let record_id = record.id.clone();
    state.track_web_command("cmd-1".into(), record);
    let marked = state
        .update_web_command(snapshot("cmd-1", "clean output\n"), 3)
        .expect("update command");
    assert_eq!(marked.status, ActionStatus::Completed);
    let written = state.limit_web_command("cmd-1", 500).expect("followed");
    state.upsert(written);

    let records = state.records_for_pane("%1");
    assert_eq!(records.len(), 1);
    assert_eq!(records[0].id, record_id);
    assert_eq!(records[0].status, ActionStatus::Completed);
    let shown = records[0].command_snapshot.as_ref().expect("snapshot");
    assert_eq!(shown.output.as_deref(), Some("clean output\n"));
    assert_eq!(shown.exit_code, Some(0));
    assert_eq!(shown.elapsed_ms, 42);
    assert!(!shown.output_truncated);
    assert!(state.update_web_command(snapshot("cmd-2", ""), 4).is_none());
}

#[test]
fn gate_off_approves_immediately_and_persists_record() {
    let mut state = hub();
    let (record, decision) = state.authorize(aimed("send-keys", "%1", 1), false, 2);
    assert_eq!(decision, Some(GateDecision::Approved));
    state.upsert(record);
    let records = state.records_for_pane("%1");
    assert_eq!(records.len(), 1);
    assert_eq!(records[0].status, ActionStatus::Approved);
    assert!(state.pending().is_empty());
}

#[test]
fn gate_on_waits_until_the_exact_request_is_decided() {
    let mut state = hub();
    let record = aimed("send-keys", "%2", 1);
    let id = record.id.clone();
    let (waiting, decision) = state.authorize(record, true, 2);
    assert_eq!(decision, None);
    state.upsert(waiting);

    let pending = state.pending();
    assert_eq!(pending.len(), 1);
    assert_eq!(pending[0].id, id);
    assert!(state.decide("another", GateDecision::Approved, true, 3).is_none());
    let (rejected, counts) = state.decide(&id, GateDecision::Rejected, true, 3).unwrap();
    assert!(counts);
    state.upsert(rejected);
    assert_eq!(
        state.records_for_pane("%2")[0].status,
        ActionStatus::Rejected
    );
    assert!(state.decide(&id, GateDecision::Approved, true, 4).is_none());
}

#[test]
fn disconnected_gate_request_is_pruned_as_incomplete() {
    let mut state = hub();
    let first = aimed("send-keys", "%9", 1);
    let second = aimed("send-keys", "%9", 2);
    let ids = [first.id.clone(), second.id.clone()];
    state.authorize(first, true, 3);
    state.authorize(second, true, 3);
    let dropped = state.drop_pending(&ids[0], 4).unwrap();
    assert_eq!(dropped.status, ActionStatus::Incomplete);
    let (late, counts) = state.decide(&ids[1], GateDecision::Approved, false, 5).unwrap();
    assert_eq!(late.status, ActionStatus::Incomplete);
    assert!(!counts);
    assert!(state.pending().is_empty());
}

#[test]
fn disabling_gate_approves_and_wakes_pending_requests() {
    assert_eq!(gate_mode_for(None, Some(false)), Some(GateMode::Off));
    assert_eq!(gate_mode_for(Some(GateMode::Tools), Some(false)), Some(GateMode::Tools));
    assert_eq!(gate_mode_for(None, None), None);
    let mut state = hub();
    for index in 0..3 {
        state.authorize(aimed("send-keys", "%1", 10 - index), true, 20);
    }
    let approved = state.approve_all(30);
    assert_eq!(approved.len(), 3);
    assert!(approved.iter().all(|record| record.status == ActionStatus::Approved));
    let times: Vec<u64> = approved.iter().map(|record| record.requested_at_ms).collect();
    assert_eq!(times, [8, 9, 10]);
    assert!(state.pending().is_empty());
}

#[test]
fn jsonl_reload_uses_latest_snapshot_and_ignores_bad_tail() {
    let mut store = RecordStore::new();
    let mut record = aimed("execute-command", "%3", 1);
    store.replay(record.copy());
    record.mark_running(2);
    store.replay(record.copy());
    let mut other_layout = record.copy();
    other_layout.schema_version = 2;
    other_layout.mark_completed(None, 3);
    store.replay(other_layout);
    let changed = store.mark_interrupted_incomplete(4);
    assert_eq!(changed.len(), 1);
    let records = store.records_for_pane("%3");
    assert_eq!(records.len(), 1);
    assert_eq!(records[0].id, record.id);
    assert_eq!(records[0].status, ActionStatus::Incomplete);
    assert!(store.mark_interrupted_incomplete(5).is_empty());
    assert_eq!(complete_lines(&b"{}\n{incomplete".to_vec()), None);
    assert!(needs_newline(Some(b'e')));
    assert!(!needs_newline(Some(b'\n')));
    assert!(!needs_newline(None));
}

#[test]
fn missing_main_recovers_complete_temporary_compaction_before_backup() {
    assert_eq!(recover_compaction(false, Some(true), Some(true)), CompactionRecovery::UseTemporary);
    assert_eq!(recover_compaction(false, Some(false), Some(true)), CompactionRecovery::UseBackup);
    assert_eq!(recover_compaction(false, Some(false), None), CompactionRecovery::Fail);
    assert_eq!(recover_compaction(false, None, None), CompactionRecovery::Nothing);
    assert_eq!(recover_compaction(true, Some(true), Some(false)), CompactionRecovery::RemoveLeftovers);
    assert_eq!(
        complete_lines(&b"a\n\nb\n".to_vec()),
        Some(vec![b"a".to_vec(), Vec::new(), b"b".to_vec()])
    );
    assert_eq!(complete_lines(&Vec::new()), Some(Vec::new()));
    assert!(all_current(&vec![Some(1), Some(1)]));
    assert!(!all_current(&vec![Some(1), None]));
    assert!(!all_current(&vec![Some(2)]));
}

#[test]
fn human_keys_stay_grouped_until_enter_even_after_a_long_pause() {
    let mut state = hub();
    let mut type_key = |key: &str, literal: bool, at: u64| {
        let record = state.record_human_input_at("%4", key, literal, at);
        state.commit_human_input(record.copy(), "%4", key, literal);
        record
    };
    let first = type_key("a", true, 1_000);
    let second = type_key("b", true, 10_000);
    let enter = type_key("Enter", false, 20_000);
    let after_enter = type_key("c", true, 20_100);

    assert_eq!(first.id, second.id);
    assert_eq!(first.id, enter.id);
    assert_ne!(enter.id, after_enter.id);
    assert_eq!(enter.arguments.text("text"), Some("ab\n"));
    assert_eq!(after_enter.arguments.text("text"), Some("c"));
    assert_eq!(enter.requested_at_ms, 1_000);
    assert_eq!(enter.updated_at_ms, 20_000);
    assert_eq!(first.source, "你");
    assert_eq!(first.target.pane_ids, vec!["%4".to_string()]);
}

#[test]
fn human_backspace_edits_the_group_instead_of_logging_its_key_name() {
    let mut state = hub();
    for (key, literal) in [("a", true), ("b", true), ("BSpace", false)] {
        let record = state.record_human_input_at("%4", key, literal, 1_000);
        state.commit_human_input(record, "%4", key, literal);
    }
    let shown = state.records_for_pane("%4");
    assert_eq!(shown.len(), 1);
    assert_eq!(shown[0].arguments.text("text"), Some("a"));
    let elsewhere = state.record_human_input_at("%5", "Up", false, 1_300);
    assert_eq!(elsewhere.arguments.text("text"), Some("Up"));
    assert_ne!(elsewhere.id, shown[0].id);
}

#[test]
fn state_views_keep_only_the_latest_200_records() {
    let mut state = hub();
    for index in 0..205_u64 {
        let mut message = aimed("send-keys", "%5", index);
        message.arguments.set("keys", ArgumentValue::Encoded(index.to_string()));
        state.upsert(message);
        state.upsert(aimed("select-pane", &format!("%{index}"), index));
    }
    let messages = state.records_for_pane("%5");
    let operations = state.operations();
    assert_eq!(messages.len(), 200);
    assert_eq!(messages[0].requested_at_ms, 5);
    assert_eq!(operations.len(), 200);
    assert_eq!(operations[0].arguments.text("paneId"), Some("%5"));
    let recent = state.records_for_pane_since("%5", Some(100));
    assert_eq!(recent.len(), 105);
    assert_eq!(state.full_log().len(), 200);
    assert_eq!(state.all_records().len(), 410);
}

#[test]
fn oversized_jsonl_is_compacted_to_retained_records() {
    let mut state = hub();
    for index in 0..500_u64 {
        state.upsert(aimed("select-layout", "", index));
    }
    state.upsert(aimed("execute-command", "%1", 1_000));
    assert!(!should_compact(COMPACT_AT_BYTES));
    assert!(should_compact(COMPACT_AT_BYTES + 1));
    let kept = state.store().compact();
    assert_eq!(kept.sorted_records().len(), 201);
    assert_eq!(kept.operations().len(), 200);
    assert_eq!(kept.operations()[0].requested_at_ms, 300);
    assert_eq!(kept.records_for_pane("%1").len(), 1);
    state.replace_store(kept);
    assert_eq!(state.operations()[199].requested_at_ms, 499);
}

#[test]
fn lag_reconciliation_updates_tracked_web_commands() {
    let done = execution(CommandStatus::Completed, Some("done"), false);
    let bare = execution(CommandStatus::Completed, None, true);
    let running = execution(CommandStatus::Running, None, true);
    assert_eq!(reconcile_command(Some(&done)), Reconciliation::Complete { forget: true });
    assert_eq!(reconcile_command(Some(&bare)), Reconciliation::Complete { forget: false });
    assert_eq!(reconcile_command(Some(&running)), Reconciliation::Keep);
    assert_eq!(reconcile_command(None), Reconciliation::ForgetMissing);

    let mut state = hub();
    let mut record = aimed("execute-command", "%evicted", 1);
    record.mark_running(2);
    state.track_web_command("cmd-evicted".into(), record);
    assert_eq!(state.web_command_ids(), vec!["cmd-evicted".to_string()]);
    let lost = state.forget_missing_web_command("cmd-evicted", 3).unwrap();
    assert_eq!(lost.status, ActionStatus::Incomplete);
    assert!(state.web_command_ids().is_empty());
    assert!(state.forget_missing_web_command("cmd-evicted", 4).is_none());
}

#[test]
fn events_of_the_tracker_are_recorded_or_forgotten() {
    let done = CommandStatus::Completed;
    assert_eq!(
        react_to_event(CommandEventKind::Terminal, done),
        EventReaction::Record { forget: false }
    );
    assert_eq!(
        react_to_event(CommandEventKind::Updated, done),
        EventReaction::Record { forget: true }
    );
    assert_eq!(
        react_to_event(CommandEventKind::Updated, CommandStatus::Running),
        EventReaction::Ignore
    );
    assert_eq!(react_to_event(CommandEventKind::Evicted, done), EventReaction::Forget);
    assert_eq!(react_to_event(CommandEventKind::Created, done), EventReaction::Ignore);
}

fn guarded(token: &str) -> GuardRequest {
    let host = "127.0.0.1:38473";
    GuardRequest {
        host: Some(host.to_string()),
        address_is_loopback: true,
        token: Some(token.to_string()),
        writes: false,
        content_type: None,
        path: "/api/state".to_string(),
        origin: None,
    }
}

fn refused(request: &GuardRequest, status: u16, body: &str) {
    let expected = Reply { status, body: body.to_string() };
    assert_eq!(api_guard(request, "t"), Some(expected));
}

#[test]
fn api_rejects_missing_token_and_non_loopback_host() {
    assert_eq!(api_guard(&guarded("t"), "t"), None);
    refused(&guarded("x"), 401, "invalid control token");
    refused(&GuardRequest { token: None, ..guarded("t") }, 401, "invalid control token");
    refused(&GuardRequest { host: None, ..guarded("t") }, 400, "Host header is required");
    let foreign = GuardRequest { address_is_loopback: false, ..guarded("t") };
    refused(&foreign, 403, "Host must be loopback");
    let malformed = GuardRequest { host: Some("a b".to_string()), ..guarded("t") };
    refused(&malformed, 403, "Host must be loopback");
    let local = GuardRequest { host: Some("localhost:1".to_string()), ..foreign };
    assert_eq!(api_guard(&local, "t"), None);
    assert_eq!(
        guard_classified(&local, &HostClass::Malformed, "t").map(|reply| reply.status),
        Some(403)
    );
}

#[test]
fn index_rejects_dns_rebinding_host() {
    assert_eq!(
        classify_host("example.com:38473"),
        HostClass::Address("example.com".to_string())
    );
    assert!(!host_is_loopback("example.com:38473", false));
    let refusal = Reply { status: 403, body: "Host must be loopback".to_string() };
    assert_eq!(index_guard(Some("example.com:38473"), false), Some(refusal.clone()));
    assert_eq!(index_guard(None, true), Some(refusal));
    assert_eq!(index_guard(Some("127.0.0.1:38473"), true), None);
    assert_eq!(classify_host("LOCALHOST:1"), HostClass::Local);
    assert!(class_is_loopback(&HostClass::Local, false));
    assert!(host_is_loopback("LOCALHOST:1", false));
    assert_eq!(classify_host("[::1]:80"), HostClass::Address("::1".to_string()));
    assert_eq!(classify_host("a b"), HostClass::Malformed);
    assert!(!class_is_loopback(&HostClass::Malformed, true));
}

#[test]
fn api_rejects_non_json_and_oversized_mutations() {
    let write = GuardRequest {
        writes: true,
        path: "/api/agent/record".to_string(),
        content_type: Some("Application/JSON ; charset=utf-8".to_string()),
        ..guarded("t")
    };
    assert_eq!(api_guard(&write, "t"), None);
    let plain = GuardRequest { content_type: Some("text/plain".to_string()), ..write.clone() };
    refused(&plain, 415, "Content-Type must be application/json");
    let bare = GuardRequest { content_type: None, ..write };
    refused(&bare, 415, "Content-Type must be application/json");
}

#[test]
fn browser_gate_toggle_requires_matching_origin_and_json() {
    let toggle = GuardRequest {
        writes: true,
        path: "/api/gate".to_string(),
        content_type: Some("application/json".to_string()),
        origin: Some("HTTP://127.0.0.1:38473".to_string()),
        ..guarded("t")
    };
    assert_eq!(api_guard(&toggle, "t"), None);
    assert_eq!(gate_mode_for(None, Some(true)), Some(GateMode::Approval));
    let elsewhere =
        GuardRequest { origin: Some("http://evil.example".to_string()), ..toggle.clone() };
    refused(&elsewhere, 403, "Origin does not match Host");
    refused(&GuardRequest { origin: None, ..toggle }, 403, "Origin does not match Host");
}

#[test]
fn key_endpoint_rejects_unknown_special_key_before_touching_tmux() {
    let reply = key_request_error("%1", "C-z", false).unwrap();
    assert_eq!(reply.status, 400);
    assert_eq!(reply.body, "unsupported special key: C-z");
    assert_eq!(key_request_error("%1", "C-z", true), None);
    assert_eq!(key_request_error("1", "a", true).unwrap().body, "pane id must start with '%'");
    assert_eq!(validate_pane_id("%"), Err("pane id must be '%' followed by digits".to_string()));
    assert_eq!(validate_pane_id("%1a"), Err("pane id must be '%' followed by digits".to_string()));
    assert_eq!(validate_pane_id("%12"), Ok(()));
}

#[test]
fn command_endpoint_rejects_empty_and_multiline_commands() {
    for (command, body) in [
        ("  ", "command must not be empty"),
        ("echo a\necho b", "command must be a single line"),
    ] {
        let reply = command_request_error("%1", command).unwrap();
        assert_eq!(reply.status, 400);
        assert_eq!(reply.body, body);
    }
    assert_eq!(command_request_error("%1", "echo"), None);
}

#[test]
fn command_endpoint_rejects_65537_bytes_before_touching_tmux() {
    let reply = command_request_error("%1", &"x".repeat(65_537)).unwrap();
    assert_eq!(reply.body, "command must not exceed 65536 bytes");
}

#[test]
fn replies_tell_what_failed() {
    let error = Error::Tmux { message: "gone".to_string() };
    assert_eq!(
        command_failed_reply(&error, Ok(())),
        Reply { status: 502, body: "unable to execute command: tmux error: gone".to_string() }
    );
    assert_eq!(
        command_failed_reply(&error, Err("disk full")),
        Reply {
            status: 500,
            body: "command failed and could not be recorded: disk full".to_string()
        }
    );
    assert_eq!(policy_response(&error).status, 403);
}

fn session(id: &str, name: &str) -> Session {
    Session { id: id.to_string(), name: name.to_string(), attached: false, windows: 1 }
}

#[test]
fn pane_actions_need_tool_socket_pane_and_session() {
    let config = SecurityConfig {
        allow_send_keys: false,
        allowed_panes: Some(vec!["%1".to_string()]),
        allowed_sessions: Some(vec!["work".to_string()]),
        ..Default::default()
    };
    let policy = SecurityPolicy::from_config(config).unwrap();
    match authorize_pane_action(&policy, "send-keys", None, "%1") {
        PaneAccess::Denied(reply) => {
            assert_eq!(reply.status, 403);
            assert_eq!(
                reply.body,
                "policy denied: tool 'send-keys' is not allowed by security policy"
            );
        }
        other => panic!("unexpected: {other:?}"),
    }
    assert!(matches!(
        authorize_pane_action(&policy, "capture-pane", None, "%2"),
        PaneAccess::Denied(_)
    ));
    assert_eq!(
        authorize_pane_action(&policy, "capture-pane", None, "%1"),
        PaneAccess::NeedsSession
    );
    assert_eq!(authorize_pane_session(&policy, Ok("work")), PaneAccess::Allowed);
    assert_eq!(authorize_pane_session(&policy, Ok("$1")), PaneAccess::NeedsSessionName);
    let known = vec![session("$1", "work"), session("$2", "play")];
    assert_eq!(authorize_session_name(&policy, "$1", Ok(&known)), PaneAccess::Allowed);
    assert!(matches!(
        authorize_session_name(&policy, "$2", Ok(&known)),
        PaneAccess::Denied(reply) if reply.body.contains("(name 'play')")
    ));
    assert!(matches!(
        authorize_session_name(&policy, "$3", Ok(&known)),
        PaneAccess::Denied(reply) if reply.body == "pane session is not allowed"
    ));
    assert!(matches!(
        authorize_pane_session(&policy, Err("gone")),
        PaneAccess::Denied(reply) if reply.body == "unable to resolve pane session: gone"
    ));
    assert_eq!(
        authorize_pane_action(&SecurityPolicy::default(), "send-keys", None, "%9"),
        PaneAccess::Allowed
    );
}

#[test]
fn only_allowed_sessions_and_panes_are_shown() {
    let config = SecurityConfig {
        allowed_panes: Some(vec!["%1".to_string(), "%3".to_string()]),
        allowed_sessions: Some(vec!["work".to_string()]),
        ..Default::default()
    };
    let policy = SecurityPolicy::from_config(config).unwrap();
    assert!(check_topology(&policy, None).is_ok());
    assert!(session_is_visible(&policy, &session("$1", "work")));
    assert!(!session_is_visible(&policy, &session("$2", "play")));
    let panes: Vec<Pane> = ["%1", "%2", "%3"]
        .iter()
        .map(|id| Pane {
            id: id.to_string(),
            window_id: "@1".to_string(),
            active: false,
            title: String::new(),
        })
        .collect();
    let shown: Vec<String> = visible_panes(&policy, &panes).into_iter().map(|p| p.id).collect();
    assert_eq!(shown, ["%1", "%3"]);
    let closed = SecurityPolicy::from_config(SecurityConfig {
        allow_list: false,
        ..Default::default()
    })
    .unwrap();
    assert_eq!(
        check_topology(&closed, None),
        Err("policy denied: tool 'list-sessions' is not allowed by security policy".to_string())
    );
    assert_eq!(start_time_ms(7), 7_000);
    assert_eq!(start_time_ms(u64::MAX), u64::MAX);
}

#[test]
fn messages_come_from_the_running_server_only() {
    let topology = Topology {
        server_started_at_ms: Some(70),
        sessions: vec![SessionNode {
            session: session("$1", "work"),
            windows: vec![WindowNode {
                window: Window {
                    id: "@1".to_string(),
                    name: "main".to_string(),
                    active: true,
                    session_id: "$1".to_string(),
                },
                panes: vec![Pane {
                    id: "%4".to_string(),
                    window_id: "@1".to_string(),
                    active: true,
                    title: String::new(),
                }],
            }],
        }],
    };
    assert!(topology.pane_exists("%4"));
    assert_eq!(
        message_source(Some("%4"), Some(&topology)),
        MessageSource::PaneSince(Some(70))
    );
    assert_eq!(message_source(Some("%5"), Some(&topology)), MessageSource::Nothing);
    assert_eq!(message_source(Some("%5"), None), MessageSource::WholePane);
    assert_eq!(message_source(None, None), MessageSource::Nothing);
}

#[test]
fn activity_is_the_last_change_of_each_pane() {
    let records = vec![aimed("send-keys", "%1", 5), aimed("send-keys", "%2", 9), {
        let mut later = aimed("send-keys", "%1", 3);
        later.mark_completed(None, 8);
        later
    }];
    let activity = pane_activity(&records);
    assert_eq!(activity.get("%1"), Some(&8));
    assert_eq!(activity.get("%2"), Some(&9));
    assert_eq!(activity.get("%3"), None);
    assert_eq!(records[0].kind, ActionKind::Input);
}

#[test]
fn readings_are_shown_with_their_pane_and_commands_not_in_the_log() {
    let mut store = RecordStore::new();
    store.upsert(aimed("read-file", "%1", 1));
    store.upsert(aimed("kill-pane", "%1", 2));
    store.upsert(aimed("execute-command", "%1", 3));
    let shown: Vec<String> = store.records_for_pane("%1").into_iter().map(|r| r.tool).collect();
    assert_eq!(shown, ["read-file", "execute-command"]);
    let logged: Vec<String> = store.full_log().into_iter().map(|r| r.tool).collect();
    assert_eq!(logged, ["read-file", "kill-pane"]);
    let id = store.sorted_records()[0].id.clone();
    assert_eq!(store.get(&id).unwrap().tool, "read-file");
    assert_eq!(store.remove(&id).unwrap().tool, "read-file");
    assert!(store.get(&id).is_none());
}

#[test]
fn command_endpoint_applies_existing_command_policy() {
    let config = SecurityConfig { allow_execute_command: false, ..Default::default() };
    let policy = SecurityPolicy::from_config(config).unwrap();
    assert_eq!(command_request_error("%1", "printf one"), None);
    let socket = Some("must-not-be-called");
    assert!(matches!(
        authorize_pane_action(&policy, "execute-command", socket, "%1"),
        PaneAccess::Denied(reply) if reply.status == 403
    ));
}

#[test]
fn agent_authorize_returns_immediate_approval_when_gate_is_off() {
    let mut state = hub();
    let mut arguments = Arguments::none();
    arguments.set("paneId", ArgumentValue::Text("%8".to_string()));
    let record = ActionRecord::new("Codex", "send-keys", arguments, 1);
    let (_, decision) = state.authorize(record, false, 2);
    assert_eq!(decision, Some(GateDecision::Approved));
}

#[test]
fn a_rewritten_log_gives_the_records_back() {
    let mut store = RecordStore::new();
    for at in [3, 1, 2] {
        store.upsert(aimed("send-keys", "%1", at));
    }
    let mut read = RecordStore::new();
    for record in store.sorted_records() {
        read.replay(record);
    }
    let ids = |store: &RecordStore| -> Vec<String> {
        store.sorted_records().into_iter().map(|record| record.id).collect()
    };
    assert_eq!(ids(&read), ids(&store));
    assert_eq!(ids(&read).len(), 3);
}
