use tmux_mcp::gpu_monitor::{
    Conclusion, GpuMonitorManager, GpuWatchStatus, NotificationStatus, StartGpuWatchInput,
    StopRequest, MAX_HISTORY, REMOTE_WATCH_SCRIPT,
};
use tmux_mcp::gpu_protocol::{
    conclude, parse_protocol_line, remote_signal_command, remote_watch_command, resolve_targets,
    update_idle_state, ProtocolMessage, WatchOutcome,
};
use tmux_mcp::gpu_watch::{
    signal_result, Ending, ExitEnding, RemoteInput, RemoteStep, RemoteWatch, SignalResult,
    Termination, TerminationInput,
};
use tmux_mcp::keyed::Keyed;

const SECOND: u64 = 1_000_000_000;

#[test]
fn validates_small_fixed_input_surface() {
    assert!(StartGpuWatchInput::default().validate().is_ok());
    assert!(StartGpuWatchInput {
        gpu: Some("GPU-acde-1234".to_string()),
        ..Default::default()
    }
    .validate()
    .is_ok());
    assert!(StartGpuWatchInput {
        gpu: Some("0; rm -rf /".to_string()),
        ..Default::default()
    }
    .validate()
    .is_err());
}

#[test]
fn each_rejected_input_is_explained() {
    let idle = StartGpuWatchInput { idle_seconds: 59, ..Default::default() };
    assert_eq!(idle.validate(), Err("idleSeconds must be between 60 and 86400".to_string()));
    let poll = StartGpuWatchInput { poll_seconds: 61, ..Default::default() };
    assert_eq!(poll.validate(), Err("pollSeconds must be between 5 and 60".to_string()));
    for gpu in ["", "GPU-", "GPU-xyz", "gpu-12"] {
        let input = StartGpuWatchInput { gpu: Some(gpu.to_string()), ..Default::default() };
        assert_eq!(
            input.validate(),
            Err("gpu must be a numeric index or GPU UUID".to_string()),
            "{gpu}"
        );
    }
}

#[test]
fn parses_protocol_and_resolves_stable_uuid() {
    let ProtocolMessage::Ready { id, pid } =
        parse_protocol_line("TMUX_MCP_GPU\tREADY\tgpu-watch-x\t42").unwrap()
    else {
        panic!("ready");
    };
    assert_eq!(id, "gpu-watch-x");
    assert_eq!(pid, 42);

    let ProtocolMessage::Inventory(inventory) =
        parse_protocol_line("TMUX_MCP_GPU\tINVENTORY\t0=GPU-aaaa;1=GPU-bbbb").unwrap()
    else {
        panic!("inventory");
    };
    assert_eq!(
        resolve_targets(Some("1"), &inventory).unwrap(),
        ["GPU-bbbb"]
    );
    assert_eq!(resolve_targets(None, &inventory).unwrap().len(), 2);
}

#[test]
fn malformed_or_unknown_protocol_is_rejected() {
    assert!(parse_protocol_line("noise").is_err());
    assert!(parse_protocol_line("TMUX_MCP_GPU\tREADY\tid\tbad").is_err());
    assert!(parse_protocol_line("TMUX_MCP_GPU\tINVENTORY\t").is_err());
}

#[test]
fn every_protocol_error_has_its_words() {
    for (line, words) in [
        ("x", "unexpected GPU watcher output"),
        ("TMUX_MCP_GPU", "unknown GPU watcher protocol message"),
        ("TMUX_MCP_GPU\tREADY", "GPU watcher READY missing id"),
        ("TMUX_MCP_GPU\tREADY\tid", "GPU watcher READY missing pid"),
        ("TMUX_MCP_GPU\tREADY\tid\t4294967296", "GPU watcher READY has invalid pid"),
        ("TMUX_MCP_GPU\tINVENTORY\t0", "GPU watcher INVENTORY is malformed"),
        ("TMUX_MCP_GPU\tINVENTORY\t;;", "GPU watcher found no GPUs"),
        ("TMUX_MCP_GPU\tSAMPLE", "GPU watcher SAMPLE missing time"),
    ] {
        assert_eq!(parse_protocol_line(line), Err(words.to_string()), "{line}");
    }
    assert_eq!(
        parse_protocol_line("TMUX_MCP_GPU\tSAMPLE\t1\tGPU-a,,GPU-b"),
        Ok(ProtocolMessage::Sample { active: vec!["GPU-a".to_string(), "GPU-b".to_string()] })
    );
    assert_eq!(
        parse_protocol_line("TMUX_MCP_GPU\tERROR"),
        Ok(ProtocolMessage::Error("remote watcher failed".to_string()))
    );
    assert_eq!(parse_protocol_line("TMUX_MCP_GPU\tEXPIRED\t1"), Ok(ProtocolMessage::Expired));
    let inventory = vec![("0".to_string(), "GPU-a".to_string())];
    assert_eq!(resolve_targets(Some("7"), &inventory), Err("GPU index 7 not found".to_string()));
    assert_eq!(
        resolve_targets(Some("GPU-b"), &inventory),
        Err("GPU UUID GPU-b not found".to_string())
    );
}

#[test]
fn idle_timer_is_per_gpu_and_activity_resets_it() {
    let start = 1_000 * SECOND;
    let targets = vec!["GPU-a".to_string(), "GPU-b".to_string()];
    let mut idle_since = Keyed::new();
    let mut active = vec!["GPU-a".to_string()];

    assert!(update_idle_state(&targets, &active, &mut idle_since, start, 300).is_empty());
    assert_eq!(
        update_idle_state(&targets, &active, &mut idle_since, start + 300 * SECOND, 300),
        ["GPU-b"]
    );

    active.push("GPU-b".to_string());
    assert!(
        update_idle_state(&targets, &active, &mut idle_since, start + 301 * SECOND, 300).is_empty()
    );
    active.pop();
    assert!(
        update_idle_state(&targets, &active, &mut idle_since, start + 600 * SECOND, 300).is_empty()
    );
}

fn started(manager: &mut GpuMonitorManager, id: &str) {
    manager
        .start_as(&StartGpuWatchInput::default(), Ok(true), id.to_string(), 1)
        .expect("start watch");
}

fn stopped() -> Conclusion {
    conclude(Ok(WatchOutcome::Stopped(true)))
}

#[test]
fn stop_requires_exact_id_and_is_idempotent_after_terminal() {
    let mut manager = GpuMonitorManager::new();
    started(&mut manager, "gpu-watch-test");
    assert_eq!(
        manager.request_stop("wrong-id"),
        Err("GPU watcher wrong-id not found".to_string())
    );
    assert_eq!(manager.request_stop("gpu-watch-test"), Ok(StopRequest::Wait));
    assert_eq!(
        manager.stop_result("gpu-watch-test", true),
        Err("GPU watcher gpu-watch-test stop timed out".to_string())
    );
    assert_eq!(
        manager.stop_result("gpu-watch-test", false),
        Err("GPU watcher gpu-watch-test terminal state missing".to_string())
    );
    let event = manager.finish("gpu-watch-test", stopped(), 9).expect("event");
    assert_eq!(event.snapshot.status, GpuWatchStatus::Stopped);
    let ended = manager.stop_result("gpu-watch-test", false).unwrap();
    assert_eq!(ended.status, GpuWatchStatus::Stopped);
    match manager.request_stop("gpu-watch-test").unwrap() {
        StopRequest::Ended(repeated) => assert_eq!(repeated.status, GpuWatchStatus::Stopped),
        StopRequest::Wait => panic!("ended watch does not stop again"),
    }
}

#[test]
fn one_watch_runs_at_a_time_and_history_is_bounded() {
    let mut manager = GpuMonitorManager::new();
    let input = StartGpuWatchInput::default();
    assert_eq!(
        manager.start(&input, Ok(false), 1),
        Err("GPU monitoring requires --ssh or TMUX_MCP_SSH".to_string())
    );
    assert_eq!(manager.start(&input, Err("no ssh".to_string()), 1), Err("no ssh".to_string()));
    let (snapshot, token) = manager.start(&input, Ok(true), 1).expect("start");
    assert!(snapshot.monitor_id.starts_with("gpu-watch-"));
    assert_eq!(snapshot.monitor_id.len(), "gpu-watch-".len() + 36);
    assert_eq!(token.len(), 36);
    assert_eq!(
        manager.start(&input, Ok(true), 1).unwrap_err(),
        format!("GPU watcher {} is already active", snapshot.monitor_id)
    );
    manager.finish(&snapshot.monitor_id, stopped(), 2);
    for index in 0..40 {
        let id = format!("watch-{index}");
        started(&mut manager, &id);
        manager.finish(&id, stopped(), 3);
    }
    let all = manager.query(None).unwrap();
    assert!(all.active.is_none());
    assert_eq!(all.recent.len(), MAX_HISTORY);
    assert_eq!(all.recent[0].monitor_id, "watch-39");
    assert_eq!(all.recent[MAX_HISTORY - 1].monitor_id, "watch-8");
    assert!(manager.query(Some("watch-7")).is_err());
}

#[test]
fn a_notification_is_observed_once_it_is_queried() {
    let mut manager = GpuMonitorManager::new();
    started(&mut manager, "a");
    manager.finish("a", stopped(), 2);
    manager.mark_notification("a", true);
    let first = manager.query(Some("a")).unwrap();
    assert_eq!(first.recent[0].notification_status, NotificationStatus::Observed);
    manager.mark_notification("a", false);
    let second = manager.query(Some("a")).unwrap();
    assert_eq!(second.recent[0].notification_status, NotificationStatus::SendFailed);
}

#[test]
fn a_watch_runs_from_ready_to_trigger() {
    let mut manager = GpuMonitorManager::new();
    started(&mut manager, "w");
    let mut watch = RemoteWatch::start("w".to_string(), &StartGpuWatchInput::default());
    let line = |text: &str| RemoteInput::Line(text.to_string());
    assert_eq!(
        watch.step(&mut manager, line("TMUX_MCP_GPU\tREADY\tw\t7"), 0, 10),
        RemoteStep::Continue { reset_heartbeat: false }
    );
    assert!(!watch.is_ready());
    assert_eq!(
        watch.step(&mut manager, line("TMUX_MCP_GPU\tINVENTORY\t0=GPU-a;1=GPU-b"), 0, 11),
        RemoteStep::Continue { reset_heartbeat: true }
    );
    assert!(watch.is_ready());
    let active = manager.query(Some("w")).unwrap().active.unwrap();
    assert_eq!(active.status, GpuWatchStatus::Watching);
    assert_eq!(active.remote_pid, Some(7));
    assert_eq!(active.target_gpus, vec!["GPU-a".to_string(), "GPU-b".to_string()]);
    assert_eq!(
        watch.step(&mut manager, line("TMUX_MCP_GPU\tSAMPLE\t1\tGPU-a"), SECOND, 12),
        RemoteStep::Continue { reset_heartbeat: true }
    );
    assert_eq!(
        watch.step(&mut manager, line("TMUX_MCP_GPU\tSAMPLE\t2\tGPU-a"), 301 * SECOND, 13),
        RemoteStep::Terminate {
            pid: Some(7),
            ending: Ending::Settled(Ok(WatchOutcome::Triggered(vec!["GPU-b".to_string()]))),
        }
    );
}

#[test]
fn a_watch_ends_on_whatever_is_out_of_order() {
    let fresh = || RemoteWatch::start("w".to_string(), &StartGpuWatchInput::default());
    let line = |text: &str| RemoteInput::Line(text.to_string());
    let fail = |words: &str| RemoteStep::End(Err(words.to_string()));
    let mut manager = GpuMonitorManager::new();
    assert_eq!(
        fresh().step(&mut manager, line("TMUX_MCP_GPU\tINVENTORY\t0=GPU-a"), 0, 0),
        fail("GPU watcher INVENTORY arrived before READY")
    );
    assert_eq!(
        fresh().step(&mut manager, line("TMUX_MCP_GPU\tSAMPLE\t1\t"), 0, 0),
        fail("GPU watcher SAMPLE arrived before INVENTORY")
    );
    assert_eq!(
        fresh().step(&mut manager, line("TMUX_MCP_GPU\tREADY\tother\t9"), 0, 0),
        RemoteStep::Terminate {
            pid: Some(9),
            ending: Ending::Settled(Err("GPU watcher READY id mismatch".to_string())),
        }
    );
    assert_eq!(
        fresh().step(&mut manager, line(&"x".repeat(4097)), 0, 0),
        RemoteStep::Terminate {
            pid: None,
            ending: Ending::Settled(Err(
                "GPU watcher protocol line exceeds 4096 bytes".to_string()
            )),
        }
    );
    assert_eq!(
        fresh().step(&mut manager, RemoteInput::HeartbeatTimedOut, 0, 0),
        RemoteStep::Continue { reset_heartbeat: false }
    );
    assert_eq!(
        fresh().step(&mut manager, RemoteInput::OutputFailed("io".to_string()), 0, 0),
        fail("GPU watcher output: io")
    );
    assert_eq!(
        fresh().step(&mut manager, RemoteInput::OutputEnded, 0, 0),
        RemoteStep::AwaitExit { ending: ExitEnding::Unexpected }
    );
    let mut watch = fresh();
    watch.step(&mut manager, line("TMUX_MCP_GPU\tREADY\tw\t7"), 0, 0);
    watch.step(&mut manager, line("TMUX_MCP_GPU\tINVENTORY\t0=GPU-a"), 0, 0);
    assert_eq!(
        watch.step(&mut manager, line("TMUX_MCP_GPU\tSAMPLE\t1\tGPU-z"), 0, 0),
        RemoteStep::Terminate {
            pid: Some(7),
            ending: Ending::Settled(Err(
                "GPU process UUID does not map to physical inventory".to_string()
            )),
        }
    );
}

#[test]
fn endings_depend_on_what_is_confirmed() {
    assert_eq!(Ending::Stopped.settle(false), Ok(WatchOutcome::Stopped(false)));
    assert_eq!(
        Ending::ReadyTimedOut.settle(false),
        Err("GPU watcher READY timed out; remote termination unconfirmed".to_string())
    );
    assert_eq!(
        Ending::SampleTimedOut.settle(true),
        Err("GPU watcher sample timed out".to_string())
    );
    assert_eq!(
        ExitEnding::Unexpected.settle(Ok("exit status: 1".to_string()), "boom"),
        Err("GPU watcher exited with exit status: 1: boom".to_string())
    );
    assert_eq!(
        ExitEnding::Failed("bad".to_string()).settle(Ok(String::new()), ""),
        Err("bad".to_string())
    );
    let unconfirmed = conclude(Ok(WatchOutcome::Stopped(false)));
    assert_eq!(unconfirmed.status, GpuWatchStatus::StopUnconfirmed);
    assert_eq!(unconfirmed.reason.as_deref(), Some("remote termination unconfirmed"));
    let failed = conclude(Err("x".to_string()));
    assert_eq!(failed.diagnostic.as_deref(), Some("x"));
    assert_eq!(conclude(Ok(WatchOutcome::Expired)).status, GpuWatchStatus::Expired);
}

#[test]
fn termination_escalates_and_tells_what_is_known() {
    assert_eq!(Termination::start(None), Termination::KillLocal);
    let term = Termination::start(Some(5));
    assert_eq!(term, Termination::SendTerm { pid: 5 });
    let waiting = term.step(TerminationInput::Signalled(SignalResult::Sent));
    assert_eq!(waiting.step(TerminationInput::Exited(true)), Termination::Confirmed);
    let kill = waiting.step(TerminationInput::Exited(false));
    assert_eq!(kill, Termination::SendKill { pid: 5 });
    let last = kill.step(TerminationInput::Signalled(SignalResult::Gone));
    assert_eq!(last.step(TerminationInput::Exited(false)), Termination::KillLocal);
    assert_eq!(
        term.step(TerminationInput::Signalled(SignalResult::Mismatch)),
        Termination::KillLocal
    );
    assert_eq!(signal_result(Some(0)), SignalResult::Sent);
    assert_eq!(signal_result(Some(3)), SignalResult::Gone);
    assert_eq!(signal_result(Some(4)), SignalResult::Mismatch);
    assert_eq!(signal_result(Some(1)), SignalResult::Failed);
    assert_eq!(signal_result(None), SignalResult::Failed);
}

#[test]
fn remote_commands_quote_every_argument() {
    assert_eq!(
        remote_watch_command("true", "w", "it's", 7),
        "env 'TMUX_MCP_GPU_WATCH_ID=it'\\''s' /bin/sh -c 'true' -- 'w' 7 12343"
    );
    assert_eq!(
        remote_signal_command("kill", 42, "t", "TERM"),
        "/bin/sh -c 'kill' -- 42 't' TERM"
    );
    assert!(REMOTE_WATCH_SCRIPT.starts_with("set -eu\nid=$1\n"));
}
