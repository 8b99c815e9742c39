use tmux_mcp::commands::{
    check_command, dispatch_keys, get_end_marker, get_start_marker, partial_capture_lines,
    CaptureStep, CapturedOutput, CommandEventKind, CommandRequest, CommandTracker, KeyStep, Launch,
    PaneRef, RecoveryRequest, StatusRequest, TerminalCapture, TrackedLaunch, TrackingConfig,
    WaitStep,
};
use tmux_mcp::errors::Error;
use tmux_mcp::markers::{
    bracket_output, extract_exit_code, extract_output_between_markers, parse_command_output,
    shell_type_for_pane_command, wrap_tracked_command, wrap_tracked_command_side_channel,
    BracketedOutput,
};
use tmux_mcp::shell::{
    has_unquoted_shell_background_operator, has_unquoted_shell_comment_marker, shell_single_quote,
};
use tmux_mcp::types::{command_resource_uri, CommandSnapshot, CommandStatus, ShellType};
use tmux_mcp::watch::{Recovery, RecoveryStage, WatchAction, WatchInput, WatchStage, Watcher};

const SECOND: u64 = 1_000_000_000;

fn request(pane: &str, command: &str) -> CommandRequest {
    CommandRequest {
        target: None,
        pane_id: pane.to_string(),
        socket: None,
        command: command.to_string(),
        raw_mode: false,
        no_enter: false,
    }
}

fn begin(tracker: &mut CommandTracker, pane: &str, id: &str, now: u64) -> Launch {
    tracker
        .begin_command(&request(pane, "printf partial"), id.to_string(), format!("s-{id}"), now)
        .expect("begin command")
}

fn pane(id: &str) -> PaneRef {
    PaneRef { target: None, socket: None, pane_id: id.to_string() }
}

/// Follow a command from its signal to its end.
fn finish(tracker: &mut CommandTracker, pane_id: &str, id: &str, code: i32, captures: &[&str]) {
    let (mut watcher, _) = Watcher::start(id.to_string(), pane(pane_id), &tracker.tracking());
    watcher.step(tracker, WatchInput::Signal, 5);
    watcher.step(tracker, WatchInput::ExitCode(code), 6);
    for text in captures {
        watcher.step(tracker, WatchInput::Captured(text.to_string()), 7);
    }
}

#[test]
fn test_get_end_marker() {
    for (shell, expected) in [
        (ShellType::Bash, "TMUX_MCP_DONE_cmd-1_$?"),
        (ShellType::Zsh, "TMUX_MCP_DONE_cmd-1_$?"),
        (ShellType::Fish, "TMUX_MCP_DONE_cmd-1_$status"),
        (ShellType::Unknown, "TMUX_MCP_DONE_cmd-1_$?"),
    ] {
        assert_eq!(get_end_marker(&shell, "cmd-1"), expected);
    }
    assert_eq!(get_start_marker("cmd-1"), "TMUX_MCP_START_cmd-1");
}

#[test]
fn test_extract_exit_code() {
    assert_eq!(extract_exit_code("TMUX_MCP_DONE_cmd-1_0", "cmd-1"), Some(0));
    assert_eq!(extract_exit_code("TMUX_MCP_DONE_cmd-1_1", "cmd-1"), Some(1));
    assert_eq!(extract_exit_code("no marker here", "cmd-1"), None);
}

#[test]
fn markers_are_matched_literally_whatever_the_id() {
    assert_eq!(extract_exit_code("TMUX_MCP_DONE_a.b_3", "a.b"), Some(3));
    assert_eq!(extract_exit_code("TMUX_MCP_DONE_axb_3", "a.b"), None);
    assert_eq!(extract_exit_code("TMUX_MCP_DONE_c_99999999999", "c"), None);
}

#[test]
fn test_parse_command_output_brackets_only() {
    let input = "TMUX_MCP_START_cmd-1\nhello\nTMUX_MCP_DONE_cmd-1_0\n";
    assert_eq!(
        parse_command_output(input, "cmd-1"),
        Some(("hello".to_string(), 0))
    );
}

#[test]
fn extract_output_reports_capture_boundaries() {
    for (captured, expected) in [
        (
            "TMUX_MCP_START_cmd-1\nhello\nTMUX_MCP_DONE_cmd-1_0\n",
            BracketedOutput::Complete("hello".to_string()),
        ),
        (
            "TMUX_MCP_START_cmd-1\nTMUX_MCP_DONE_cmd-1_0\n",
            BracketedOutput::Complete(String::new()),
        ),
        (
            "TMUX_MCP_START_cmd-1\npartial\n",
            BracketedOutput::Open("partial".to_string()),
        ),
        ("tail without start", BracketedOutput::MissingStart),
    ] {
        assert_eq!(extract_output_between_markers(captured, "cmd-1"), expected);
    }
}

#[test]
fn extract_output_uses_last_done_marker_for_the_boundary() {
    let captured = [
        "TMUX_MCP_START_cmd-1\n",
        "first\n",
        "TMUX_MCP_DONE_cmd-1_0\n",
        "last\n",
        "TMUX_MCP_DONE_cmd-1_0\n",
    ]
    .concat();
    assert_eq!(
        extract_output_between_markers(&captured, "cmd-1"),
        BracketedOutput::Complete("first\nTMUX_MCP_DONE_cmd-1_0\nlast".to_string())
    );
}

#[test]
fn what_is_written_between_the_markers_is_read_back() {
    for (noise, body, number) in [
        ("", "", "0"),
        ("$ TMUX_MCP_START_cmd-1 TMUX_MCP_DONE_cmd-1_9", " a\n\nb ", "130"),
        ("x\n", "TMUX_MCP_DONE_cmd-1_1\nTMUX_MCP_DONE_cmd-1_", "00042"),
    ] {
        let captured =
            format!("{noise}TMUX_MCP_START_cmd-1\n{body}\nTMUX_MCP_DONE_cmd-1_{number}\n");
        assert_eq!(
            extract_output_between_markers(&captured, "cmd-1"),
            BracketedOutput::Complete(body.trim().to_string())
        );
        assert_eq!(
            parse_command_output(&captured, "cmd-1"),
            Some((body.trim().to_string(), number.parse().unwrap()))
        );
    }
    let id = "界".repeat(1000);
    let captured = format!("TMUX_MCP_START_{id}\nout\nTMUX_MCP_DONE_{id}_0\n");
    assert_eq!(
        extract_output_between_markers(&captured, &id),
        BracketedOutput::Complete("out".to_string())
    );
}

#[test]
fn extract_output_begins_at_the_last_start_marker() {
    let captured = "TMUX_MCP_START_a\nold\nTMUX_MCP_START_a\nnew\n";
    assert_eq!(
        extract_output_between_markers(captured, "a"),
        BracketedOutput::Open("new".to_string())
    );
    assert_eq!(bracket_output(None, Some("x")), BracketedOutput::MissingStart);
    assert_eq!(
        bracket_output(Some(" a b "), Some(" a ")),
        BracketedOutput::Complete("a".to_string())
    );
}

#[test]
fn partial_capture_never_exceeds_final_capture_budget() {
    let mut tracking = TrackingConfig {
        capture_initial_lines: 10_000,
        capture_max_lines: 25,
        ..TrackingConfig::default()
    };
    assert_eq!(partial_capture_lines(&tracking), 25);

    tracking.capture_initial_lines = 0;
    tracking.capture_max_lines = 0;
    assert_eq!(partial_capture_lines(&tracking), 1);
}

#[test]
fn partial_capture_is_bounded_and_preserves_useful_output_after_marker_loss() {
    let tracking = TrackingConfig {
        capture_initial_lines: 100,
        capture_max_lines: 2,
        ..TrackingConfig::default()
    };
    let mut tracker = CommandTracker::with_tracking(ShellType::Bash, tracking);
    begin(&mut tracker, "%1", "cmd-partial", 0);
    assert_eq!(
        tracker.status_request("cmd-partial", None, Some("/tmp/other.sock")),
        StatusRequest::Capture {
            pane_id: "%1".to_string(),
            lines: 2,
            socket: Some("/tmp/other.sock".to_string()),
        }
    );
    let shown = extract_output_between_markers(
        "TMUX_MCP_START_cmd-partial\nfirst partial\n",
        "cmd-partial",
    );
    let first = tracker
        .refresh_output("cmd-partial", CapturedOutput::of_running(Some(shown)))
        .expect("partial command");
    assert_eq!(first.output.as_deref(), Some("first partial"));
    assert!(first.output_truncated);
    assert!(CommandSnapshot::from_execution(&first, None, 3).output_truncated);
    let lost = extract_output_between_markers("tail after START left scrollback", "cmd-partial");
    let overflowed = tracker
        .refresh_output("cmd-partial", CapturedOutput::of_running(Some(lost)))
        .expect("overflow command");
    assert_eq!(overflowed.output.as_deref(), Some("first partial"));
    assert!(overflowed.output_truncated);
}

fn settle(captures: Vec<Option<BracketedOutput>>) -> (CapturedOutput, usize) {
    let mut progress = TerminalCapture::start();
    let mut taken = 0;
    for capture in captures {
        taken += 1;
        match progress.step(capture) {
            CaptureStep::Done(captured) => return (captured, taken),
            CaptureStep::Retry(next) => progress = next,
        }
    }
    panic!("the final capture is not settled")
}

#[test]
fn terminal_capture_retries_boundedly_until_done_is_visible() {
    let open = BracketedOutput::Open("final output".to_string());
    let complete = BracketedOutput::Complete("final output".to_string());
    let (captured, taken) = settle(vec![Some(open), Some(complete)]);
    assert_eq!(captured.output.as_deref(), Some("final output"));
    assert!(!captured.truncated);
    assert_eq!(taken, 2);
}

#[test]
fn terminal_capture_marks_missing_boundaries_truncated() {
    let open = BracketedOutput::Open("bounded tail".to_string());
    let (missing_done, taken) = settle(vec![Some(open.clone()), None, Some(open), None]);
    assert_eq!(missing_done.output.as_deref(), Some("bounded tail"));
    assert!(missing_done.truncated);
    assert_eq!(taken, 3);
    let (missing_start, taken) = settle(vec![Some(BracketedOutput::MissingStart)]);
    assert_eq!(missing_start.output, None);
    assert!(missing_start.truncated);
    assert_eq!(taken, 1);
}

#[test]
fn check_status_returns_terminal_commit_that_wins_capture_race() {
    let mut tracker = CommandTracker::new(ShellType::Bash);
    begin(&mut tracker, "%1", "cmd-race", 0);
    finish(
        &mut tracker,
        "%1",
        "cmd-race",
        0,
        &["TMUX_MCP_START_cmd-race\nauthoritative final\nTMUX_MCP_DONE_cmd-race_0\n"],
    );
    let stale = CapturedOutput { output: Some("stale partial".to_string()), truncated: true };
    let observed = tracker.refresh_output("cmd-race", stale).expect("race command");
    assert_eq!(observed.status, CommandStatus::Completed);
    assert_eq!(observed.output.as_deref(), Some("authoritative final"));
    assert!(!observed.output_truncated);
}

#[test]
fn test_wrap_includes_side_channel() {
    let wrapped = wrap_tracked_command_side_channel(
        "true",
        "cmd-1",
        "deadbeef",
        &ShellType::Bash,
        Some("/tmp/t.sock"),
    );
    assert!(wrapped.contains("wait-for -S"));
    assert!(wrapped.contains("tmux-mcp-ec-deadbeef"));
    assert!(wrapped.contains("TMUX_MCP_START_cmd-1"));
    assert!(wrapped.contains("-S '/tmp/t.sock'") || wrapped.contains("-S /tmp/t.sock"));
    assert!(
        wrapped.find("TMUX_MCP_DONE_cmd-1").unwrap() < wrapped.find("wait-for -S").unwrap()
    );
}

#[test]
fn wrapping_follows_the_shell() {
    let fish = wrap_tracked_command_side_channel("ls", "c", "s", &ShellType::Fish, None);
    assert_eq!(
        fish,
        "echo \"TMUX_MCP_START_c\"; ls ; set __tmux_mcp_ec $status; tmux set-buffer -b \
         'tmux-mcp-ec-s' -- $__tmux_mcp_ec; echo \"TMUX_MCP_DONE_c_$__tmux_mcp_ec\"; tmux \
         wait-for -S 'tmux-mcp-done-s'"
    );
    let zsh = wrap_tracked_command_side_channel("ls", "c", "s", &ShellType::Zsh, None);
    assert!(zsh.contains("ls ; __tmux_mcp_ec=$?; tmux set-buffer -b 'tmux-mcp-ec-s' -- \"$__tmux_mcp_ec\"; "));
    let bash = wrap_tracked_command_side_channel("ls", "c", "s", &ShellType::Unknown, None);
    assert!(bash.starts_with("if [ -n \"${BASH_VERSION-}\" ]; then __tmux_mcp_prompt_s=$(declare"));
    assert!(bash.contains("; ls ; __tmux_mcp_ec_s=$?; if [ -n"));
    assert!(bash.contains("${__tmux_mcp_ec_s-$?}"));
    assert!(bash.ends_with("; unset __tmux_mcp_ec_s; fi"));
    assert_eq!(shell_single_quote("it's"), "'it'\\''s'");
    assert_eq!(shell_single_quote(""), "''");
}

#[test]
fn test_shell_type_for_pane_command() {
    for (configured, current_command, expected) in [
        (ShellType::Fish, "bash", ShellType::Bash),
        (ShellType::Fish, "zsh", ShellType::Zsh),
        (ShellType::Bash, "fish", ShellType::Fish),
        (ShellType::Bash, "/bin/fish", ShellType::Fish),
        (ShellType::Fish, "vim", ShellType::Fish),
        (ShellType::Fish, "-bash", ShellType::Bash),
    ] {
        assert_eq!(
            shell_type_for_pane_command(configured, current_command),
            expected
        );
    }
}

#[test]
fn test_resource_uri_helper() {
    assert_eq!(command_resource_uri("abc"), "tmux://command/abc/result");
}

#[test]
fn execute_command_side_channel_completes() {
    let mut tracker = CommandTracker::new(ShellType::Bash);
    let launch = tracker.execute_command(&request("%1", "echo hi"), 0).expect("execute");
    assert_eq!(launch.command_id.len(), 36);
    assert_eq!(launch.secret.as_deref().map(str::len), Some(32));
    assert_eq!(launch.events[0].kind, CommandEventKind::Created);
    let id = launch.command_id;
    let (mut watcher, action) = Watcher::start(id.clone(), pane("%1"), &tracker.tracking());
    assert_eq!(action, WatchAction::Wait { seconds: 600 });
    let read = watcher.step(&mut tracker, WatchInput::Signal, 1);
    assert_eq!(read.action, WatchAction::ReadExitCode);
    let capture = watcher.step(&mut tracker, WatchInput::ExitCode(0), 2);
    assert_eq!(capture.action, WatchAction::Capture { lines: 16_000, pause_ms: 0 });
    assert!(capture.delete_exit_code);
    let stored = tracker.peek_command(&id, None).unwrap();
    assert_eq!(stored.status, CommandStatus::Completed);
    assert_eq!(stored.exit_code, Some(0));
    assert!(!stored.result_ready);
    assert_eq!(tracker.pane_command_id(None, "%1", None).as_deref(), Some(id.as_str()));
    let retry = watcher.step(&mut tracker, WatchInput::CaptureFailed, 3);
    assert_eq!(retry.action, WatchAction::Capture { lines: 16_000, pause_ms: 10 });
    let end = watcher.step(
        &mut tracker,
        WatchInput::Captured(format!("TMUX_MCP_START_{id}\nhi\nTMUX_MCP_DONE_{id}_0\n")),
        4,
    );
    assert_eq!(end.action, WatchAction::Stop);
    assert_eq!(end.event.unwrap().kind, CommandEventKind::Terminal);
    assert_eq!(watcher.stage, WatchStage::Finished);
    let ready = tracker.peek_command(&id, None).unwrap();
    assert!(ready.result_ready);
    assert_eq!(ready.output.as_deref(), Some("hi"));
    assert_eq!(tracker.pane_command_id(None, "%1", None), None);
}

#[test]
fn status_snapshot_recovers_completed_side_channel_without_watcher() {
    let mut tracker = CommandTracker::new(ShellType::Bash);
    let id = "orphaned-command";
    begin(&mut tracker, "%1", id, 0);
    assert_eq!(
        tracker.recovery_request(id, None),
        RecoveryRequest::Probe {
            pane_id: "%1".to_string(),
            socket: None,
            secret: format!("s-{id}"),
        }
    );
    let (mut recovery, action) = Recovery::start(id.to_string(), pane("%1"));
    assert_eq!(action, WatchAction::ReadExitCode);
    let text = format!("TMUX_MCP_START_{id}\noutput\nTMUX_MCP_DONE_{id}_7\n");
    recovery.step(&mut tracker, WatchInput::ExitCode(7), 1);
    recovery.step(&mut tracker, WatchInput::Captured(text.clone()), 2);
    let end = recovery.step(&mut tracker, WatchInput::Captured(text), 3);
    assert!(end.delete_exit_code);
    assert_eq!(recovery.stage, RecoveryStage::Finished { terminal: true });
    let snapshot = tracker.peek_command(id, None).expect("snapshot");
    assert_eq!(snapshot.status, CommandStatus::Failed);
    assert_eq!(snapshot.exit_code, Some(7));
    assert!(snapshot.result_ready);
    assert_eq!(tracker.pane_command_id(None, "%1", None), None);
    assert_eq!(tracker.recovery_request(id, None), RecoveryRequest::Settled(true));
    assert!(tracker.execute_command(&request("%1", "echo next"), 4).is_ok());
}

#[test]
fn a_recovery_without_a_visible_end_changes_nothing() {
    let mut tracker = CommandTracker::new(ShellType::Bash);
    begin(&mut tracker, "%1", "c", 0);
    let (mut recovery, _) = Recovery::start("c".to_string(), pane("%1"));
    recovery.step(&mut tracker, WatchInput::ExitCode(0), 1);
    recovery.step(&mut tracker, WatchInput::Captured("TMUX_MCP_START_c\nrunning".to_string()), 2);
    assert_eq!(recovery.stage, RecoveryStage::Finished { terminal: false });
    assert!(tracker.is_unresolved("c"));
}

#[test]
fn execute_command_side_channel_keeps_status_but_marks_unclosed_output_truncated() {
    let mut tracker = CommandTracker::new(ShellType::Bash);
    begin(&mut tracker, "%1", "c", 0);
    let open = "TMUX_MCP_START_c\nbounded tail\n";
    finish(&mut tracker, "%1", "c", 0, &[open, open, open]);
    match tracker.poll_wait("c", None) {
        WaitStep::Ready(cmd) => {
            assert_eq!(cmd.status, CommandStatus::Completed);
            assert_eq!(cmd.exit_code, Some(0));
            assert_eq!(cmd.output.as_deref(), Some("bounded tail"));
            assert!(cmd.output_truncated);
            assert!(cmd.result_ready);
        }
        other => panic!("unexpected: {other:?}"),
    }
}

#[test]
fn final_capture_timeout_marks_result_ready_and_releases_pane() {
    let mut tracker = CommandTracker::new(ShellType::Bash);
    begin(&mut tracker, "%1", "c", 0);
    let (mut watcher, _) = Watcher::start("c".to_string(), pane("%1"), &tracker.tracking());
    watcher.step(&mut tracker, WatchInput::Signal, 1);
    watcher.step(&mut tracker, WatchInput::ExitCode(0), 2);
    watcher.step(&mut tracker, WatchInput::CaptureTimedOut, 3);
    let cmd = tracker.peek_command("c", None).unwrap();
    assert_eq!(cmd.status, CommandStatus::Completed);
    assert!(cmd.result_ready);
    assert!(cmd.output_truncated);
    assert!(tracker.pane_command_id(None, "%1", None).is_none());
}

#[test]
fn execute_command_spoof_done_does_not_complete() {
    let mut tracker = CommandTracker::new(ShellType::Bash);
    begin(&mut tracker, "%1", "c", 0);
    let spoof = "TMUX_MCP_START_c\nTMUX_MCP_DONE_c_0\n";
    let shown = extract_output_between_markers(spoof, "c");
    let cmd = tracker
        .refresh_output("c", CapturedOutput::of_running(Some(shown)))
        .expect("found");
    assert!(!cmd.status.is_terminal());
    let (mut watcher, _) = Watcher::start("c".to_string(), pane("%1"), &tracker.tracking());
    watcher.step(&mut tracker, WatchInput::Captured(spoof.to_string()), 1);
    assert!(tracker.is_unresolved("c"));
}

#[test]
fn a_lost_signal_is_found_at_the_checkpoint() {
    let mut tracker = CommandTracker::new(ShellType::Bash);
    begin(&mut tracker, "%1", "c", 0);
    let (mut watcher, _) = Watcher::start("c".to_string(), pane("%1"), &tracker.tracking());
    let check = watcher.step(&mut tracker, WatchInput::Checkpoint, 1);
    assert_eq!(check.action, WatchAction::ReadExitCode);
    let back = watcher.step(&mut tracker, WatchInput::ExitCodeFailed("none".to_string()), 2);
    assert_eq!(back.action, WatchAction::Wait { seconds: 600 });
    watcher.step(&mut tracker, WatchInput::Checkpoint, 3);
    watcher.step(&mut tracker, WatchInput::ExitCode(2), 4);
    let done = "TMUX_MCP_START_c\nx\nTMUX_MCP_DONE_c_2\n".to_string();
    let read = watcher.step(&mut tracker, WatchInput::Captured(done.clone()), 5);
    assert_eq!(read.action, WatchAction::ReadExitCode);
    watcher.step(&mut tracker, WatchInput::ExitCode(2), 6);
    watcher.step(&mut tracker, WatchInput::Captured(done), 7);
    let cmd = tracker.peek_command("c", None).unwrap();
    assert_eq!(cmd.status, CommandStatus::Failed);
    assert_eq!(cmd.exit_code, Some(2));
}

#[test]
fn a_failed_side_channel_is_a_tracking_error_that_keeps_the_pane() {
    let mut tracker = CommandTracker::new(ShellType::Bash);
    begin(&mut tracker, "%1", "c", 0);
    let (mut watcher, _) = Watcher::start("c".to_string(), pane("%1"), &tracker.tracking());
    watcher.step(&mut tracker, WatchInput::SignalFailed("gone".to_string()), 1);
    watcher.step(
        &mut tracker,
        WatchInput::Captured("TMUX_MCP_START_c\nx\nTMUX_MCP_DONE_c_0\n".to_string()),
        2,
    );
    let cmd = tracker.peek_command("c", None).unwrap();
    assert_eq!(cmd.status, CommandStatus::TrackingError);
    assert_eq!(cmd.reason.as_deref(), Some("wait-for failed: gone"));
    assert_eq!(cmd.output.as_deref(), Some("x"));
    assert!(cmd.output_truncated);
    assert_eq!(tracker.pane_command_id(None, "%1", None).as_deref(), Some("c"));

    begin(&mut tracker, "%2", "d", 0);
    let (mut watcher, _) = Watcher::start("d".to_string(), pane("%2"), &tracker.tracking());
    watcher.step(&mut tracker, WatchInput::Signal, 1);
    watcher.step(&mut tracker, WatchInput::ExitCodeFailed("lost".to_string()), 2);
    watcher.step(&mut tracker, WatchInput::CaptureTimedOut, 3);
    let cmd = tracker.peek_command("d", None).unwrap();
    assert_eq!(cmd.reason.as_deref(), Some("side-channel exit buffer unreadable: lost"));
    assert_eq!(tracker.uncertain_command(None).unwrap().id, "c");
}

#[test]
fn execute_command_rejects_second_on_same_pane() {
    let mut tracker = CommandTracker::new(ShellType::Bash);
    let id = "running-command".to_string();
    begin(&mut tracker, "%1", &id, 0);
    let error = tracker
        .execute_command(&request("%1", "echo two"), 1)
        .expect_err("second command must be rejected");

    assert!(error.to_string().contains("busy"));
    assert!(error.to_string().contains(&id));
    assert_eq!(tracker.get_active_ids(None), vec![id]);
}

#[test]
fn test_detach_cannot_bypass_occupied_pane() {
    let mut tracker = CommandTracker::new(ShellType::Bash);
    let mut detached = request("%1", "top");
    detached.raw_mode = true;
    tracker
        .begin_command(&detached, "detached".to_string(), String::new(), 0)
        .expect("detached");
    for detach in [false, true] {
        let mut next = request("%1", "next");
        next.raw_mode = detach;
        let error = tracker.execute_command(&next, 1).unwrap_err();
        assert!(error.to_string().contains("busy"));
    }
    tracker.mark_dispatch_uncertain(
        "detached",
        &Error::InvalidArgument { message: "connection lost".into() },
        2,
    );
    assert!(tracker.uncertain_command(None).is_some());
    assert_eq!(
        tracker.pane_command_id(None, "%1", None).as_deref(),
        Some("detached")
    );
}

#[test]
fn tracking_error_keeps_pane_busy_after_inspection_and_retention() {
    let mut tracker = CommandTracker::with_tracking(
        ShellType::Bash,
        TrackingConfig { completed_retention_minutes: 0, ..TrackingConfig::default() },
    );
    let id = "uncertain-command".to_string();
    begin(&mut tracker, "%1", &id, 0);
    tracker.mark_dispatch_uncertain(&id, &Error::Tmux { message: "lost".into() }, 1);
    assert!(tracker.cleanup_completed(1_000 * SECOND).is_empty());
    assert_eq!(tracker.uncertain_command(None).expect("uncertain command").id, id);

    let error = tracker
        .execute_command(&request("%1", "echo two"), 2_000 * SECOND)
        .expect_err("uncertain pane must remain busy");
    assert!(error.to_string().contains("busy"));
    tracker.cleanup_completed(3_000 * SECOND);
    assert!(tracker.uncertain_command(None).is_some());
    assert_eq!(
        tracker.pane_command_id(None, "%1", None).as_deref(),
        Some(id.as_str())
    );
}

#[test]
fn wait_for_returns_on_completion() {
    let mut tracker = CommandTracker::new(ShellType::Bash);
    begin(&mut tracker, "%1", "c", 0);
    assert_eq!(tracker.poll_wait("c", None), WaitStep::Pending);
    finish(&mut tracker, "%1", "c", 0, &["TMUX_MCP_START_c\nTMUX_MCP_DONE_c_0\n"]);
    assert!(matches!(
        tracker.poll_wait("c", None),
        WaitStep::Ready(cmd) if cmd.status == CommandStatus::Completed
    ));
    assert_eq!(tracker.poll_wait("unknown", None), WaitStep::Missing);
}

#[test]
fn caller_timeout_stays_running_after_tracking_checkpoint() {
    let mut tracker = CommandTracker::with_tracking(
        ShellType::Bash,
        TrackingConfig { tracking_deadline_seconds: 1, ..TrackingConfig::default() },
    );
    begin(&mut tracker, "%1", "c", 0);
    let (mut watcher, action) = Watcher::start("c".to_string(), pane("%1"), &tracker.tracking());
    assert_eq!(action, WatchAction::Wait { seconds: 1 });
    let check = watcher.step(&mut tracker, WatchInput::Checkpoint, SECOND);
    assert_eq!(check.action, WatchAction::ReadExitCode);
    let missing = WatchInput::ExitCodeFailed("no buffer".to_string());
    let back = watcher.step(&mut tracker, missing, SECOND);
    assert_eq!(back.action, WatchAction::Wait { seconds: 1 });
    let (cmd, timed_out) = tracker.wait_expired("c", None).expect("found");
    assert!(timed_out);
    assert!(!cmd.status.is_terminal());
    assert_eq!(tracker.wait_expired("unknown", None), None);
}

#[test]
fn execute_command_rejects_newline() {
    let mut tracker = CommandTracker::new(ShellType::Bash);
    let err = tracker
        .execute_command(&request("%1", "echo a\necho b"), 0)
        .unwrap_err();
    assert!(matches!(err, Error::InvalidArgument { .. }));
    assert_eq!(
        err.to_string(),
        "invalid argument: tracked commands cannot contain embedded newlines (\\n or \\r)"
    );
}

#[test]
fn execute_command_rejects_unquoted_hash() {
    let mut tracker = CommandTracker::new(ShellType::Bash);
    let err = tracker
        .execute_command(&request("%1", "grep x # note"), 0)
        .unwrap_err();
    assert!(matches!(err, Error::InvalidArgument { .. }));
    assert!(tracker.get_active_ids(None).is_empty());
}

#[test]
fn execute_command_rejects_background() {
    let err = check_command("sleep 1 &").unwrap_err();
    assert!(matches!(err, Error::InvalidArgument { .. }));
    assert!(check_command("make 2>&1 | tail").is_ok());
}

#[test]
fn shell_redirections_are_not_background_operators() {
    for command in [
        "sleep 60&true",
        "sleep 1 &",
        "sleep 1&",
        "echo a&&sleep 1&echo b",
    ] {
        assert!(has_unquoted_shell_background_operator(command), "{command}");
    }
    for command in [
        "cmd 2>&1",
        "true && echo ok",
        "cmd &>log",
        "cmd 3<&0",
        "cmd |& cat",
        "echo 'a&b'",
        "echo \"a&b\"",
        r"echo a\&b",
    ] {
        assert!(
            !has_unquoted_shell_background_operator(command),
            "{command}"
        );
    }
}

#[test]
fn test_target_isolates_identical_panes_results_and_purge() {
    let mut tracker = CommandTracker::new(ShellType::Bash);
    for target in ["server-admin", "server-intern"] {
        let mut wanted = request("%1", "printf partial");
        wanted.target = Some(target.to_string());
        tracker
            .begin_command(&wanted, target.to_string(), "secret".to_string(), 0)
            .expect("begin");
    }
    let admin = Some("server-admin");
    assert_eq!(
        tracker.pane_command_id(admin, "%1", None).as_deref(),
        Some("server-admin")
    );
    assert!(tracker.peek_command("server-intern", admin).is_none());
    assert_eq!(
        tracker.status_request("server-intern", admin, None),
        StatusRequest::Missing
    );
    let (removed, events) = tracker.purge_pane(admin, "%1", None);
    assert_eq!(removed, 1);
    assert_eq!(events[0].kind, CommandEventKind::Evicted);
    let intern = Some("server-intern");
    assert_eq!(
        tracker.pane_command_id(intern, "%1", None).as_deref(),
        Some("server-intern")
    );
    let record = tracker.peek_command("server-intern", intern).unwrap();
    assert_eq!(
        record.resource_uri(),
        "tmux://server-intern/command/server-intern/result"
    );
}

#[test]
fn execute_command_uses_pane_shell_for_markers() {
    let mut tracker = CommandTracker::new(ShellType::Fish);
    begin(&mut tracker, "%1", "c", 0);
    let launch = TrackedLaunch {
        command_id: "c".to_string(),
        command: "true".to_string(),
        delay_ms: None,
        socket: None,
        secret: "s-c".to_string(),
    };
    let (steps, event) = tracker.run_tracked_launch(&launch, Some("bash"), 1);
    assert_eq!(event.unwrap().kind, CommandEventKind::Updated);
    assert_eq!(steps.len(), 1);
    match &steps[0] {
        KeyStep::KeysAndEnter { text } => {
            assert!(text.contains("=$?; if [ -n"));
            assert!(!text.contains("set __tmux_mcp_ec $status"));
        }
        other => panic!("unexpected: {other:?}"),
    }
    let (fish, _) = tracker.run_tracked_launch(&launch, None, 2);
    assert!(matches!(
        &fish[0],
        KeyStep::KeysAndEnter { text } if text.contains("set __tmux_mcp_ec $status")
    ));
}

#[test]
fn execute_command_zero_delay_does_not_type_character_by_character() {
    assert_eq!(
        dispatch_keys("true", Some(0), false),
        vec![KeyStep::KeysAndEnter { text: "true".to_string() }]
    );
    assert_eq!(
        dispatch_keys("ab", Some(5), false),
        vec![
            KeyStep::Keys { text: "a".to_string(), literal: true },
            KeyStep::Pause { ms: 5 },
            KeyStep::Keys { text: "b".to_string(), literal: true },
            KeyStep::Pause { ms: 5 },
            KeyStep::Keys { text: "Enter".to_string(), literal: false },
        ]
    );
    assert_eq!(
        dispatch_keys("ab", None, true),
        vec![KeyStep::Keys { text: "ab".to_string(), literal: false }]
    );
}

#[test]
fn execute_command_send_failure_retains_uncertain_pane() {
    let mut tracker = CommandTracker::new(ShellType::Bash);
    let id = tracker.execute_command(&request("%1", "echo hi"), 0).unwrap().command_id;
    let event = tracker
        .mark_dispatch_uncertain(&id, &Error::Tmux { message: "send failed".into() }, 1)
        .unwrap();
    assert_eq!(event.status, CommandStatus::TrackingError);
    let uncertain = tracker.uncertain_command(None).expect("retain uncertain input");
    assert_eq!(
        tracker.pane_command_id(None, "%1", None).as_deref(),
        Some(uncertain.id.as_str())
    );
    assert_eq!(
        uncertain.reason.unwrap(),
        "Input delivery is uncertain: tmux error: send failed. Stop and report to the user; do \
         not retry, clear input, or switch windows to repeat the command."
    );
}

#[test]
fn purge_pane_is_scoped_to_socket() {
    let mut tracker = CommandTracker::new(ShellType::Bash);
    let socket_a = "/tmp/tmux-mcp-a.sock";
    let socket_b = "/tmp/tmux-mcp-b.sock";
    let mut ids = Vec::new();
    for socket in [socket_a, socket_b] {
        let mut wanted = request("%1", "echo a");
        wanted.socket = Some(socket.to_string());
        ids.push(tracker.execute_command(&wanted, 0).expect("execute").command_id);
    }
    assert_eq!(tracker.purge_pane(None, "%1", Some(socket_a)).0, 1);
    assert!(tracker.peek_command(&ids[0], None).is_none());
    assert!(tracker.peek_command(&ids[1], None).is_some());
    assert_eq!(tracker.purge_pane(None, "%1", Some(socket_b)).0, 1);
}

#[test]
fn raw_mode_disables_tracking() {
    let mut tracker = CommandTracker::new(ShellType::Bash);
    let mut raw = request("%1", "echo hi");
    raw.raw_mode = true;
    let launch = tracker.execute_command(&raw, 0).expect("execute");
    assert_eq!(launch.secret, None);
    let id = launch.command_id;
    let cmd = tracker.peek_command(&id, None).expect("found");
    assert!(cmd.tracking_disabled);
    assert_eq!(cmd.status, CommandStatus::Running);
    assert!(cmd.output.as_deref().is_some_and(|output| {
        output.contains("Tracking disabled for raw_mode or no_enter commands")
    }));
    assert!(cmd.output_truncated);
    assert!(CommandSnapshot::from_execution(&cmd, None, 0).output_truncated);
    assert_eq!(
        tracker.pane_command_id(None, "%1", None).as_deref(),
        Some(id.as_str())
    );
    assert!(tracker.execute_command(&request("%1", "echo next"), 1).is_err());
    assert!(matches!(tracker.poll_wait(&id, None), WaitStep::Ready(_)));
}

#[test]
fn test_has_unquoted_shell_comment_marker_rejects() {
    for command in ["grep pattern # notes", "# all comment", "true;#x"] {
        assert!(has_unquoted_shell_comment_marker(command));
    }
}

#[test]
fn test_has_unquoted_shell_comment_marker_allows() {
    for command in ["echo '# literal'", r#"echo "x#y""#, r"echo \# a", "echo a#b"] {
        assert!(!has_unquoted_shell_comment_marker(command));
    }
}

#[test]
fn test_wrap_tracked_command_space_before_done() {
    let wrapped = wrap_tracked_command("grep foo\\", "START", "DONE");
    assert!(wrapped.contains("grep foo\\ ; echo"));
}

#[test]
fn cleanup_evicts_by_age_and_then_by_count() {
    let mut tracker = CommandTracker::with_tracking(
        ShellType::Bash,
        TrackingConfig {
            completed_retention_minutes: 1,
            completed_max_entries: 2,
            ..TrackingConfig::default()
        },
    );
    for (index, id) in ["a", "b", "c", "d"].iter().enumerate() {
        let now = (index as u64 + 1) * SECOND;
        begin(&mut tracker, "%1", id, now);
        let (mut watcher, _) = Watcher::start(id.to_string(), pane("%1"), &tracker.tracking());
        watcher.step(&mut tracker, WatchInput::Signal, now);
        watcher.step(&mut tracker, WatchInput::ExitCode(0), now);
        watcher.step(&mut tracker, WatchInput::CaptureTimedOut, now);
    }
    let events = tracker.cleanup_completed(5 * SECOND);
    let evicted: Vec<&str> = events.iter().map(|event| event.command_id.as_str()).collect();
    assert_eq!(evicted, ["b"]);
    assert!(!tracker.has_command("a", None));
    assert_eq!(tracker.get_active_ids(None), vec!["c".to_string(), "d".to_string()]);
    let events = tracker.cleanup_completed(63 * SECOND);
    assert_eq!(events.len(), 1);
    assert_eq!(tracker.get_active_ids(None), vec!["d".to_string()]);
    begin(&mut tracker, "%2", "e", 63 * SECOND);
    tracker.cleanup_completed(100_000 * SECOND);
    assert_eq!(tracker.get_active_ids(None), vec!["e".to_string()]);
}

#[test]
fn a_snapshot_stands_still_once_the_command_has_ended() {
    let mut tracker = CommandTracker::new(ShellType::Bash);
    begin(&mut tracker, "%1", "c", 1_000_000);
    let running = tracker.peek_command("c", None).unwrap();
    let snapshot = CommandSnapshot::from_execution(&running, Some(true), 13_500_000);
    assert_eq!(snapshot.elapsed_ms, 12);
    assert_eq!(snapshot.wait_timed_out, Some(true));
    assert_eq!(snapshot.schema_version, 1);
    finish(&mut tracker, "%1", "c", 0, &["TMUX_MCP_START_c\nTMUX_MCP_DONE_c_0\n"]);
    let ended = tracker.peek_command("c", None).unwrap();
    assert_eq!(CommandSnapshot::from_execution(&ended, None, u64::MAX).elapsed_ms, 0);
}

#[test]
fn execute_command_side_channel_retries_output_until_done_marker_is_visible() {
    let mut tracker = CommandTracker::new(ShellType::Bash);
    let launch = tracker.execute_command(&request("%1", "printf final"), 0).expect("execute");
    let id = launch.command_id;
    assert_eq!(id.chars().nth(14), Some('4'));
    assert_eq!(launch.secret.unwrap().chars().nth(12), Some('4'));
    let before = format!("TMUX_MCP_START_{id}\nfinal output\n");
    let after = format!("TMUX_MCP_START_{id}\nfinal output\nTMUX_MCP_DONE_{id}_0\n");
    let (mut watcher, _) = Watcher::start(id.clone(), pane("%1"), &tracker.tracking());
    watcher.step(&mut tracker, WatchInput::Signal, 1);
    watcher.step(&mut tracker, WatchInput::ExitCode(0), 2);
    let first = watcher.step(&mut tracker, WatchInput::Captured(before), 3);
    assert_eq!(first.action, WatchAction::Capture { lines: 16_000, pause_ms: 10 });
    let second = watcher.step(&mut tracker, WatchInput::Captured(after), 4);
    assert_eq!(second.action, WatchAction::Stop);
    match tracker.poll_wait(&id, None) {
        WaitStep::Ready(cmd) => {
            assert_eq!(cmd.status, CommandStatus::Completed);
            assert_eq!(cmd.exit_code, Some(0));
            assert_eq!(cmd.output.as_deref(), Some("final output"));
            assert!(!cmd.output_truncated);
            assert!(cmd.result_ready);
        }
        other => panic!("unexpected: {other:?}"),
    }
}

#[test]
fn test_wait_budget_preserves_running_command_without_final_capture() {
    let mut tracker = CommandTracker::new(ShellType::Bash);
    begin(&mut tracker, "%1", "budget", 0);
    let (execution, timed_out) = tracker.wait_expired("budget", None).unwrap();
    assert!(timed_out);
    assert_eq!(execution.status, CommandStatus::Running);
    assert!(!execution.result_ready);
    assert_eq!(tracker.pane_command_id(None, "%1", None).as_deref(), Some("budget"));
}

#[test]
fn markers_of_other_commands_are_part_of_the_output() {
    let captured = "TMUX_MCP_START_a\nTMUX_MCP_DONE_b_0\nTMUX_MCP_DONE_a_x\nTMUX_MCP_DONE_a_12";
    assert_eq!(
        extract_output_between_markers(captured, "a"),
        BracketedOutput::Complete("TMUX_MCP_DONE_b_0\nTMUX_MCP_DONE_a_x".to_string())
    );
    assert_eq!(
        parse_command_output(captured, "a"),
        Some(("TMUX_MCP_DONE_b_0\nTMUX_MCP_DONE_a_x".to_string(), 12))
    );
    assert_eq!(parse_command_output("x TMUX_MCP_DONE_a_3", "a"), Some(("x".to_string(), 3)));
}

#[test]
fn looking_a_command_up_recovers_a_completion_that_the_watcher_missed() {
    let mut tracker = CommandTracker::new(ShellType::Bash);
    begin(&mut tracker, "%1", "c", 0);
    let shown = |text: &str| {
        CapturedOutput::of_running(Some(extract_output_between_markers(text, "c")))
    };
    let (running, event) = tracker.get_command("c", None, None, 1);
    assert_eq!(running.unwrap().status, CommandStatus::Running);
    assert!(event.is_none());
    let open = shown("TMUX_MCP_START_c\nstill here");
    let (running, event) = tracker.get_command("c", None, Some((0, open)), 2);
    assert_eq!(running.unwrap().status, CommandStatus::Running);
    assert!(event.is_none());
    let done = shown("TMUX_MCP_START_c\nout\nTMUX_MCP_DONE_c_0\n");
    let (elsewhere, event) = tracker.get_command("c", Some("h"), Some((0, done.clone())), 3);
    assert!(elsewhere.is_none() && event.is_none());
    let (ended, event) = tracker.get_command("c", None, Some((0, done.clone())), 4);
    let ended = ended.unwrap();
    assert_eq!(ended.status, CommandStatus::Completed);
    assert_eq!(ended.exit_code, Some(0));
    assert_eq!(ended.output.as_deref(), Some("out"));
    assert_eq!(ended.completed_at, Some(4));
    assert!(ended.result_ready);
    assert_eq!(event.unwrap().kind, CommandEventKind::Terminal);
    assert_eq!(tracker.pane_command_id(None, "%1", None), None);
    let (again, event) = tracker.get_command("c", None, Some((9, done)), 5);
    assert_eq!(again.unwrap(), ended);
    assert!(event.is_none());
}
