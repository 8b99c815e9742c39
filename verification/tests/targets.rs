use tmux_mcp::errors::Error;
use tmux_mcp::keyed::Keyed;
use tmux_mcp::targets::{
    alias_is_valid, uri, uri_for, without_byte_order_marks, TargetConfig, TargetsFile,
};
use tmux_mcp::text::{
    contains, less, lower, parse_i32, parse_u64, replace_all, same, space, split,
    starts_with, trim, truncate_bytes, u64_text,
};
use tmux_mcp::timing::{millis, CallTiming, TransportTimer};
use tmux_mcp::types::CommandStatus;

fn file(names: &[&str]) -> TargetsFile {
    let mut targets = Keyed::new();
    for name in names {
        targets.insert(name.to_string(), TargetConfig { note: "x".to_string() });
    }
    TargetsFile { targets }
}

#[test]
fn parses_aliases() {
    assert!(file(&["x"]).checked().is_ok());
    assert!(file(&["-bad"]).checked().is_err());
    assert!(file(&[".bad"]).checked().is_err());
}

#[test]
fn each_rejected_targets_file_is_explained() {
    assert_eq!(
        file(&[]).checked().unwrap_err().to_string(),
        "config error: targets file must contain at least one target"
    );
    match file(&["ok", "a\"b", "c d"]).checked() {
        Err(Error::Config { message }) => {
            assert_eq!(message, "invalid target name: \"a\\\"b\"");
        }
        other => panic!("unexpected: {other:?}"),
    }
    assert!(alias_is_valid(&"a".repeat(128)));
    assert!(!alias_is_valid(&"a".repeat(129)));
    assert!(!alias_is_valid(""));
    assert!(!alias_is_valid("界"));
}

#[test]
fn byte_order_marks_make_no_difference() {
    for content in ["", "[targets.x]\n", "a\u{feff}b"] {
        assert_eq!(without_byte_order_marks(content), content);
        assert_eq!(without_byte_order_marks(&format!("\u{feff}\u{feff}{content}")), content);
    }
}

#[test]
fn an_alias_stands_once() {
    let file = file(&["a", "b", "a"]).checked().unwrap();
    assert_eq!(file.targets.len(), 2);
    assert_eq!(file.targets.get("a").unwrap().note, "x");
}

#[test]
fn resources_are_named_under_their_target() {
    assert_eq!(uri_for("h", "tmux://command/c/result"), "tmux://h/command/c/result");
    assert_eq!(uri_for("h", "tmux://server/info"), "tmux://h/server/info");
    assert_eq!(uri_for("h", "tmux://targets"), "tmux://targets");
    assert_eq!(uri_for("h", "file:///x"), "file:///x");
    assert_eq!(uri_for("other", "tmux://h/command/c/result"), "tmux://h/command/c/result");
    assert_eq!(uri(None, "tmux://pane/%1"), "tmux://pane/%1");
    assert_eq!(uri(Some("h"), "tmux://pane/%1"), "tmux://h/pane/%1");
}

#[test]
fn test_timing_isolates_targets_and_bounds_detail() {
    let run = |target: &str| {
        let mut timing = CallTiming::start(Some(target.to_string()));
        for _ in 0..130 {
            let mut timer = TransportTimer::new("capture-pane", true, 0);
            timer.dispatched(2_000_000);
            timer.finish("ok", 12);
            timer.record(5_000_000, &mut timing);
        }
        timing
    };
    let (a, b) = (run("host-admin"), run("host-intern"));
    assert_eq!(a.target.as_deref(), Some("host-admin"));
    assert_eq!(b.target.as_deref(), Some("host-intern"));
    assert_eq!(a.transports.len(), 128);
    assert_eq!(a.omitted_transports, 2);
    assert_eq!(a.transports[0].stdout_bytes, 12);
    assert_eq!(a.transports[0].queue_ms, 2);
    assert_eq!(a.transports[0].duration_ms, 5);
    assert_eq!(a.transports[0].transport, "ssh");
    let mut interrupted = CallTiming::start(None);
    TransportTimer::new("stat", false, 0).record(3_000_000, &mut interrupted);
    assert_eq!(interrupted.transports[0].outcome, "interrupted");
    assert_eq!(interrupted.transports[0].queue_ms, 3);
    assert_eq!(millis(5, 4), 0);
    assert_eq!(millis(0, 1_999_999), 1);
}

#[test]
fn statuses_have_names_and_ends() {
    assert_eq!(CommandStatus::TrackingError.as_str(), "tracking_error");
    assert!(CommandStatus::Cancelled.is_terminal());
    assert!(!CommandStatus::Queued.is_terminal());
}

#[test]
fn white_space_is_that_of_unicode() {
    for code in 0..=0x10ffff_u32 {
        if let Some(c) = char::from_u32(code) {
            assert_eq!(space(c), c.is_whitespace(), "{code:x}");
        }
    }
}

#[test]
fn text_operations_agree_with_those_of_the_language() {
    for text in ["", " a b ", "\u{3000}界\n", "x/y//z", "TMUX", "ab", "abc", "b"] {
        assert_eq!(trim(text), text.trim());
        assert_eq!(lower(text), text.to_ascii_lowercase());
        assert_eq!(split(text, '/'), text.split('/').collect::<Vec<_>>());
        assert_eq!(replace_all(text, "b", "xy"), text.replace("b", "xy"));
        for other in ["", "a", "ab", "z", "界"] {
            assert_eq!(contains(text, other), text.contains(other));
            assert_eq!(starts_with(text, other), text.starts_with(other));
            assert_eq!(less(text, other), text < other);
            assert_eq!(same(text, other), text == other);
        }
    }
    for text in ["", "+", "-", "0", "+7", "-7", "007", "2147483647", "2147483648", "-2147483648",
        "18446744073709551615", "18446744073709551616", "1x", "٣"]
    {
        assert_eq!(parse_i32(text), text.parse::<i32>().ok(), "{text}");
        assert_eq!(parse_u64(text), text.parse::<u64>().ok(), "{text}");
    }
    for n in [0, 9, 10, 1_234_567, u64::MAX] {
        assert_eq!(u64_text(n), n.to_string());
    }
    assert_eq!(truncate_bytes("a界b", 3), "a");
    assert_eq!(truncate_bytes("a界b", 4), "a界");
    assert_eq!(truncate_bytes("a😀", 5), "a😀");
}
