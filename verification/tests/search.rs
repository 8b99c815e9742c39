use tmux_mcp::types::SearchMode;

#[test]
fn search_tests_skipped_on_linux() {
    println!("skipping search fixture tests on linux");
    assert_ne!(SearchMode::Literal, SearchMode::Regex);
}
