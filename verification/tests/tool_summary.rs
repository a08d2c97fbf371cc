use pokedex_tui::tool_summary::extract_tool_summary;

fn fields(pairs: &[(&str, &str)]) -> Vec<(String, String)> {
    pairs.iter().map(|(k, v)| (k.to_string(), v.to_string())).collect()
}

#[test]
fn bash_summary_is_first_command_line() {
    let f = fields(&[("command", "  cargo build\ncargo test"), ("description", "build")]);
    assert_eq!(extract_tool_summary("Bash", &f), "cargo build");
    let f = fields(&[("command", "dir\r\nls")]);
    assert_eq!(extract_tool_summary("PowerShell", &f), "dir");
}

#[test]
fn file_and_search_tools_use_their_field() {
    let f = fields(&[("file_path", "/src/main.rs"), ("pattern", "fn main"), ("url", "https://x"), ("query", "rust")]);
    assert_eq!(extract_tool_summary("Read", &f), "/src/main.rs");
    assert_eq!(extract_tool_summary("Edit", &f), "/src/main.rs");
    assert_eq!(extract_tool_summary("Write", &f), "/src/main.rs");
    assert_eq!(extract_tool_summary("Glob", &f), "fn main");
    assert_eq!(extract_tool_summary("Grep", &f), "fn main");
    assert_eq!(extract_tool_summary("WebFetch", &f), "https://x");
    assert_eq!(extract_tool_summary("WebSearch", &f), "rust");
}

#[test]
fn missing_field_gives_empty_summary() {
    assert_eq!(extract_tool_summary("Read", &fields(&[("other", "x")])), "");
    assert_eq!(extract_tool_summary("Unknown", &fields(&[])), "");
}

#[test]
fn agent_falls_back_to_description() {
    let f = fields(&[("task", ""), ("description", "review the patch\nthen merge")]);
    assert_eq!(extract_tool_summary("Agent", &f), "review the patch");
    let f = fields(&[("task", "plan"), ("description", "other")]);
    assert_eq!(extract_tool_summary("Agent", &f), "plan");
}

#[test]
fn unknown_tool_uses_first_string_member() {
    let f = fields(&[("alpha", "  first value  "), ("beta", "second")]);
    assert_eq!(extract_tool_summary("Custom", &f), "first value");
}

#[test]
fn long_summaries_are_cut_with_ellipsis() {
    let long = "x".repeat(70);
    let f = fields(&[("file_path", long.as_str())]);
    assert_eq!(extract_tool_summary("Read", &f), format!("{}\u{2026}", "x".repeat(60)));
    let exact = "y".repeat(60);
    let f = fields(&[("file_path", exact.as_str())]);
    assert_eq!(extract_tool_summary("Read", &f), exact);
}
