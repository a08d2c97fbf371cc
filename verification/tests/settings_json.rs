use pokedex_tui::hooks::{hooks_from_settings, HooksConfigMenuState, HooksMenuMode};
use pokedex_tui::overlays::{pinned_texts_from, GlobalSearchState};
use pokedex_tui::panels::privacy_from_settings;
use pokedex_tui::settings::{read_setting_bool, read_setting_u8, settings_with_bool, stored_settings, BoolSetting};
use pokedex_tui::tool_summary::tool_summary_from_json;

const SETTINGS: &str = r#"{
  "hooks": {
    "PreToolUse": [
      { "matcher": "Bash", "hooks": [ { "type": "command", "command": "echo hi" }, { "type": "http" } ] },
      { "hooks": [ { "type": "prompt", "prompt": "check" } ] },
      { "matcher": "Write", "hooks": "not a list" }
    ],
    "Stop": [ { "hooks": [ { "command": "say done" } ] } ],
    "Broken": "x"
  },
  "autoCompact": false,
  "autoCompactThreshold": 300,
  "reduceMotion": true,
  "hasAgreedToUsagePolicy": true,
  "disableTelemetry": "yes"
}"#;

#[test]
fn hooks_are_read_from_settings() {
    let hooks = hooks_from_settings(Some(SETTINGS));
    let got: Vec<(String, String, String, String)> = hooks
        .iter()
        .map(|h| (h.event.clone(), h.matcher.clone(), h.hook_type.clone(), h.target.clone()))
        .collect();
    let want = vec![
        ("PreToolUse".to_string(), "Bash".to_string(), "command".to_string(), "echo hi".to_string()),
        ("PreToolUse".to_string(), "*".to_string(), "prompt".to_string(), "check".to_string()),
        ("Stop".to_string(), "*".to_string(), "command".to_string(), "say done".to_string()),
    ];
    assert_eq!(got, want);
    assert!(hooks_from_settings(None).is_empty());
    assert!(hooks_from_settings(Some("not json")).is_empty());
    assert!(hooks_from_settings(Some(r#"{"hooks": []}"#)).is_empty());
}

#[test]
fn open_with_settings_shows_the_event_list() {
    let mut s = HooksConfigMenuState::new();
    s.open_with_settings(Some(SETTINGS));
    assert!(s.visible);
    assert_eq!(s.mode, HooksMenuMode::SelectEvent);
    assert_eq!(s.hooks.len(), 3);
    assert_eq!(s.events, vec!["PreToolUse".to_string(), "Stop".to_string()]);
}

#[test]
fn privacy_fields_are_read() {
    let p = privacy_from_settings(Some(SETTINGS));
    assert_eq!(p.has_agreed, Some(true));
    assert_eq!(p.disable_telemetry, None);
    assert_eq!(p.share_usage_data, None);
    let q = privacy_from_settings(None);
    assert_eq!(q.has_agreed, None);
}

#[test]
fn settings_values_are_read_with_defaults() {
    assert!(!read_setting_bool(Some(SETTINGS), "autoCompact", true));
    assert!(read_setting_bool(Some(SETTINGS), "missing", true));
    assert!(read_setting_bool(None, "autoCompact", true));
    assert_eq!(read_setting_u8(Some(SETTINGS), "autoCompactThreshold", 95), 44);
    assert_eq!(read_setting_u8(Some("{"), "autoCompactThreshold", 95), 95);
    let st = stored_settings(Some(SETTINGS), true, 90);
    assert!(!st.auto_compact_enabled);
    assert_eq!(st.auto_compact_threshold, 44);
    assert!(st.notifications_enabled);
    assert!(st.reduce_motion);
    assert!(!st.show_turn_duration);
    assert!(st.terminal_progress_bar);
}

#[test]
fn settings_bool_is_written_keeping_other_fields() {
    let out = settings_with_bool(Some(r#"{"a": 1}"#), BoolSetting::ReduceMotion, true).unwrap();
    let v: serde_json::Value = serde_json::from_str(&out).unwrap();
    assert_eq!(v["a"], serde_json::Value::from(1));
    assert_eq!(v["reduceMotion"], serde_json::Value::Bool(true));
    let fresh = settings_with_bool(None, BoolSetting::Notifications, false).unwrap();
    let v: serde_json::Value = serde_json::from_str(&fresh).unwrap();
    assert_eq!(v["notifications"], serde_json::Value::Bool(false));
    let other = settings_with_bool(Some("[1]"), BoolSetting::AutoCompact, true).unwrap();
    let v: serde_json::Value = serde_json::from_str(&other).unwrap();
    assert_eq!(v, serde_json::Value::Array(vec![serde_json::Value::from(1)]));
    let broken = settings_with_bool(Some("{oops"), BoolSetting::AutoCompact, true).unwrap();
    let v: serde_json::Value = serde_json::from_str(&broken).unwrap();
    assert_eq!(v["autoCompact"], serde_json::Value::Bool(true));
}

#[test]
fn pinned_texts_are_read() {
    let mut p = pinned_texts_from(r#"["a", "b c"]"#);
    p.sort();
    assert_eq!(p, vec!["a".to_string(), "b c".to_string()]);
    assert!(pinned_texts_from(r#"["a", 1]"#).is_empty());
    assert!(pinned_texts_from("{}").is_empty());
    assert!(pinned_texts_from("").is_empty());
}

#[test]
fn ripgrep_output_is_recorded() {
    let mut s = GlobalSearchState::new();
    s.searching = true;
    let out = [
        r#"{"type":"begin","data":{"path":{"text":"a.rs"}}}"#,
        r#"{"type":"match","data":{"path":{"text":"a.rs"},"lines":{"text":"fn main() {}\n"},"line_number":3,"submatches":[{"match":{"text":"main"},"start":3,"end":7}]}}"#,
        "not json",
        r#"{"type":"match","data":{}}"#,
        r#"{"type":"end"}"#,
    ]
    .join("\n");
    s.record_rg_output(&out);
    assert!(!s.searching);
    assert_eq!(s.results.len(), 2);
    assert_eq!(s.total_matches, 2);
    assert_eq!(s.results[0].file, "a.rs");
    assert_eq!(s.results[0].line, 3);
    assert_eq!(s.results[0].col, 3);
    assert_eq!(s.results[0].text, "fn main() {}");
    assert_eq!(s.results[1].file, "");
    assert_eq!(s.results[1].line, 0);
}

#[test]
fn ripgrep_output_stops_at_the_limit() {
    let mut s = GlobalSearchState::new();
    let line = r#"{"type":"match","data":{"path":{"text":"f"},"line_number":1}}"#;
    let out: String = std::iter::repeat(line).take(600).collect::<Vec<_>>().join("\n");
    s.record_rg_output(&out);
    assert_eq!(s.results.len(), 500);
    assert_eq!(s.total_matches, 500);
}

#[test]
fn tool_summary_from_json_arguments() {
    assert_eq!(tool_summary_from_json("Bash", r#"{"command": "ls -la\npwd", "timeout": 5}"#), "ls -la");
    assert_eq!(tool_summary_from_json("Custom", r#"{"n": 3, "path": "x.txt"}"#), "x.txt");
    assert_eq!(tool_summary_from_json("Read", "null"), "");
}
