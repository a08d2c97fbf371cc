use pokedex_tui::overlays::{current_unix_secs, help_entry_matches, highlight_split, HelpEntry, HelpOverlay, HistoryEntry, MessageSelectorOverlay, RewindFlowOverlay, RewindStep, SelectorMessage};

#[test]
fn help_overlay_toggle() {
    let mut h = HelpOverlay::new();
    assert!(!h.visible);
    h.toggle();
    assert!(h.visible);
    h.toggle();
    assert!(!h.visible);
}

#[test]
fn help_overlay_close_resets_state() {
    let mut h = HelpOverlay::new();
    h.visible = true;
    h.scroll_offset = 5;
    h.filter = "foo".to_string();
    h.close();
    assert!(!h.visible);
    assert_eq!(h.scroll_offset, 0);
    assert!(h.filter.is_empty());
}

#[test]
fn help_overlay_filter() {
    let mut h = HelpOverlay::new();
    h.push_filter_char('h', );
    h.push_filter_char('e', );
    assert_eq!(h.filter, "he");
    h.pop_filter_char();
    assert_eq!(h.filter, "h");
}

#[test]
fn history_entry_relative_time_just_now() {
    let entry = HistoryEntry::new("hello".to_string());
    assert_eq!(entry.relative_time(), "just now");
}

#[test]
fn history_entry_relative_time_minutes() {
    let five_mins_ago = current_unix_secs().saturating_sub(300);
    let entry = HistoryEntry {
        text: "cmd".to_string(),
        timestamp: Some(five_mins_ago),
        pinned: false,
    };
    assert_eq!(entry.relative_time(), "5m ago");
}

#[test]
fn history_entry_relative_time_hours() {
    let two_hours_ago = current_unix_secs().saturating_sub(7200);
    let entry = HistoryEntry {
        text: "cmd".to_string(),
        timestamp: Some(two_hours_ago),
        pinned: false,
    };
    assert_eq!(entry.relative_time(), "2h ago");
}

#[test]
fn history_entry_relative_time_days() {
    let three_days_ago = current_unix_secs().saturating_sub(3 * 86400);
    let entry = HistoryEntry {
        text: "cmd".to_string(),
        timestamp: Some(three_days_ago),
        pinned: false,
    };
    assert_eq!(entry.relative_time(), "3d ago");
}

#[test]
fn history_entry_legacy_has_no_timestamp() {
    let entry = HistoryEntry::legacy("old command".to_string());
    assert!(entry.timestamp.is_none());
    assert_eq!(entry.relative_time(), "");
}

#[test]
fn message_selector_open_selects_last() {
    let msgs = vec![
        SelectorMessage { idx: 0, role: "user".to_string(), preview: "hi".to_string(), has_tool_use: false },
        SelectorMessage { idx: 1, role: "assistant".to_string(), preview: "hello".to_string(), has_tool_use: false },
    ];
    let sel = MessageSelectorOverlay::open(msgs);
    assert_eq!(sel.selected_idx, 1);
}

#[test]
fn message_selector_navigate() {
    let msgs = vec![
        SelectorMessage { idx: 0, role: "user".to_string(), preview: "a".to_string(), has_tool_use: false },
        SelectorMessage { idx: 1, role: "assistant".to_string(), preview: "b".to_string(), has_tool_use: false },
        SelectorMessage { idx: 2, role: "user".to_string(), preview: "c".to_string(), has_tool_use: false },
    ];
    let mut sel = MessageSelectorOverlay::open(msgs);
    // starts at last
    assert_eq!(sel.selected_idx, 2);
    sel.select_prev();
    assert_eq!(sel.selected_idx, 1);
    sel.select_next();
    assert_eq!(sel.selected_idx, 2);
}

#[test]
fn rewind_flow_confirm_advances_step() {
    let msgs = vec![
        SelectorMessage { idx: 0, role: "user".to_string(), preview: "hi".to_string(), has_tool_use: false },
    ];
    let mut flow = RewindFlowOverlay::new();
    flow.open(msgs);
    let idx = flow.confirm_selection().unwrap();
    assert_eq!(idx, 0);
    assert!(matches!(flow.step, RewindStep::Confirming { message_idx: 0 }));
}

#[test]
fn rewind_flow_accept_closes() {
    let msgs = vec![
        SelectorMessage { idx: 3, role: "user".to_string(), preview: "test".to_string(), has_tool_use: false },
    ];
    let mut flow = RewindFlowOverlay::new();
    flow.open(msgs);
    flow.confirm_selection();
    let result = flow.accept_confirm().unwrap();
    assert_eq!(result, 3);
    assert!(!flow.visible);
}

#[test]
fn rewind_flow_reject_returns_to_selector() {
    let msgs = vec![
        SelectorMessage { idx: 0, role: "user".to_string(), preview: "x".to_string(), has_tool_use: false },
    ];
    let mut flow = RewindFlowOverlay::new();
    flow.open(msgs);
    flow.confirm_selection();
    assert!(matches!(flow.step, RewindStep::Confirming { .. }));
    flow.reject_confirm();
    assert_eq!(flow.step, RewindStep::Selecting);
    assert!(flow.visible);
}

#[test]
fn help_filter_matches_name_aliases_and_description() {
    let e = HelpEntry {
        name: "Help".to_string(),
        aliases: "h, ?".to_string(),
        description: "Show the Keyboard shortcuts".to_string(),
        category: "General".to_string(),
    };
    assert!(help_entry_matches(&e, ""));
    assert!(help_entry_matches(&e, "HEL"));
    assert!(help_entry_matches(&e, "?"));
    assert!(help_entry_matches(&e, "keyboard"));
    assert!(!help_entry_matches(&e, "quit"));
}

#[test]
fn search_highlight_range() {
    assert_eq!(highlight_split("let Foo = 1;", "foo"), Some((4, 7)));
    assert_eq!(highlight_split("abc", "x"), None);
    assert_eq!(highlight_split("abc", ""), None);
    // 'é' is two bytes: the match after it starts at byte 2.
    assert_eq!(highlight_split("\u{e9}ab", "AB"), Some((2, 4)));
}
