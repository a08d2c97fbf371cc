use pokedex_tui::hooks::{hook_from_fields, HookEntry, HooksConfigMenuState, HooksMenuMode};
use pokedex_tui::overlays::{GlobalSearchState, HelpEntry, HelpOverlay, HistoryEntry, SearchResult};
use pokedex_tui::panels::{
    black_circle_for, relative_memory_path, ExportDialogState, ExportFormat, MemoryFile,
    MemoryFileSelectorState, MemoryFileType, RenderContext, SettingsTab,
};

fn hook(event: &str, matcher: &str, hook_type: &str, target: &str) -> HookEntry {
    HookEntry {
        event: event.to_string(),
        matcher: matcher.to_string(),
        hook_type: hook_type.to_string(),
        target: target.to_string(),
    }
}

#[test]
fn export_toggle_twice_is_identity() {
    let mut d = ExportDialogState::new();
    d.toggle();
    d.toggle();
    assert_eq!(d.selected, ExportFormat::Json);
    d.toggle();
    d.open();
    assert_eq!(d.selected, ExportFormat::Json);
    d.dismiss();
    assert!(!d.visible);
}

#[test]
fn relative_memory_path_prefers_shorter_form() {
    assert_eq!(relative_memory_path("/home/u/notes/M.md", "/home/u", "/tmp"), "~/notes/M.md");
    assert_eq!(relative_memory_path("/home/u/p/M.md", "/home/u", "/home/u/p"), "./M.md");
    assert_eq!(relative_memory_path("/home/u", "/home/u", ""), "~");
    assert_eq!(relative_memory_path("/w/", "", "/w"), "./");
    assert_eq!(relative_memory_path("C:\\a\\b.md", "", ""), "C:/a/b.md");
    assert_eq!(relative_memory_path("/x/y.md", "/home/u", "/w"), "/x/y.md");
    assert_eq!(relative_memory_path("/a/b", "/a", "/a"), "~/b");
}

#[test]
fn memory_file_selector_navigation() {
    let mut sel = MemoryFileSelectorState::new();
    let files = vec![
        MemoryFile { path: "/u/M.md".to_string(), display_path: "~/M.md".to_string(), file_type: MemoryFileType::User, exists: true },
        MemoryFile { path: "/p/M.md".to_string(), display_path: "/p/M.md".to_string(), file_type: MemoryFileType::Project, exists: false },
    ];
    sel.open_with_files("/p".to_string(), files);
    assert!(sel.visible);
    assert_eq!(sel.selected_path(), Some("/u/M.md"));
    sel.select_next();
    sel.select_next();
    assert_eq!(sel.selected_path(), Some("/p/M.md"));
    sel.select_prev();
    sel.select_prev();
    assert_eq!(sel.selected, 0);
    sel.close();
    assert!(!sel.visible);
}

#[test]
fn settings_tabs_in_order() {
    let all = SettingsTab::all();
    assert_eq!(all.len(), 5);
    for (i, t) in all.iter().enumerate() {
        assert_eq!(t.index(), i);
    }
    assert_eq!(SettingsTab::KeyBindings.label(), "KeyBindings");
    assert_eq!(SettingsTab::Privacy.index(), 2);
}

#[test]
fn render_context_defaults() {
    let ctx = RenderContext::default();
    assert_eq!(ctx.width, 80);
    assert!(ctx.highlight);
    assert!(!ctx.show_thinking);
    assert!(ctx.tool_names.is_empty());
}

#[test]
fn black_circle_by_platform() {
    assert_eq!(black_circle_for(true), "\u{25CF}");
    assert_eq!(black_circle_for(false), "\u{23FA}");
}

#[test]
fn help_entries_sorted_by_category_then_name_stably() {
    let e = |name: &str, cat: &str, desc: &str| HelpEntry {
        name: name.to_string(),
        aliases: String::new(),
        description: desc.to_string(),
        category: cat.to_string(),
    };
    let mut h = HelpOverlay::new();
    h.populate_from_commands(vec![
        e("quit", "General", "1"),
        e("clear", "Session", "2"),
        e("help", "General", "3"),
        e("help", "General", "4"),
        e("Zed", "General", "5"),
    ]);
    let order: Vec<String> = h.commands.iter().map(|c| format!("{}/{}", c.name, c.description)).collect();
    assert_eq!(order, vec!["Zed/5", "help/3", "help/4", "quit/1", "clear/2"]);
}

#[test]
fn help_scroll_bounds() {
    let mut h = HelpOverlay::new();
    h.scroll_up();
    assert_eq!(h.scroll_offset, 0);
    h.scroll_down(3);
    h.scroll_down(3);
    h.scroll_down(3);
    assert_eq!(h.scroll_offset, 2);
    h.push_filter_char('x');
    assert_eq!(h.scroll_offset, 0);
    h.pop_filter_char();
    h.pop_filter_char();
    assert_eq!(h.filter, "");
}

#[test]
fn relative_time_boundaries() {
    let at = |ts: u64, now: u64| HistoryEntry { text: String::new(), timestamp: Some(ts), pinned: false }.relative_time_at(now);
    assert_eq!(at(1000, 1059), "just now");
    assert_eq!(at(1000, 1060), "1m ago");
    assert_eq!(at(0, 3599), "59m ago");
    assert_eq!(at(0, 3600), "1h ago");
    assert_eq!(at(0, 86399), "23h ago");
    assert_eq!(at(0, 86400), "1d ago");
    assert_eq!(at(500, 100), "just now");
    assert_eq!(HistoryEntry::legacy("x".to_string()).relative_time_at(99), "");
}

#[test]
fn global_search_selection_and_ref() {
    let r = |file: &str, line: u32| SearchResult {
        file: file.to_string(),
        line,
        col: 0,
        text: String::new(),
        context_before: Vec::new(),
        context_after: Vec::new(),
    };
    let mut g = GlobalSearchState::default();
    g.open();
    assert!(g.open);
    assert_eq!(g.selected_ref(), None);
    g.results = vec![r("src/a.rs", 12), r("b.rs", 7)];
    assert_eq!(g.selected_ref(), Some("src/a.rs:12".to_string()));
    g.select_next();
    g.select_next();
    assert_eq!(g.selected_ref(), Some("b.rs:7".to_string()));
    g.push_char('q');
    assert_eq!(g.selected, 0);
    assert_eq!(g.query, "q");
    g.pop_char();
    assert_eq!(g.query, "");
    g.select_prev();
    assert_eq!(g.selected, 0);
    g.close();
    assert!(!g.open);
}

#[test]
fn hook_summary_by_type() {
    assert_eq!(hook("Stop", "*", "command", "echo hi").summary(), "\u{f120} echo hi");
    assert_eq!(hook("Stop", "*", "http", "http://x").summary(), "\u{f0c1} http://x");
    assert_eq!(hook("Stop", "*", "other", "t").summary(), "\u{2022} t");
}

#[test]
fn hook_events_in_canonical_order() {
    let mut m = HooksConfigMenuState::new();
    m.open_with_hooks(vec![
        hook("Custom", "*", "command", "a"),
        hook("Stop", "*", "command", "b"),
        hook("PreToolUse", "Bash", "command", "c"),
        hook("Another", "*", "command", "d"),
        hook("PreToolUse", "Write", "command", "e"),
        hook("Custom", "*", "command", "f"),
    ]);
    assert!(m.visible);
    assert_eq!(m.events, vec!["PreToolUse", "Stop", "Custom", "Another"]);
}

#[test]
fn hook_menu_drill_down_and_back() {
    let mut m = HooksConfigMenuState::new();
    m.open_with_hooks(vec![
        hook("PreToolUse", "Bash", "command", "c1"),
        hook("PreToolUse", "Write", "command", "c2"),
        hook("PreToolUse", "Write", "prompt", "p1"),
        hook("Stop", "*", "command", "s"),
    ]);
    m.select_next();
    m.select_next();
    assert_eq!(m.selected, 1);
    m.select_prev();
    m.enter();
    assert_eq!(m.mode, HooksMenuMode::SelectMatcher);
    assert_eq!(m.selected_event.as_deref(), Some("PreToolUse"));
    m.select_next();
    m.enter();
    assert_eq!(m.mode, HooksMenuMode::SelectHook);
    assert_eq!(m.selected_matcher.as_deref(), Some("Write"));
    m.select_next();
    m.select_next();
    assert_eq!(m.selected, 1);
    m.enter();
    assert_eq!(m.mode, HooksMenuMode::ViewHook);
    m.enter();
    assert_eq!(m.mode, HooksMenuMode::ViewHook);
    m.back();
    assert_eq!(m.mode, HooksMenuMode::SelectHook);
    m.back();
    assert_eq!(m.mode, HooksMenuMode::SelectMatcher);
    assert_eq!(m.selected, 1);
    assert!(m.selected_matcher.is_none());
    m.back();
    assert_eq!(m.mode, HooksMenuMode::SelectEvent);
    assert_eq!(m.selected, 0);
    m.back();
    assert!(!m.visible);
}

#[test]
fn hook_menu_scroll() {
    let mut m = HooksConfigMenuState::default();
    m.scroll_down(2);
    m.scroll_down(2);
    assert_eq!(m.scroll_offset, 1);
    m.scroll_up();
    m.scroll_up();
    assert_eq!(m.scroll_offset, 0);
    m.enter();
    assert_eq!(m.mode, HooksMenuMode::SelectEvent);
}

#[test]
fn hook_fields_defaults_and_targets() {
    let h = hook_from_fields("Stop", None, None, Some("echo"), Some("p"), None, None).unwrap();
    assert_eq!(h.matcher, "*");
    assert_eq!(h.hook_type, "command");
    assert_eq!(h.target, "echo");
    let p = hook_from_fields("Stop", Some("Bash"), Some("prompt"), Some("echo"), Some("say"), None, None).unwrap();
    assert_eq!(p.target, "say");
    assert_eq!(p.matcher, "Bash");
    let u = hook_from_fields("Stop", None, Some("http"), None, None, None, Some("http://h")).unwrap();
    assert_eq!(u.target, "http://h");
    let other = hook_from_fields("Stop", None, Some("weird"), Some("c"), None, Some("a"), None).unwrap();
    assert_eq!(other.target, "c");
    assert!(hook_from_fields("Stop", None, Some("agent"), Some("c"), None, None, None).is_none());
    assert!(hook_from_fields("Stop", None, None, Some(""), None, None, None).is_none());
}

#[test]
fn search_matches_are_recorded_and_capped() {
    let mut g = GlobalSearchState::new();
    assert!(!g.begin_search());
    g.push_char('x');
    assert!(g.begin_search());
    assert!(g.searching);
    g.reset_results();
    assert!(!g.searching);
    let more = g.add_match(Some("a.rs"), Some(4), None, Some("let x = 1;\n\n"));
    assert!(more);
    assert_eq!(g.results[0].text, "let x = 1;");
    assert_eq!(g.results[0].line, 4);
    assert_eq!(g.results[0].col, 0);
    let big = g.add_match(None, Some((1u64 << 32) + 7), Some(3), None);
    assert!(big);
    assert_eq!(g.results[1].line, 7);
    assert_eq!(g.results[1].file, "");
    for _ in 0..497 {
        assert!(g.add_match(Some("f"), Some(1), Some(1), Some("t")));
    }
    assert!(!g.add_match(Some("f"), Some(1), Some(1), Some("t")));
    assert_eq!(g.total_matches, 500);
}

#[test]
fn get_relative_memory_path_absolute_fallback() {
    // When path doesn't match HOME or cwd, return normalized absolute path.
    let result = relative_memory_path("/completely/unrelated/path.md", "/home/testuser", "/work/project");
    assert!(result.contains("completely") || result.contains("unrelated"));
}

#[test]
fn get_relative_memory_path_home_relative() {
    let home = "/home/testuser";
    let path = format!("{}/MEMORY.md", home);
    let result = relative_memory_path(&path, home, "/work/project");
    assert!(result.starts_with("~/"), "expected ~/..., got: {result}");
    assert!(result.contains("MEMORY.md"));
}
