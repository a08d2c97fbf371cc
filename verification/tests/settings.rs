use pokedex_tui::panels::SettingsTab;
use pokedex_tui::settings::{
    handle_settings_key, toggle_current_field, BoolSetting, EditableConfig, SettingsKey, SettingsScreen,
    StoredSettings,
};

fn empty_config() -> EditableConfig {
    EditableConfig { model: None, max_tokens: None, output_style: None }
}

fn screen() -> SettingsScreen {
    SettingsScreen::new(empty_config(), true, 95)
}

fn stored() -> StoredSettings {
    StoredSettings {
        auto_compact_enabled: false,
        auto_compact_threshold: 80,
        notifications_enabled: false,
        reduce_motion: true,
        show_turn_duration: true,
        terminal_progress_bar: false,
    }
}

#[test]
fn settings_screen_new_has_sensible_defaults() {
    let screen = screen();
    assert!(!screen.visible, "should not be visible on creation");
    assert_eq!(screen.active_tab, SettingsTab::General);
    assert_eq!(screen.scroll_offset, 0);
    assert_eq!(screen.selected_field, 0);
    assert!(screen.edit_field.is_none());
    assert!(screen.edit_value.is_empty());
    assert!(screen.pending_changes.is_empty());
    assert!(screen.notifications_enabled, "notifications default on");
    assert!(!screen.reduce_motion, "reduce_motion default off");
    assert!(!screen.show_turn_duration, "show_turn_duration default off");
    assert!(screen.terminal_progress_bar, "terminal_progress_bar default on");
}

#[test]
fn settings_screen_new_auto_compact_threshold_sensible() {
    let screen = screen();
    assert!(screen.auto_compact_threshold <= 100, "threshold {} out of range", screen.auto_compact_threshold);
}

#[test]
fn toggle_current_field_general_field0_flips_auto_compact() {
    let mut screen = screen();
    screen.active_tab = SettingsTab::General;
    screen.selected_field = 0;
    let before = screen.auto_compact_enabled;
    toggle_current_field(&mut screen);
    assert_eq!(screen.auto_compact_enabled, !before, "auto_compact_enabled should have flipped");
    toggle_current_field(&mut screen);
    assert_eq!(screen.auto_compact_enabled, before);
}

#[test]
fn toggle_current_field_general_field1_flips_notifications() {
    let mut screen = screen();
    screen.active_tab = SettingsTab::General;
    screen.selected_field = 1;
    let before = screen.notifications_enabled;
    toggle_current_field(&mut screen);
    assert_eq!(screen.notifications_enabled, !before);
}

#[test]
fn toggle_current_field_display_field0_flips_reduce_motion() {
    let mut screen = screen();
    screen.active_tab = SettingsTab::Display;
    screen.selected_field = 0;
    let before = screen.reduce_motion;
    toggle_current_field(&mut screen);
    assert_eq!(screen.reduce_motion, !before);
}

#[test]
fn toggle_current_field_display_field1_flips_terminal_progress_bar() {
    let mut screen = screen();
    screen.active_tab = SettingsTab::Display;
    screen.selected_field = 1;
    let before = screen.terminal_progress_bar;
    toggle_current_field(&mut screen);
    assert_eq!(screen.terminal_progress_bar, !before);
}

#[test]
fn max_fields_for_tab_returns_correct_counts() {
    let mut screen = screen();
    screen.active_tab = SettingsTab::General;
    assert_eq!(screen.max_fields_for_tab(), 3);
    screen.active_tab = SettingsTab::Display;
    assert_eq!(screen.max_fields_for_tab(), 2);
    screen.active_tab = SettingsTab::Privacy;
    assert_eq!(screen.max_fields_for_tab(), 0);
    screen.active_tab = SettingsTab::Advanced;
    assert_eq!(screen.max_fields_for_tab(), 0);
    screen.active_tab = SettingsTab::KeyBindings;
    assert_eq!(screen.max_fields_for_tab(), 0);
}

#[test]
fn toggle_reports_setting_and_value() {
    let mut screen = screen();
    screen.active_tab = SettingsTab::General;
    screen.selected_field = 2;
    let w = toggle_current_field(&mut screen);
    assert_eq!(w, Some((BoolSetting::ShowTurnDuration, true)));
    assert_eq!(BoolSetting::ShowTurnDuration.key(), "showTurnDuration");
    screen.selected_field = 3;
    assert_eq!(toggle_current_field(&mut screen), None);
    screen.active_tab = SettingsTab::Privacy;
    screen.selected_field = 0;
    assert_eq!(toggle_current_field(&mut screen), None);
}

#[test]
fn open_loads_stored_values_and_resets() {
    let mut screen = screen();
    screen.active_tab = SettingsTab::Advanced;
    screen.selected_field = 1;
    screen.start_edit("model", "x");
    screen.commit_edit();
    let cfg = EditableConfig { model: Some("m1".to_string()), max_tokens: Some(5), output_style: None };
    screen.open(cfg, stored());
    assert!(screen.visible);
    assert_eq!(screen.active_tab, SettingsTab::General);
    assert_eq!(screen.selected_field, 0);
    assert!(screen.pending_changes.is_empty());
    assert!(screen.edit_field.is_none());
    assert_eq!(screen.snapshot_config.model.as_deref(), Some("m1"));
    assert!(!screen.auto_compact_enabled);
    assert_eq!(screen.auto_compact_threshold, 80);
    assert!(screen.reduce_motion);
    assert!(!screen.terminal_progress_bar);
}

#[test]
fn tabs_wrap_both_ways() {
    let mut screen = screen();
    screen.prev_tab();
    assert_eq!(screen.active_tab, SettingsTab::KeyBindings);
    screen.next_tab();
    assert_eq!(screen.active_tab, SettingsTab::General);
    for _ in 0..5 {
        screen.next_tab();
    }
    assert_eq!(screen.active_tab, SettingsTab::General);
}

#[test]
fn scrolling_stays_within_toggles() {
    let mut screen = screen();
    screen.scroll_up();
    assert_eq!(screen.selected_field, 0);
    assert_eq!(screen.scroll_offset, 0);
    screen.scroll_down();
    screen.scroll_down();
    screen.scroll_down();
    assert_eq!(screen.selected_field, 2);
    assert_eq!(screen.scroll_offset, 3);
    screen.scroll_up();
    assert_eq!(screen.selected_field, 1);
    assert_eq!(screen.scroll_offset, 2);
}

#[test]
fn commit_and_apply_pending_changes() {
    let mut screen = screen();
    let mut config = empty_config();
    screen.start_edit("max_tokens", "");
    screen.edit_value = "4096".to_string();
    screen.commit_edit();
    screen.start_edit("model", "");
    screen.commit_edit();
    screen.start_edit("max_tokens", "");
    screen.edit_value = "+2048".to_string();
    screen.commit_edit();
    assert_eq!(screen.pending_changes.len(), 2);
    screen.start_edit("output_style", "terse");
    screen.commit_edit();
    screen.start_edit("unknown", "v");
    screen.commit_edit();
    config.model = Some("old".to_string());
    screen.apply_pending_changes(&mut config);
    assert_eq!(config.model, None);
    assert_eq!(config.max_tokens, Some(2048));
    assert_eq!(config.output_style.as_deref(), Some("terse"));
    assert!(screen.pending_changes.is_empty());
    assert_eq!(screen.snapshot_config.max_tokens, Some(2048));
}

#[test]
fn bad_max_tokens_is_ignored() {
    let mut screen = screen();
    let mut config = EditableConfig { model: None, max_tokens: Some(7), output_style: None };
    screen.start_edit("max_tokens", "99999999999");
    screen.commit_edit();
    screen.apply_pending_changes(&mut config);
    assert_eq!(config.max_tokens, Some(7));
    screen.start_edit("max_tokens", "12a");
    screen.commit_edit();
    screen.apply_pending_changes(&mut config);
    assert_eq!(config.max_tokens, Some(7));
}

#[test]
fn hidden_screen_ignores_keys() {
    let mut screen = screen();
    let mut config = empty_config();
    let out = handle_settings_key(&mut screen, &mut config, SettingsKey::Tab, "default-model");
    assert!(!out.handled);
    assert_eq!(screen.active_tab, SettingsTab::General);
}

#[test]
fn keys_navigate_toggle_and_edit() {
    let mut screen = screen();
    let mut config = empty_config();
    screen.open(empty_config(), stored());
    let out = handle_settings_key(&mut screen, &mut config, SettingsKey::Char(' ', false), "dm");
    assert!(out.handled);
    assert_eq!(out.write, Some((BoolSetting::AutoCompact, true)));
    assert!(screen.auto_compact_enabled);
    handle_settings_key(&mut screen, &mut config, SettingsKey::PageDown, "dm");
    assert_eq!(screen.selected_field, 2);
    assert_eq!(screen.scroll_offset, 10);
    handle_settings_key(&mut screen, &mut config, SettingsKey::PageUp, "dm");
    assert_eq!(screen.selected_field, 0);
    assert_eq!(screen.scroll_offset, 0);
    handle_settings_key(&mut screen, &mut config, SettingsKey::Down, "dm");
    let out = handle_settings_key(&mut screen, &mut config, SettingsKey::Enter, "dm");
    assert_eq!(out.write, Some((BoolSetting::Notifications, true)));
    // Past the toggles, Enter on General edits the model, seeded with the default.
    screen.selected_field = 3;
    let out = handle_settings_key(&mut screen, &mut config, SettingsKey::Enter, "dm");
    assert_eq!(out.write, None);
    assert_eq!(screen.edit_field.as_deref(), Some("model"));
    assert_eq!(screen.edit_value, "dm");
    handle_settings_key(&mut screen, &mut config, SettingsKey::Backspace, "dm");
    handle_settings_key(&mut screen, &mut config, SettingsKey::Char('x', false), "dm");
    handle_settings_key(&mut screen, &mut config, SettingsKey::Char('y', true), "dm");
    assert_eq!(screen.edit_value, "dx");
    let out = handle_settings_key(&mut screen, &mut config, SettingsKey::Enter, "dm");
    assert!(out.save_config);
    assert_eq!(config.model.as_deref(), Some("dx"));
    assert_eq!(screen.snapshot_config.model.as_deref(), Some("dx"));
    assert!(screen.edit_field.is_none());
    handle_settings_key(&mut screen, &mut config, SettingsKey::Tab, "dm");
    assert_eq!(screen.active_tab, SettingsTab::Display);
    handle_settings_key(&mut screen, &mut config, SettingsKey::Esc, "dm");
    assert!(!screen.visible);
}

#[test]
fn escape_while_editing_keeps_pending() {
    let mut screen = screen();
    let mut config = empty_config();
    screen.open(empty_config(), stored());
    screen.start_edit("output_style", "abc");
    let out = handle_settings_key(&mut screen, &mut config, SettingsKey::Esc, "dm");
    assert!(out.handled);
    assert!(screen.visible);
    assert!(screen.edit_field.is_none());
    assert!(screen.edit_value.is_empty());
    assert!(screen.pending_changes.is_empty());
}
