use pokedex_tui::panels::{should_render_status_row, ContextVizState, ExportDialogState, ExportFormat, MemoryUpdateNotificationState, PrivacySnapshot};

#[test]
fn context_viz_defaults_hidden() {
    let state = ContextVizState::new();
    assert!(!state.visible);
}

#[test]
fn context_viz_toggle() {
    let mut state = ContextVizState::new();
    state.toggle();
    assert!(state.visible);
    state.toggle();
    assert!(!state.visible);
}

#[test]
fn export_dialog_defaults_hidden() {
    let state = ExportDialogState::new();
    assert!(!state.visible);
    assert_eq!(state.selected, ExportFormat::Json);
}

#[test]
fn export_dialog_open() {
    let mut state = ExportDialogState::new();
    state.open();
    assert!(state.visible);
}

#[test]
fn export_dialog_toggle() {
    let mut state = ExportDialogState::new();
    state.open();
    assert_eq!(state.selected, ExportFormat::Json);
    state.toggle();
    assert_eq!(state.selected, ExportFormat::Markdown);
    state.toggle();
    assert_eq!(state.selected, ExportFormat::Json);
}

#[test]
fn memory_notif_show_and_dismiss() {
    let mut state = MemoryUpdateNotificationState::new();
    assert!(!state.visible);
    state.show("/home/user/.pokedex/MEMORY.md");
    assert!(state.visible);
    assert_eq!(state.memory_path, "/home/user/.pokedex/MEMORY.md");
    state.dismiss();
    assert!(!state.visible);
}

#[test]
fn memory_notif_can_reshown_after_dismiss() {
    let mut state = MemoryUpdateNotificationState::new();
    state.show("/tmp/MEMORY.md");
    state.dismiss();
    assert!(!state.visible);
    state.show("/tmp/other/MEMORY.md");
    assert!(state.visible);
    assert_eq!(state.memory_path, "/tmp/other/MEMORY.md");
}

#[test]
fn memory_notif_height() {
    let mut state = MemoryUpdateNotificationState::new();
    assert_eq!(state.height(), 0);
    state.show("/tmp/MEMORY.md");
    assert_eq!(state.height(), 1);
}

#[test]
fn privacy_defaults() {
    let p = PrivacySnapshot::default();
    assert!(p.telemetry_enabled());
    assert!(!p.usage_sharing_enabled());
}

#[test]
fn privacy_explicit_settings() {
    let p = PrivacySnapshot { has_agreed: Some(true), disable_telemetry: Some(true), share_usage_data: Some(true) };
    assert!(!p.telemetry_enabled());
    assert!(p.usage_sharing_enabled());
    let q = PrivacySnapshot { has_agreed: None, disable_telemetry: Some(false), share_usage_data: Some(false) };
    assert!(q.telemetry_enabled());
    assert!(!q.usage_sharing_enabled());
}

#[test]
fn status_row_visibility() {
    assert!(!should_render_status_row(false, false, false, false));
    assert!(should_render_status_row(true, false, false, false));
    assert!(should_render_status_row(false, true, false, false));
    assert!(should_render_status_row(false, false, true, false));
    assert!(should_render_status_row(false, false, false, true));
    assert!(should_render_status_row(false, true, false, true));
}
