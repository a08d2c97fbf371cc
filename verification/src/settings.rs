//! The tabbed settings screen: tab and field navigation, text editing of a
//! field into pending changes, applying them to the configuration, the
//! boolean toggles, and the key handling that ties these together.
//!
//! Loading and writing the settings file is left to the caller: a toggle
//! reports which stored setting changed and to what, and applying the pending
//! changes reports that the configuration is to be saved.
use vstd::prelude::*;
use crate::numbers::{all_digits, digits_value, parse_usize, parse_usize_exec, unsigned_body};
use crate::panels::{tab_order, SettingsTab};
use crate::text::{chars_of, str_is, string_of};
use crate::json::{bool_of, get, json_bool_of, json_get, json_object, json_parses, json_pretty, json_set_bool, json_u64_of, members, opt_str, opt_text, parses, pretty, set_bool_member, u64_of};

verus! {

// ---------------------------------------------------------------------------
// Configuration fields edited on the screen
// ---------------------------------------------------------------------------

/// The configuration fields that the settings screen edits.
#[derive(Clone, Debug)]
pub struct EditableConfig {
    pub model: Option<String>,
    pub max_tokens: Option<u32>,
    pub output_style: Option<String>,
}

pub ghost struct ConfigView {
    pub model: Option<Seq<char>>,
    pub max_tokens: Option<u32>,
    pub output_style: Option<Seq<char>>,
}

pub open spec fn opt_string(o: Option<String>) -> Option<Seq<char>> {
    match o {
        Some(s) => Some(s@),
        None => None,
    }
}

impl View for EditableConfig {
    type V = ConfigView;

    open spec fn view(&self) -> ConfigView {
        ConfigView {
            model: opt_string(self.model),
            max_tokens: self.max_tokens,
            output_style: opt_string(self.output_style),
        }
    }
}

/// The settings file's values that the screen shows and toggles.
#[derive(Clone, Copy, Debug)]
pub struct StoredSettings {
    pub auto_compact_enabled: bool,
    /// Auto-compact threshold, in percent.
    pub auto_compact_threshold: u8,
    pub notifications_enabled: bool,
    pub reduce_motion: bool,
    pub show_turn_duration: bool,
    pub terminal_progress_bar: bool,
}

/// A boolean setting of the settings file.
#[derive(Clone, Copy, Debug, PartialEq, Eq, Structural)]
pub enum BoolSetting {
    AutoCompact,
    Notifications,
    ShowTurnDuration,
    ReduceMotion,
    TerminalProgressBar,
}

pub open spec fn setting_key(s: BoolSetting) -> Seq<char> {
    match s {
        BoolSetting::AutoCompact => "autoCompact"@,
        BoolSetting::Notifications => "notifications"@,
        BoolSetting::ShowTurnDuration => "showTurnDuration"@,
        BoolSetting::ReduceMotion => "reduceMotion"@,
        BoolSetting::TerminalProgressBar => "terminalProgressBar"@,
    }
}

impl BoolSetting {
    /// The key of the setting in the settings file.
    pub fn key(&self) -> (r: &'static str)
        ensures
            r@ == setting_key(*self),
    {
        match self {
            BoolSetting::AutoCompact => "autoCompact",
            BoolSetting::Notifications => "notifications",
            BoolSetting::ShowTurnDuration => "showTurnDuration",
            BoolSetting::ReduceMotion => "reduceMotion",
            BoolSetting::TerminalProgressBar => "terminalProgressBar",
        }
    }
}

// ---------------------------------------------------------------------------
// The screen
// ---------------------------------------------------------------------------

/// State of the settings screen.
#[derive(Debug)]
pub struct SettingsScreen {
    pub visible: bool,
    pub active_tab: SettingsTab,
    pub scroll_offset: u16,
    /// The field being edited, if any.
    pub edit_field: Option<String>,
    /// The text typed for it so far.
    pub edit_value: String,
    /// The configuration as of the last load or apply, for display.
    pub snapshot_config: EditableConfig,
    /// Edited fields and their new text, each field once, in the order first
    /// committed.
    pub pending_changes: Vec<(String, String)>,
    pub auto_compact_enabled: bool,
    /// Auto-compact threshold, in percent.
    pub auto_compact_threshold: u8,
    pub notifications_enabled: bool,
    pub reduce_motion: bool,
    pub show_turn_duration: bool,
    pub terminal_progress_bar: bool,
    /// Index of the selected toggle within the active tab.
    pub selected_field: usize,
}

pub ghost struct SettingsView {
    pub visible: bool,
    pub active_tab: SettingsTab,
    pub scroll_offset: u16,
    pub edit_field: Option<Seq<char>>,
    pub edit_value: Seq<char>,
    pub snapshot_config: ConfigView,
    pub pending: Seq<(Seq<char>, Seq<char>)>,
    pub auto_compact_enabled: bool,
    pub auto_compact_threshold: u8,
    pub notifications_enabled: bool,
    pub reduce_motion: bool,
    pub show_turn_duration: bool,
    pub terminal_progress_bar: bool,
    pub selected_field: usize,
}

pub open spec fn pending_view(p: Seq<(String, String)>) -> Seq<(Seq<char>, Seq<char>)> {
    p.map_values(|e: (String, String)| (e.0@, e.1@))
}

impl View for SettingsScreen {
    type V = SettingsView;

    open spec fn view(&self) -> SettingsView {
        SettingsView {
            visible: self.visible,
            active_tab: self.active_tab,
            scroll_offset: self.scroll_offset,
            edit_field: opt_string(self.edit_field),
            edit_value: self.edit_value@,
            snapshot_config: self.snapshot_config@,
            pending: pending_view(self.pending_changes@),
            auto_compact_enabled: self.auto_compact_enabled,
            auto_compact_threshold: self.auto_compact_threshold,
            notifications_enabled: self.notifications_enabled,
            reduce_motion: self.reduce_motion,
            show_turn_duration: self.show_turn_duration,
            terminal_progress_bar: self.terminal_progress_bar,
            selected_field: self.selected_field,
        }
    }
}

// ---------------------------------------------------------------------------
// Navigation
// ---------------------------------------------------------------------------

/// Number of toggles on a tab.
pub open spec fn max_fields(t: SettingsTab) -> usize {
    match t {
        SettingsTab::General => 3,
        SettingsTab::Display => 2,
        _ => 0,
    }
}

pub open spec fn tab_index(t: SettingsTab) -> int {
    match t {
        SettingsTab::General => 0,
        SettingsTab::Display => 1,
        SettingsTab::Privacy => 2,
        SettingsTab::Advanced => 3,
        SettingsTab::KeyBindings => 4,
    }
}

/// The screen closed, with any edit dropped.
pub open spec fn close_spec(v: SettingsView) -> SettingsView {
    SettingsView { visible: false, edit_field: None, edit_value: Seq::empty(), ..v }
}

/// The screen on tab `t`, at its top, with any edit dropped.
pub open spec fn on_tab(v: SettingsView, t: SettingsTab) -> SettingsView {
    SettingsView {
        active_tab: t,
        scroll_offset: 0,
        selected_field: 0,
        edit_field: None,
        edit_value: Seq::empty(),
        ..v
    }
}

/// The next tab, wrapping from the last to the first.
pub open spec fn next_tab_spec(v: SettingsView) -> SettingsView {
    on_tab(v, tab_order()[(tab_index(v.active_tab) + 1) % 5])
}

/// The previous tab, wrapping from the first to the last.
pub open spec fn prev_tab_spec(v: SettingsView) -> SettingsView {
    let i = tab_index(v.active_tab);
    on_tab(v, tab_order()[if i == 0 { 4 } else { i - 1 }])
}

pub open spec fn scroll_up_spec(v: SettingsView) -> SettingsView {
    SettingsView {
        selected_field: if v.selected_field > 0 { (v.selected_field - 1) as usize } else { v.selected_field },
        scroll_offset: if v.scroll_offset > 0 { (v.scroll_offset - 1) as u16 } else { 0 },
        ..v
    }
}

pub open spec fn scroll_down_spec(v: SettingsView) -> SettingsView {
    SettingsView {
        selected_field: if v.selected_field + 1 < max_fields(v.active_tab) {
            (v.selected_field + 1) as usize
        } else {
            v.selected_field
        },
        scroll_offset: if v.scroll_offset < u16::MAX { (v.scroll_offset + 1) as u16 } else { u16::MAX },
        ..v
    }
}

/// `n` steps up.
pub open spec fn scroll_up_n(v: SettingsView, n: nat) -> SettingsView
    decreases n,
{
    if n == 0 {
        v
    } else {
        scroll_up_spec(scroll_up_n(v, (n - 1) as nat))
    }
}

/// `n` steps down.
pub open spec fn scroll_down_n(v: SettingsView, n: nat) -> SettingsView
    decreases n,
{
    if n == 0 {
        v
    } else {
        scroll_down_spec(scroll_down_n(v, (n - 1) as nat))
    }
}

// ---------------------------------------------------------------------------
// Editing and pending changes
// ---------------------------------------------------------------------------

/// Index of the first pending change of field `k` at or after `i`.
pub open spec fn pending_index_from(p: Seq<(Seq<char>, Seq<char>)>, k: Seq<char>, i: int) -> Option<int>
    decreases p.len() - i,
{
    if i < 0 || i >= p.len() {
        None
    } else if p[i].0 == k {
        Some(i)
    } else {
        pending_index_from(p, k, i + 1)
    }
}

/// Index of the first pending change of field `k`.
pub open spec fn pending_index(p: Seq<(Seq<char>, Seq<char>)>, k: Seq<char>) -> Option<int> {
    pending_index_from(p, k, 0)
}

proof fn lemma_pending_index_from(p: Seq<(Seq<char>, Seq<char>)>, k: Seq<char>, i: int)
    requires
        0 <= i,
    ensures
        match pending_index_from(p, k, i) {
            Some(j) => i <= j < p.len() && p[j].0 == k,
            None => forall|j: int| i <= j < p.len() ==> #[trigger] p[j].0 != k,
        },
    decreases p.len() - i,
{
    if i < p.len() && p[i].0 != k {
        lemma_pending_index_from(p, k, i + 1);
    }
}

/// The pending text of field `k`.
pub open spec fn pending_lookup(p: Seq<(Seq<char>, Seq<char>)>, k: Seq<char>) -> Option<Seq<char>> {
    match pending_index(p, k) {
        Some(i) => Some(p[i].1),
        None => None,
    }
}

/// The first index of `k` from `s` is `i` when `i` holds `k` and nothing
/// between `s` and `i` does.
proof fn lemma_pending_index_at(p: Seq<(Seq<char>, Seq<char>)>, k: Seq<char>, s: int, i: int)
    requires
        0 <= s <= i < p.len(),
        p[i].0 == k,
        forall|j: int| s <= j < i ==> #[trigger] p[j].0 != k,
    ensures
        pending_index_from(p, k, s) == Some(i),
    decreases i - s,
{
    if s < i {
        lemma_pending_index_at(p, k, s + 1, i);
    }
}

/// Two lists with the same fields at the same places, where the longer one
/// adds no `k`, find `k` at the same place.
proof fn lemma_pending_index_same(p: Seq<(Seq<char>, Seq<char>)>, q: Seq<(Seq<char>, Seq<char>)>, k: Seq<char>, s: int)
    requires
        0 <= s,
        p.len() <= q.len(),
        forall|j: int| 0 <= j < p.len() ==> #[trigger] q[j].0 == p[j].0,
        forall|j: int| p.len() <= j < q.len() ==> #[trigger] q[j].0 != k,
    ensures
        pending_index_from(q, k, s) == pending_index_from(p, k, s),
    decreases q.len() - s,
{
    if s < q.len() {
        lemma_pending_index_same(p, q, k, s + 1);
        if s < p.len() {
            assert(q[s].0 == p[s].0);
        }
    }
}

/// After field `k` is set to `val`, `k` reads `val` and every other field
/// reads as before.
pub proof fn lemma_pending_insert_lookup(p: Seq<(Seq<char>, Seq<char>)>, k: Seq<char>, val: Seq<char>, k2: Seq<char>)
    ensures
        pending_lookup(pending_insert(p, k, val), k) == Some(val),
        k2 != k ==> pending_lookup(pending_insert(p, k, val), k2) == pending_lookup(p, k2),
{
    lemma_pending_index_from(p, k, 0);
    lemma_pending_index_from(p, k2, 0);
    let q = pending_insert(p, k, val);
    match pending_index(p, k) {
        Some(i) => {
            assert forall|j: int| 0 <= j < p.len() implies #[trigger] q[j].0 == p[j].0 by {
                if j == i {
                }
            }
            lemma_pending_index_same(p, q, k, 0);
            lemma_pending_index_same(p, q, k2, 0);
        },
        None => {
            assert forall|j: int| 0 <= j < p.len() implies #[trigger] q[j].0 == p[j].0 by {}
            assert forall|j: int| 0 <= j < p.len() implies #[trigger] p[j].0 != k by {}
            lemma_pending_index_at(q, k, 0, p.len() as int);
            if k2 != k {
                lemma_pending_index_same(p, q, k2, 0);
            }
        },
    }
}

/// Field `k` set to `val`: its pending change rewritten, or a new one added.
pub open spec fn pending_insert(p: Seq<(Seq<char>, Seq<char>)>, k: Seq<char>, val: Seq<char>) -> Seq<(Seq<char>, Seq<char>)> {
    match pending_index(p, k) {
        Some(i) => p.update(i, (k, val)),
        None => p.push((k, val)),
    }
}

pub open spec fn start_edit_spec(v: SettingsView, field: Seq<char>, value: Seq<char>) -> SettingsView {
    SettingsView { edit_field: Some(field), edit_value: value, ..v }
}

/// The edited text becomes the field's pending change; no edit remains.
pub open spec fn commit_edit_spec(v: SettingsView) -> SettingsView {
    match v.edit_field {
        Some(f) => SettingsView {
            edit_field: None,
            edit_value: Seq::empty(),
            pending: pending_insert(v.pending, f, v.edit_value),
            ..v
        },
        None => v,
    }
}

pub open spec fn cancel_edit_spec(v: SettingsView) -> SettingsView {
    SettingsView { edit_field: None, edit_value: Seq::empty(), ..v }
}

/// What `str::parse::<u32>` gives.
pub open spec fn parse_u32(s: Seq<char>) -> Option<u32> {
    let t = unsigned_body(s);
    if t.len() > 0 && all_digits(t) && digits_value(t) <= u32::MAX {
        Some(digits_value(t) as u32)
    } else {
        None
    }
}

/// A text field's new value: none for empty text.
pub open spec fn text_value(s: Seq<char>) -> Option<Seq<char>> {
    if s.len() == 0 {
        None
    } else {
        Some(s)
    }
}

/// The configuration with the pending changes of `model`, `max_tokens` and
/// `output_style` applied; a `max_tokens` that does not parse is ignored,
/// and changes of other fields have no effect.
pub open spec fn apply_config(p: Seq<(Seq<char>, Seq<char>)>, c: ConfigView) -> ConfigView {
    ConfigView {
        model: match pending_lookup(p, "model"@) {
            Some(s) => text_value(s),
            None => c.model,
        },
        max_tokens: match pending_lookup(p, "max_tokens"@) {
            Some(s) => match parse_u32(s) {
                Some(n) => Some(n),
                None => c.max_tokens,
            },
            None => c.max_tokens,
        },
        output_style: match pending_lookup(p, "output_style"@) {
            Some(s) => text_value(s),
            None => c.output_style,
        },
    }
}

// ---------------------------------------------------------------------------
// Toggles
// ---------------------------------------------------------------------------

/// The toggle at the selection of the active tab, if there is one.
pub open spec fn selected_setting(v: SettingsView) -> Option<BoolSetting> {
    match v.active_tab {
        SettingsTab::General => if v.selected_field == 0 {
            Some(BoolSetting::AutoCompact)
        } else if v.selected_field == 1 {
            Some(BoolSetting::Notifications)
        } else if v.selected_field == 2 {
            Some(BoolSetting::ShowTurnDuration)
        } else {
            None
        },
        SettingsTab::Display => if v.selected_field == 0 {
            Some(BoolSetting::ReduceMotion)
        } else if v.selected_field == 1 {
            Some(BoolSetting::TerminalProgressBar)
        } else {
            None
        },
        _ => None,
    }
}

pub open spec fn setting_value(v: SettingsView, s: BoolSetting) -> bool {
    match s {
        BoolSetting::AutoCompact => v.auto_compact_enabled,
        BoolSetting::Notifications => v.notifications_enabled,
        BoolSetting::ShowTurnDuration => v.show_turn_duration,
        BoolSetting::ReduceMotion => v.reduce_motion,
        BoolSetting::TerminalProgressBar => v.terminal_progress_bar,
    }
}

pub open spec fn with_setting(v: SettingsView, s: BoolSetting, b: bool) -> SettingsView {
    match s {
        BoolSetting::AutoCompact => SettingsView { auto_compact_enabled: b, ..v },
        BoolSetting::Notifications => SettingsView { notifications_enabled: b, ..v },
        BoolSetting::ShowTurnDuration => SettingsView { show_turn_duration: b, ..v },
        BoolSetting::ReduceMotion => SettingsView { reduce_motion: b, ..v },
        BoolSetting::TerminalProgressBar => SettingsView { terminal_progress_bar: b, ..v },
    }
}

/// The screen after toggling the selected setting.
pub open spec fn toggle_spec(v: SettingsView) -> SettingsView {
    match selected_setting(v) {
        Some(s) => with_setting(v, s, !setting_value(v, s)),
        None => v,
    }
}

/// The setting write that toggling asks for: the setting and its new value.
pub open spec fn toggle_write(v: SettingsView) -> Option<(BoolSetting, bool)> {
    match selected_setting(v) {
        Some(s) => Some((s, !setting_value(v, s))),
        None => None,
    }
}

// ---------------------------------------------------------------------------
// Keys
// ---------------------------------------------------------------------------

/// A key pressed on the settings screen.
#[derive(Clone, Copy, Debug, PartialEq, Eq, Structural)]
pub enum SettingsKey {
    Enter,
    Esc,
    Backspace,
    Tab,
    BackTab,
    Up,
    Down,
    PageUp,
    PageDown,
    /// A character, and whether Control was held.
    Char(char, bool),
    Other,
}

/// What the caller does after a key.
#[derive(Clone, Copy, Debug)]
pub struct SettingsKeyOutcome {
    /// Whether the screen took the key.
    pub handled: bool,
    /// The pending changes were applied: the configuration is to be saved.
    pub save_config: bool,
    /// A boolean setting to write to the settings file, with its new value.
    pub write: Option<(BoolSetting, bool)>,
}

pub ghost struct KeyResult {
    pub screen: SettingsView,
    pub config: ConfigView,
    pub handled: bool,
    pub save_config: bool,
    pub write: Option<(BoolSetting, bool)>,
}

pub open spec fn taken(screen: SettingsView, c: ConfigView) -> KeyResult {
    KeyResult { screen, config: c, handled: true, save_config: false, write: None }
}

/// A key while a field is edited: Enter commits the edit and applies the
/// pending changes, Esc drops the edit, Backspace deletes the last
/// character, and a character typed without Control is appended.
pub open spec fn edit_key_spec(v: SettingsView, c: ConfigView, key: SettingsKey) -> KeyResult {
    match key {
        SettingsKey::Enter => {
            let v1 = commit_edit_spec(v);
            let c1 = apply_config(v1.pending, c);
            KeyResult {
                screen: SettingsView { snapshot_config: c1, pending: Seq::empty(), ..v1 },
                config: c1,
                handled: true,
                save_config: true,
                write: None,
            }
        },
        SettingsKey::Esc => taken(cancel_edit_spec(v), c),
        SettingsKey::Backspace => taken(
            SettingsView {
                edit_value: if v.edit_value.len() > 0 { v.edit_value.drop_last() } else { v.edit_value },
                ..v
            },
            c,
        ),
        SettingsKey::Char(ch, ctrl) => if !ctrl {
            taken(SettingsView { edit_value: v.edit_value.push(ch), ..v }, c)
        } else {
            taken(v, c)
        },
        _ => taken(v, c),
    }
}

/// The text that editing the model starts from: the shown model, or the
/// default one.
pub open spec fn model_text(v: SettingsView, default_model: Seq<char>) -> Seq<char> {
    match v.snapshot_config.model {
        Some(m) => m,
        None => default_model,
    }
}

/// A key while browsing: Esc closes, Tab and BackTab change tab, the arrows
/// move by one and the page keys by ten, Space toggles the selected setting,
/// and Enter toggles it too, or on the General tab with no toggle selected
/// starts editing the model.
pub open spec fn browse_key_spec(v: SettingsView, c: ConfigView, key: SettingsKey, default_model: Seq<char>) -> KeyResult {
    match key {
        SettingsKey::Esc => taken(close_spec(v), c),
        SettingsKey::Tab => taken(next_tab_spec(v), c),
        SettingsKey::BackTab => taken(prev_tab_spec(v), c),
        SettingsKey::Up => taken(scroll_up_spec(v), c),
        SettingsKey::Down => taken(scroll_down_spec(v), c),
        SettingsKey::PageUp => taken(scroll_up_n(v, 10), c),
        SettingsKey::PageDown => taken(scroll_down_n(v, 10), c),
        SettingsKey::Char(ch, _) => if ch == ' ' {
            KeyResult { screen: toggle_spec(v), config: c, handled: true, save_config: false, write: toggle_write(v) }
        } else {
            taken(v, c)
        },
        SettingsKey::Enter => {
            let has_toggle = (v.active_tab == SettingsTab::General || v.active_tab == SettingsTab::Display)
                && v.selected_field < max_fields(v.active_tab);
            if has_toggle {
                KeyResult { screen: toggle_spec(v), config: c, handled: true, save_config: false, write: toggle_write(v) }
            } else if v.active_tab == SettingsTab::General {
                taken(start_edit_spec(v, "model"@, model_text(v, default_model)), c)
            } else {
                taken(v, c)
            }
        },
        _ => taken(v, c),
    }
}

/// A key on the screen: ignored while it is hidden.
pub open spec fn settings_key_spec(v: SettingsView, c: ConfigView, key: SettingsKey, default_model: Seq<char>) -> KeyResult {
    if !v.visible {
        KeyResult { screen: v, config: c, handled: false, save_config: false, write: None }
    } else if v.edit_field is Some {
        edit_key_spec(v, c, key)
    } else {
        browse_key_spec(v, c, key, default_model)
    }
}

// ---------------------------------------------------------------------------
// Executable operations
// ---------------------------------------------------------------------------

fn pending_position(p: &Vec<(String, String)>, k: &String) -> (r: Option<usize>)
    ensures
        match pending_index(pending_view(p@), k@) {
            Some(i) => r == Some(i as usize) && 0 <= i < p.len(),
            None => r is None,
        },
{
    let ghost pv = pending_view(p@);
    proof {
        lemma_pending_index_from(pv, k@, 0);
    }
    let mut i: usize = 0;
    while i < p.len()
        invariant
            i <= p.len(),
            pv == pending_view(p@),
            pending_index_from(pv, k@, i as int) == pending_index(pv, k@),
        decreases p.len() - i,
    {
        if p[i].0 == *k {
            return Some(i);
        }
        i = i + 1;
    }
    None
}

/// `str::parse::<u32>`, as specified by `parse_u32`.
fn parse_u32_exec(s: &String) -> (r: Option<u32>)
    ensures
        r == parse_u32(s@),
{
    let cs = chars_of(s.as_str());
    match parse_usize_exec(&cs) {
        Some(n) => {
            if n <= 0xffff_ffff {
                Some(n as u32)
            } else {
                None
            }
        },
        None => None,
    }
}

/// The pending text of field `k` (a literal), if any.
fn pending_text<'a>(p: &'a Vec<(String, String)>, k: &str) -> (r: Option<&'a String>)
    ensures
        match pending_lookup(pending_view(p@), k@) {
            Some(v) => r is Some && r->0@ == v,
            None => r is None,
        },
{
    let ghost pv = pending_view(p@);
    let mut i: usize = 0;
    while i < p.len()
        invariant
            i <= p.len(),
            pv == pending_view(p@),
            pending_index_from(pv, k@, i as int) == pending_index(pv, k@),
        decreases p.len() - i,
    {
        let key = chars_of(p[i].0.as_str());
        if str_is(&key, k) {
            return Some(&p[i].1);
        }
        i = i + 1;
    }
    None
}

fn copy_opt_string(o: &Option<String>) -> (r: Option<String>)
    ensures
        opt_string(r) == opt_string(*o),
{
    match o {
        Some(s) => Some(s.clone()),
        None => None,
    }
}

fn copy_config(c: &EditableConfig) -> (r: EditableConfig)
    ensures
        r@ == c@,
{
    EditableConfig {
        model: copy_opt_string(&c.model),
        max_tokens: c.max_tokens,
        output_style: copy_opt_string(&c.output_style),
    }
}

fn text_value_exec(s: &String) -> (r: Option<String>)
    ensures
        opt_string(r) == text_value(s@),
{
    let cs = chars_of(s.as_str());
    if cs.len() == 0 {
        None
    } else {
        Some(s.clone())
    }
}

impl SettingsScreen {
    /// A closed screen on the General tab with nothing edited: auto-compact
    /// as the configuration has it, notifications and the progress bar on,
    /// reduced motion and turn durations off.
    pub fn new(snapshot_config: EditableConfig, auto_compact_enabled: bool, auto_compact_threshold: u8) -> (r: Self)
        ensures
            r@ == (SettingsView {
                visible: false,
                active_tab: SettingsTab::General,
                scroll_offset: 0,
                edit_field: None,
                edit_value: Seq::empty(),
                snapshot_config: snapshot_config@,
                pending: Seq::empty(),
                auto_compact_enabled,
                auto_compact_threshold,
                notifications_enabled: true,
                reduce_motion: false,
                show_turn_duration: false,
                terminal_progress_bar: true,
                selected_field: 0,
            }),
    {
        let r = SettingsScreen {
            visible: false,
            active_tab: SettingsTab::General,
            scroll_offset: 0,
            edit_field: None,
            edit_value: String::new(),
            snapshot_config,
            pending_changes: Vec::new(),
            auto_compact_enabled,
            auto_compact_threshold,
            notifications_enabled: true,
            reduce_motion: false,
            show_turn_duration: false,
            terminal_progress_bar: true,
            selected_field: 0,
        };
        proof {
            assert(pending_view(r.pending_changes@) =~= Seq::empty());
        }
        r
    }

    /// Show the screen on the General tab with the loaded configuration and
    /// settings, nothing edited and nothing pending.
    pub fn open(&mut self, snapshot_config: EditableConfig, stored: StoredSettings)
        ensures
            final(self)@ == (SettingsView {
                visible: true,
                active_tab: SettingsTab::General,
                scroll_offset: 0,
                edit_field: None,
                edit_value: Seq::empty(),
                snapshot_config: snapshot_config@,
                pending: Seq::empty(),
                auto_compact_enabled: stored.auto_compact_enabled,
                auto_compact_threshold: stored.auto_compact_threshold,
                notifications_enabled: stored.notifications_enabled,
                reduce_motion: stored.reduce_motion,
                show_turn_duration: stored.show_turn_duration,
                terminal_progress_bar: stored.terminal_progress_bar,
                selected_field: 0,
            }),
    {
        self.snapshot_config = snapshot_config;
        self.pending_changes = Vec::new();
        self.edit_field = None;
        self.edit_value = String::new();
        self.scroll_offset = 0;
        self.active_tab = SettingsTab::General;
        self.selected_field = 0;
        self.visible = true;
        self.auto_compact_enabled = stored.auto_compact_enabled;
        self.auto_compact_threshold = stored.auto_compact_threshold;
        self.notifications_enabled = stored.notifications_enabled;
        self.reduce_motion = stored.reduce_motion;
        self.show_turn_duration = stored.show_turn_duration;
        self.terminal_progress_bar = stored.terminal_progress_bar;
        proof {
            assert(pending_view(self.pending_changes@) =~= Seq::empty());
        }
    }

    pub fn close(&mut self)
        ensures
            final(self)@ == close_spec(old(self)@),
    {
        self.visible = false;
        self.edit_field = None;
        self.edit_value = String::new();
    }

    fn go_to_tab(&mut self, t: SettingsTab)
        ensures
            final(self)@ == on_tab(old(self)@, t),
    {
        self.active_tab = t;
        self.scroll_offset = 0;
        self.selected_field = 0;
        self.edit_field = None;
        self.edit_value = String::new();
    }

    pub fn next_tab(&mut self)
        ensures
            final(self)@ == next_tab_spec(old(self)@),
    {
        let all = SettingsTab::all();
        let idx = self.active_tab.index();
        let next = (idx + 1) % all.len();
        proof {
            assert(tab_index(self.active_tab) == idx);
        }
        let t = all[next];
        self.go_to_tab(t);
    }

    pub fn prev_tab(&mut self)
        ensures
            final(self)@ == prev_tab_spec(old(self)@),
    {
        let all = SettingsTab::all();
        let idx = self.active_tab.index();
        proof {
            assert(tab_index(self.active_tab) == idx);
        }
        let prev = if idx == 0 {
            all.len() - 1
        } else {
            idx - 1
        };
        let t = all[prev];
        self.go_to_tab(t);
    }

    pub fn scroll_up(&mut self)
        ensures
            final(self)@ == scroll_up_spec(old(self)@),
    {
        if self.selected_field > 0 {
            self.selected_field = self.selected_field - 1;
        }
        self.scroll_offset = self.scroll_offset.saturating_sub(1);
    }

    pub fn scroll_down(&mut self)
        ensures
            final(self)@ == scroll_down_spec(old(self)@),
    {
        let max_fields = self.max_fields_for_tab();
        if self.selected_field < max_fields && self.selected_field + 1 < max_fields {
            self.selected_field = self.selected_field + 1;
        }
        self.scroll_offset = self.scroll_offset.saturating_add(1);
    }

    /// Number of toggles on the active tab.
    pub fn max_fields_for_tab(&self) -> (n: usize)
        ensures
            n == max_fields(self.active_tab),
    {
        match self.active_tab {
            SettingsTab::General => 3,
            SettingsTab::Display => 2,
            _ => 0,
        }
    }

    /// Start editing `field`, with `current_value` as its text.
    pub fn start_edit(&mut self, field: &str, current_value: &str)
        ensures
            final(self)@ == start_edit_spec(old(self)@, field@, current_value@),
    {
        self.edit_field = Some(field.to_owned());
        self.edit_value = current_value.to_owned();
    }

    /// Make the edited text the pending change of its field.
    pub fn commit_edit(&mut self)
        ensures
            final(self)@ == commit_edit_spec(old(self)@),
    {
        match self.edit_field.take() {
            Some(field) => {
                let mut value = String::new();
                std::mem::swap(&mut value, &mut self.edit_value);
                let ghost pv = pending_view(self.pending_changes@);
                proof {
                    lemma_pending_index_from(pv, field@, 0);
                }
                match pending_position(&self.pending_changes, &field) {
                    Some(i) => {
                        self.pending_changes.set(i, (field, value));
                        proof {
                            assert(pending_view(self.pending_changes@) =~= pv.update(i as int, (field@, value@)));
                        }
                    },
                    None => {
                        self.pending_changes.push((field, value));
                        proof {
                            assert(pending_view(self.pending_changes@) =~= pv.push((field@, value@)));
                        }
                    },
                }
            },
            None => {},
        }
    }

    /// Drop the current edit.
    pub fn cancel_edit(&mut self)
        ensures
            final(self)@ == cancel_edit_spec(old(self)@),
    {
        self.edit_field = None;
        self.edit_value = String::new();
    }

    /// Apply the pending changes to `config`, which the screen then shows,
    /// and clear them. Writing the configuration out is the caller's.
    pub fn apply_pending_changes(&mut self, config: &mut EditableConfig)
        ensures
            final(config)@ == apply_config(old(self)@.pending, old(config)@),
            final(self)@ == (SettingsView {
                snapshot_config: apply_config(old(self)@.pending, old(config)@),
                pending: Seq::empty(),
                ..old(self)@
            }),
    {
        match pending_text(&self.pending_changes, "model") {
            Some(v) => {
                config.model = text_value_exec(v);
            },
            None => {},
        }
        match pending_text(&self.pending_changes, "max_tokens") {
            Some(v) => {
                match parse_u32_exec(v) {
                    Some(n) => {
                        config.max_tokens = Some(n);
                    },
                    None => {},
                }
            },
            None => {},
        }
        match pending_text(&self.pending_changes, "output_style") {
            Some(v) => {
                config.output_style = text_value_exec(v);
            },
            None => {},
        }
        self.snapshot_config = copy_config(config);
        self.pending_changes = Vec::new();
        proof {
            assert(pending_view(self.pending_changes@) =~= Seq::empty());
        }
    }
}

/// Toggle the selected setting; returns it with its new value, for the
/// caller to write to the settings file.
pub fn toggle_current_field(screen: &mut SettingsScreen) -> (r: Option<(BoolSetting, bool)>)
    ensures
        final(screen)@ == toggle_spec(old(screen)@),
        r == toggle_write(old(screen)@),
{
    match screen.active_tab {
        SettingsTab::General => {
            if screen.selected_field == 0 {
                screen.auto_compact_enabled = !screen.auto_compact_enabled;
                Some((BoolSetting::AutoCompact, screen.auto_compact_enabled))
            } else if screen.selected_field == 1 {
                screen.notifications_enabled = !screen.notifications_enabled;
                Some((BoolSetting::Notifications, screen.notifications_enabled))
            } else if screen.selected_field == 2 {
                screen.show_turn_duration = !screen.show_turn_duration;
                Some((BoolSetting::ShowTurnDuration, screen.show_turn_duration))
            } else {
                None
            }
        },
        SettingsTab::Display => {
            if screen.selected_field == 0 {
                screen.reduce_motion = !screen.reduce_motion;
                Some((BoolSetting::ReduceMotion, screen.reduce_motion))
            } else if screen.selected_field == 1 {
                screen.terminal_progress_bar = !screen.terminal_progress_bar;
                Some((BoolSetting::TerminalProgressBar, screen.terminal_progress_bar))
            } else {
                None
            }
        },
        _ => None,
    }
}

fn outcome(handled: bool, save_config: bool, write: Option<(BoolSetting, bool)>) -> (r: SettingsKeyOutcome)
    ensures
        r.handled == handled,
        r.save_config == save_config,
        r.write == write,
{
    SettingsKeyOutcome { handled, save_config, write }
}

fn edit_key(screen: &mut SettingsScreen, config: &mut EditableConfig, key: SettingsKey) -> (r: SettingsKeyOutcome)
    requires
        old(screen).visible,
        old(screen).edit_field is Some,
    ensures
        ({
            let k = edit_key_spec(old(screen)@, old(config)@, key);
            &&& final(screen)@ == k.screen
            &&& final(config)@ == k.config
            &&& r.handled == k.handled
            &&& r.save_config == k.save_config
            &&& r.write == k.write
        }),
{
    match key {
        SettingsKey::Enter => {
            screen.commit_edit();
            screen.apply_pending_changes(config);
            outcome(true, true, None)
        },
        SettingsKey::Esc => {
            screen.cancel_edit();
            outcome(true, false, None)
        },
        SettingsKey::Backspace => {
            let mut cs = chars_of(screen.edit_value.as_str());
            if cs.len() > 0 {
                cs.pop();
            }
            screen.edit_value = string_of(&cs);
            outcome(true, false, None)
        },
        SettingsKey::Char(ch, ctrl) => {
            if !ctrl {
                let mut cs = chars_of(screen.edit_value.as_str());
                cs.push(ch);
                screen.edit_value = string_of(&cs);
            }
            outcome(true, false, None)
        },
        _ => outcome(true, false, None),
    }
}

fn browse_key(screen: &mut SettingsScreen, config: &EditableConfig, key: SettingsKey, default_model: &str) -> (r: SettingsKeyOutcome)
    requires
        old(screen).visible,
        old(screen).edit_field is None,
    ensures
        ({
            let k = browse_key_spec(old(screen)@, config@, key, default_model@);
            &&& final(screen)@ == k.screen
            &&& config@ == k.config
            &&& r.handled == k.handled
            &&& r.save_config == k.save_config
            &&& r.write == k.write
        }),
{
    match key {
        SettingsKey::Esc => {
            screen.close();
        },
        SettingsKey::Tab => {
            screen.next_tab();
        },
        SettingsKey::BackTab => {
            screen.prev_tab();
        },
        SettingsKey::Up => {
            screen.scroll_up();
        },
        SettingsKey::Down => {
            screen.scroll_down();
        },
        SettingsKey::PageUp => {
            let ghost v0 = screen@;
            let mut n: usize = 0;
            while n < 10
                invariant
                    n <= 10,
                    screen@ == scroll_up_n(v0, n as nat),
                decreases 10 - n,
            {
                screen.scroll_up();
                n = n + 1;
            }
        },
        SettingsKey::PageDown => {
            let ghost v0 = screen@;
            let mut n: usize = 0;
            while n < 10
                invariant
                    n <= 10,
                    screen@ == scroll_down_n(v0, n as nat),
                decreases 10 - n,
            {
                screen.scroll_down();
                n = n + 1;
            }
        },
        SettingsKey::Char(ch, _) => {
            if ch == ' ' {
                let w = toggle_current_field(screen);
                return outcome(true, false, w);
            }
        },
        SettingsKey::Enter => {
            let is_toggle_tab = match screen.active_tab {
                SettingsTab::General => true,
                SettingsTab::Display => true,
                _ => false,
            };
            if is_toggle_tab && screen.selected_field < screen.max_fields_for_tab() {
                let w = toggle_current_field(screen);
                return outcome(true, false, w);
            }
            let is_general = match screen.active_tab {
                SettingsTab::General => true,
                _ => false,
            };
            if is_general {
                let model_val = match &screen.snapshot_config.model {
                    Some(m) => m.clone(),
                    None => default_model.to_owned(),
                };
                screen.start_edit("model", model_val.as_str());
            }
        },
        SettingsKey::Backspace | SettingsKey::Other => {},
    }
    outcome(true, false, None)
}

/// Handle a key on the settings screen. Returns whether the screen took it,
/// whether the configuration is to be saved, and which setting, if any, is
/// to be written; `default_model` is the model shown when none is set.
pub fn handle_settings_key(
    screen: &mut SettingsScreen,
    config: &mut EditableConfig,
    key: SettingsKey,
    default_model: &str,
) -> (r: SettingsKeyOutcome)
    ensures
        ({
            let k = settings_key_spec(old(screen)@, old(config)@, key, default_model@);
            &&& final(screen)@ == k.screen
            &&& final(config)@ == k.config
            &&& r.handled == k.handled
            &&& r.save_config == k.save_config
            &&& r.write == k.write
        }),
{
    if !screen.visible {
        return outcome(false, false, None);
    }
    if screen.edit_field.is_some() {
        edit_key(screen, config, key)
    } else {
        browse_key(screen, config, key, default_model)
    }
}

// ---------------------------------------------------------------------------
// The settings file
// ---------------------------------------------------------------------------

fn text_ref(o: &Option<String>) -> (r: Option<&str>)
    ensures
        opt_str(r) == opt_text(*o),
{
    match o {
        Some(s) => Some(s.as_str()),
        None => None,
    }
}

/// The boolean member `key` of the settings text, or `default`.
pub open spec fn setting_bool(json: Option<Seq<char>>, key: Seq<char>, default: bool) -> bool {
    match json_bool_of(json_get(json, key)) {
        Some(b) => b,
        None => default,
    }
}

/// The unsigned member `key` of the settings text, taken modulo 256, or `default`.
pub open spec fn setting_u8(json: Option<Seq<char>>, key: Seq<char>, default: u8) -> u8 {
    match json_u64_of(json_get(json, key)) {
        Some(n) => n as u8,
        None => default,
    }
}

/// A boolean of the settings text `json` by its camelCase key, or `default`
/// when there is no text or no such boolean.
pub fn read_setting_bool(json: Option<&str>, key: &str, default: bool) -> (b: bool)
    ensures
        b == setting_bool(opt_str(json), key@, default),
{
    match bool_of(text_ref(&get(json, key))) {
        Some(b) => b,
        None => default,
    }
}

/// A number of the settings text `json` by its camelCase key, taken modulo
/// 256, or `default` when there is no text or no such number.
pub fn read_setting_u8(json: Option<&str>, key: &str, default: u8) -> (r: u8)
    ensures
        r == setting_u8(opt_str(json), key@, default),
{
    match u64_of(text_ref(&get(json, key))) {
        Some(n) => n as u8,
        None => default,
    }
}

/// The settings the screen shows, from the settings text, with the
/// configuration's auto-compact values as defaults.
pub fn stored_settings(json: Option<&str>, auto_compact: bool, threshold_default: u8) -> (r: StoredSettings)
    ensures
        r.auto_compact_enabled == setting_bool(opt_str(json), "autoCompact"@, auto_compact),
        r.auto_compact_threshold == setting_u8(opt_str(json), "autoCompactThreshold"@, threshold_default),
        r.notifications_enabled == setting_bool(opt_str(json), "notifications"@, true),
        r.reduce_motion == setting_bool(opt_str(json), "reduceMotion"@, false),
        r.show_turn_duration == setting_bool(opt_str(json), "showTurnDuration"@, false),
        r.terminal_progress_bar == setting_bool(opt_str(json), "terminalProgressBar"@, true),
{
    StoredSettings {
        auto_compact_enabled: read_setting_bool(json, "autoCompact", auto_compact),
        auto_compact_threshold: read_setting_u8(json, "autoCompactThreshold", threshold_default),
        notifications_enabled: read_setting_bool(json, "notifications", true),
        reduce_motion: read_setting_bool(json, "reduceMotion", false),
        show_turn_duration: read_setting_bool(json, "showTurnDuration", false),
        terminal_progress_bar: read_setting_bool(json, "terminalProgressBar", true),
    }
}

/// The settings text to write after setting `setting` to `value`: when the
/// current text is a JSON object, it with that member set; when it is other
/// JSON, that JSON unchanged; otherwise an empty object with that member
/// set; pretty-printed in each case, and none when writing fails.
pub open spec fn settings_with_bool_spec(existing: Option<Seq<char>>, setting: BoolSetting, value: bool) -> Option<Seq<char>> {
    match existing {
        Some(t) => if json_object(t) is Some {
            json_set_bool(t, setting_key(setting), value)
        } else if json_parses(t) {
            json_pretty(t)
        } else {
            json_set_bool("{}"@, setting_key(setting), value)
        },
        None => json_set_bool("{}"@, setting_key(setting), value),
    }
}

/// The settings text to write after setting `setting` to `value` (see
/// `settings_with_bool_spec`).
pub fn settings_with_bool(existing: Option<&str>, setting: BoolSetting, value: bool) -> (r: Option<String>)
    ensures
        opt_text(r) == settings_with_bool_spec(opt_str(existing), setting, value),
{
    let key = setting.key();
    match existing {
        Some(t) => if members(t).is_some() {
            set_bool_member(t, key, value)
        } else if parses(t) {
            pretty(t)
        } else {
            set_bool_member("{}", key, value)
        },
        None => set_bool_member("{}", key, value),
    }
}

} // verus!
