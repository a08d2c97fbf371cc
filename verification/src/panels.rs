//! State of the small dialogs and banners: the context overlay, the export
//! format picker, the memory-update banner, the memory file selector, the
//! settings tabs, and the message rendering context.
use vstd::prelude::*;
use std::collections::{HashMap, HashSet};
use crate::prompt::starts_with;
use crate::json::{bool_of, get, json_bool_of, json_get, opt_str, opt_text};
use crate::text::{chars_of, concat_vec, slice_vec, string_of, utf8_len};

verus! {

// ---------------------------------------------------------------------------
// Context overlay
// ---------------------------------------------------------------------------

/// Visibility of the context window and rate-limit overlay.
#[derive(Debug, Clone)]
pub struct ContextVizState {
    pub visible: bool,
}

impl ContextVizState {
    pub fn new() -> (r: Self)
        ensures
            !r.visible,
    {
        ContextVizState { visible: false }
    }

    pub fn open(&mut self)
        ensures
            final(self).visible,
    {
        self.visible = true;
    }

    pub fn close(&mut self)
        ensures
            !final(self).visible,
    {
        self.visible = false;
    }

    pub fn toggle(&mut self)
        ensures
            final(self).visible == !old(self).visible,
    {
        self.visible = !self.visible;
    }
}

impl Default for ContextVizState {
    fn default() -> (r: Self)
        ensures
            !r.visible,
    {
        ContextVizState::new()
    }
}

// ---------------------------------------------------------------------------
// Export format picker
// ---------------------------------------------------------------------------

#[derive(Debug, Clone, Copy, PartialEq, Eq, Structural, Default)]
pub enum ExportFormat {
    #[default]
    Json,
    Markdown,
}

/// The other export format.
pub open spec fn other_format(f: ExportFormat) -> ExportFormat {
    match f {
        ExportFormat::Json => ExportFormat::Markdown,
        ExportFormat::Markdown => ExportFormat::Json,
    }
}

#[derive(Debug, Clone)]
pub struct ExportDialogState {
    pub visible: bool,
    pub selected: ExportFormat,
}

impl ExportDialogState {
    pub fn new() -> (r: Self)
        ensures
            !r.visible,
            r.selected == ExportFormat::Json,
    {
        ExportDialogState { visible: false, selected: ExportFormat::Json }
    }

    /// Show the dialog with JSON selected.
    pub fn open(&mut self)
        ensures
            final(self).visible,
            final(self).selected == ExportFormat::Json,
    {
        self.visible = true;
        self.selected = ExportFormat::Json;
    }

    pub fn dismiss(&mut self)
        ensures
            *final(self) == (ExportDialogState { visible: false, ..*old(self) }),
    {
        self.visible = false;
    }

    /// Switch to the other format.
    pub fn toggle(&mut self)
        ensures
            *final(self) == (ExportDialogState { selected: other_format(old(self).selected), ..*old(self) }),
    {
        self.selected = match self.selected {
            ExportFormat::Json => ExportFormat::Markdown,
            ExportFormat::Markdown => ExportFormat::Json,
        };
    }
}

impl Default for ExportDialogState {
    fn default() -> (r: Self)
        ensures
            !r.visible,
            r.selected == ExportFormat::Json,
    {
        ExportDialogState::new()
    }
}

/// Switching the export format twice gives back the format.
pub proof fn law_toggle_twice(f: ExportFormat)
    ensures
        other_format(other_format(f)) == f,
        other_format(f) != f,
{
}

// ---------------------------------------------------------------------------
// Memory update banner
// ---------------------------------------------------------------------------

/// Memory update notification banner state.
#[derive(Debug, Clone)]
pub struct MemoryUpdateNotificationState {
    /// Whether the notification is visible.
    pub visible: bool,
    /// Absolute path to the memory file that was updated.
    pub memory_path: String,
    /// Whether the user has dismissed this notification.
    pub dismissed: bool,
}

impl MemoryUpdateNotificationState {
    pub fn new() -> (r: Self)
        ensures
            !r.visible,
            r.memory_path@ == Seq::<char>::empty(),
            !r.dismissed,
    {
        MemoryUpdateNotificationState { visible: false, memory_path: String::new(), dismissed: false }
    }

    /// Show the notification for the given memory file path; this is allowed
    /// again after a dismissal.
    pub fn show(&mut self, path: &str)
        ensures
            final(self).visible,
            final(self).memory_path@ == path@,
            !final(self).dismissed,
    {
        self.memory_path = string_of(&chars_of(path));
        self.visible = true;
        self.dismissed = false;
    }

    /// Dismiss the notification.
    pub fn dismiss(&mut self)
        ensures
            *final(self) == (MemoryUpdateNotificationState { visible: false, dismissed: true, ..*old(self) }),
    {
        self.visible = false;
        self.dismissed = true;
    }

    /// Height the notification occupies: one row when visible.
    pub fn height(&self) -> (h: u16)
        ensures
            h == (if self.visible {
                1u16
            } else {
                0u16
            }),
    {
        if self.visible {
            1
        } else {
            0
        }
    }
}

impl Default for MemoryUpdateNotificationState {
    fn default() -> (r: Self)
        ensures
            !r.visible,
            r.memory_path@ == Seq::<char>::empty(),
            !r.dismissed,
    {
        MemoryUpdateNotificationState::new()
    }
}

/// `s` without its leading `'/'` and `'\\'` characters.
pub open spec fn trim_separators(s: Seq<char>) -> Seq<char>
    decreases s.len(),
{
    if s.len() > 0 && (s[0] == '/' || s[0] == '\\') {
        trim_separators(s.drop_first())
    } else {
        s
    }
}

/// `s` with every `'\\'` replaced by `'/'`.
pub open spec fn forward_slashes(s: Seq<char>) -> Seq<char> {
    s.map_values(|c: char| if c == '\\' { '/' } else { c })
}

/// `path` shown relative to `base` with `mark` (`~` or `.`): empty when
/// `base` is empty or not a prefix of `path`; just the mark's form when
/// nothing follows `base`.
pub open spec fn relative_to(path: Seq<char>, base: Seq<char>, bare: Seq<char>, mark: Seq<char>) -> Seq<char> {
    if base.len() > 0 && starts_with(path, base) {
        let rest = trim_separators(path.skip(base.len() as int));
        if rest.len() == 0 {
            bare
        } else {
            mark + seq!['/'] + forward_slashes(rest)
        }
    } else {
        Seq::empty()
    }
}

/// The shortest display path for a memory file: `~/…` relative to `home` or
/// `./…` relative to `cwd` (the home form on a tie), else the path with
/// forward slashes.
pub open spec fn relative_memory_path_spec(path: Seq<char>, home: Seq<char>, cwd: Seq<char>) -> Seq<char> {
    let h = relative_to(path, home, seq!['~'], seq!['~']);
    let c = relative_to(path, cwd, seq!['.', '/'], seq!['.']);
    if h.len() > 0 && c.len() > 0 {
        if utf8_len(h) <= utf8_len(c) {
            h
        } else {
            c
        }
    } else if h.len() > 0 {
        h
    } else if c.len() > 0 {
        c
    } else {
        forward_slashes(path)
    }
}

fn forward_slashes_exec(s: &Vec<char>) -> (r: Vec<char>)
    ensures
        r@ == forward_slashes(s@),
{
    let mut r: Vec<char> = Vec::new();
    let mut i: usize = 0;
    while i < s.len()
        invariant
            i <= s.len(),
            r@ == forward_slashes(s@.take(i as int)),
        decreases s.len() - i,
    {
        let c = s[i];
        r.push(if c == '\\' { '/' } else { c });
        i = i + 1;
        assert(r@ =~= forward_slashes(s@.take(i as int)));
    }
    assert(s@.take(s.len() as int) =~= s@);
    r
}

fn relative_to_exec(path: &Vec<char>, base: &Vec<char>, bare: &Vec<char>, mark: char) -> (r: Vec<char>)
    ensures
        r@ == relative_to(path@, base@, bare@, seq![mark]),
{
    if base.len() > 0 && crate::prompt::starts_with_exec(path, base) {
        let mut a = base.len();
        assert(path@.skip(base.len() as int) =~= path@.skip(a as int));
        while a < path.len() && (path[a] == '/' || path[a] == '\\')
            invariant
                base.len() <= a <= path.len(),
                trim_separators(path@.skip(a as int)) == trim_separators(path@.skip(base.len() as int)),
            decreases path.len() - a,
        {
            assert(path@.skip(a as int).drop_first() =~= path@.skip(a as int + 1));
            a = a + 1;
        }
        let rest = slice_vec(path, a, path.len());
        assert(rest@ =~= path@.skip(a as int));
        if rest.len() == 0 {
            return slice_vec(bare, 0, bare.len());
        }
        let mut r: Vec<char> = Vec::new();
        r.push(mark);
        r.push('/');
        let fs = forward_slashes_exec(&rest);
        let out = concat_vec(&r, &fs);
        assert(r@ =~= seq![mark] + seq!['/']);
        out
    } else {
        Vec::new()
    }
}

/// Compute the shortest display path for a memory file, given the home
/// directory and the working directory (either may be empty when unknown).
pub fn relative_memory_path(path: &str, home: &str, cwd: &str) -> (r: String)
    ensures
        r@ == relative_memory_path_spec(path@, home@, cwd@),
{
    let p = chars_of(path);
    let hc = chars_of(home);
    let cc = chars_of(cwd);
    let tilde = vec!['~'];
    let dot_slash = vec!['.', '/'];
    let h = relative_to_exec(&p, &hc, &tilde, '~');
    let c = relative_to_exec(&p, &cc, &dot_slash, '.');
    assert(tilde@ == seq!['~']);
    assert(dot_slash@ == seq!['.', '/']);
    if h.len() > 0 && c.len() > 0 {
        if byte_len_small(&h) <= byte_len_small(&c) {
            string_of(&h)
        } else {
            string_of(&c)
        }
    } else if h.len() > 0 {
        string_of(&h)
    } else if c.len() > 0 {
        string_of(&c)
    } else {
        string_of(&forward_slashes_exec(&p))
    }
}

/// UTF-8 length of a character vector, computed without overflow.
fn byte_len_small(cs: &Vec<char>) -> (n: u128)
    ensures
        n == utf8_len(cs@),
{
    let mut i: usize = 0;
    let mut n: u128 = 0;
    proof {
        crate::text::lemma_offset_zero(cs@);
    }
    while i < cs.len()
        invariant
            i <= cs.len(),
            n == crate::text::byte_offset(cs@, i as int),
            n <= 4 * i,
        decreases cs.len() - i,
    {
        proof {
            crate::text::lemma_offset_step(cs@, i as int);
        }
        n = n + crate::text::char_width(cs[i]) as u128;
        i = i + 1;
    }
    proof {
        crate::text::lemma_offset_full(cs@);
    }
    n
}

// ---------------------------------------------------------------------------
// Memory file selector
// ---------------------------------------------------------------------------

#[derive(Debug, Clone, Copy, PartialEq, Eq, Structural)]
pub enum MemoryFileType {
    User,
    Project,
    Local,
}

/// A memory file offered by the selector.
pub struct MemoryFile {
    pub path: String,
    pub display_path: String,
    pub file_type: MemoryFileType,
    pub exists: bool,
}

pub struct MemoryFileSelectorState {
    pub visible: bool,
    pub files: Vec<MemoryFile>,
    pub selected: usize,
    /// The project root the list was built for.
    pub project_root: String,
}

impl MemoryFileSelectorState {
    pub fn new() -> (r: Self)
        ensures
            !r.visible,
            r.files@.len() == 0,
            r.selected == 0,
            r.project_root@ == Seq::<char>::empty(),
    {
        MemoryFileSelectorState { visible: false, files: Vec::new(), selected: 0, project_root: String::new() }
    }

    /// Open the selector on `files` (user, project and local memory files)
    /// for `project_root`, with the first one selected.
    pub fn open_with_files(&mut self, project_root: String, files: Vec<MemoryFile>)
        ensures
            final(self).visible,
            final(self).files@ == files@,
            final(self).selected == 0,
            final(self).project_root == project_root,
    {
        self.project_root = project_root;
        self.selected = 0;
        self.files = files;
        self.visible = true;
    }

    pub fn close(&mut self)
        ensures
            final(self).visible == false,
            final(self).files@ == old(self).files@,
            final(self).selected == old(self).selected,
            final(self).project_root == old(self).project_root,
    {
        self.visible = false;
    }

    /// Select the previous file (stopping at the first).
    pub fn select_prev(&mut self)
        ensures
            final(self).selected == (if old(self).selected > 0 {
                old(self).selected - 1
            } else {
                0
            }),
            final(self).files@ == old(self).files@,
            final(self).visible == old(self).visible,
            final(self).project_root == old(self).project_root,
    {
        if self.selected > 0 {
            self.selected = self.selected - 1;
        }
    }

    /// Select the next file (stopping at the last).
    pub fn select_next(&mut self)
        ensures
            final(self).selected == (if old(self).selected + 1 < old(self).files@.len() {
                old(self).selected + 1
            } else {
                old(self).selected as int
            }),
            final(self).files@ == old(self).files@,
            final(self).visible == old(self).visible,
            final(self).project_root == old(self).project_root,
    {
        if self.files.len() > 0 && self.selected < self.files.len() - 1 {
            self.selected = self.selected + 1;
        }
    }

    /// The path of the currently highlighted file, if any.
    pub fn selected_path(&self) -> (r: Option<&str>)
        ensures
            match r {
                Some(p) => self.selected < self.files@.len() && p@ == self.files@[self.selected as int].path@,
                None => self.selected >= self.files@.len(),
            },
    {
        if self.selected < self.files.len() {
            Some(self.files[self.selected].path.as_str())
        } else {
            None
        }
    }
}

impl Default for MemoryFileSelectorState {
    fn default() -> (r: Self)
        ensures
            !r.visible,
            r.files@.len() == 0,
            r.selected == 0,
    {
        MemoryFileSelectorState::new()
    }
}

// ---------------------------------------------------------------------------
// Settings tabs
// ---------------------------------------------------------------------------

#[derive(Debug, Clone, Copy, PartialEq, Eq, Structural)]
pub enum SettingsTab {
    General,
    Display,
    Privacy,
    Advanced,
    KeyBindings,
}

/// The tabs in display order.
pub open spec fn tab_order() -> Seq<SettingsTab> {
    seq![
        SettingsTab::General,
        SettingsTab::Display,
        SettingsTab::Privacy,
        SettingsTab::Advanced,
        SettingsTab::KeyBindings,
    ]
}

pub open spec fn tab_label(t: SettingsTab) -> Seq<char> {
    match t {
        SettingsTab::General => "General"@,
        SettingsTab::Display => "Display"@,
        SettingsTab::Privacy => "Privacy"@,
        SettingsTab::Advanced => "Advanced"@,
        SettingsTab::KeyBindings => "KeyBindings"@,
    }
}

impl SettingsTab {
    /// All tabs, in display order.
    pub fn all() -> (r: Vec<SettingsTab>)
        ensures
            r@ == tab_order(),
    {
        let r = vec![
            SettingsTab::General,
            SettingsTab::Display,
            SettingsTab::Privacy,
            SettingsTab::Advanced,
            SettingsTab::KeyBindings,
        ];
        assert(r@ =~= tab_order());
        r
    }

    pub fn label(&self) -> (r: &'static str)
        ensures
            r@ == tab_label(*self),
    {
        match self {
            SettingsTab::General => "General",
            SettingsTab::Display => "Display",
            SettingsTab::Privacy => "Privacy",
            SettingsTab::Advanced => "Advanced",
            SettingsTab::KeyBindings => "KeyBindings",
        }
    }

    /// Position of the tab in `all()`.
    pub fn index(&self) -> (i: usize)
        ensures
            i < tab_order().len(),
            tab_order()[i as int] == *self,
    {
        match self {
            SettingsTab::General => 0,
            SettingsTab::Display => 1,
            SettingsTab::Privacy => 2,
            SettingsTab::Advanced => 3,
            SettingsTab::KeyBindings => 4,
        }
    }
}

// ---------------------------------------------------------------------------
// Message rendering context
// ---------------------------------------------------------------------------

/// Settings that message rendering reads.
pub struct RenderContext {
    /// Current terminal width (for word-wrap decisions).
    pub width: u16,
    /// Whether syntax highlighting is enabled.
    pub highlight: bool,
    /// Whether to show thinking blocks.
    pub show_thinking: bool,
    /// Maps `tool_use_id` to `tool_name` so tool results can be rendered by
    /// the renderer of their tool.
    pub tool_names: HashMap<String, String>,
    /// Hashes of the thinking blocks that are expanded.
    pub expanded_thinking: HashSet<u64>,
}

impl Default for RenderContext {
    /// Width 80, highlighting on, thinking hidden, nothing known or expanded.
    fn default() -> (r: Self)
        ensures
            r.width == 80,
            r.highlight,
            !r.show_thinking,
            r.tool_names@ == Map::<String, String>::empty(),
            r.expanded_thinking@ == Set::<u64>::empty(),
    {
        RenderContext {
            width: 80,
            highlight: true,
            show_thinking: false,
            tool_names: HashMap::new(),
            expanded_thinking: HashSet::new(),
        }
    }
}

// ---------------------------------------------------------------------------
// Privacy settings
// ---------------------------------------------------------------------------

/// The privacy fields of the settings file, each absent when the file does
/// not set it.
#[derive(Clone, Copy, Debug, Default)]
pub struct PrivacySnapshot {
    /// `hasAgreedToUsagePolicy`.
    pub has_agreed: Option<bool>,
    /// `disableTelemetry`.
    pub disable_telemetry: Option<bool>,
    /// `shareUsageData`.
    pub share_usage_data: Option<bool>,
}

impl PrivacySnapshot {
    /// Telemetry is on unless the settings disable it.
    pub fn telemetry_enabled(&self) -> (b: bool)
        ensures
            b == (self.disable_telemetry != Some(true)),
    {
        match self.disable_telemetry {
            Some(d) => !d,
            None => true,
        }
    }

    /// Usage data is shared only when the settings say so.
    pub fn usage_sharing_enabled(&self) -> (b: bool)
        ensures
            b == (self.share_usage_data == Some(true)),
    {
        match self.share_usage_data {
            Some(s) => s,
            None => false,
        }
    }
}

/// The privacy fields of the settings text `json` (all absent without one):
/// each the boolean member of that name, when there is one.
pub fn privacy_from_settings(json: Option<&str>) -> (r: PrivacySnapshot)
    ensures
        r.has_agreed == json_bool_of(json_get(opt_str(json), "hasAgreedToUsagePolicy"@)),
        r.disable_telemetry == json_bool_of(json_get(opt_str(json), "disableTelemetry"@)),
        r.share_usage_data == json_bool_of(json_get(opt_str(json), "shareUsageData"@)),
{
    let a = get(json, "hasAgreedToUsagePolicy");
    let d = get(json, "disableTelemetry");
    let u = get(json, "shareUsageData");
    PrivacySnapshot {
        has_agreed: bool_of(text_ref(&a)),
        disable_telemetry: bool_of(text_ref(&d)),
        share_usage_data: bool_of(text_ref(&u)),
    }
}

fn text_ref(o: &Option<String>) -> (r: Option<&str>)
    ensures
        opt_str(r) == opt_text(*o),
{
    match o {
        Some(s) => Some(s.as_str()),
        None => None,
    }
}

// ---------------------------------------------------------------------------
// Status row
// ---------------------------------------------------------------------------

/// Whether the status row under the transcript is drawn: while recording
/// voice or streaming, after a turn whose duration is known, or when a status
/// message is set.
pub fn should_render_status_row(
    voice_recording: bool,
    is_streaming: bool,
    has_last_turn_elapsed: bool,
    has_status_message: bool,
) -> (b: bool)
    ensures
        b == (voice_recording || is_streaming || has_last_turn_elapsed || has_status_message),
{
    voice_recording || is_streaming || has_last_turn_elapsed || (!is_streaming && has_status_message)
}

// ---------------------------------------------------------------------------
// Figures
// ---------------------------------------------------------------------------

/// The recording dot: `●` (U+25CF) on Windows, `⏺` (U+23FA) elsewhere.
pub fn black_circle_for(windows: bool) -> (r: &'static str)
    ensures
        r@ == (if windows {
            "\u{25CF}"@
        } else {
            "\u{23FA}"@
        }),
{
    if windows {
        "\u{25CF}"
    } else {
        "\u{23FA}"
    }
}

} // verus!
