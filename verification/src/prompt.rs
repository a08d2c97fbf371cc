//! The prompt input: a multi-line text buffer with a byte cursor, input
//! history, slash-command typeahead, paste placeholders, and the state kept by
//! its vim key handling (registers, marks, macros, undo, dot-repeat).
//!
//! `PromptInputState` is viewed as a `PromptView`, whose strings are character
//! sequences; every method states its effect on that view.
use vstd::prelude::*;
use std::collections::HashMap;
use crate::charmap::CharMap;
use crate::motions::VimFindKind;
use crate::numbers::{decimal, decimal_exec};
use crate::text::{byte_len, byte_offset, byte_to_index, char_index, char_width, chars_of, check_boundary, concat_vec, cut, cut_vec, index_to_byte, is_boundary, is_whitespace, lemma_char_index, lemma_index_of_offset, lemma_offset_bound, lemma_offset_full, lemma_offset_le, lemma_offset_step, lemma_offset_zero, lowercase_str, slice_vec, splice, splice_vec, str_to_lowercase, string_of, unicode_whitespace, utf8_len, utf8_width};
use crate::vim::{newline_count, newline_count_exec, PendingView, VimMode, VimPendingState};

verus! {

broadcast use vstd::std_specs::hash::group_hash_axioms;

// ---------------------------------------------------------------------------
// Types
// ---------------------------------------------------------------------------

/// Input mode.
#[derive(Debug, Clone, Copy, PartialEq, Eq, Structural, Default)]
pub enum InputMode {
    #[default]
    Default,
    Plan,
    Readonly,
}

/// Typeahead source.
#[derive(Debug, Clone, Copy, PartialEq, Eq, Structural)]
pub enum TypeaheadSource {
    SlashCommand,
    FileRef,
    History,
}

/// A single typeahead suggestion.
#[derive(Debug, Clone)]
pub struct TypeaheadSuggestion {
    pub text: String,
    pub description: String,
    pub source: TypeaheadSource,
}

/// A suggestion with its strings as character sequences.
pub ghost struct SuggestionView {
    pub text: Seq<char>,
    pub description: Seq<char>,
    pub source: TypeaheadSource,
}

impl View for TypeaheadSuggestion {
    type V = SuggestionView;

    open spec fn view(&self) -> SuggestionView {
        SuggestionView { text: self.text@, description: self.description@, source: self.source }
    }
}

/// Stores enough information to replay the last modifying vim command (`.`).
#[derive(Clone, Debug)]
pub enum DotRepeatAction {
    /// Insert text at current cursor (from i, a, A, o, O, s).
    Insert { text: String, mode_after_insert: bool },
    /// Re-delete the same number of chars.
    DeleteChars { count: usize },
    /// Change: delete + insert.
    Change { deleted: String, inserted: String },
    /// Replace char.
    ReplaceChar { ch: char },
}

/// A dot-repeat action with its strings as character sequences.
pub ghost enum DotView {
    Insert(Seq<char>, bool),
    DeleteChars(usize),
    Change(Seq<char>, Seq<char>),
    ReplaceChar(char),
}

impl View for DotRepeatAction {
    type V = DotView;

    open spec fn view(&self) -> DotView {
        match self {
            DotRepeatAction::Insert { text, mode_after_insert } => DotView::Insert(
                text@,
                *mode_after_insert,
            ),
            DotRepeatAction::DeleteChars { count } => DotView::DeleteChars(*count),
            DotRepeatAction::Change { deleted, inserted } => DotView::Change(deleted@, inserted@),
            DotRepeatAction::ReplaceChar { ch } => DotView::ReplaceChar(*ch),
        }
    }
}

/// An image attachment waiting to be sent: its label and, when known, its
/// width and height in pixels.
#[derive(Debug, Clone)]
pub struct PastedImage {
    pub label: String,
    pub dimensions: Option<(u32, u32)>,
}

/// Full state for the prompt input widget.
#[derive(Debug)]
pub struct PromptInputState {
    /// Current text content.
    pub text: String,
    /// Cursor position (byte offset into `text`).
    pub cursor: usize,
    /// Current vim mode.
    pub vim_mode: VimMode,
    /// Whether vim mode is enabled.
    pub vim_enabled: bool,
    /// Input mode (default / plan / readonly).
    pub mode: InputMode,
    /// Typeahead suggestions.
    pub suggestions: Vec<TypeaheadSuggestion>,
    /// Currently selected suggestion index.
    pub suggestion_index: Option<usize>,
    /// History entries for up/down navigation.
    pub history: Vec<String>,
    /// Current history position (`None` = not browsing history).
    pub history_pos: Option<usize>,
    /// Saved draft while browsing history.
    pub history_draft: String,
    /// Paste counter for placeholder numbering.
    pub paste_counter: u32,
    /// Stored paste contents: counter to content.
    pub paste_contents: HashMap<u32, String>,
    /// Yank buffer for vim operations.
    pub yank_buf: String,
    /// Estimated token count for current text.
    pub token_estimate: usize,
    /// Pending multi-key vim command state (persists across keystrokes).
    pub vim_pending: VimPendingState,
    /// Undo stack: (text, cursor) snapshots before modifications.
    pub undo_stack: Vec<(String, usize)>,
    /// Visual mode selection anchor (byte offset).
    pub visual_anchor: Option<usize>,
    /// Last f/F/t/T find for `;`/`,` repeat.
    pub last_find: Option<(VimFindKind, char)>,
    /// Named registers: register name to text.
    pub vim_registers: CharMap<String>,
    /// Macro recording state: `Some(register)` while recording.
    pub vim_macro_recording: Option<char>,
    /// Recorded macro content (key descriptions per register).
    pub vim_macro_content: CharMap<Vec<String>>,
    /// Named marks: mark name to (text, cursor) snapshot.
    pub vim_marks: CharMap<(String, usize)>,
    /// The last modifying command for dot-repeat.
    pub vim_dot_action: Option<DotRepeatAction>,
    /// The text when insert mode was last entered from normal mode.
    pub vim_insert_text_before: Option<String>,
    /// Command-line buffer for `:` command mode.
    pub vim_command_buf: String,
    /// In-prompt search buffer for `/` search mode.
    pub vim_search_buf: String,
    /// Last executed search pattern for `n`/`N` navigation.
    pub vim_search_last: Option<String>,
    /// Set by `:q`/`:wq`; the app loop checks and honours it.
    pub vim_quit_requested: bool,
    /// Pending image attachments to be sent with the next message.
    pub pending_images: Vec<PastedImage>,
}

/// The prompt state with its strings as character sequences.
pub ghost struct PromptView {
    pub text: Seq<char>,
    pub cursor: usize,
    pub vim_mode: VimMode,
    pub vim_enabled: bool,
    pub mode: InputMode,
    pub suggestions: Seq<SuggestionView>,
    pub suggestion_index: Option<usize>,
    pub history: Seq<Seq<char>>,
    pub history_pos: Option<usize>,
    pub history_draft: Seq<char>,
    pub paste_counter: u32,
    pub paste_contents: Map<u32, Seq<char>>,
    pub yank_buf: Seq<char>,
    pub token_estimate: usize,
    pub vim_pending: PendingView,
    pub undo_stack: Seq<(Seq<char>, usize)>,
    pub visual_anchor: Option<usize>,
    pub last_find: Option<(VimFindKind, char)>,
    pub vim_registers: Map<char, Seq<char>>,
    pub vim_macro_recording: Option<char>,
    pub vim_macro_content: Map<char, Seq<Seq<char>>>,
    pub vim_marks: Map<char, (Seq<char>, usize)>,
    pub vim_dot_action: Option<DotView>,
    pub vim_insert_text_before: Option<Seq<char>>,
    pub vim_command_buf: Seq<char>,
    pub vim_search_buf: Seq<char>,
    pub vim_search_last: Option<Seq<char>>,
    pub vim_quit_requested: bool,
    pub pending_images: Seq<PastedImage>,
}

pub open spec fn string_views(v: Seq<String>) -> Seq<Seq<char>> {
    v.map_values(|s: String| s@)
}

pub open spec fn opt_view(o: Option<String>) -> Option<Seq<char>> {
    match o {
        Some(s) => Some(s@),
        None => None,
    }
}

impl View for PromptInputState {
    type V = PromptView;

    open spec fn view(&self) -> PromptView {
        PromptView {
            text: self.text@,
            cursor: self.cursor,
            vim_mode: self.vim_mode,
            vim_enabled: self.vim_enabled,
            mode: self.mode,
            suggestions: self.suggestions@.map_values(|s: TypeaheadSuggestion| s@),
            suggestion_index: self.suggestion_index,
            history: string_views(self.history@),
            history_pos: self.history_pos,
            history_draft: self.history_draft@,
            paste_counter: self.paste_counter,
            paste_contents: self.paste_contents@.map_values(|s: String| s@),
            yank_buf: self.yank_buf@,
            token_estimate: self.token_estimate,
            vim_pending: self.vim_pending@,
            undo_stack: self.undo_stack@.map_values(|e: (String, usize)| (e.0@, e.1)),
            visual_anchor: self.visual_anchor,
            last_find: self.last_find,
            vim_registers: self.vim_registers.map(),
            vim_macro_recording: self.vim_macro_recording,
            vim_macro_content: self.vim_macro_content.map(),
            vim_marks: self.vim_marks.map(),
            vim_dot_action: match self.vim_dot_action {
                Some(a) => Some(a@),
                None => None,
            },
            vim_insert_text_before: opt_view(self.vim_insert_text_before),
            vim_command_buf: self.vim_command_buf@,
            vim_search_buf: self.vim_search_buf@,
            vim_search_last: opt_view(self.vim_search_last),
            vim_quit_requested: self.vim_quit_requested,
            pending_images: self.pending_images@,
        }
    }
}

// ---------------------------------------------------------------------------
// Specifications shared by the methods
// ---------------------------------------------------------------------------

/// Rough token estimate of a text: its UTF-8 length divided by four, rounded up.
pub open spec fn tokens(s: Seq<char>) -> usize {
    ((utf8_len(s) + 3) / 4) as usize
}

/// The fresh state: empty text, insert mode, nothing recorded.
pub open spec fn initial_view() -> PromptView {
    PromptView {
        text: Seq::empty(),
        cursor: 0,
        vim_mode: VimMode::Insert,
        vim_enabled: false,
        mode: InputMode::Default,
        suggestions: Seq::empty(),
        suggestion_index: None,
        history: Seq::empty(),
        history_pos: None,
        history_draft: Seq::empty(),
        paste_counter: 0,
        paste_contents: Map::empty(),
        yank_buf: Seq::empty(),
        token_estimate: 0,
        vim_pending: PendingView::Idle,
        undo_stack: Seq::empty(),
        visual_anchor: None,
        last_find: None,
        vim_registers: Map::empty(),
        vim_macro_recording: None,
        vim_macro_content: Map::empty(),
        vim_marks: Map::empty(),
        vim_dot_action: None,
        vim_insert_text_before: None,
        vim_command_buf: Seq::empty(),
        vim_search_buf: Seq::empty(),
        vim_search_last: None,
        vim_quit_requested: false,
        pending_images: Seq::empty(),
    }
}

/// Index of the last character boundary of `s` that is not after byte `b`.
pub open spec fn floor_index(s: Seq<char>, b: int) -> nat
    decreases s.len(),
{
    if s.len() == 0 || utf8_len(s) <= b {
        s.len()
    } else {
        floor_index(s.drop_last(), b)
    }
}

/// The last character boundary of `s` that is not after byte `b`.
pub open spec fn floor_boundary(s: Seq<char>, b: int) -> nat {
    byte_offset(s, floor_index(s, b) as int)
}

/// The view with its token estimate recomputed.
pub open spec fn with_tokens(v: PromptView) -> PromptView {
    PromptView { token_estimate: tokens(v.text), ..v }
}

/// `normalize`: the cursor moved back to a character boundary within the
/// text, and the token estimate recomputed.
pub open spec fn normalized(v: PromptView) -> PromptView {
    PromptView { cursor: floor_boundary(v.text, v.cursor as int) as usize, token_estimate: tokens(v.text), ..v }
}

/// `floor_index` is the index whose offset is at most `b` while the next one's is not.
pub proof fn lemma_floor_index(s: Seq<char>, b: int, k: int)
    requires
        0 <= k <= s.len(),
        byte_offset(s, k) <= b,
        k == s.len() || byte_offset(s, k + 1) > b,
    ensures
        floor_index(s, b) == k,
    decreases s.len(),
{
    lemma_offset_full(s);
    if k == s.len() {
    } else {
        lemma_offset_le(s, k + 1, s.len() as int);
        let t = s.drop_last();
        assert(t.take(k) =~= s.take(k));
        if k + 1 <= t.len() {
            assert(t.take(k + 1) =~= s.take(k + 1));
        }
        lemma_floor_index(t, b, k);
    }
}

pub proof fn lemma_floor_range(s: Seq<char>, b: int)
    ensures
        floor_index(s, b) <= s.len(),
    decreases s.len(),
{
    if s.len() > 0 && utf8_len(s) > b {
        lemma_floor_range(s.drop_last(), b);
    }
}

/// A boundary is its own floor.
pub proof fn lemma_floor_of_boundary(s: Seq<char>, b: int)
    requires
        is_boundary(s, b),
    ensures
        floor_boundary(s, b) == b,
        floor_index(s, b) == char_index(s, b),
{
    lemma_char_index(s, b);
    let k = char_index(s, b);
    lemma_offset_bound(s, k);
    if k < s.len() {
        lemma_offset_step(s, k);
        crate::text::lemma_width_pos(s[k]);
    }
    lemma_floor_index(s, b, k);
}

/// The floor is a boundary, not after `b`, not after the end.
pub proof fn lemma_floor_props(s: Seq<char>, b: int)
    ensures
        is_boundary(s, floor_boundary(s, b) as int),
        floor_boundary(s, b) <= utf8_len(s),
        b >= 0 ==> floor_boundary(s, b) <= b,
        char_index(s, floor_boundary(s, b) as int) == floor_index(s, b),
    decreases s.len(),
{
    lemma_floor_range(s, b);
    let k = floor_index(s, b) as int;
    lemma_offset_bound(s, k);
    lemma_index_of_offset(s, k);
    if s.len() > 0 && utf8_len(s) > b {
        let t = s.drop_last();
        lemma_floor_props(t, b);
        lemma_floor_range(t, b);
        assert(t.take(k) =~= s.take(k));
    } else {
        lemma_offset_full(s);
        if s.len() == 0 {
            lemma_offset_zero(s);
        }
    }
}

/// The last boundary not after `b`.
pub fn floor_boundary_exec(cs: &Vec<char>, b: usize) -> (r: usize)
    requires
        utf8_len(cs@) <= usize::MAX,
    ensures
        r == floor_boundary(cs@, b as int),
{
    let mut k: usize = 0;
    let mut off: usize = 0;
    proof {
        lemma_offset_zero(cs@);
    }
    while k < cs.len() && char_width(cs[k]) <= b - off
        invariant
            k <= cs.len(),
            off == byte_offset(cs@, k as int),
            off <= b,
            utf8_len(cs@) <= usize::MAX,
        decreases cs.len() - k,
    {
        proof {
            lemma_offset_step(cs@, k as int);
        }
        off = off + char_width(cs[k]);
        k = k + 1;
    }
    proof {
        if k < cs.len() {
            lemma_offset_step(cs@, k as int);
        }
        lemma_floor_index(cs@, b as int, k as int);
    }
    off
}

/// Token estimate of a text.
fn token_count(cs: &Vec<char>) -> (n: usize)
    requires
        utf8_len(cs@) <= isize::MAX,
    ensures
        n == tokens(cs@),
{
    let len = byte_len(cs);
    (len + 3) / 4
}

impl PromptInputState {
    /// A fresh prompt: empty, in insert mode, vim disabled.
    pub fn new() -> (r: Self)
        ensures
            r@ == initial_view(),
    {
        let r = PromptInputState {
            text: String::new(),
            cursor: 0,
            vim_mode: VimMode::Insert,
            vim_enabled: false,
            mode: InputMode::Default,
            suggestions: Vec::new(),
            suggestion_index: None,
            history: Vec::new(),
            history_pos: None,
            history_draft: String::new(),
            paste_counter: 0,
            paste_contents: HashMap::new(),
            yank_buf: String::new(),
            token_estimate: 0,
            vim_pending: VimPendingState::Idle,
            undo_stack: Vec::new(),
            visual_anchor: None,
            last_find: None,
            vim_registers: CharMap::new(),
            vim_macro_recording: None,
            vim_macro_content: CharMap::new(),
            vim_marks: CharMap::new(),
            vim_dot_action: None,
            vim_insert_text_before: None,
            vim_command_buf: String::new(),
            vim_search_buf: String::new(),
            vim_search_last: None,
            vim_quit_requested: false,
            pending_images: Vec::new(),
        };
        proof {
            assert(r@.suggestions =~= Seq::<SuggestionView>::empty());
            assert(r@.history =~= Seq::<Seq<char>>::empty());
            assert(r@.paste_contents =~= Map::<u32, Seq<char>>::empty());
            assert(r@.undo_stack =~= Seq::<(Seq<char>, usize)>::empty());
        }
        r
    }

    /// Recompute the token estimate from the text.
    fn update_token_estimate(&mut self)
        ensures
            final(self)@ == with_tokens(old(self)@),
    {
        let cs = chars_of(self.text.as_str());
        self.token_estimate = token_count(&cs);
    }

    /// Normalize cursor and metadata after external field updates: the cursor
    /// moves back to the last character boundary within the text.
    pub fn normalize(&mut self)
        ensures
            final(self)@ == normalized(old(self)@),
    {
        let cs = chars_of(self.text.as_str());
        self.cursor = floor_boundary_exec(&cs, self.cursor);
        self.token_estimate = token_count(&cs);
    }

    /// Insert a character at the cursor (nothing in readonly mode).
    pub fn insert_char(&mut self, c: char)
        requires
            old(self).mode != InputMode::Readonly ==> is_boundary(old(self).text@, old(self).cursor as int),
        ensures
            final(self)@ == insert_char_spec(old(self)@, c),
    {
        if self.mode == InputMode::Readonly {
            return;
        }
        let cs = chars_of(self.text.as_str());
        let i = byte_to_index(&cs, self.cursor);
        proof {
            lemma_char_index(cs@, self.cursor as int);
            lemma_offset_bound(cs@, i as int);
        }
        let one = vec![c];
        let ncs = splice_vec(&cs, i, &one);
        self.text = string_of(&ncs);
        self.cursor = self.cursor + char_width(c);
        assert(one@ == seq![c]);
        assert(self.text@ == splice(old(self).text@, char_index(old(self).text@, old(self).cursor as int), seq![c]));
        self.update_token_estimate();
    }

    /// Insert a newline (Shift+Enter).
    pub fn insert_newline(&mut self)
        requires
            old(self).mode != InputMode::Readonly ==> is_boundary(old(self).text@, old(self).cursor as int),
        ensures
            final(self)@ == insert_char_spec(old(self)@, '\n'),
    {
        if self.mode == InputMode::Readonly {
            return;
        }
        self.insert_char('\n');
    }
}

/// `insert_char`: the character spliced in at the cursor, which moves past it.
pub open spec fn insert_char_spec(v: PromptView, c: char) -> PromptView {
    if v.mode == InputMode::Readonly {
        v
    } else {
        let t = splice(v.text, char_index(v.text, v.cursor as int), seq![c]);
        PromptView { text: t, cursor: (v.cursor + utf8_width(c)) as usize, token_estimate: tokens(t), ..v }
    }
}


// ---------------------------------------------------------------------------
// Editing, cursor movement and history
// ---------------------------------------------------------------------------

/// `backspace`: the character before the cursor removed, the cursor on its start.
pub open spec fn backspace_spec(v: PromptView) -> PromptView {
    if v.cursor == 0 || v.mode == InputMode::Readonly {
        v
    } else {
        let i = char_index(v.text, v.cursor as int);
        let t = cut(v.text, i - 1, i);
        PromptView { text: t, cursor: byte_offset(v.text, i - 1) as usize, token_estimate: tokens(t), ..v }
    }
}

/// `delete`: the character at the cursor removed.
pub open spec fn delete_spec(v: PromptView) -> PromptView {
    if v.cursor >= utf8_len(v.text) || v.mode == InputMode::Readonly {
        v
    } else {
        let i = char_index(v.text, v.cursor as int);
        let t = cut(v.text, i, i + 1);
        PromptView { text: t, token_estimate: tokens(t), ..v }
    }
}

/// `move_left`: the cursor on the start of the previous character.
pub open spec fn move_left_spec(v: PromptView) -> PromptView {
    if v.cursor > 0 {
        PromptView {
            cursor: byte_offset(v.text, char_index(v.text, v.cursor as int) - 1) as usize,
            ..v
        }
    } else {
        v
    }
}

/// `move_right`: the cursor past the character it was on.
pub open spec fn move_right_spec(v: PromptView) -> PromptView {
    if v.cursor < utf8_len(v.text) {
        PromptView {
            cursor: byte_offset(v.text, char_index(v.text, v.cursor as int) + 1) as usize,
            ..v
        }
    } else {
        v
    }
}

/// The text replaced by `t`, with the cursor at its end.
pub open spec fn show_text(v: PromptView, t: Seq<char>) -> PromptView {
    PromptView { text: t, cursor: utf8_len(t) as usize, token_estimate: tokens(t), ..v }
}

/// `history_up`: step to the previous (older) history entry; on the first
/// step the current text is kept as the draft and the newest entry shown.
pub open spec fn history_up_spec(v: PromptView) -> PromptView {
    if v.history.len() == 0 {
        v
    } else {
        let w = match v.history_pos {
            None => PromptView {
                history_draft: v.text,
                history_pos: Some((v.history.len() - 1) as usize),
                ..v
            },
            Some(n) => if n == 0 {
                v
            } else {
                PromptView { history_pos: Some((n - 1) as usize), ..v }
            },
        };
        show_text(w, w.history[w.history_pos.unwrap() as int])
    }
}

/// `history_down`: step to the next (newer) entry, or back to the draft
/// after the newest one.
pub open spec fn history_down_spec(v: PromptView) -> PromptView {
    match v.history_pos {
        None => v,
        Some(n) => if n + 1 >= v.history.len() {
            show_text(PromptView { history_pos: None, ..v }, v.history_draft)
        } else {
            show_text(PromptView { history_pos: Some((n + 1) as usize), ..v }, v.history[n + 1])
        },
    }
}

/// The history positions on which the history methods index within bounds.
pub open spec fn history_ok(v: PromptView) -> bool {
    match v.history_pos {
        Some(n) => n < usize::MAX && (n > 0 && v.history.len() > 0 ==> n - 1 < v.history.len()),
        None => true,
    }
}

// ---------------------------------------------------------------------------
// Paste handling
// ---------------------------------------------------------------------------

/// Pastes longer than this many bytes are replaced by a placeholder.
pub const PASTE_INLINE_LIMIT: usize = 1024;

/// Number of lines `str::lines` yields: one per `'\n'`, plus a last line
/// without a terminator when the text does not end with `'\n'`.
pub open spec fn line_count(s: Seq<char>) -> nat {
    newline_count(s) + if s.len() > 0 && s.last() != '\n' {
        1nat
    } else {
        0nat
    }
}

/// The placeholder for paste number `n` of `lines` lines.
pub open spec fn paste_placeholder(n: nat, lines: nat) -> Seq<char> {
    if lines > 1 {
        "[Pasted text #"@ + decimal(n) + " (+"@ + decimal(lines) + " lines)]"@
    } else {
        "[Pasted text #"@ + decimal(n) + "]"@
    }
}

/// What `handle_paste` inserts, what it stores, and the new counter.
pub open spec fn paste_outcome(content: Seq<char>, counter: u32) -> (Seq<char>, Option<Seq<char>>, u32) {
    if utf8_len(content) <= PASTE_INLINE_LIMIT {
        (content, None, counter)
    } else {
        let n = (counter + 1) as u32;
        (paste_placeholder(n as nat, line_count(content)), Some(content), n)
    }
}

pub proof fn lemma_newline_count_le(s: Seq<char>)
    ensures
        newline_count(s) <= s.len(),
    decreases s.len(),
{
    if s.len() > 0 {
        lemma_newline_count_le(s.drop_last());
    }
}

/// Number of lines of `cs`, as `str::lines().count()`.
fn line_count_exec(cs: &Vec<char>) -> (r: usize)
    ensures
        r == line_count(cs@),
{
    let n = newline_count_exec(cs, cs.len());
    proof {
        assert(cs@.take(cs.len() as int) =~= cs@);
        lemma_newline_count_le(cs@);
        if cs.len() > 0 {
            lemma_newline_count_le(cs@.drop_last());
        }
    }
    if cs.len() > 0 && cs[cs.len() - 1] != '\n' {
        n + 1
    } else {
        n
    }
}

/// Handle a paste event. If the content is longer than 1024 bytes, returns a
/// placeholder `[Pasted text #N (+X lines)]` (or `[Pasted text #N]` for a
/// single line) and the original content for storage, and counts the paste.
pub fn handle_paste(content: &str, paste_counter: &mut u32) -> (r: (String, Option<String>))
    requires
        utf8_len(content@) > PASTE_INLINE_LIMIT ==> *old(paste_counter) < u32::MAX,
    ensures
        ({
            let o = paste_outcome(content@, *old(paste_counter));
            &&& r.0@ == o.0
            &&& opt_view(r.1) == o.1
            &&& *final(paste_counter) == o.2
        }),
{
    let cs = chars_of(content);
    let len = byte_len(&cs);
    if len <= PASTE_INLINE_LIMIT {
        return (string_of(&cs), None);
    }
    *paste_counter = *paste_counter + 1;
    let lines = line_count_exec(&cs);
    let head = chars_of("[Pasted text #");
    let num = decimal_exec(*paste_counter as usize);
    let mut p = concat_vec(&head, &num);
    if lines > 1 {
        let mid = chars_of(" (+");
        let ln = decimal_exec(lines);
        let tail = chars_of(" lines)]");
        p = concat_vec(&p, &mid);
        p = concat_vec(&p, &ln);
        p = concat_vec(&p, &tail);
    } else {
        let tail = chars_of("]");
        p = concat_vec(&p, &tail);
    }
    (string_of(&p), Some(string_of(&cs)))
}

/// `paste`: the outcome of `handle_paste` inserted at the cursor, which moves
/// past it; a long paste is stored under its number.
pub open spec fn paste_spec(v: PromptView, content: Seq<char>) -> PromptView {
    let o = paste_outcome(content, v.paste_counter);
    let w = PromptView {
        paste_counter: o.2,
        paste_contents: match o.1 {
            Some(c) => v.paste_contents.insert(o.2, c),
            None => v.paste_contents,
        },
        ..v
    };
    if o.0.len() == 0 {
        with_tokens(w)
    } else {
        let t = splice(v.text, char_index(v.text, v.cursor as int), o.0);
        PromptView {
            text: t,
            cursor: (v.cursor + utf8_len(o.0)) as usize,
            token_estimate: tokens(t),
            ..w
        }
    }
}

// ---------------------------------------------------------------------------
// Typeahead
// ---------------------------------------------------------------------------

/// `a` starts with `p`.
pub open spec fn starts_with(a: Seq<char>, p: Seq<char>) -> bool {
    p.len() <= a.len() && a.take(p.len() as int) == p
}

/// The command table as character sequences.
pub open spec fn command_views(cmds: Seq<(&str, &str)>) -> Seq<(Seq<char>, Seq<char>)> {
    cmds.map_values(|p: (&str, &str)| (p.0@, p.1@))
}

/// Suggestions for `input`: when it starts with `/`, each command (in table
/// order) whose lowercased name starts with the lowercased rest of the input.
pub open spec fn typeahead(input: Seq<char>, cmds: Seq<(Seq<char>, Seq<char>)>) -> Seq<SuggestionView>
    decreases cmds.len(),
{
    if input.len() == 0 || input[0] != '/' || cmds.len() == 0 {
        Seq::empty()
    } else {
        let rest = typeahead(input, cmds.drop_last());
        let (name, desc) = cmds.last();
        if starts_with(lowercase_str(name), lowercase_str(input.drop_first())) {
            rest.push(
                SuggestionView {
                    text: seq!['/'] + name,
                    description: desc,
                    source: TypeaheadSource::SlashCommand,
                },
            )
        } else {
            rest
        }
    }
}

pub fn starts_with_exec(a: &Vec<char>, p: &Vec<char>) -> (r: bool)
    ensures
        r == starts_with(a@, p@),
{
    if p.len() > a.len() {
        return false;
    }
    let mut i: usize = 0;
    while i < p.len()
        invariant
            i <= p.len() <= a.len(),
            forall|j: int| 0 <= j < i ==> a@[j] == p@[j],
        decreases p.len() - i,
    {
        if a[i] != p[i] {
            assert(a@.take(p.len() as int)[i as int] != p@[i as int]);
            return false;
        }
        i = i + 1;
    }
    assert(a@.take(p.len() as int) =~= p@);
    true
}

/// Compute typeahead suggestions for the current input.
pub fn compute_typeahead(input: &str, slash_commands: &[(&str, &str)]) -> (r: Vec<TypeaheadSuggestion>)
    ensures
        r@.map_values(|s: TypeaheadSuggestion| s@) == typeahead(input@, command_views(slash_commands@)),
{
    let ghost cmds = command_views(slash_commands@);
    let mut suggestions: Vec<TypeaheadSuggestion> = Vec::new();
    let ics = chars_of(input);
    if ics.len() == 0 || ics[0] != '/' {
        proof {
            if cmds.len() > 0 {
                assert(typeahead(input@, cmds) =~= Seq::<SuggestionView>::empty());
            }
        }
        assert(suggestions@.map_values(|s: TypeaheadSuggestion| s@) =~= typeahead(input@, cmds));
        return suggestions;
    }
    let rest = slice_vec(&ics, 1, ics.len());
    assert(rest@ == input@.drop_first());
    let prefix_lower = chars_of(str_to_lowercase(string_of(&rest).as_str()).as_str());
    let mut k: usize = 0;
    while k < slash_commands.len()
        invariant
            k <= slash_commands@.len(),
            cmds == command_views(slash_commands@),
            input@.len() > 0 && input@[0] == '/',
            prefix_lower@ == lowercase_str(input@.drop_first()),
            suggestions@.map_values(|s: TypeaheadSuggestion| s@) == typeahead(input@, cmds.take(k as int)),
        decreases slash_commands.len() - k,
    {
        let (name, desc) = slash_commands[k];
        let lname = chars_of(str_to_lowercase(name).as_str());
        let ghost before = suggestions@;
        proof {
            assert(cmds.take(k as int + 1).drop_last() =~= cmds.take(k as int));
            assert(cmds.take(k as int + 1).last() == (name@, desc@));
        }
        if starts_with_exec(&lname, &prefix_lower) {
            let slash = vec!['/'];
            let full = concat_vec(&slash, &chars_of(name));
            let s = TypeaheadSuggestion {
                text: string_of(&full),
                description: string_of(&chars_of(desc)),
                source: TypeaheadSource::SlashCommand,
            };
            suggestions.push(s);
            proof {
                assert(slash@ == seq!['/']);
                assert(suggestions@.map_values(|s: TypeaheadSuggestion| s@) =~= before.map_values(
                    |s: TypeaheadSuggestion| s@,
                ).push(s@));
            }
        }
        k = k + 1;
    }
    assert(cmds.take(slash_commands@.len() as int) =~= cmds);
    suggestions
}

// ---------------------------------------------------------------------------
// Suggestions, clearing, replacing
// ---------------------------------------------------------------------------

/// `clear`: empty text, cursor at 0, nothing pending or selected.
pub open spec fn clear_spec(v: PromptView) -> PromptView {
    PromptView {
        text: Seq::empty(),
        cursor: 0,
        suggestions: Seq::empty(),
        suggestion_index: None,
        history_pos: None,
        token_estimate: 0,
        vim_pending: PendingView::Idle,
        visual_anchor: None,
        vim_command_buf: Seq::empty(),
        vim_search_buf: Seq::empty(),
        ..v
    }
}

/// `update_suggestions`: the typeahead of the text, the selection kept
/// within range (first entry when nothing was selected).
pub open spec fn update_suggestions_spec(v: PromptView, cmds: Seq<(Seq<char>, Seq<char>)>) -> PromptView {
    let s = typeahead(v.text, cmds);
    PromptView {
        suggestions: s,
        suggestion_index: if s.len() == 0 {
            None
        } else if v.text.len() > 0 && v.text[0] == '/' {
            let i = match v.suggestion_index {
                Some(i) => i,
                None => 0,
            };
            Some(if i <= s.len() - 1 { i } else { (s.len() - 1) as usize })
        } else {
            None
        },
        ..v
    }
}

/// `suggestion_next`: the next suggestion, wrapping to the first.
pub open spec fn suggestion_next_spec(v: PromptView) -> PromptView {
    if v.suggestions.len() == 0 {
        v
    } else {
        PromptView {
            suggestion_index: Some(
                match v.suggestion_index {
                    None => 0,
                    Some(i) => ((i + 1) % (v.suggestions.len() as int)) as usize,
                },
            ),
            ..v
        }
    }
}

/// `suggestion_prev`: the previous suggestion, wrapping to the last.
pub open spec fn suggestion_prev_spec(v: PromptView) -> PromptView {
    if v.suggestions.len() == 0 {
        v
    } else {
        PromptView {
            suggestion_index: Some(
                match v.suggestion_index {
                    None => 0,
                    Some(i) => if i == 0 {
                        (v.suggestions.len() - 1) as usize
                    } else {
                        (i - 1) as usize
                    },
                },
            ),
            ..v
        }
    }
}

/// `accept_suggestion`: the selected suggestion becomes the text.
pub open spec fn accept_suggestion_spec(v: PromptView) -> PromptView {
    match v.suggestion_index {
        Some(i) => if i < v.suggestions.len() {
            PromptView {
                suggestions: Seq::empty(),
                suggestion_index: None,
                ..show_text(v, v.suggestions[i as int].text)
            }
        } else {
            v
        },
        None => v,
    }
}

/// `replace_text`: the new text with the cursor at its end, leaving history
/// browsing and the suggestion selection.
pub open spec fn replace_text_spec(v: PromptView, t: Seq<char>) -> PromptView {
    PromptView { history_pos: None, suggestion_index: None, ..show_text(v, t) }
}

/// The text is blank: every character is whitespace.
pub open spec fn blank(s: Seq<char>) -> bool {
    forall|i: int| 0 <= i < s.len() ==> unicode_whitespace(#[trigger] s[i])
}

// ---------------------------------------------------------------------------
// Undo, registers, marks, macros
// ---------------------------------------------------------------------------

/// At most this many undo snapshots are kept; the oldest is dropped first.
pub const UNDO_LIMIT: usize = 100;

/// A snapshot pushed on the undo stack, the oldest dropped beyond the limit.
pub open spec fn push_snapshot(u: Seq<(Seq<char>, usize)>, t: Seq<char>, c: usize) -> Seq<(Seq<char>, usize)> {
    let w = u.push((t, c));
    if w.len() > UNDO_LIMIT {
        w.drop_first()
    } else {
        w
    }
}

/// `push_undo`: the current text and cursor pushed on the undo stack.
pub open spec fn push_undo_spec(v: PromptView) -> PromptView {
    PromptView { undo_stack: push_snapshot(v.undo_stack, v.text, v.cursor), ..v }
}

/// `jump_to_mark`: the cursor at the mark's position, clamped to the text and
/// moved back to a character boundary; nothing when the mark is unset.
pub open spec fn jump_to_mark_spec(v: PromptView, name: char) -> PromptView {
    if v.vim_marks.contains_key(name) {
        PromptView { cursor: floor_boundary(v.text, v.vim_marks[name].1 as int) as usize, ..v }
    } else {
        v
    }
}


/// The characters of the `i`-th string of `v`.
fn nth_chars(v: &Vec<String>, i: usize) -> (r: Vec<char>)
    requires
        i < v.len(),
    ensures
        r@ == string_views(v@)[i as int],
        utf8_len(r@) <= isize::MAX,
{
    chars_of(v[i].as_str())
}

impl PromptInputState {
    /// Show `cs` as the text, cursor at its end.
    fn show(&mut self, cs: &Vec<char>)
        requires
            utf8_len(cs@) <= isize::MAX,
        ensures
            final(self)@ == show_text(old(self)@, cs@),
    {
        self.text = string_of(cs);
        self.cursor = byte_len(cs);
        self.token_estimate = token_count(cs);
    }

    /// Delete the character before the cursor.
    pub fn backspace(&mut self)
        requires
            old(self).cursor != 0 && old(self).mode != InputMode::Readonly ==> is_boundary(
                old(self).text@,
                old(self).cursor as int,
            ),
        ensures
            final(self)@ == backspace_spec(old(self)@),
    {
        if self.cursor == 0 || self.mode == InputMode::Readonly {
            return;
        }
        let cs = chars_of(self.text.as_str());
        let i = byte_to_index(&cs, self.cursor);
        proof {
            lemma_char_index(cs@, self.cursor as int);
            if i == 0 {
                lemma_offset_zero(cs@);
            }
        }
        let prev = index_to_byte(&cs, i - 1);
        let ncs = cut_vec(&cs, i - 1, i);
        self.text = string_of(&ncs);
        self.cursor = prev;
        self.update_token_estimate();
    }

    /// Delete the character at the cursor.
    pub fn delete(&mut self)
        requires
            old(self).cursor < utf8_len(old(self).text@) && old(self).mode != InputMode::Readonly
                ==> is_boundary(old(self).text@, old(self).cursor as int),
        ensures
            final(self)@ == delete_spec(old(self)@),
    {
        let cs = chars_of(self.text.as_str());
        if self.cursor >= byte_len(&cs) || self.mode == InputMode::Readonly {
            return;
        }
        let i = byte_to_index(&cs, self.cursor);
        proof {
            lemma_char_index(cs@, self.cursor as int);
            lemma_offset_full(cs@);
            if i == cs.len() {
                assert(false);
            }
        }
        let ncs = cut_vec(&cs, i, i + 1);
        self.text = string_of(&ncs);
        self.update_token_estimate();
    }

    /// Move the cursor left by one character.
    pub fn move_left(&mut self)
        requires
            old(self).cursor > 0 ==> is_boundary(old(self).text@, old(self).cursor as int),
        ensures
            final(self)@ == move_left_spec(old(self)@),
    {
        if self.cursor > 0 {
            let cs = chars_of(self.text.as_str());
            let i = byte_to_index(&cs, self.cursor);
            proof {
                lemma_char_index(cs@, self.cursor as int);
                if i == 0 {
                    lemma_offset_zero(cs@);
                }
            }
            self.cursor = index_to_byte(&cs, i - 1);
        }
    }

    /// Move the cursor right by one character.
    pub fn move_right(&mut self)
        requires
            old(self).cursor < utf8_len(old(self).text@) ==> is_boundary(
                old(self).text@,
                old(self).cursor as int,
            ),
        ensures
            final(self)@ == move_right_spec(old(self)@),
    {
        let cs = chars_of(self.text.as_str());
        if self.cursor < byte_len(&cs) {
            let i = byte_to_index(&cs, self.cursor);
            proof {
                lemma_char_index(cs@, self.cursor as int);
                lemma_offset_full(cs@);
            }
            self.cursor = index_to_byte(&cs, i + 1);
        }
    }

    /// Navigate history up (older).
    pub fn history_up(&mut self)
        requires
            history_ok(old(self)@),
        ensures
            final(self)@ == history_up_spec(old(self)@),
    {
        if self.history.len() == 0 {
            return;
        }
        match self.history_pos {
            None => {
                self.history_draft = self.text.clone();
                self.history_pos = Some(self.history.len() - 1);
            },
            Some(n) => {
                if n != 0 {
                    self.history_pos = Some(n - 1);
                }
            },
        }
        let pos = match self.history_pos {
            Some(p) => p,
            None => 0,
        };
        let cs = nth_chars(&self.history, pos);
        self.show(&cs);
    }

    /// Navigate history down (newer).
    pub fn history_down(&mut self)
        requires
            history_ok(old(self)@),
        ensures
            final(self)@ == history_down_spec(old(self)@),
    {
        match self.history_pos {
            None => {},
            Some(n) => {
                if n + 1 >= self.history.len() {
                    self.history_pos = None;
                    let cs = chars_of(self.history_draft.as_str());
                    self.show(&cs);
                } else {
                    self.history_pos = Some(n + 1);
                    let cs = nth_chars(&self.history, n + 1);
                    self.show(&cs);
                }
            },
        }
    }

    /// Handle a paste event: insert the content, or for a long paste its
    /// placeholder, at the cursor.
    pub fn paste(&mut self, content: &str)
        requires
            utf8_len(content@) > PASTE_INLINE_LIMIT ==> old(self).paste_counter < u32::MAX,
            content@.len() > 0 ==> is_boundary(old(self).text@, old(self).cursor as int),
        ensures
            final(self)@ == paste_spec(old(self)@, content@),
    {
        let ghost v0 = self@;
        let (text, stored) = handle_paste(content, &mut self.paste_counter);
        match stored {
            Some(sc) => {
                let ghost m0 = self.paste_contents@;
                self.paste_contents.insert(self.paste_counter, sc);
                proof {
                    assert(self.paste_contents@.map_values(|s: String| s@) =~= m0.map_values(
                        |s: String| s@,
                    ).insert(self.paste_counter, content@));
                }
            },
            None => {},
        }
        let tcs = chars_of(text.as_str());
        proof {
            if text@.len() > 0 {
                assert(content@.len() > 0) by {
                    if content@.len() == 0 {
                        assert(utf8_len(content@) == 0);
                    }
                }
            }
        }
        if tcs.len() > 0 {
            let cs = chars_of(self.text.as_str());
            let i = byte_to_index(&cs, self.cursor);
            proof {
                lemma_char_index(cs@, self.cursor as int);
                lemma_offset_bound(cs@, i as int);
            }
            let ncs = splice_vec(&cs, i, &tcs);
            self.text = string_of(&ncs);
            self.cursor = self.cursor + byte_len(&tcs);
        }
        self.update_token_estimate();
    }

    /// Clear the input and reset state.
    pub fn clear(&mut self)
        ensures
            final(self)@ == clear_spec(old(self)@),
    {
        self.text = String::new();
        self.cursor = 0;
        self.suggestions = Vec::new();
        self.suggestion_index = None;
        self.history_pos = None;
        self.token_estimate = 0;
        self.vim_pending = VimPendingState::Idle;
        self.visual_anchor = None;
        self.vim_command_buf = String::new();
        self.vim_search_buf = String::new();
        proof {
            assert(self@.suggestions =~= Seq::<SuggestionView>::empty());
        }
    }

    /// Take the current text, clearing the input.
    pub fn take(&mut self) -> (r: String)
        ensures
            r@ == old(self)@.text,
            final(self)@ == clear_spec(old(self)@),
    {
        let text = self.text.clone();
        self.clear();
        text
    }

    /// Update typeahead suggestions for the current text.
    pub fn update_suggestions(&mut self, slash_commands: &[(&str, &str)])
        ensures
            final(self)@ == update_suggestions_spec(old(self)@, command_views(slash_commands@)),
    {
        self.suggestions = compute_typeahead(self.text.as_str(), slash_commands);
        if self.suggestions.len() == 0 {
            self.suggestion_index = None;
        } else {
            let cs = chars_of(self.text.as_str());
            if cs.len() > 0 && cs[0] == '/' {
                let i = match self.suggestion_index {
                    Some(i) => i,
                    None => 0,
                };
                let last = self.suggestions.len() - 1;
                self.suggestion_index = Some(if i <= last { i } else { last });
            } else {
                self.suggestion_index = None;
            }
        }
    }

    /// Select the next suggestion.
    pub fn suggestion_next(&mut self)
        requires
            old(self).suggestions.len() > 0 ==> old(self).suggestion_index != Some(usize::MAX),
        ensures
            final(self)@ == suggestion_next_spec(old(self)@),
    {
        if self.suggestions.len() == 0 {
            return;
        }
        self.suggestion_index = Some(
            match self.suggestion_index {
                None => 0,
                Some(i) => (i + 1) % self.suggestions.len(),
            },
        );
    }

    /// Select the previous suggestion.
    pub fn suggestion_prev(&mut self)
        ensures
            final(self)@ == suggestion_prev_spec(old(self)@),
    {
        if self.suggestions.len() == 0 {
            return;
        }
        self.suggestion_index = Some(
            match self.suggestion_index {
                None => 0,
                Some(i) => if i == 0 {
                    self.suggestions.len() - 1
                } else {
                    i - 1
                },
            },
        );
    }

    /// Accept the current suggestion.
    pub fn accept_suggestion(&mut self)
        ensures
            final(self)@ == accept_suggestion_spec(old(self)@),
    {
        match self.suggestion_index {
            Some(idx) => {
                if idx < self.suggestions.len() {
                    let cs = chars_of(self.suggestions[idx].text.as_str());
                    self.show(&cs);
                    self.suggestions = Vec::new();
                    self.suggestion_index = None;
                    proof {
                        assert(self@.suggestions =~= Seq::<SuggestionView>::empty());
                    }
                }
            },
            None => {},
        }
    }

    /// Replace the full text buffer and move the cursor to the end.
    pub fn replace_text(&mut self, text: String)
        ensures
            final(self)@ == replace_text_spec(old(self)@, text@),
    {
        let cs = chars_of(text.as_str());
        self.show(&cs);
        self.history_pos = None;
        self.suggestion_index = None;
    }

    /// Whether the text is empty or only whitespace.
    pub fn is_empty(&self) -> (r: bool)
        ensures
            r == blank(self@.text),
    {
        let cs = chars_of(self.text.as_str());
        let mut i: usize = 0;
        while i < cs.len()
            invariant
                i <= cs.len(),
                cs@ == self@.text,
                forall|j: int| 0 <= j < i ==> unicode_whitespace(#[trigger] cs@[j]),
            decreases cs.len() - i,
        {
            if !is_whitespace(cs[i]) {
                return false;
            }
            i = i + 1;
        }
        true
    }

    /// Push the current (text, cursor) to the undo stack.
    pub fn push_undo(&mut self)
        ensures
            final(self)@ == push_undo_spec(old(self)@),
    {
        let ghost u0 = self@.undo_stack;
        self.undo_stack.push((self.text.clone(), self.cursor));
        proof {
            assert(self@.undo_stack =~= u0.push((old(self)@.text, old(self)@.cursor)));
        }
        if self.undo_stack.len() > UNDO_LIMIT {
            let ghost u1 = self@.undo_stack;
            self.undo_stack.remove(0);
            proof {
                assert(self@.undo_stack =~= u1.drop_first());
            }
        }
    }

    /// Store `text` in the named register `register`.
    pub fn yank_to_register(&mut self, register: char, text: &str)
        ensures
            final(self)@ == (PromptView {
                vim_registers: old(self)@.vim_registers.insert(register, text@),
                ..old(self)@
            }),
    {
        self.vim_registers.insert(register, string_of(&chars_of(text)));
    }

    /// Retrieve text from the named register `register`, if any.
    pub fn paste_from_register(&mut self, register: char) -> (r: Option<String>)
        ensures
            final(self)@ == old(self)@,
            opt_view(r) == (if old(self)@.vim_registers.contains_key(register) {
                Some(old(self)@.vim_registers[register])
            } else {
                None
            }),
    {
        match self.vim_registers.get(&register) {
            Some(s) => Some(s.clone()),
            None => None,
        }
    }

    /// Set mark `name` at the current text and cursor.
    pub fn set_mark(&mut self, name: char)
        ensures
            final(self)@ == (PromptView {
                vim_marks: old(self)@.vim_marks.insert(name, (old(self)@.text, old(self)@.cursor)),
                ..old(self)@
            }),
    {
        let t = self.text.clone();
        self.vim_marks.insert(name, (t, self.cursor));
    }

    /// Move the cursor to the position recorded for mark `name`, clamped to
    /// the current text and moved back to a character boundary.
    pub fn jump_to_mark(&mut self, name: char)
        ensures
            final(self)@ == jump_to_mark_spec(old(self)@, name),
    {
        let saved = match self.vim_marks.get(&name) {
            Some(m) => Some(m.1),
            None => None,
        };
        match saved {
            Some(c) => {
                let cs = chars_of(self.text.as_str());
                self.cursor = floor_boundary_exec(&cs, c);
            },
            None => {},
        }
    }

    /// Begin recording a macro into register `register`, with no keys yet.
    pub fn start_macro_recording(&mut self, register: char)
        ensures
            final(self)@ == (PromptView {
                vim_macro_recording: Some(register),
                vim_macro_content: old(self)@.vim_macro_content.insert(register, Seq::empty()),
                ..old(self)@
            }),
    {
        self.vim_macro_recording = Some(register);
        let empty: Vec<String> = Vec::new();
        proof {
            assert(empty.deep_view() =~= Seq::<Seq<char>>::empty());
        }
        self.vim_macro_content.insert(register, empty);
    }

    /// Stop recording the current macro. Returns the register that was being recorded.
    pub fn stop_macro_recording(&mut self) -> (r: Option<char>)
        ensures
            r == old(self)@.vim_macro_recording,
            final(self)@ == (PromptView { vim_macro_recording: None, ..old(self)@ }),
    {
        let r = self.vim_macro_recording;
        self.vim_macro_recording = None;
        r
    }

    /// The recorded key sequence for `register`, or an empty list.
    pub fn replay_macro(&self, register: char) -> (r: Vec<String>)
        ensures
            r.deep_view() == (if self@.vim_macro_content.contains_key(register) {
                self@.vim_macro_content[register]
            } else {
                Seq::empty()
            }),
    {
        match self.vim_macro_content.get(&register) {
            Some(keys) => copy_strings(keys),
            None => {
                let r: Vec<String> = Vec::new();
                assert(r.deep_view() =~= Seq::<Seq<char>>::empty());
                r
            },
        }
    }

    /// Add an image attachment to the pending list.
    pub fn add_image(&mut self, img: PastedImage)
        ensures
            final(self)@ == (PromptView {
                pending_images: old(self)@.pending_images.push(img),
                ..old(self)@
            }),
    {
        self.pending_images.push(img);
    }

    /// Drain and return all pending image attachments.
    pub fn clear_images(&mut self) -> (r: Vec<PastedImage>)
        ensures
            r@ == old(self)@.pending_images,
            final(self)@ == (PromptView { pending_images: Seq::empty(), ..old(self)@ }),
    {
        let mut r: Vec<PastedImage> = Vec::new();
        std::mem::swap(&mut r, &mut self.pending_images);
        r
    }
}

/// A copy of a list of strings.
pub fn copy_strings(v: &Vec<String>) -> (r: Vec<String>)
    ensures
        r.deep_view() == v.deep_view(),
{
    let mut r: Vec<String> = Vec::new();
    let mut i: usize = 0;
    while i < v.len()
        invariant
            i <= v.len(),
            r@.len() == i,
            forall|j: int| 0 <= j < i ==> #[trigger] r@[j]@ == v@[j]@,
        decreases v.len() - i,
    {
        let s = string_of(&chars_of(v[i].as_str()));
        r.push(s);
        i = i + 1;
    }
    assert(r.deep_view() =~= v.deep_view());
    r
}

impl Default for PromptInputState {
    fn default() -> (r: Self)
        ensures
            r@ == initial_view(),
    {
        PromptInputState::new()
    }
}


// ---------------------------------------------------------------------------
// Command line
// ---------------------------------------------------------------------------

/// `s` without leading whitespace.
pub open spec fn trim_start(s: Seq<char>) -> Seq<char>
    decreases s.len(),
{
    if s.len() > 0 && unicode_whitespace(s[0]) {
        trim_start(s.drop_first())
    } else {
        s
    }
}

/// `s` without trailing whitespace.
pub open spec fn trim_end(s: Seq<char>) -> Seq<char>
    decreases s.len(),
{
    if s.len() > 0 && unicode_whitespace(s.last()) {
        trim_end(s.drop_last())
    } else {
        s
    }
}

/// `str::trim`: `s` without leading and trailing whitespace.
pub open spec fn trim(s: Seq<char>) -> Seq<char> {
    trim_end(trim_start(s))
}

/// `s` without leading and trailing whitespace.
pub fn trim_chars(cs: &Vec<char>) -> (r: Vec<char>)
    ensures
        r@ == trim(cs@),
{
    let mut a: usize = 0;
    assert(cs@.skip(0) =~= cs@);
    while a < cs.len() && is_whitespace(cs[a])
        invariant
            a <= cs.len(),
            trim_start(cs@.skip(a as int)) == trim_start(cs@),
        decreases cs.len() - a,
    {
        assert(cs@.skip(a as int).drop_first() =~= cs@.skip(a as int + 1));
        a = a + 1;
    }
    let t = slice_vec(cs, a, cs.len());
    assert(t@ =~= cs@.skip(a as int));
    let mut b: usize = t.len();
    assert(t@.take(b as int) =~= t@);
    while b > 0 && is_whitespace(t[b - 1])
        invariant
            b <= t.len(),
            trim_end(t@.take(b as int)) == trim_end(t@),
        decreases b,
    {
        assert(t@.take(b as int).drop_last() =~= t@.take(b as int - 1));
        b = b - 1;
    }
    slice_vec(&t, 0, b)
}

/// What `execute_vim_cmdline` does with the command `cmd`: `q`, `quit`, `wq`
/// and `x` request quitting, `noh` and `nohlsearch` forget the last search,
/// and anything else (`set ...` included) changes nothing.
pub open spec fn cmdline_spec(v: PromptView, cmd: Seq<char>) -> PromptView {
    if cmd == "q"@ || cmd == "quit"@ || cmd == "wq"@ || cmd == "x"@ {
        PromptView { vim_quit_requested: true, ..v }
    } else if cmd == "noh"@ || cmd == "nohlsearch"@ {
        PromptView { vim_search_last: None, ..v }
    } else {
        v
    }
}

// ---------------------------------------------------------------------------
// In-prompt search
// ---------------------------------------------------------------------------

/// `p` occurs in `s` at index `j`.
pub open spec fn occurs_at(s: Seq<char>, p: Seq<char>, j: int) -> bool {
    0 <= j && j + p.len() <= s.len() && s.subrange(j, j + p.len()) == p
}

/// The first index `j >= from` at which `p` occurs in `s`.
pub open spec fn find_from(s: Seq<char>, p: Seq<char>, from: int) -> Option<int>
    decreases s.len() + 1 - from,
{
    if from < 0 || from + p.len() > s.len() {
        None
    } else if occurs_at(s, p, from) {
        Some(from)
    } else {
        find_from(s, p, from + 1)
    }
}

pub proof fn lemma_find_from(s: Seq<char>, p: Seq<char>, from: int)
    ensures
        match find_from(s, p, from) {
            Some(j) => from <= j && occurs_at(s, p, j),
            None => true,
        },
    decreases s.len() + 1 - from,
{
    if from < 0 || from + p.len() > s.len() {
    } else if occurs_at(s, p, from) {
    } else {
        lemma_find_from(s, p, from + 1);
    }
}


/// Byte offset at which a forward search starts: the cursor, or with `skip`
/// the start of the character after it (`0` when there is none).
pub open spec fn search_start(v: PromptView, skip: usize) -> int {
    if skip > 0 {
        let i = char_index(v.text, v.cursor as int);
        if i + 1 < v.text.len() {
            byte_offset(v.text, i + 1) as int
        } else {
            0
        }
    } else {
        v.cursor as int
    }
}

/// A case-insensitive match of `p` (a lowercased pattern) starts at
/// character `i` of `s`: the lowercased rest of `s` from `i` starts with `p`.
pub open spec fn match_at(s: Seq<char>, p: Seq<char>, i: int) -> bool {
    starts_with(lowercase_str(s.skip(i)), p)
}

/// The first character index `j >= i` (up to the end) at which a match starts.
pub open spec fn first_match(s: Seq<char>, p: Seq<char>, i: int) -> Option<int>
    decreases s.len() + 1 - i,
{
    if i < 0 || i > s.len() {
        None
    } else if match_at(s, p, i) {
        Some(i)
    } else {
        first_match(s, p, i + 1)
    }
}

/// The last character index `j <= i` at which a match starts.
pub open spec fn last_match(s: Seq<char>, p: Seq<char>, i: int) -> Option<int>
    decreases i + 1,
{
    if i < 0 {
        None
    } else if i <= s.len() && match_at(s, p, i) {
        Some(i)
    } else {
        last_match(s, p, i - 1)
    }
}

/// The last character index `j <= i` at which a match lies wholly within
/// the first `c` characters.
pub open spec fn last_match_before(s: Seq<char>, p: Seq<char>, c: int, i: int) -> Option<int>
    decreases i + 1,
{
    if i < 0 {
        None
    } else if i <= c && starts_with(lowercase_str(s.subrange(i, c)), p) {
        Some(i)
    } else {
        last_match_before(s, p, c, i - 1)
    }
}

/// `vim_search_forward`: the cursor on the first character boundary at or
/// after the search start where a case-insensitive match of `pat` begins,
/// else on the first such boundary of the text; unchanged when there is none.
pub open spec fn search_forward_spec(v: PromptView, pat: Seq<char>, skip: usize) -> PromptView {
    if pat.len() == 0 {
        v
    } else {
        let p = lowercase_str(pat);
        match first_match(v.text, p, char_index(v.text, search_start(v, skip))) {
            Some(j) => PromptView { cursor: byte_offset(v.text, j) as usize, ..v },
            None => match first_match(v.text, p, 0) {
                Some(j) => PromptView { cursor: byte_offset(v.text, j) as usize, ..v },
                None => v,
            },
        }
    }
}

/// `vim_search_backward`: the cursor on the last character boundary where a
/// case-insensitive match of `pat` lies wholly before the cursor, else on the
/// last boundary of the text where one begins; unchanged when there is none.
pub open spec fn search_backward_spec(v: PromptView, pat: Seq<char>) -> PromptView {
    if pat.len() == 0 {
        v
    } else {
        let p = lowercase_str(pat);
        let c = char_index(v.text, v.cursor as int);
        match last_match_before(v.text, p, c, c) {
            Some(j) => PromptView { cursor: byte_offset(v.text, j) as usize, ..v },
            None => match last_match(v.text, p, v.text.len() as int) {
                Some(j) => PromptView { cursor: byte_offset(v.text, j) as usize, ..v },
                None => v,
            },
        }
    }
}

/// The cursor is a character boundary of the text, where the forward
/// search starts.
pub open spec fn forward_start_ok(v: PromptView, pat: Seq<char>, skip: usize) -> bool {
    pat.len() > 0 ==> is_boundary(v.text, v.cursor as int)
}

/// The cursor is a character boundary of the text, before which the
/// backward search looks.
pub open spec fn backward_start_ok(v: PromptView, pat: Seq<char>) -> bool {
    pat.len() > 0 ==> is_boundary(v.text, v.cursor as int)
}

/// The forward search where the cursor is a character boundary; otherwise
/// nothing changes.
pub open spec fn checked_forward_spec(v: PromptView, pat: Seq<char>, skip: usize) -> PromptView {
    if forward_start_ok(v, pat, skip) {
        search_forward_spec(v, pat, skip)
    } else {
        v
    }
}

/// The backward search where the cursor is a character boundary; otherwise
/// nothing changes.
pub open spec fn checked_backward_spec(v: PromptView, pat: Seq<char>) -> PromptView {
    if backward_start_ok(v, pat) {
        search_backward_spec(v, pat)
    } else {
        v
    }
}

/// Whether `p` occurs in `s` at index `j`.
fn occurs_at_exec(s: &Vec<char>, p: &Vec<char>, j: usize) -> (r: bool)
    ensures
        r == occurs_at(s@, p@, j as int),
{
    if j > s.len() || p.len() > s.len() - j {
        return false;
    }
    let mut k: usize = 0;
    while k < p.len()
        invariant
            k <= p.len(),
            j + p.len() <= s.len(),
            forall|m: int| 0 <= m < k ==> s@[j + m] == p@[m],
        decreases p.len() - k,
    {
        if s[j + k] != p[k] {
            assert(s@.subrange(j as int, j + p.len())[k as int] != p@[k as int]);
            return false;
        }
        k = k + 1;
    }
    assert(s@.subrange(j as int, j + p.len()) =~= p@);
    true
}

/// First occurrence of `p` in `s` at or after `from`.
pub fn find_from_exec(s: &Vec<char>, p: &Vec<char>, from: usize) -> (r: Option<usize>)
    ensures
        match find_from(s@, p@, from as int) {
            Some(j) => r == Some(j as usize) && 0 <= j <= s.len(),
            None => r is None,
        },
{
    proof {
        lemma_find_from(s@, p@, from as int);
    }
    if p.len() == 0 {
        if from <= s.len() {
            assert(s@.subrange(from as int, from as int) =~= p@);
            return Some(from);
        }
        return None;
    }
    let mut j = from;
    while j < s.len() && p.len() <= s.len() - j
        invariant
            from <= j,
            p.len() >= 1,
            find_from(s@, p@, j as int) == find_from(s@, p@, from as int),
        decreases s.len() - j,
    {
        if occurs_at_exec(s, p, j) {
            return Some(j);
        }
        j = j + 1;
    }
    None
}


impl PromptInputState {
    /// Execute a `:` command-line command.
    /// Recognised: `q`/`quit`/`wq`/`x`, `set` (no-op), `noh`/`nohlsearch`
    /// (clear search highlight).
    pub fn execute_vim_cmdline(&mut self, cmd: &str)
        ensures
            final(self)@ == cmdline_spec(old(self)@, cmd@),
    {
        let c = chars_of(cmd);
        if crate::text::str_is(&c, "q") || crate::text::str_is(&c, "quit") || crate::text::str_is(&c, "wq")
            || crate::text::str_is(&c, "x") {
            self.vim_quit_requested = true;
        } else if crate::text::str_is(&c, "noh") || crate::text::str_is(&c, "nohlsearch") {
            self.vim_search_last = None;
        }
    }

    /// Move the cursor to the next occurrence of `pattern` (case-insensitive)
    /// from the cursor, or with `skip > 0` from the character after it,
    /// wrapping around to the start of the text.
    pub fn vim_search_forward(&mut self, pattern: &str, skip: usize)
        requires
            forward_start_ok(old(self)@, pattern@, skip),
        ensures
            final(self)@ == search_forward_spec(old(self)@, pattern@, skip),
    {
        let pc = chars_of(pattern);
        if pc.len() == 0 {
            return;
        }
        let cs = chars_of(self.text.as_str());
        let i = byte_to_index(&cs, self.cursor);
        let si = if skip > 0 {
            if cs.len() > 0 && i < cs.len() - 1 {
                i + 1
            } else {
                0
            }
        } else {
            i
        };
        proof {
            lemma_char_index(cs@, self.cursor as int);
            if skip > 0 && cs.len() > 0 && i < cs.len() - 1 {
                lemma_index_of_offset(cs@, i + 1);
            } else if skip > 0 {
                lemma_offset_zero(cs@);
                lemma_index_of_offset(cs@, 0);
            }
            assert(si == char_index(cs@, search_start(old(self)@, skip)));
        }
        let p = chars_of(str_to_lowercase(pattern).as_str());
        match first_match_exec(&cs, &p, si) {
            Some(j) => {
                self.cursor = index_to_byte(&cs, j);
                return;
            },
            None => {},
        }
        match first_match_exec(&cs, &p, 0) {
            Some(j) => {
                self.cursor = index_to_byte(&cs, j);
            },
            None => {},
        }
    }

    /// Move the cursor to the previous occurrence of `pattern`
    /// (case-insensitive) before the cursor, wrapping around to the last one.
    pub fn vim_search_backward(&mut self, pattern: &str)
        requires
            backward_start_ok(old(self)@, pattern@),
        ensures
            final(self)@ == search_backward_spec(old(self)@, pattern@),
    {
        let pc = chars_of(pattern);
        if pc.len() == 0 {
            return;
        }
        let cs = chars_of(self.text.as_str());
        let c = byte_to_index(&cs, self.cursor);
        let p = chars_of(str_to_lowercase(pattern).as_str());
        match last_match_before_exec(&cs, &p, c) {
            Some(j) => {
                self.cursor = index_to_byte(&cs, j);
                return;
            },
            None => {},
        }
        match last_match_exec(&cs, &p) {
            Some(j) => {
                self.cursor = index_to_byte(&cs, j);
            },
            None => {},
        }
    }

    /// The forward search, where the cursor is a character boundary; returns
    /// whether it ran (otherwise nothing changes).
    pub fn search_forward_checked(&mut self, pattern: &str, skip: usize) -> (ran: bool)
        ensures
            ran == forward_start_ok(old(self)@, pattern@, skip),
            final(self)@ == checked_forward_spec(old(self)@, pattern@, skip),
    {
        let pc = chars_of(pattern);
        if pc.len() == 0 {
            return true;
        }
        let cs = chars_of(self.text.as_str());
        if check_boundary(&cs, self.cursor) {
            self.vim_search_forward(pattern, skip);
            true
        } else {
            false
        }
    }

    /// The backward search, where the cursor is a character boundary; returns
    /// whether it ran (otherwise nothing changes).
    pub fn search_backward_checked(&mut self, pattern: &str) -> (ran: bool)
        ensures
            ran == backward_start_ok(old(self)@, pattern@),
            final(self)@ == checked_backward_spec(old(self)@, pattern@),
    {
        let pc = chars_of(pattern);
        if pc.len() == 0 {
            return true;
        }
        let cs = chars_of(self.text.as_str());
        if check_boundary(&cs, self.cursor) {
            self.vim_search_backward(pattern);
            true
        } else {
            false
        }
    }
}

/// Whether a match of the lowercased pattern `p` starts at character `i`.
fn match_at_exec(cs: &Vec<char>, p: &Vec<char>, i: usize) -> (r: bool)
    requires
        i <= cs.len(),
    ensures
        r == match_at(cs@, p@, i as int),
{
    let rest = slice_vec(cs, i, cs.len());
    assert(rest@ =~= cs@.skip(i as int));
    let lower = chars_of(str_to_lowercase(string_of(&rest).as_str()).as_str());
    starts_with_exec(&lower, p)
}

/// Whether a match of `p` starting at character `i` lies wholly within the
/// first `c` characters.
fn match_before_exec(cs: &Vec<char>, p: &Vec<char>, c: usize, i: usize) -> (r: bool)
    requires
        i <= c <= cs.len(),
    ensures
        r == starts_with(lowercase_str(cs@.subrange(i as int, c as int)), p@),
{
    let part = slice_vec(cs, i, c);
    let lower = chars_of(str_to_lowercase(string_of(&part).as_str()).as_str());
    starts_with_exec(&lower, p)
}

fn first_match_exec(cs: &Vec<char>, p: &Vec<char>, from: usize) -> (r: Option<usize>)
    ensures
        match first_match(cs@, p@, from as int) {
            Some(j) => r == Some(j as usize) && 0 <= j <= cs.len(),
            None => r is None,
        },
{
    if from > cs.len() {
        return None;
    }
    let mut i = from;
    loop
        invariant
            from <= i <= cs.len(),
            first_match(cs@, p@, i as int) == first_match(cs@, p@, from as int),
        decreases cs.len() - i,
    {
        if match_at_exec(cs, p, i) {
            return Some(i);
        }
        if i == cs.len() {
            assert(first_match(cs@, p@, i + 1) is None);
            return None;
        }
        i = i + 1;
    }
}

fn last_match_exec(cs: &Vec<char>, p: &Vec<char>) -> (r: Option<usize>)
    ensures
        match last_match(cs@, p@, cs.len() as int) {
            Some(j) => r == Some(j as usize) && 0 <= j <= cs.len(),
            None => r is None,
        },
{
    let mut i = cs.len();
    loop
        invariant
            i <= cs.len(),
            last_match(cs@, p@, i as int) == last_match(cs@, p@, cs.len() as int),
        decreases i,
    {
        if match_at_exec(cs, p, i) {
            return Some(i);
        }
        if i == 0 {
            assert(last_match(cs@, p@, -1) is None);
            return None;
        }
        i = i - 1;
    }
}

fn last_match_before_exec(cs: &Vec<char>, p: &Vec<char>, c: usize) -> (r: Option<usize>)
    requires
        c <= cs.len(),
    ensures
        match last_match_before(cs@, p@, c as int, c as int) {
            Some(j) => r == Some(j as usize) && 0 <= j <= c,
            None => r is None,
        },
{
    let mut i = c;
    loop
        invariant
            i <= c <= cs.len(),
            last_match_before(cs@, p@, c as int, i as int) == last_match_before(cs@, p@, c as int, c as int),
        decreases i,
    {
        if match_before_exec(cs, p, c, i) {
            return Some(i);
        }
        if i == 0 {
            assert(last_match_before(cs@, p@, c as int, -1) is None);
            return None;
        }
        i = i - 1;
    }
}

// ---------------------------------------------------------------------------
// Layout
// ---------------------------------------------------------------------------

/// Lines of the prompt for layout: one for an empty text.
pub open spec fn layout_lines(s: Seq<char>) -> nat {
    if s.len() == 0 {
        1
    } else if line_count(s) >= 1 {
        line_count(s)
    } else {
        1
    }
}

/// The line count fits the height arithmetic: `(lines as u16) + 3` does not overflow.
pub open spec fn height_ok(v: PromptView) -> bool {
    layout_lines(v.text) % 65536 + 3 <= u16::MAX
}

/// Rows needed to render the prompt: the lines (taken as `u16`) plus three,
/// at least 4 and at most 12, plus one row for pending images.
pub open spec fn input_height_spec(v: PromptView) -> u16 {
    let t = layout_lines(v.text) % 65536 + 3;
    let base = if t < 4 {
        4
    } else if t > 12 {
        12
    } else {
        t
    };
    let h = base + if v.pending_images.len() == 0 {
        0int
    } else {
        1int
    };
    (if h > 12 {
        12
    } else {
        h
    }) as u16
}

/// Return the number of rows needed to render the input for the given text.
/// Minimum 4 (1 top-line + 1 text row + 1 bottom-line + 1 breathing room), capped at 12.
pub fn input_height(state: &PromptInputState) -> (h: u16)
    requires
        height_ok(state@),
    ensures
        h == input_height_spec(state@),
{
    let cs = chars_of(state.text.as_str());
    let line_count = if cs.len() == 0 {
        1
    } else {
        let n = line_count_exec(&cs);
        if n >= 1 {
            n
        } else {
            1
        }
    };
    let lc16 = line_count as u16;
    assert(lc16 == line_count % 65536) by (bit_vector)
        requires
            lc16 == line_count as u16,
    ;
    let t = lc16 + 3;
    let base = if t < 4 {
        4
    } else if t > 12 {
        12
    } else {
        t
    };
    let h = base + if state.pending_images.len() == 0 {
        0
    } else {
        1
    };
    if h > 12 {
        12
    } else {
        h
    }
}

} // verus!
