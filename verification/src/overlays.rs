//! State of the full-screen overlays: help, history entries, the message
//! selector and the rewind flow built on it, and the global search dialog.
use vstd::prelude::*;
use crate::numbers::{decimal, decimal_exec, decimal_u64};
use crate::text::{byte_len, byte_offset, chars_of, check_boundary, concat_vec, index_to_byte, is_boundary, lemma_len_subrange, lemma_offset_bound, lowercase_str, slice_vec, str_to_lowercase, string_of, utf8_len};
use crate::prompt::{find_from, find_from_exec, lemma_find_from};
use crate::json::{items, json_array, json_string, texts_view, get, first, str_of, u64_of, json_get, json_first, json_str_of, json_u64_of, opt_str, opt_text};
use crate::prompt_display::{lines_of, strings_view, text_lines};

verus! {

// ---------------------------------------------------------------------------
// Help overlay
// ---------------------------------------------------------------------------

/// A single command entry shown in the help overlay.
#[derive(Debug, Clone)]
pub struct HelpEntry {
    pub name: String,
    /// Comma-separated aliases, e.g. "h, ?"
    pub aliases: String,
    pub description: String,
    pub category: String,
}

/// State for the full-screen help overlay (? / F1 / /help).
#[derive(Debug)]
pub struct HelpOverlay {
    pub visible: bool,
    pub scroll_offset: u16,
    /// Live search filter: only commands matching this substring are shown.
    pub filter: String,
    /// Entries from the command registry, by category and then name.
    pub commands: Vec<HelpEntry>,
}

/// `a` comes strictly before `b` in the lexicographic order of characters
/// (the order of `str`, whose UTF-8 bytes order as the code points do).
pub open spec fn seq_lt(a: Seq<char>, b: Seq<char>) -> bool
    decreases a.len(),
{
    if b.len() == 0 {
        false
    } else if a.len() == 0 {
        true
    } else if a[0] != b[0] {
        a[0] < b[0]
    } else {
        seq_lt(a.drop_first(), b.drop_first())
    }
}

/// Entry `a` sorts no later than `b`: by category, then by name.
pub open spec fn entry_le(a: HelpEntry, b: HelpEntry) -> bool {
    seq_lt(a.category@, b.category@) || (a.category@ == b.category@ && !seq_lt(b.name@, a.name@))
}

/// `e` inserted into `s` after every entry that sorts no later than it.
pub open spec fn insert_sorted(s: Seq<HelpEntry>, e: HelpEntry) -> Seq<HelpEntry>
    decreases s.len(),
{
    if s.len() == 0 || entry_le(s.last(), e) {
        s.push(e)
    } else {
        insert_sorted(s.drop_last(), e).push(s.last())
    }
}

/// The stable sort of `s` by category, then name.
pub open spec fn sort_entries(s: Seq<HelpEntry>) -> Seq<HelpEntry>
    decreases s.len(),
{
    if s.len() == 0 {
        s
    } else {
        insert_sorted(sort_entries(s.drop_last()), s.last())
    }
}

fn seq_lt_exec(a: &Vec<char>, b: &Vec<char>) -> (r: bool)
    ensures
        r == seq_lt(a@, b@),
{
    let mut i: usize = 0;
    assert(a@.skip(0) =~= a@);
    assert(b@.skip(0) =~= b@);
    while i < a.len() && i < b.len() && a[i] == b[i]
        invariant
            i <= a.len(),
            i <= b.len(),
            seq_lt(a@.skip(i as int), b@.skip(i as int)) == seq_lt(a@, b@),
        decreases a.len() - i,
    {
        assert(a@.skip(i as int).drop_first() =~= a@.skip(i as int + 1));
        assert(b@.skip(i as int).drop_first() =~= b@.skip(i as int + 1));
        i = i + 1;
    }
    if i == b.len() {
        false
    } else if i == a.len() {
        true
    } else {
        a[i] < b[i]
    }
}

fn entry_le_exec(a: &HelpEntry, b: &HelpEntry) -> (r: bool)
    ensures
        r == entry_le(*a, *b),
{
    let ac = chars_of(a.category.as_str());
    let bc = chars_of(b.category.as_str());
    if seq_lt_exec(&ac, &bc) {
        return true;
    }
    if !crate::text::vec_eq(&ac, &bc) {
        return false;
    }
    let an = chars_of(a.name.as_str());
    let bn = chars_of(b.name.as_str());
    !seq_lt_exec(&bn, &an)
}

/// Where `insert_sorted` puts `e`: after the last entry that sorts no later.
proof fn lemma_insert_sorted(s: Seq<HelpEntry>, e: HelpEntry, p: int)
    requires
        0 <= p <= s.len(),
        p == 0 || entry_le(s[p - 1], e),
        forall|j: int| p <= j < s.len() ==> !entry_le(#[trigger] s[j], e),
    ensures
        insert_sorted(s, e) == s.take(p).push(e) + s.skip(p),
    decreases s.len(),
{
    if s.len() == 0 {
        assert(s.take(p).push(e) + s.skip(p) =~= s.push(e));
    } else if p == s.len() {
        assert(s.take(p).push(e) + s.skip(p) =~= s.push(e));
    } else {
        let d = s.drop_last();
        assert forall|j: int| p <= j < d.len() implies !entry_le(#[trigger] d[j], e) by {
            assert(d[j] == s[j]);
        }
        if p > 0 {
            assert(d[p - 1] == s[p - 1]);
        }
        lemma_insert_sorted(d, e, p);
        assert(!entry_le(s[s.len() - 1], e));
        assert(insert_sorted(s, e) == insert_sorted(d, e).push(s.last()));
        assert(s.take(p).push(e) + s.skip(p) =~= (d.take(p).push(e) + d.skip(p)).push(s.last()));
    }
}

impl HelpOverlay {
    pub fn new() -> (r: Self)
        ensures
            !r.visible,
            r.scroll_offset == 0,
            r.filter@ == Seq::<char>::empty(),
            r.commands@.len() == 0,
    {
        HelpOverlay { visible: false, scroll_offset: 0, filter: String::new(), commands: Vec::new() }
    }

    /// Populate (or replace) the command entries from the command registry,
    /// sorted stably by category, then name.
    pub fn populate_from_commands(&mut self, entries: Vec<HelpEntry>)
        ensures
            final(self).commands@ == sort_entries(entries@),
            final(self).visible == old(self).visible,
            final(self).scroll_offset == old(self).scroll_offset,
            final(self).filter@ == old(self).filter@,
    {
        let ghost all = entries@;
        let ghost n = entries.len();
        let mut rest = entries;
        let mut sorted: Vec<HelpEntry> = Vec::new();
        let mut k: usize = 0;
        while rest.len() > 0
            invariant
                k <= all.len(),
                all.len() == n,
                rest@ == all.skip(k as int),
                sorted@ == sort_entries(all.take(k as int)),
            decreases rest.len(),
        {
            let e = rest.remove(0);
            proof {
                assert(e == all[k as int]);
                assert(all.take(k as int + 1).drop_last() =~= all.take(k as int));
                assert(rest@ =~= all.skip(k as int + 1));
            }
            let mut p = sorted.len();
            while p > 0 && !entry_le_exec(&sorted[p - 1], &e)
                invariant
                    p <= sorted.len(),
                    forall|j: int| p <= j < sorted@.len() ==> !entry_le(#[trigger] sorted@[j], e),
                decreases p,
            {
                p = p - 1;
            }
            proof {
                lemma_insert_sorted(sorted@, e, p as int);
            }
            let ghost before = sorted@;
            sorted.insert(p, e);
            assert(sorted@ =~= before.take(p as int).push(e) + before.skip(p as int));
            k = k + 1;
        }
        assert(all.take(all.len() as int) =~= all);
        self.commands = sorted;
    }

    /// Show or hide the overlay; hiding resets the scroll and the filter.
    pub fn toggle(&mut self)
        ensures
            old(self).visible ==> *final(self) == (HelpOverlay {
                visible: false,
                scroll_offset: 0,
                filter: final(self).filter,
                ..*old(self)
            }) && final(self).filter@ == Seq::<char>::empty(),
            !old(self).visible ==> *final(self) == (HelpOverlay { visible: true, ..*old(self) }),
    {
        self.visible = !self.visible;
        if !self.visible {
            self.scroll_offset = 0;
            self.filter = String::new();
        }
    }

    /// Hide the overlay, resetting the scroll and the filter.
    pub fn close(&mut self)
        ensures
            *final(self) == (HelpOverlay {
                visible: false,
                scroll_offset: 0,
                filter: final(self).filter,
                ..*old(self)
            }),
            final(self).filter@ == Seq::<char>::empty(),
    {
        self.visible = false;
        self.scroll_offset = 0;
        self.filter = String::new();
    }

    pub fn scroll_up(&mut self)
        ensures
            *final(self) == (HelpOverlay {
                scroll_offset: if old(self).scroll_offset > 0 {
                    (old(self).scroll_offset - 1) as u16
                } else {
                    0
                },
                ..*old(self)
            }),
    {
        if self.scroll_offset > 0 {
            self.scroll_offset = self.scroll_offset - 1;
        }
    }

    /// Scroll down while the next offset stays below `max`.
    pub fn scroll_down(&mut self, max: u16)
        requires
            old(self).scroll_offset < u16::MAX,
        ensures
            *final(self) == (HelpOverlay {
                scroll_offset: if old(self).scroll_offset + 1 < max {
                    (old(self).scroll_offset + 1) as u16
                } else {
                    old(self).scroll_offset
                },
                ..*old(self)
            }),
    {
        if self.scroll_offset + 1 < max {
            self.scroll_offset = self.scroll_offset + 1;
        }
    }

    /// Type a filter character; the scroll returns to the top.
    pub fn push_filter_char(&mut self, c: char)
        ensures
            *final(self) == (HelpOverlay { filter: final(self).filter, scroll_offset: 0, ..*old(self) }),
            final(self).filter@ == old(self).filter@.push(c),
    {
        let mut f = chars_of(self.filter.as_str());
        f.push(c);
        self.filter = string_of(&f);
        self.scroll_offset = 0;
    }

    /// Erase the last filter character; the scroll returns to the top.
    pub fn pop_filter_char(&mut self)
        ensures
            *final(self) == (HelpOverlay { filter: final(self).filter, scroll_offset: 0, ..*old(self) }),
            final(self).filter@ == (if old(self).filter@.len() > 0 {
                old(self).filter@.drop_last()
            } else {
                old(self).filter@
            }),
    {
        let f = chars_of(self.filter.as_str());
        if f.len() > 0 {
            self.filter = string_of(&slice_vec(&f, 0, f.len() - 1));
        }
        self.scroll_offset = 0;
    }
}

impl Default for HelpOverlay {
    fn default() -> (r: Self)
        ensures
            !r.visible,
            r.scroll_offset == 0,
            r.filter@ == Seq::<char>::empty(),
            r.commands@.len() == 0,
    {
        HelpOverlay::new()
    }
}

// ---------------------------------------------------------------------------
// History entries
// ---------------------------------------------------------------------------

/// `SystemTime::now()` as whole seconds since the Unix epoch (0 for a clock
/// before the epoch). The clock is read, so nothing is stated of the result.
#[verifier::external_body]
pub fn current_unix_secs() -> (r: u64) {
    std::time::SystemTime::now().duration_since(std::time::UNIX_EPOCH).unwrap_or_default().as_secs()
}

/// A single history entry with an optional Unix timestamp and pinned state.
#[derive(Debug, Clone)]
pub struct HistoryEntry {
    pub text: String,
    /// Unix timestamp (seconds since epoch) when this entry was recorded.
    /// `None` for legacy entries without timestamps.
    pub timestamp: Option<u64>,
    /// Whether this entry has been pinned by the user.
    pub pinned: bool,
}

/// How long ago, for `delta` seconds: "just now" under a minute, then whole
/// minutes, hours or days.
pub open spec fn age_text(delta: nat) -> Seq<char> {
    if delta < 60 {
        "just now"@
    } else if delta < 3600 {
        decimal(delta / 60) + "m ago"@
    } else if delta < 86400 {
        decimal(delta / 3600) + "h ago"@
    } else {
        decimal(delta / 86400) + "d ago"@
    }
}

/// The relative time of an entry stamped `ts` at time `now`: empty without a
/// stamp; a stamp in the future counts as now.
pub open spec fn relative_time_spec(ts: Option<u64>, now: u64) -> Seq<char> {
    match ts {
        None => Seq::empty(),
        Some(t) => age_text(if now >= t {
            (now - t) as nat
        } else {
            0
        }),
    }
}

impl HistoryEntry {
    /// An entry stamped with the current time.
    pub fn new(text: String) -> (r: Self)
        ensures
            r.text == text,
            r.timestamp is Some,
            !r.pinned,
    {
        HistoryEntry { text, timestamp: Some(current_unix_secs()), pinned: false }
    }

    /// A legacy entry without a timestamp.
    pub fn legacy(text: String) -> (r: Self)
        ensures
            r.text == text,
            r.timestamp is None,
            !r.pinned,
    {
        HistoryEntry { text, timestamp: None, pinned: false }
    }

    /// The relative time of the entry at time `now`.
    pub fn relative_time_at(&self, now: u64) -> (r: String)
        ensures
            r@ == relative_time_spec(self.timestamp, now),
    {
        let ts = match self.timestamp {
            None => {
                return String::new();
            },
            Some(t) => t,
        };
        let delta = if now >= ts {
            now - ts
        } else {
            0
        };
        if delta < 60 {
            return string_of(&chars_of("just now"));
        }
        let (n, unit) = if delta < 3600 {
            (delta / 60, "m ago")
        } else if delta < 86400 {
            (delta / 3600, "h ago")
        } else {
            (delta / 86400, "d ago")
        };
        let d = decimal_u64(n);
        let out = concat_vec(&d, &chars_of(unit));
        string_of(&out)
    }

    /// Human-readable relative time: "just now", "2m ago", "3h ago", "2d ago".
    /// It reads the clock, so it is the relative time at some instant.
    pub fn relative_time(&self) -> (r: String)
        ensures
            exists|now: u64| r@ == relative_time_spec(self.timestamp, now),
    {
        let now = current_unix_secs();
        self.relative_time_at(now)
    }
}

// ---------------------------------------------------------------------------
// Message selector
// ---------------------------------------------------------------------------

/// A single entry shown in the message selector list.
#[derive(Debug, Clone)]
pub struct SelectorMessage {
    /// Original index in the conversation.
    pub idx: usize,
    pub role: String,
    /// First ~80 chars of content.
    pub preview: String,
    pub has_tool_use: bool,
}

/// State for the message selector overlay used by /rewind step 1.
#[derive(Debug)]
pub struct MessageSelectorOverlay {
    pub visible: bool,
    pub messages: Vec<SelectorMessage>,
    pub selected_idx: usize,
    pub scroll_offset: usize,
}

/// `a - b`, or 0 when `b > a`.
pub open spec fn sat_sub(a: int, b: int) -> int {
    if a >= b {
        a - b
    } else {
        0
    }
}

impl MessageSelectorOverlay {
    pub fn new() -> (r: Self)
        ensures
            !r.visible,
            r.messages@.len() == 0,
            r.selected_idx == 0,
            r.scroll_offset == 0,
    {
        MessageSelectorOverlay { visible: false, messages: Vec::new(), selected_idx: 0, scroll_offset: 0 }
    }

    /// A visible selector on `messages`, the most recent one selected and
    /// scrolled so that up to five entries show above it.
    pub fn open(messages: Vec<SelectorMessage>) -> (r: Self)
        ensures
            r.visible,
            r.messages@ == messages@,
            r.selected_idx == sat_sub(messages@.len() as int, 1),
            r.scroll_offset == sat_sub(r.selected_idx as int, 5),
    {
        let selected = if messages.len() >= 1 {
            messages.len() - 1
        } else {
            0
        };
        let scroll = if selected >= 5 {
            selected - 5
        } else {
            0
        };
        MessageSelectorOverlay { visible: true, messages, selected_idx: selected, scroll_offset: scroll }
    }

    pub fn close(&mut self)
        ensures
            *final(self) == (MessageSelectorOverlay { visible: false, ..*old(self) }),
    {
        self.visible = false;
    }

    /// Select the previous message, scrolling up to keep it in view.
    pub fn select_prev(&mut self)
        ensures
            *final(self) == (MessageSelectorOverlay {
                selected_idx: sat_sub(old(self).selected_idx as int, 1) as usize,
                scroll_offset: if old(self).selected_idx > 0 && old(self).selected_idx - 1
                    < old(self).scroll_offset {
                    (old(self).selected_idx - 1) as usize
                } else {
                    old(self).scroll_offset
                },
                ..*old(self)
            }),
    {
        if self.selected_idx > 0 {
            self.selected_idx = self.selected_idx - 1;
            if self.selected_idx < self.scroll_offset {
                self.scroll_offset = self.selected_idx;
            }
        }
    }

    /// Select the next message (stopping at the last).
    pub fn select_next(&mut self)
        ensures
            *final(self) == (MessageSelectorOverlay {
                selected_idx: if old(self).selected_idx + 1 < old(self).messages@.len() {
                    (old(self).selected_idx + 1) as usize
                } else {
                    old(self).selected_idx
                },
                ..*old(self)
            }),
    {
        if self.messages.len() > 0 && self.selected_idx < self.messages.len() - 1 {
            self.selected_idx = self.selected_idx + 1;
        }
    }

    /// The selected message, if the selection is within the list.
    pub fn current_message(&self) -> (r: Option<&SelectorMessage>)
        ensures
            match r {
                Some(m) => self.selected_idx < self.messages@.len() && *m == self.messages@[self.selected_idx as int],
                None => self.selected_idx >= self.messages@.len(),
            },
    {
        if self.selected_idx < self.messages.len() {
            Some(&self.messages[self.selected_idx])
        } else {
            None
        }
    }
}

impl Default for MessageSelectorOverlay {
    fn default() -> (r: Self)
        ensures
            !r.visible,
            r.messages@.len() == 0,
            r.selected_idx == 0,
            r.scroll_offset == 0,
    {
        MessageSelectorOverlay::new()
    }
}

// ---------------------------------------------------------------------------
// Rewind flow
// ---------------------------------------------------------------------------

/// The current step in the rewind flow.
#[derive(Debug, Clone, PartialEq, Eq, Structural)]
pub enum RewindStep {
    /// Step 1: user is browsing the message list.
    Selecting,
    /// Step 2: user has chosen a message and must confirm.
    Confirming { message_idx: usize },
}

/// Full multi-step overlay for the /rewind command.
#[derive(Debug)]
pub struct RewindFlowOverlay {
    pub visible: bool,
    pub step: RewindStep,
    pub selector: MessageSelectorOverlay,
}

/// The conversation index of the selected message, if any.
pub open spec fn selected_message_index(s: MessageSelectorOverlay) -> Option<usize> {
    if s.selected_idx < s.messages@.len() {
        Some(s.messages@[s.selected_idx as int].idx)
    } else {
        None
    }
}

impl RewindFlowOverlay {
    pub fn new() -> (r: Self)
        ensures
            !r.visible,
            r.step == RewindStep::Selecting,
            !r.selector.visible,
            r.selector.messages@.len() == 0,
    {
        RewindFlowOverlay { visible: false, step: RewindStep::Selecting, selector: MessageSelectorOverlay::new() }
    }

    /// Open the overlay on the given conversation messages, at the selector.
    pub fn open(&mut self, messages: Vec<SelectorMessage>)
        ensures
            final(self).visible,
            final(self).step == RewindStep::Selecting,
            final(self).selector.visible,
            final(self).selector.messages@ == messages@,
            final(self).selector.selected_idx == sat_sub(messages@.len() as int, 1),
            final(self).selector.scroll_offset == sat_sub(final(self).selector.selected_idx as int, 5),
    {
        self.selector = MessageSelectorOverlay::open(messages);
        self.step = RewindStep::Selecting;
        self.visible = true;
    }

    /// Hide the overlay and the selector, back at the selecting step.
    pub fn close(&mut self)
        ensures
            *final(self) == (RewindFlowOverlay {
                visible: false,
                step: RewindStep::Selecting,
                selector: MessageSelectorOverlay { visible: false, ..old(self).selector },
            }),
    {
        self.visible = false;
        self.selector.close();
        self.step = RewindStep::Selecting;
    }

    /// Confirm the current selection: while selecting with a message
    /// selected, advance to confirming it and return its conversation index.
    pub fn confirm_selection(&mut self) -> (r: Option<usize>)
        ensures
            r == (if old(self).step == RewindStep::Selecting {
                selected_message_index(old(self).selector)
            } else {
                None
            }),
            final(self).step == (match r {
                Some(i) => RewindStep::Confirming { message_idx: i },
                None => old(self).step,
            }),
            final(self).visible == old(self).visible,
            final(self).selector == old(self).selector,
    {
        if self.step == RewindStep::Selecting {
            match self.selector.current_message() {
                Some(msg) => {
                    let idx = msg.idx;
                    self.step = RewindStep::Confirming { message_idx: idx };
                    return Some(idx);
                },
                None => {},
            }
        }
        None
    }

    /// The user accepted while confirming: close and return the index to
    /// rewind to. Otherwise nothing happens.
    pub fn accept_confirm(&mut self) -> (r: Option<usize>)
        ensures
            match old(self).step {
                RewindStep::Confirming { message_idx } => r == Some(message_idx) && *final(self) == (
                RewindFlowOverlay {
                    visible: false,
                    step: RewindStep::Selecting,
                    selector: MessageSelectorOverlay { visible: false, ..old(self).selector },
                }),
                RewindStep::Selecting => r is None && *final(self) == *old(self),
            },
    {
        match self.step {
            RewindStep::Confirming { message_idx } => {
                self.close();
                Some(message_idx)
            },
            RewindStep::Selecting => None,
        }
    }

    /// The user declined while confirming: back to the selector.
    pub fn reject_confirm(&mut self)
        ensures
            *final(self) == (RewindFlowOverlay { step: RewindStep::Selecting, ..*old(self) }),
    {
        match self.step {
            RewindStep::Confirming { .. } => {
                self.step = RewindStep::Selecting;
            },
            RewindStep::Selecting => {},
        }
    }
}

impl Default for RewindFlowOverlay {
    fn default() -> (r: Self)
        ensures
            !r.visible,
            r.step == RewindStep::Selecting,
    {
        RewindFlowOverlay::new()
    }
}

// ---------------------------------------------------------------------------
// Global search
// ---------------------------------------------------------------------------

/// A single search result from ripgrep.
#[derive(Debug, Clone)]
pub struct SearchResult {
    pub file: String,
    pub line: u32,
    pub col: u32,
    pub text: String,
    pub context_before: Vec<String>,
    pub context_after: Vec<String>,
}

/// State for the global ripgrep search dialog.
#[derive(Debug, Clone)]
pub struct GlobalSearchState {
    pub open: bool,
    pub query: String,
    pub results: Vec<SearchResult>,
    pub selected: usize,
    pub total_matches: usize,
    pub searching: bool,
}

/// At most this many results are kept from one search.
pub const SEARCH_RESULT_LIMIT: usize = 500;

/// `s` without its trailing `'\n'` characters.
pub open spec fn trim_newlines_end(s: Seq<char>) -> Seq<char>
    decreases s.len(),
{
    if s.len() > 0 && s.last() == '\n' {
        trim_newlines_end(s.drop_last())
    } else {
        s
    }
}

pub open spec fn str_or_empty(o: Option<&str>) -> Seq<char> {
    match o {
        Some(s) => s@,
        None => Seq::empty(),
    }
}

pub open spec fn u64_or_zero(o: Option<u64>) -> u64 {
    match o {
        Some(x) => x,
        None => 0,
    }
}

/// `file:line` for a result.
pub open spec fn result_ref(r: SearchResult) -> Seq<char> {
    r.file@ + seq![':'] + decimal(r.line as nat)
}

impl GlobalSearchState {
    pub fn new() -> (r: Self)
        ensures
            !r.open,
            r.query@ == Seq::<char>::empty(),
            r.results@.len() == 0,
            r.selected == 0,
            r.total_matches == 0,
            !r.searching,
    {
        GlobalSearchState {
            open: false,
            query: String::new(),
            results: Vec::new(),
            selected: 0,
            total_matches: 0,
            searching: false,
        }
    }

    /// Show the dialog with an empty query and no results.
    pub fn open(&mut self)
        ensures
            final(self).open,
            final(self).query@ == Seq::<char>::empty(),
            final(self).results@.len() == 0,
            final(self).selected == 0,
            final(self).total_matches == old(self).total_matches,
            final(self).searching == old(self).searching,
    {
        self.open = true;
        self.query = String::new();
        self.results = Vec::new();
        self.selected = 0;
    }

    pub fn close(&mut self)
        ensures
            *final(self) == (GlobalSearchState { open: false, ..*old(self) }),
    {
        self.open = false;
    }

    pub fn select_prev(&mut self)
        ensures
            *final(self) == (GlobalSearchState {
                selected: sat_sub(old(self).selected as int, 1) as usize,
                ..*old(self)
            }),
    {
        if self.selected > 0 {
            self.selected = self.selected - 1;
        }
    }

    pub fn select_next(&mut self)
        ensures
            *final(self) == (GlobalSearchState {
                selected: if old(self).selected + 1 < old(self).results@.len() {
                    (old(self).selected + 1) as usize
                } else {
                    old(self).selected
                },
                ..*old(self)
            }),
    {
        if self.results.len() > 0 && self.selected < self.results.len() - 1 {
            self.selected = self.selected + 1;
        }
    }

    /// Type a query character; the selection returns to the first result.
    pub fn push_char(&mut self, c: char)
        ensures
            *final(self) == (GlobalSearchState { query: final(self).query, selected: 0, ..*old(self) }),
            final(self).query@ == old(self).query@.push(c),
    {
        let mut q = chars_of(self.query.as_str());
        q.push(c);
        self.query = string_of(&q);
        self.selected = 0;
    }

    /// Erase the last query character; the selection returns to the first result.
    pub fn pop_char(&mut self)
        ensures
            *final(self) == (GlobalSearchState { query: final(self).query, selected: 0, ..*old(self) }),
            final(self).query@ == (if old(self).query@.len() > 0 {
                old(self).query@.drop_last()
            } else {
                old(self).query@
            }),
    {
        let q = chars_of(self.query.as_str());
        if q.len() > 0 {
            self.query = string_of(&slice_vec(&q, 0, q.len() - 1));
        }
        self.selected = 0;
    }

    /// Start a search: with an empty query the results are cleared and there
    /// is nothing to run (`false`); otherwise the dialog shows it is searching.
    pub fn begin_search(&mut self) -> (run: bool)
        ensures
            run == (old(self).query@.len() > 0),
            !run ==> final(self).results@.len() == 0 && final(self).searching == old(self).searching,
            run ==> final(self).searching && final(self).results@ == old(self).results@,
            final(self).query@ == old(self).query@,
            final(self).selected == old(self).selected,
            final(self).total_matches == old(self).total_matches,
            final(self).open == old(self).open,
    {
        let q = chars_of(self.query.as_str());
        if q.len() == 0 {
            self.results = Vec::new();
            return false;
        }
        self.searching = true;
        true
    }

    /// The search finished: no longer searching, results about to be filled.
    pub fn reset_results(&mut self)
        ensures
            !final(self).searching,
            final(self).results@.len() == 0,
            final(self).total_matches == 0,
            final(self).query@ == old(self).query@,
            final(self).selected == old(self).selected,
            final(self).open == old(self).open,
    {
        self.searching = false;
        self.results = Vec::new();
        self.total_matches = 0;
    }

    /// Record one match of the search: its file, line, column and line text
    /// (missing fields count as empty or zero; numbers are taken modulo 2^32;
    /// trailing newlines are dropped). Returns whether more matches are
    /// wanted: at most 500 are kept.
    pub fn add_match(&mut self, file: Option<&str>, line: Option<u64>, col: Option<u64>, text: Option<&str>) -> (more: bool)
        requires
            old(self).total_matches < usize::MAX,
        ensures
            final(self).results@.len() == old(self).results@.len() + 1,
            final(self).results@.drop_last() == old(self).results@,
            final(self).results@.last().file@ == str_or_empty(file),
            final(self).results@.last().line == u64_or_zero(line) as u32,
            final(self).results@.last().col == u64_or_zero(col) as u32,
            final(self).results@.last().text@ == trim_newlines_end(str_or_empty(text)),
            final(self).results@.last().context_before@.len() == 0,
            final(self).results@.last().context_after@.len() == 0,
            final(self).total_matches == old(self).total_matches + 1,
            more == (final(self).results@.len() < SEARCH_RESULT_LIMIT),
            final(self).query@ == old(self).query@,
            final(self).selected == old(self).selected,
            final(self).open == old(self).open,
            final(self).searching == old(self).searching,
    {
        let f = match file {
            Some(s) => chars_of(s),
            None => Vec::new(),
        };
        let t = match text {
            Some(s) => chars_of(s),
            None => Vec::new(),
        };
        let mut e = t.len();
        assert(t@.take(e as int) =~= t@);
        while e > 0 && t[e - 1] == '\n'
            invariant
                e <= t.len(),
                trim_newlines_end(t@.take(e as int)) == trim_newlines_end(t@),
            decreases e,
        {
            assert(t@.take(e as int).drop_last() =~= t@.take(e as int - 1));
            e = e - 1;
        }
        let ln = match line {
            Some(x) => x,
            None => 0,
        };
        let cn = match col {
            Some(x) => x,
            None => 0,
        };
        let r = SearchResult {
            file: string_of(&f),
            line: ln as u32,
            col: cn as u32,
            text: string_of(&slice_vec(&t, 0, e)),
            context_before: Vec::new(),
            context_after: Vec::new(),
        };
        let ghost r0 = self.results@;
        self.results.push(r);
        assert(self.results@.drop_last() =~= r0);
        self.total_matches = self.total_matches + 1;
        self.results.len() < SEARCH_RESULT_LIMIT
    }

    /// Record ripgrep's JSON output `stdout` as the results of a new search:
    /// the results start empty, and each line that is a `match` record adds
    /// one result (see `rg_collect`), up to 500.
    pub fn record_rg_output(&mut self, stdout: &str)
        ensures
            !final(self).searching,
            results_view(final(self).results@) == rg_collect(text_lines(stdout@), text_lines(stdout@).len() as int),
            final(self).total_matches == final(self).results@.len(),
            forall|i: int| 0 <= i < final(self).results@.len() ==> (#[trigger] final(self).results@[i]).context_before@.len() == 0
                && final(self).results@[i].context_after@.len() == 0,
            final(self).query@ == old(self).query@,
            final(self).selected == old(self).selected,
            final(self).open == old(self).open,
    {
        self.reset_results();
        let cs = chars_of(stdout);
        let lines = lines_of(&cs);
        let ghost lv = strings_view(lines@);
        let mut i: usize = 0;
        proof {
            assert(results_view(self.results@) =~= Seq::<ResultView>::empty());
        }
        while i < lines.len()
            invariant
                i <= lines.len(),
                lv == strings_view(lines@),
                lv == text_lines(stdout@),
                !self.searching,
                results_view(self.results@) == rg_collect(lv, i as int),
                self.total_matches == self.results@.len(),
                self.results@.len() <= SEARCH_RESULT_LIMIT,
                forall|j: int| 0 <= j < self.results@.len() ==> (#[trigger] self.results@[j]).context_before@.len() == 0
                    && self.results@[j].context_after@.len() == 0,
                self.query@ == old(self).query@,
                self.selected == old(self).selected,
                self.open == old(self).open,
            decreases lines.len() - i,
        {
            if self.results.len() < SEARCH_RESULT_LIMIT {
                let line = lines[i].as_str();
                let ty = get(Some(line), "type");
                let tys = str_of(as_opt_str(&ty));
                let is_match = match &tys {
                    Some(t) => crate::text::str_is(&chars_of(t.as_str()), "match"),
                    None => false,
                };
                if is_match {
                    let data = get(Some(line), "data");
                    let path = get(as_opt_str(&data), "path");
                    let file = str_of(as_opt_str(&get(as_opt_str(&path), "text")));
                    let line_no = u64_of(as_opt_str(&get(as_opt_str(&data), "line_number")));
                    let subs = get(as_opt_str(&data), "submatches");
                    let col = u64_of(as_opt_str(&get(as_opt_str(&first(as_opt_str(&subs))), "start")));
                    let lines_v = get(as_opt_str(&data), "lines");
                    let text = str_of(as_opt_str(&get(as_opt_str(&lines_v), "text")));
                    let ghost r0 = self.results@;
                    self.add_match(as_opt_str(&file), line_no, col, as_opt_str(&text));
                    proof {
                        assert(results_view(self.results@) =~= results_view(r0).push(results_view(self.results@).last()));
                        assert forall|j: int| 0 <= j < self.results@.len() implies (#[trigger] self.results@[j]).context_before@.len() == 0
                            && self.results@[j].context_after@.len() == 0 by {
                            if j < r0.len() {
                                assert(self.results@[j] == self.results@.drop_last()[j]);
                            }
                        }
                    }
                }
            }
            i = i + 1;
        }
    }

    /// The selected result as a `file:line` string for prompt injection.
    pub fn selected_ref(&self) -> (r: Option<String>)
        ensures
            match r {
                Some(s) => self.selected < self.results@.len() && s@ == result_ref(
                    self.results@[self.selected as int],
                ),
                None => self.selected >= self.results@.len(),
            },
    {
        if self.selected < self.results.len() {
            let res = &self.results[self.selected];
            let mut head = chars_of(res.file.as_str());
            head.push(':');
            let num = decimal_exec(res.line as usize);
            Some(string_of(&concat_vec(&head, &num)))
        } else {
            None
        }
    }
}

impl Default for GlobalSearchState {
    fn default() -> (r: Self)
        ensures
            !r.open,
            r.query@ == Seq::<char>::empty(),
            r.results@.len() == 0,
            r.selected == 0,
    {
        GlobalSearchState::new()
    }
}

// ---------------------------------------------------------------------------
// Matching text in the help and search overlays
// ---------------------------------------------------------------------------

/// `needle` occurs in `hay`.
pub open spec fn occurs_in(hay: Seq<char>, needle: Seq<char>) -> bool {
    find_from(hay, needle, 0) is Some
}

/// A help entry is shown for `filter`: the lowercased filter is empty, or
/// occurs in the lowercased name, aliases or description.
pub open spec fn help_entry_matches_spec(e: HelpEntry, filter: Seq<char>) -> bool {
    let f = lowercase_str(filter);
    ||| f.len() == 0
    ||| occurs_in(lowercase_str(e.name@), f)
    ||| occurs_in(lowercase_str(e.aliases@), f)
    ||| occurs_in(lowercase_str(e.description@), f)
}

fn lowercase_chars(s: &str) -> (r: Vec<char>)
    ensures
        r@ == lowercase_str(s@),
        utf8_len(r@) <= usize::MAX,
{
    chars_of(str_to_lowercase(s).as_str())
}

/// Whether the help overlay shows `e` for the typed `filter` (compared
/// without regard to case).
pub fn help_entry_matches(e: &HelpEntry, filter: &str) -> (b: bool)
    ensures
        b == help_entry_matches_spec(*e, filter@),
{
    let f = lowercase_chars(filter);
    if f.len() == 0 {
        return true;
    }
    let name = lowercase_chars(e.name.as_str());
    if find_from_exec(&name, &f, 0).is_some() {
        return true;
    }
    let aliases = lowercase_chars(e.aliases.as_str());
    if find_from_exec(&aliases, &f, 0).is_some() {
        return true;
    }
    let description = lowercase_chars(e.description.as_str());
    find_from_exec(&description, &f, 0).is_some()
}

/// Where a search result's text shows the query: the byte range of the first
/// occurrence of the lowercased query in the lowercased text, when it is not
/// empty and both ends are character boundaries of `text` itself; none
/// otherwise.
pub open spec fn highlight_split_spec(text: Seq<char>, query: Seq<char>) -> Option<(int, int)> {
    let q = lowercase_str(query);
    let l = lowercase_str(text);
    if q.len() == 0 {
        None
    } else {
        match find_from(l, q, 0) {
            Some(j) => {
                let a = byte_offset(l, j) as int;
                let b = a + utf8_len(q);
                if is_boundary(text, a) && is_boundary(text, b) {
                    Some((a, b))
                } else {
                    None
                }
            },
            None => None,
        }
    }
}

/// The byte range of `text` to highlight for `query` (see
/// `highlight_split_spec`); `text[a..b]` is then a valid slice.
pub fn highlight_split(text: &str, query: &str) -> (r: Option<(usize, usize)>)
    ensures
        match highlight_split_spec(text@, query@) {
            Some((a, b)) => r == Some((a as usize, b as usize)) && a <= b,
            None => r is None,
        },
{
    let q = lowercase_chars(query);
    if q.len() == 0 {
        return None;
    }
    let l = lowercase_chars(text);
    proof {
        lemma_find_from(l@, q@, 0);
    }
    match find_from_exec(&l, &q, 0) {
        Some(j) => {
            let a = index_to_byte(&l, j);
            let qb = byte_len(&q);
            proof {
                lemma_len_subrange(l@, j as int, j + q.len());
                assert(l@.subrange(j as int, j + q.len()) == q@);
                lemma_offset_bound(l@, j + q.len());
            }
            let b = a + qb;
            let tc = chars_of(text);
            if check_boundary(&tc, a) && check_boundary(&tc, b) {
                Some((a, b))
            } else {
                None
            }
        },
        None => None,
    }
}

/// The fields of a search result that ripgrep reports.
pub ghost struct ResultView {
    pub file: Seq<char>,
    pub line: u32,
    pub col: u32,
    pub text: Seq<char>,
}

pub open spec fn results_view(r: Seq<SearchResult>) -> Seq<ResultView> {
    r.map_values(|x: SearchResult| ResultView { file: x.file@, line: x.line, col: x.col, text: x.text@ })
}

pub open spec fn or_empty(o: Option<Seq<char>>) -> Seq<char> {
    match o {
        Some(s) => s,
        None => Seq::empty(),
    }
}

/// The result recorded for one line of ripgrep's JSON output: a line whose
/// `type` is the string `match` gives the file `data.path.text`, the line
/// `data.line_number`, the column `data.submatches[0].start` (missing ones
/// empty or 0, numbers taken modulo 2^32) and the text `data.lines.text`
/// without trailing newlines; any other line gives nothing.
pub open spec fn rg_match(line: Seq<char>) -> Option<ResultView> {
    let v = Some(line);
    if json_str_of(json_get(v, "type"@)) == Some("match"@) {
        let data = json_get(v, "data"@);
        Some(
            ResultView {
                file: or_empty(json_str_of(json_get(json_get(data, "path"@), "text"@))),
                line: u64_or_zero(json_u64_of(json_get(data, "line_number"@))) as u32,
                col: u64_or_zero(json_u64_of(json_get(json_first(json_get(data, "submatches"@)), "start"@))) as u32,
                text: trim_newlines_end(or_empty(json_str_of(json_get(json_get(data, "lines"@), "text"@)))),
            },
        )
    } else {
        None
    }
}

/// The results recorded from the first `n` of `lines`, stopping at 500.
pub open spec fn rg_collect(lines: Seq<Seq<char>>, n: int) -> Seq<ResultView>
    decreases n,
{
    if n <= 0 {
        Seq::empty()
    } else {
        let acc = rg_collect(lines, n - 1);
        if acc.len() >= SEARCH_RESULT_LIMIT {
            acc
        } else {
            match rg_match(lines[n - 1]) {
                Some(r) => acc.push(r),
                None => acc,
            }
        }
    }
}

fn as_opt_str(o: &Option<String>) -> (r: Option<&str>)
    ensures
        opt_str(r) == opt_text(*o),
{
    match o {
        Some(s) => Some(s.as_str()),
        None => None,
    }
}

/// The pinned entry texts stored in the pins file text `json`: the strings
/// of its array when every item is a string, none otherwise.
pub open spec fn pinned_texts_spec(json: Seq<char>) -> Seq<Seq<char>> {
    match json_array(json) {
        Some(a) => if forall|i: int| 0 <= i < a.len() ==> (#[trigger] json_string(a[i])) is Some {
            a.map_values(|t: Seq<char>| json_string(t).unwrap())
        } else {
            Seq::empty()
        },
        None => Seq::empty(),
    }
}

/// The pinned entry texts stored in the pins file text (see
/// `pinned_texts_spec`); the caller keeps them as a set.
pub fn pinned_texts_from(json: &str) -> (r: Vec<String>)
    ensures
        texts_view(r@) == pinned_texts_spec(json@),
{
    match items(json) {
        Some(a) => {
            let ghost av = texts_view(a@);
            let mut out: Vec<String> = Vec::new();
            let mut i: usize = 0;
            while i < a.len()
                invariant
                    i <= a.len(),
                    av == texts_view(a@),
                    json_array(json@) == Some(av),
                    forall|j: int| 0 <= j < i ==> (#[trigger] json_string(av[j])) is Some,
                    texts_view(out@) == av.take(i as int).map_values(|t: Seq<char>| json_string(t).unwrap()),
                decreases a.len() - i,
            {
                match crate::json::str_of(Some(a[i].as_str())) {
                    Some(t) => {
                        let ghost o0 = texts_view(out@);
                        out.push(t);
                        proof {
                            assert(av[i as int] == a@[i as int]@);
                            assert(texts_view(out@) =~= o0.push(json_string(av[i as int]).unwrap()));
                            assert(av.take(i as int + 1).map_values(|t: Seq<char>| json_string(t).unwrap())
                                =~= av.take(i as int).map_values(|t: Seq<char>| json_string(t).unwrap()).push(json_string(av[i as int]).unwrap()));
                        }
                    },
                    None => {
                        proof {
                            assert(av[i as int] == a@[i as int]@);
                            assert(!(forall|j: int| 0 <= j < av.len() ==> (#[trigger] json_string(av[j])) is Some));
                        }
                        let none: Vec<String> = Vec::new();
                        assert(texts_view(none@) =~= Seq::<Seq<char>>::empty());
                        assert(json_array(json@) == Some(av));
                        assert(json_string(av[i as int]) is None);
                        assert(pinned_texts_spec(json@) == Seq::<Seq<char>>::empty());
                        return none;
                    },
                }
                i = i + 1;
            }
            proof {
                assert(av.take(a.len() as int) =~= av);
            }
            out
        },
        None => {
            let none: Vec<String> = Vec::new();
            assert(texts_view(none@) =~= Seq::<Seq<char>>::empty());
            none
        },
    }
}

} // verus!
