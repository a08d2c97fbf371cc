//! The vim key state machine of the prompt editor.
//!
//! `apply_vim_key` processes one key press. Its behaviour is stated by
//! `key_spec`, a function of the mode, the text (as characters), the byte
//! cursor, the key, the yank buffer, the pending multi-key state and the last
//! character find.
use vstd::prelude::*;
use crate::text::{byte_len, byte_offset, byte_to_index, char_index, chars_of, cut, cut_vec, index_to_byte, is_boundary, is_digit, lemma_len_cut, lemma_len_splice, lemma_len_update, lemma_offset_bound, lemma_offset_full, lemma_offset_le, lemma_offset_step, lower_first, slice_vec, splice, splice_vec, string_of, to_lower_first, to_upper_first, unicode_uppercase, upper_first, utf8_len, is_uppercase, lemma_char_index};
use crate::motions::{b_index, b_target, big_b_index, big_b_target, big_e_index, big_e_target, big_w_index, big_w_target, e_index, e_target, find_index, find_target, first_nonblank_index, first_nonblank_target, goto_line_index, goto_line_target, last_line_index, last_line_target, lemma_nth_fwd_range, lemma_skip_bwd_range, line_end, line_end_index, line_start, line_start_index, nth_fwd, reverse_find, reverse_find_kind, skip_backward, skip_bwd, w_index, w_target, find_nth_forward, CharClass, VimFindKind};
use crate::numbers::{decimal, decimal_exec, parse_usize, parse_usize_exec};
use crate::text::is_word;

verus! {

// ---------------------------------------------------------------------------
// Types
// ---------------------------------------------------------------------------

/// Vim editor mode.
#[derive(Debug, Clone, Copy, PartialEq, Eq, Structural, Default)]
pub enum VimMode {
    #[default]
    Insert,
    Normal,
    Visual,
    /// Linewise visual selection (V).
    VisualLine,
    /// Block visual selection (Ctrl+V).
    VisualBlock,
    /// Command-line mode (:).
    Command,
    /// In-prompt forward search (/).
    Search,
}

impl VimMode {
    /// Status-line label of the mode.
    pub fn label(&self) -> (r: &'static str)
        ensures
            r@ == mode_label(*self),
    {
        match self {
            VimMode::Insert => "INSERT",
            VimMode::Normal => "NORMAL",
            VimMode::Visual => "VISUAL",
            VimMode::VisualLine => "VISUAL LINE",
            VimMode::VisualBlock => "VISUAL BLOCK",
            VimMode::Command => "COMMAND",
            VimMode::Search => "SEARCH",
        }
    }
}

pub open spec fn mode_label(m: VimMode) -> Seq<char> {
    match m {
        VimMode::Insert => "INSERT"@,
        VimMode::Normal => "NORMAL"@,
        VimMode::Visual => "VISUAL"@,
        VimMode::VisualLine => "VISUAL LINE"@,
        VimMode::VisualBlock => "VISUAL BLOCK"@,
        VimMode::Command => "COMMAND"@,
        VimMode::Search => "SEARCH"@,
    }
}

/// Vim operator type used with motion + operator combos.
#[derive(Debug, Clone, Copy, PartialEq, Eq, Structural)]
pub enum VimOperator {
    Delete,
    Change,
    Yank,
}

/// Pending multi-key vim command state.
#[derive(Debug, Clone, PartialEq, Default)]
pub enum VimPendingState {
    /// No pending command.
    #[default]
    Idle,
    /// Accumulating count digits before a command (e.g. `3` before `w`).
    Count { digits: String },
    /// Received `g`, waiting for second key.
    G { count: usize },
    /// Received operator (d/c/y), waiting for motion.
    Operator { op: VimOperator, count: usize },
    /// Received operator then additional count digits.
    OperatorCount { op: VimOperator, count: usize, digits: String },
    /// Received `dg`/`cg`/`yg`, waiting for second g key.
    OperatorG { op: VimOperator, count: usize },
    /// Received `f/F/t/T`, waiting for target char.
    Find { kind: VimFindKind, count: usize },
    /// Received `r`, waiting for replacement char.
    Replace { count: usize },
    /// Received `>` or `<`, waiting for second `>` or `<`.
    Indent { dir: char, count: usize },
    /// Received `"`, waiting for register name char.
    Register(char),
    /// After `"reg`, waiting for operator (y/d/p).
    RegisterOp(char),
    /// Received `m`, waiting for mark name char.
    Mark,
    /// Received `'`, waiting for mark name char for jump.
    JumpMark,
    /// Received `q`, waiting for register char to record into.
    MacroRecord,
    /// Received `@`, waiting for register char to replay.
    MacroReplay,
}

/// The pending state with its strings seen as character sequences.
pub ghost enum PendingView {
    Idle,
    Count(Seq<char>),
    G(usize),
    Operator(VimOperator, usize),
    OperatorCount(VimOperator, usize, Seq<char>),
    OperatorG(VimOperator, usize),
    Find(VimFindKind, usize),
    Replace(usize),
    Indent(char, usize),
    Register(char),
    RegisterOp(char),
    Mark,
    JumpMark,
    MacroRecord,
    MacroReplay,
}

impl View for VimPendingState {
    type V = PendingView;

    open spec fn view(&self) -> PendingView {
        match self {
            VimPendingState::Idle => PendingView::Idle,
            VimPendingState::Count { digits } => PendingView::Count(digits@),
            VimPendingState::G { count } => PendingView::G(*count),
            VimPendingState::Operator { op, count } => PendingView::Operator(*op, *count),
            VimPendingState::OperatorCount { op, count, digits } => PendingView::OperatorCount(
                *op,
                *count,
                digits@,
            ),
            VimPendingState::OperatorG { op, count } => PendingView::OperatorG(*op, *count),
            VimPendingState::Find { kind, count } => PendingView::Find(*kind, *count),
            VimPendingState::Replace { count } => PendingView::Replace(*count),
            VimPendingState::Indent { dir, count } => PendingView::Indent(*dir, *count),
            VimPendingState::Register(c) => PendingView::Register(*c),
            VimPendingState::RegisterOp(c) => PendingView::RegisterOp(*c),
            VimPendingState::Mark => PendingView::Mark,
            VimPendingState::JumpMark => PendingView::JumpMark,
            VimPendingState::MacroRecord => PendingView::MacroRecord,
            VimPendingState::MacroReplay => PendingView::MacroReplay,
        }
    }
}

/// A copy of a pending state.
pub fn copy_pending(p: &VimPendingState) -> (r: VimPendingState)
    ensures
        r@ == p@,
{
    match p {
        VimPendingState::Idle => VimPendingState::Idle,
        VimPendingState::Count { digits } => VimPendingState::Count { digits: digits.clone() },
        VimPendingState::G { count } => VimPendingState::G { count: *count },
        VimPendingState::Operator { op, count } => VimPendingState::Operator { op: *op, count: *count },
        VimPendingState::OperatorCount { op, count, digits } => VimPendingState::OperatorCount {
            op: *op,
            count: *count,
            digits: digits.clone(),
        },
        VimPendingState::OperatorG { op, count } => VimPendingState::OperatorG {
            op: *op,
            count: *count,
        },
        VimPendingState::Find { kind, count } => VimPendingState::Find { kind: *kind, count: *count },
        VimPendingState::Replace { count } => VimPendingState::Replace { count: *count },
        VimPendingState::Indent { dir, count } => VimPendingState::Indent { dir: *dir, count: *count },
        VimPendingState::Register(c) => VimPendingState::Register(*c),
        VimPendingState::RegisterOp(c) => VimPendingState::RegisterOp(*c),
        VimPendingState::Mark => VimPendingState::Mark,
        VimPendingState::JumpMark => VimPendingState::JumpMark,
        VimPendingState::MacroRecord => VimPendingState::MacroRecord,
        VimPendingState::MacroReplay => VimPendingState::MacroReplay,
    }
}

// ---------------------------------------------------------------------------
// The outcome of one key
// ---------------------------------------------------------------------------

/// State after one key: mode, text, byte cursor, yank buffer, pending state,
/// last find, and whether the text was modified.
pub ghost struct KeyOut {
    pub mode: VimMode,
    pub text: Seq<char>,
    pub cursor: int,
    pub yank: Seq<char>,
    pub pending: PendingView,
    pub last_find: Option<(VimFindKind, char)>,
    pub modified: bool,
}

/// Executable counterpart of `KeyOut`, with the text as characters.
pub struct Edit {
    pub mode: VimMode,
    pub text: Vec<char>,
    pub cursor: usize,
    pub yank: Vec<char>,
    pub pending: VimPendingState,
    pub last_find: Option<(VimFindKind, char)>,
    pub modified: bool,
}

impl View for Edit {
    type V = KeyOut;

    open spec fn view(&self) -> KeyOut {
        KeyOut {
            mode: self.mode,
            text: self.text@,
            cursor: self.cursor as int,
            yank: self.yank@,
            pending: self.pending@,
            last_find: self.last_find,
            modified: self.modified,
        }
    }
}

pub open spec fn same(
    mode: VimMode,
    s: Seq<char>,
    cur: int,
    y: Seq<char>,
    p: PendingView,
    lf: Option<(VimFindKind, char)>,
) -> KeyOut {
    KeyOut { mode, text: s, cursor: cur, yank: y, pending: p, last_find: lf, modified: false }
}

/// `count.max(1)`.
pub open spec fn at_least_one(count: usize) -> nat {
    if count == 0 {
        1
    } else {
        count as nat
    }
}

pub open spec fn min_int(a: int, b: int) -> int {
    if a <= b {
        a
    } else {
        b
    }
}

/// The largest byte offset a normal-mode cursor may take: the length minus one,
/// or zero for an empty text.
pub open spec fn last_byte(s: Seq<char>) -> int {
    if s.len() == 0 {
        0
    } else {
        utf8_len(s) - 1
    }
}

/// Index just past the `'\n'` ending the line of `i`, or the length.
pub open spec fn line_end_incl(s: Seq<char>, i: int) -> int {
    if line_end(s, i) < s.len() {
        line_end(s, i) + 1
    } else {
        s.len() as int
    }
}

/// Room for the edits of one key: lengths far below the address space.
pub open spec fn room(s: Seq<char>, y: Seq<char>) -> bool {
    3 * (utf8_len(s) + utf8_len(y)) + 8 <= usize::MAX
}

/// A key that is a single ASCII character (a one-byte string).
pub open spec fn ascii_key(k: Seq<char>) -> bool {
    k.len() == 1 && (k[0] as u32) < 0x80
}

/// A key that is a single ASCII digit.
pub open spec fn digit_key(k: Seq<char>) -> bool {
    k.len() == 1 && is_digit(k[0])
}

/// A saturated decimal count: the value of `d`, or 10000 when it does not
/// parse, capped at 10000.
pub open spec fn capped_count(d: Seq<char>) -> nat {
    match parse_usize(d) {
        Some(v) => if v <= 10000 {
            v
        } else {
            10000
        },
        None => 10000,
    }
}

/// The value of `d`, or 1 when it does not parse.
pub open spec fn count_or_one(d: Seq<char>) -> nat {
    match parse_usize(d) {
        Some(v) => v,
        None => 1,
    }
}

// ---------------------------------------------------------------------------
// Repeated motions
// ---------------------------------------------------------------------------

/// Motions that a count repeats.
#[derive(Clone, Copy, PartialEq, Eq, Structural)]
pub enum Motion {
    W,
    B,
    E,
    BigW,
    BigB,
    BigE,
    Ge,
    BigGe,
}

/// `ge`: end of the previous word.
pub open spec fn ge_target(s: Seq<char>, i: int) -> int {
    if i <= 0 {
        0
    } else {
        let j = skip_bwd(s, i, CharClass::Space);
        if j == 0 {
            0
        } else if is_word(s[j - 1]) {
            skip_bwd(s, j - 1, CharClass::WordSolid)
        } else {
            skip_bwd(s, j - 1, CharClass::Punct)
        }
    }
}

/// `gE`: end of the previous WORD.
pub open spec fn big_ge_target(s: Seq<char>, i: int) -> int {
    if i <= 0 {
        0
    } else {
        let j = skip_bwd(s, i, CharClass::Space);
        if j == 0 {
            0
        } else {
            skip_bwd(s, j - 1, CharClass::Solid)
        }
    }
}

pub open spec fn step(m: Motion, s: Seq<char>, i: int) -> int {
    match m {
        Motion::W => w_target(s, i),
        Motion::B => b_target(s, i),
        Motion::E => e_target(s, i),
        Motion::BigW => big_w_target(s, i),
        Motion::BigB => big_b_target(s, i),
        Motion::BigE => big_e_target(s, i),
        Motion::Ge => ge_target(s, i),
        Motion::BigGe => big_ge_target(s, i),
    }
}

/// The motion `m` applied `n` times from `i`.
pub open spec fn iterate(m: Motion, s: Seq<char>, i: int, n: nat) -> int
    decreases n,
{
    if n == 0 {
        i
    } else {
        iterate(m, s, step(m, s, i), (n - 1) as nat)
    }
}

/// `gE` repeated `n` times never finds only whitespace before the cursor
/// (where the motion has no previous WORD end to go to).
pub open spec fn big_ge_safe(s: Seq<char>, i: int, n: nat) -> bool
    decreases n,
{
    n == 0 || i <= 0 || (skip_bwd(s, i, CharClass::Space) > 0 && big_ge_safe(
        s,
        big_ge_target(s, i),
        (n - 1) as nat,
    ))
}

pub proof fn lemma_iterate_fixpoint(m: Motion, s: Seq<char>, i: int, n: nat)
    requires
        step(m, s, i) == i,
    ensures
        iterate(m, s, i, n) == i,
    decreases n,
{
    if n > 0 {
        lemma_iterate_fixpoint(m, s, i, (n - 1) as nat);
    }
}

fn ge_index(cs: &Vec<char>, i: usize) -> (r: usize)
    requires
        i <= cs.len(),
    ensures
        r == ge_target(cs@, i as int),
        r <= i,
{
    if i == 0 {
        return 0;
    }
    let j = skip_backward(cs, i, CharClass::Space);
    if j == 0 {
        0
    } else if crate::text::is_word_char(cs[j - 1]) {
        proof {
            lemma_skip_bwd_range(cs@, j - 1, CharClass::WordSolid);
        }
        skip_backward(cs, j - 1, CharClass::WordSolid)
    } else {
        proof {
            lemma_skip_bwd_range(cs@, j - 1, CharClass::Punct);
        }
        skip_backward(cs, j - 1, CharClass::Punct)
    }
}

fn big_ge_index(cs: &Vec<char>, i: usize) -> (r: usize)
    requires
        i <= cs.len(),
    ensures
        r == big_ge_target(cs@, i as int),
        r <= i,
{
    if i == 0 {
        return 0;
    }
    let j = skip_backward(cs, i, CharClass::Space);
    if j == 0 {
        0
    } else {
        skip_backward(cs, j - 1, CharClass::Solid)
    }
}

fn step_index(m: Motion, cs: &Vec<char>, i: usize) -> (r: usize)
    requires
        i <= cs.len(),
    ensures
        r == step(m, cs@, i as int),
        r <= cs.len(),
{
    match m {
        Motion::W => w_index(cs, i),
        Motion::B => b_index(cs, i),
        Motion::E => e_index(cs, i),
        Motion::BigW => big_w_index(cs, i),
        Motion::BigB => big_b_index(cs, i),
        Motion::BigE => big_e_index(cs, i),
        Motion::Ge => ge_index(cs, i),
        Motion::BigGe => big_ge_index(cs, i),
    }
}

/// The motion `m` applied `n` times from `i` (stopping early at a fixpoint).
fn iterate_index(m: Motion, cs: &Vec<char>, i: usize, n: usize) -> (r: usize)
    requires
        i <= cs.len(),
    ensures
        r == iterate(m, cs@, i as int, n as nat),
        r <= cs.len(),
{
    let mut p = i;
    let mut k: usize = 0;
    while k < n
        invariant
            k <= n,
            p <= cs.len(),
            iterate(m, cs@, p as int, (n - k) as nat) == iterate(m, cs@, i as int, n as nat),
        decreases n - k,
    {
        let q = step_index(m, cs, p);
        if q == p {
            proof {
                lemma_iterate_fixpoint(m, cs@, p as int, (n - k) as nat);
            }
            return p;
        }
        p = q;
        k = k + 1;
    }
    p
}

// ---------------------------------------------------------------------------
// Operators over a range
// ---------------------------------------------------------------------------

/// The key that doubles an operator into a line operation.
pub open spec fn op_char(op: VimOperator) -> char {
    match op {
        VimOperator::Delete => 'd',
        VimOperator::Change => 'c',
        VimOperator::Yank => 'y',
    }
}

/// Apply `op` to the characters `[f, t)`: yank them, and delete them unless yanking.
pub open spec fn range_spec(
    op: VimOperator,
    mode: VimMode,
    s: Seq<char>,
    f: int,
    t: int,
    p: PendingView,
    lf: Option<(VimFindKind, char)>,
) -> KeyOut {
    let y = s.subrange(f, t);
    match op {
        VimOperator::Yank => KeyOut {
            mode,
            text: s,
            cursor: byte_offset(s, f) as int,
            yank: y,
            pending: p,
            last_find: lf,
            modified: false,
        },
        VimOperator::Delete => KeyOut {
            mode,
            text: cut(s, f, t),
            cursor: min_int(byte_offset(s, f) as int, last_byte(cut(s, f, t))),
            yank: y,
            pending: p,
            last_find: lf,
            modified: true,
        },
        VimOperator::Change => KeyOut {
            mode: VimMode::Insert,
            text: cut(s, f, t),
            cursor: byte_offset(s, f) as int,
            yank: y,
            pending: p,
            last_find: lf,
            modified: true,
        },
    }
}

pub proof fn lemma_len_ge_count(s: Seq<char>)
    ensures
        s.len() <= utf8_len(s),
{
    lemma_offset_bound(s, s.len() as int);
    lemma_offset_full(s);
}

/// The byte offset just before the end: `last_byte`.
fn last_byte_exec(cs: &Vec<char>) -> (r: usize)
    requires
        utf8_len(cs@) <= usize::MAX,
    ensures
        r == last_byte(cs@),
{
    let n = byte_len(cs);
    if cs.len() == 0 {
        0
    } else {
        proof {
            lemma_len_ge_count(cs@);
        }
        n - 1
    }
}

fn apply_operator_range(
    op: VimOperator,
    mode: VimMode,
    cs: Vec<char>,
    f: usize,
    t: usize,
    p: VimPendingState,
    lf: Option<(VimFindKind, char)>,
) -> (r: Edit)
    requires
        f <= t <= cs.len(),
        utf8_len(cs@) <= usize::MAX,
    ensures
        r@ == range_spec(op, mode, cs@, f as int, t as int, p@, lf),
        utf8_len(r.text@) <= utf8_len(cs@),
        utf8_len(r.yank@) <= utf8_len(cs@),
{
    let yk = slice_vec(&cs, f, t);
    let bf = index_to_byte(&cs, f);
    proof {
        crate::text::lemma_len_subrange(cs@, f as int, t as int);
        lemma_offset_le(cs@, f as int, t as int);
        lemma_offset_bound(cs@, t as int);
        lemma_offset_bound(cs@, f as int);
        lemma_len_cut(cs@, f as int, t as int);
    }
    match op {
        VimOperator::Yank => Edit {
            mode,
            text: cs,
            cursor: bf,
            yank: yk,
            pending: p,
            last_find: lf,
            modified: false,
        },
        VimOperator::Delete => {
            let s2 = cut_vec(&cs, f, t);
            let lb = last_byte_exec(&s2);
            let c = if bf <= lb {
                bf
            } else {
                lb
            };
            Edit { mode, text: s2, cursor: c, yank: yk, pending: p, last_find: lf, modified: true }
        },
        VimOperator::Change => {
            let s2 = cut_vec(&cs, f, t);
            Edit {
                mode: VimMode::Insert,
                text: s2,
                cursor: bf,
                yank: yk,
                pending: p,
                last_find: lf,
                modified: true,
            }
        },
    }
}

// ---------------------------------------------------------------------------
// Operator pending: `d`, `c`, `y` followed by a motion
// ---------------------------------------------------------------------------

/// The character index an operator motion key reaches, if the key is a motion.
pub open spec fn op_motion(k: Seq<char>, s: Seq<char>, i: int, count: usize) -> Option<int> {
    let n = at_least_one(count);
    if k.len() != 1 {
        None
    } else if k[0] == 'l' {
        Some(min_int(i + n, s.len() as int))
    } else if k[0] == 'w' {
        Some(iterate(Motion::W, s, i, n))
    } else if k[0] == 'b' {
        Some(iterate(Motion::B, s, i, n))
    } else if k[0] == 'e' {
        Some(iterate(Motion::E, s, i, n))
    } else if k[0] == 'W' {
        Some(iterate(Motion::BigW, s, i, n))
    } else if k[0] == 'B' {
        Some(iterate(Motion::BigB, s, i, n))
    } else if k[0] == 'E' {
        Some(iterate(Motion::BigE, s, i, n))
    } else if k[0] == '0' {
        Some(line_start(s, i))
    } else if k[0] == '^' {
        Some(first_nonblank_target(s, i))
    } else if k[0] == '$' {
        Some(line_end(s, i))
    } else if k[0] == 'G' {
        Some(
            if count == 1 {
                last_line_target(s)
            } else {
                goto_line_target(s, count as nat)
            },
        )
    } else {
        None
    }
}

/// Motions whose target character is included in the operated range.
pub open spec fn inclusive_key(k: Seq<char>) -> bool {
    k.len() == 1 && (k[0] == 'e' || k[0] == 'E' || k[0] == '$')
}

/// Byte offset that `h` with a count reaches inside an operator: one byte per step.
pub open spec fn op_h_target(cur: int, count: usize) -> int {
    let n = at_least_one(count);
    if n >= cur {
        0
    } else {
        cur - n
    }
}

/// Key after an operator (`d`, `c`, `y` with `count`); `p0` is the pending
/// state in force when the key arrives.
pub open spec fn operator_spec(
    mode: VimMode,
    s: Seq<char>,
    i: int,
    cur: int,
    k: Seq<char>,
    y: Seq<char>,
    lf: Option<(VimFindKind, char)>,
    op: VimOperator,
    count: usize,
    p0: PendingView,
) -> KeyOut {
    let n = at_least_one(count);
    if k == seq![op_char(op)] {
        let ls = line_start(s, i);
        let q = nth_fwd(s, i, '\n', n);
        let le = if q >= 0 {
            q + 1
        } else {
            s.len() as int
        };
        let yk = s.subrange(ls, le);
        if op == VimOperator::Yank {
            KeyOut {
                mode,
                text: s,
                cursor: cur,
                yank: yk,
                pending: p0,
                last_find: lf,
                modified: false,
            }
        } else {
            KeyOut {
                mode: if op == VimOperator::Change {
                    VimMode::Insert
                } else {
                    mode
                },
                text: cut(s, ls, le),
                cursor: byte_offset(s, ls) as int,
                yank: yk,
                pending: p0,
                last_find: lf,
                modified: true,
            }
        }
    } else if digit_key(k) {
        same(mode, s, cur, y, PendingView::OperatorCount(op, count, k), lf)
    } else if k == seq!['g'] {
        same(mode, s, cur, y, PendingView::OperatorG(op, count), lf)
    } else if k == seq!['h'] {
        let tb = op_h_target(cur, count);
        if tb == cur {
            same(mode, s, cur, y, p0, lf)
        } else {
            range_spec(op, mode, s, char_index(s, tb), i, p0, lf)
        }
    } else {
        match op_motion(k, s, i, count) {
            None => same(mode, s, cur, y, p0, lf),
            Some(t) => if t == i {
                same(mode, s, cur, y, p0, lf)
            } else {
                let f = min_int(t, i);
                let to = if t <= i {
                    i
                } else {
                    t
                };
                let to2 = if inclusive_key(k) {
                    min_int(to + 1, s.len() as int)
                } else {
                    to
                };
                range_spec(op, mode, s, f, to2, p0, lf)
            },
        }
    }
}

/// What the operator key needs to run without slicing inside a character:
/// `h` moves back byte by byte and must land on a character boundary.
pub open spec fn operator_ok(s: Seq<char>, cur: int, k: Seq<char>, count: usize) -> bool {
    k == seq!['h'] ==> is_boundary(s, op_h_target(cur, count))
}

fn op_char_exec(op: VimOperator) -> (c: char)
    ensures
        c == op_char(op),
{
    match op {
        VimOperator::Delete => 'd',
        VimOperator::Change => 'c',
        VimOperator::Yank => 'y',
    }
}

/// `k` is the single character `c`.
pub fn key1(k: &Vec<char>, c: char) -> (b: bool)
    ensures
        b == (k@ == seq![c]),
{
    if k.len() == 1 && k[0] == c {
        assert(k@ =~= seq![c]);
        true
    } else {
        false
    }
}

fn key2(k: &Vec<char>, a: char, c: char) -> (b: bool)
    ensures
        b == (k@ == seq![a, c]),
{
    if k.len() == 2 && k[0] == a && k[1] == c {
        assert(k@ =~= seq![a, c]);
        true
    } else {
        false
    }
}

fn op_motion_exec(k: &Vec<char>, cs: &Vec<char>, i: usize, count: usize) -> (r: Option<usize>)
    requires
        i <= cs.len(),
    ensures
        match op_motion(k@, cs@, i as int, count) {
            None => r is None,
            Some(t) => r == Some(t as usize) && 0 <= t <= cs.len(),
        },
{
    let n = if count == 0 {
        1
    } else {
        count
    };
    if k.len() != 1 {
        return None;
    }
    let c = k[0];
    if c == 'l' {
        Some(
            if n >= cs.len() - i {
                cs.len()
            } else {
                i + n
            },
        )
    } else if c == 'w' {
        Some(iterate_index(Motion::W, cs, i, n))
    } else if c == 'b' {
        Some(iterate_index(Motion::B, cs, i, n))
    } else if c == 'e' {
        Some(iterate_index(Motion::E, cs, i, n))
    } else if c == 'W' {
        Some(iterate_index(Motion::BigW, cs, i, n))
    } else if c == 'B' {
        Some(iterate_index(Motion::BigB, cs, i, n))
    } else if c == 'E' {
        Some(iterate_index(Motion::BigE, cs, i, n))
    } else if c == '0' {
        Some(line_start_index(cs, i))
    } else if c == '^' {
        Some(first_nonblank_index(cs, i))
    } else if c == '$' {
        Some(line_end_index(cs, i))
    } else if c == 'G' {
        Some(
            if count == 1 {
                last_line_index(cs)
            } else {
                goto_line_index(cs, count)
            },
        )
    } else {
        None
    }
}

fn vim_operator(
    mode: VimMode,
    cs: Vec<char>,
    i: usize,
    cur: usize,
    k: &Vec<char>,
    y: Vec<char>,
    lf: Option<(VimFindKind, char)>,
    op: VimOperator,
    count: usize,
    p0: VimPendingState,
) -> (r: Edit)
    requires
        i <= cs.len(),
        cur == byte_offset(cs@, i as int),
        utf8_len(cs@) <= usize::MAX,
        operator_ok(cs@, cur as int, k@, count),
    ensures
        r@ == operator_spec(mode, cs@, i as int, cur as int, k@, y@, lf, op, count, p0@),
        utf8_len(r.text@) <= utf8_len(cs@),
        utf8_len(r.yank@) <= utf8_len(cs@) + utf8_len(y@),
{
    let n = if count == 0 {
        1
    } else {
        count
    };
    if key1(k, op_char_exec(op)) {
        let ls = line_start_index(&cs, i);
        let le = match find_nth_forward(&cs, i, '\n', n) {
            Some(q) => {
                proof {
                    lemma_nth_fwd_range(cs@, i as int, '\n', n as nat);
                }
                q + 1
            },
            None => cs.len(),
        };
        proof {
            lemma_nth_fwd_range(cs@, i as int, '\n', n as nat);
            crate::text::lemma_len_subrange(cs@, ls as int, le as int);
            lemma_offset_le(cs@, ls as int, le as int);
            lemma_offset_bound(cs@, le as int);
            lemma_len_cut(cs@, ls as int, le as int);
        }
        let yk = slice_vec(&cs, ls, le);
        if op == VimOperator::Yank {
            return Edit {
                mode,
                text: cs,
                cursor: cur,
                yank: yk,
                pending: p0,
                last_find: lf,
                modified: false,
            };
        } else {
            let bl = index_to_byte(&cs, ls);
            let s2 = cut_vec(&cs, ls, le);
            return Edit {
                mode: if op == VimOperator::Change {
                    VimMode::Insert
                } else {
                    mode
                },
                text: s2,
                cursor: bl,
                yank: yk,
                pending: p0,
                last_find: lf,
                modified: true,
            };
        }
    }
    if k.len() == 1 && crate::text::is_ascii_digit(k[0]) {
        let d = string_of(k);
        return Edit {
            mode,
            text: cs,
            cursor: cur,
            yank: y,
            pending: VimPendingState::OperatorCount { op, count, digits: d },
            last_find: lf,
            modified: false,
        };
    }
    if key1(k, 'g') {
        return Edit {
            mode,
            text: cs,
            cursor: cur,
            yank: y,
            pending: VimPendingState::OperatorG { op, count },
            last_find: lf,
            modified: false,
        };
    }
    if key1(k, 'h') {
        let tb = if n >= cur {
            0
        } else {
            cur - n
        };
        if tb == cur {
            return Edit {
                mode,
                text: cs,
                cursor: cur,
                yank: y,
                pending: p0,
                last_find: lf,
                modified: false,
            };
        }
        let f = byte_to_index(&cs, tb);
        proof {
            lemma_char_index(cs@, tb as int);
            if f >= i {
                lemma_offset_le(cs@, i as int, f as int);
            }
        }
        return apply_operator_range(op, mode, cs, f, i, p0, lf);
    }
    match op_motion_exec(k, &cs, i, count) {
        None => Edit {
            mode,
            text: cs,
            cursor: cur,
            yank: y,
            pending: p0,
            last_find: lf,
            modified: false,
        },
        Some(t) => {
            if t == i {
                Edit {
                    mode,
                    text: cs,
                    cursor: cur,
                    yank: y,
                    pending: p0,
                    last_find: lf,
                    modified: false,
                }
            } else {
                let f = if t <= i {
                    t
                } else {
                    i
                };
                let to = if t <= i {
                    i
                } else {
                    t
                };
                let incl = k.len() == 1 && (k[0] == 'e' || k[0] == 'E' || k[0] == '$');
                let to2 = if incl {
                    if to < cs.len() {
                        to + 1
                    } else {
                        cs.len()
                    }
                } else {
                    to
                };
                apply_operator_range(op, mode, cs, f, to2, p0, lf)
            }
        },
    }
}

/// Key after operator count digits (`d2` ...).
pub open spec fn operator_count_spec(
    mode: VimMode,
    s: Seq<char>,
    i: int,
    cur: int,
    k: Seq<char>,
    y: Seq<char>,
    lf: Option<(VimFindKind, char)>,
    op: VimOperator,
    count: usize,
    digits: Seq<char>,
) -> KeyOut {
    if digit_key(k) {
        same(
            mode,
            s,
            cur,
            y,
            PendingView::OperatorCount(op, count, decimal(capped_count(digits + k))),
            lf,
        )
    } else {
        let eff = effective_count(count, count_or_one(digits));
        operator_spec(mode, s, i, cur, k, y, lf, op, eff, PendingView::Operator(op, eff))
    }
}

/// `count.saturating_mul(motion_count).min(10000)`.
pub open spec fn effective_count(count: usize, mc: nat) -> usize {
    let prod = count * mc;
    if prod >= 10000 {
        10000
    } else {
        prod as usize
    }
}

fn capped_count_exec(d: &Vec<char>) -> (r: usize)
    ensures
        r == capped_count(d@),
{
    match parse_usize_exec(d) {
        Some(v) => if v <= 10000 {
            v
        } else {
            10000
        },
        None => 10000,
    }
}

fn count_or_one_exec(d: &Vec<char>) -> (r: usize)
    ensures
        r == count_or_one(d@),
{
    match parse_usize_exec(d) {
        Some(v) => v,
        None => 1,
    }
}

fn effective_count_exec(count: usize, mc: usize) -> (r: usize)
    ensures
        r == effective_count(count, mc as nat),
{
    match count.checked_mul(mc) {
        Some(p) => if p >= 10000 {
            10000
        } else {
            p
        },
        None => 10000,
    }
}

/// Digits `d` followed by the digit key `k`, as a capped count numeral.
fn next_digits(d: &Vec<char>, k: &Vec<char>) -> (r: String)
    ensures
        r@ == decimal(capped_count(d@ + k@)),
{
    let nd = crate::text::concat_vec(d, k);
    let c = capped_count_exec(&nd);
    let v = decimal_exec(c);
    string_of(&v)
}

/// Key after `dg`, `cg`, `yg`.
pub open spec fn operator_g_spec(
    mode: VimMode,
    s: Seq<char>,
    i: int,
    cur: int,
    k: Seq<char>,
    y: Seq<char>,
    lf: Option<(VimFindKind, char)>,
    op: VimOperator,
    count: usize,
) -> KeyOut {
    if k == seq!['g'] {
        let target = if count > 1 {
            goto_line_target(s, count as nat)
        } else {
            0
        };
        let f = min_int(target, i);
        let t = if target <= i {
            i
        } else {
            target
        };
        range_spec(op, mode, s, f, line_end_incl(s, t), PendingView::Idle, lf)
    } else {
        same(mode, s, cur, y, PendingView::Idle, lf)
    }
}

pub fn line_end_incl_index(cs: &Vec<char>, i: usize) -> (r: usize)
    requires
        i <= cs.len(),
    ensures
        r == line_end_incl(cs@, i as int),
        i <= r <= cs.len(),
{
    let e = line_end_index(cs, i);
    if e < cs.len() {
        e + 1
    } else {
        cs.len()
    }
}

fn vim_operator_g(
    mode: VimMode,
    cs: Vec<char>,
    i: usize,
    cur: usize,
    k: &Vec<char>,
    y: Vec<char>,
    lf: Option<(VimFindKind, char)>,
    op: VimOperator,
    count: usize,
) -> (r: Edit)
    requires
        i <= cs.len(),
        utf8_len(cs@) <= usize::MAX,
    ensures
        r@ == operator_g_spec(mode, cs@, i as int, cur as int, k@, y@, lf, op, count),
        utf8_len(r.text@) <= utf8_len(cs@),
        utf8_len(r.yank@) <= utf8_len(cs@) + utf8_len(y@),
{
    if key1(k, 'g') {
        let target = if count > 1 {
            goto_line_index(&cs, count)
        } else {
            0
        };
        let f = if target <= i {
            target
        } else {
            i
        };
        let t = if target <= i {
            i
        } else {
            target
        };
        let te = line_end_incl_index(&cs, t);
        apply_operator_range(op, mode, cs, f, te, VimPendingState::Idle, lf)
    } else {
        Edit {
            mode,
            text: cs,
            cursor: cur,
            yank: y,
            pending: VimPendingState::Idle,
            last_find: lf,
            modified: false,
        }
    }
}

// ---------------------------------------------------------------------------
// `g` prefix, finds, replace
// ---------------------------------------------------------------------------

pub open spec fn moved(
    mode: VimMode,
    s: Seq<char>,
    y: Seq<char>,
    lf: Option<(VimFindKind, char)>,
    j: int,
) -> KeyOut {
    same(mode, s, byte_offset(s, j) as int, y, PendingView::Idle, lf)
}

/// Key after `g` (with `count`).
pub open spec fn g_spec(
    mode: VimMode,
    s: Seq<char>,
    i: int,
    cur: int,
    k: Seq<char>,
    y: Seq<char>,
    lf: Option<(VimFindKind, char)>,
    count: usize,
) -> KeyOut {
    let n = at_least_one(count);
    if k == seq!['g'] {
        moved(
            mode,
            s,
            y,
            lf,
            if count > 1 {
                goto_line_target(s, count as nat)
            } else {
                0
            },
        )
    } else if k == seq!['e'] {
        moved(mode, s, y, lf, iterate(Motion::Ge, s, i, n))
    } else if k == seq!['E'] {
        moved(mode, s, y, lf, iterate(Motion::BigGe, s, i, n))
    } else {
        same(mode, s, cur, y, PendingView::Idle, lf)
    }
}

fn moved_exec(
    mode: VimMode,
    cs: Vec<char>,
    y: Vec<char>,
    lf: Option<(VimFindKind, char)>,
    j: usize,
) -> (r: Edit)
    requires
        j <= cs.len(),
        utf8_len(cs@) <= usize::MAX,
    ensures
        r@ == moved(mode, cs@, y@, lf, j as int),
{
    let b = index_to_byte(&cs, j);
    Edit {
        mode,
        text: cs,
        cursor: b,
        yank: y,
        pending: VimPendingState::Idle,
        last_find: lf,
        modified: false,
    }
}

fn vim_g(
    mode: VimMode,
    cs: Vec<char>,
    i: usize,
    cur: usize,
    k: &Vec<char>,
    y: Vec<char>,
    lf: Option<(VimFindKind, char)>,
    count: usize,
) -> (r: Edit)
    requires
        i <= cs.len(),
        utf8_len(cs@) <= usize::MAX,
    ensures
        r@ == g_spec(mode, cs@, i as int, cur as int, k@, y@, lf, count),
{
    let n = if count == 0 {
        1
    } else {
        count
    };
    if key1(k, 'g') {
        let t = if count > 1 {
            goto_line_index(&cs, count)
        } else {
            0
        };
        moved_exec(mode, cs, y, lf, t)
    } else if key1(k, 'e') {
        let t = iterate_index(Motion::Ge, &cs, i, n);
        moved_exec(mode, cs, y, lf, t)
    } else if key1(k, 'E') {
        let t = iterate_index(Motion::BigGe, &cs, i, n);
        moved_exec(mode, cs, y, lf, t)
    } else {
        Edit {
            mode,
            text: cs,
            cursor: cur,
            yank: y,
            pending: VimPendingState::Idle,
            last_find: lf,
            modified: false,
        }
    }
}

/// Key after `f`/`F`/`t`/`T`: the target character.
pub open spec fn find_spec(
    mode: VimMode,
    s: Seq<char>,
    i: int,
    cur: int,
    k: Seq<char>,
    y: Seq<char>,
    lf: Option<(VimFindKind, char)>,
    kind: VimFindKind,
    count: usize,
) -> KeyOut {
    if ascii_key(k) {
        match find_target(s, i, k[0], kind, count as nat) {
            Some(p) => same(mode, s, byte_offset(s, p) as int, y, PendingView::Idle, Some((kind, k[0]))),
            None => same(mode, s, cur, y, PendingView::Idle, lf),
        }
    } else {
        same(mode, s, cur, y, PendingView::Idle, lf)
    }
}

fn find_key(
    mode: VimMode,
    cs: Vec<char>,
    i: usize,
    cur: usize,
    k: &Vec<char>,
    y: Vec<char>,
    lf: Option<(VimFindKind, char)>,
    kind: VimFindKind,
    count: usize,
) -> (r: Edit)
    requires
        i <= cs.len(),
        utf8_len(cs@) <= usize::MAX,
    ensures
        r@ == find_spec(mode, cs@, i as int, cur as int, k@, y@, lf, kind, count),
{
    if k.len() == 1 && (k[0] as u32) < 0x80 {
        let c = k[0];
        match find_index(&cs, i, c, kind, count) {
            Some(p) => {
                let b = index_to_byte(&cs, p);
                Edit {
                    mode,
                    text: cs,
                    cursor: b,
                    yank: y,
                    pending: VimPendingState::Idle,
                    last_find: Some((kind, c)),
                    modified: false,
                }
            },
            None => Edit {
                mode,
                text: cs,
                cursor: cur,
                yank: y,
                pending: VimPendingState::Idle,
                last_find: lf,
                modified: false,
            },
        }
    } else {
        Edit {
            mode,
            text: cs,
            cursor: cur,
            yank: y,
            pending: VimPendingState::Idle,
            last_find: lf,
            modified: false,
        }
    }
}

/// `s` with the characters `[i, e)` all replaced by `c`.
pub open spec fn replace_run(s: Seq<char>, i: int, e: int, c: char) -> Seq<char> {
    s.take(i) + Seq::new((e - i) as nat, |_j: int| c) + s.skip(e)
}

/// Key after `r` (with `count`): the replacement character.
pub open spec fn replace_spec(
    mode: VimMode,
    s: Seq<char>,
    i: int,
    cur: int,
    k: Seq<char>,
    y: Seq<char>,
    lf: Option<(VimFindKind, char)>,
    count: usize,
) -> KeyOut {
    if ascii_key(k) {
        let e = min_int(i + at_least_one(count), s.len() as int);
        let s2 = replace_run(s, i, e, k[0]);
        KeyOut {
            mode,
            text: s2,
            cursor: min_int(cur, last_byte(s2)),
            yank: y,
            pending: PendingView::Idle,
            last_find: lf,
            modified: i < s.len(),
        }
    } else {
        same(mode, s, cur, y, PendingView::Idle, lf)
    }
}

proof fn lemma_len_ascii_run(n: nat, c: char)
    requires
        (c as u32) < 0x80,
    ensures
        utf8_len(Seq::new(n, |_j: int| c)) == n,
    decreases n,
{
    if n > 0 {
        assert(Seq::new(n, |_j: int| c).drop_last() =~= Seq::new((n - 1) as nat, |_j: int| c));
        lemma_len_ascii_run((n - 1) as nat, c);
    }
}

fn replace_key(
    mode: VimMode,
    cs: Vec<char>,
    i: usize,
    cur: usize,
    k: &Vec<char>,
    y: Vec<char>,
    lf: Option<(VimFindKind, char)>,
    count: usize,
) -> (r: Edit)
    requires
        i <= cs.len(),
        utf8_len(cs@) <= usize::MAX,
    ensures
        r@ == replace_spec(mode, cs@, i as int, cur as int, k@, y@, lf, count),
        utf8_len(r.text@) <= utf8_len(cs@),
{
    if k.len() == 1 && (k[0] as u32) < 0x80 {
        let c = k[0];
        let n = if count == 0 {
            1
        } else {
            count
        };
        let e = if n >= cs.len() - i {
            cs.len()
        } else {
            i + n
        };
        let mut s2: Vec<char> = Vec::new();
        let mut j: usize = 0;
        while j < cs.len()
            invariant
                j <= cs.len(),
                i <= e <= cs.len(),
                s2@.len() == j,
                forall|m: int|
                    0 <= m < j ==> #[trigger] s2@[m] == replace_run(cs@, i as int, e as int, c)[m],
            decreases cs.len() - j,
        {
            if i <= j && j < e {
                s2.push(c);
            } else {
                s2.push(cs[j]);
            }
            j = j + 1;
        }
        assert(s2@ =~= replace_run(cs@, i as int, e as int, c));
        proof {
            let run = Seq::new((e - i) as nat, |_j: int| c);
            lemma_len_ascii_run((e - i) as nat, c);
            crate::text::lemma_len_concat(cs@.take(i as int), run);
            crate::text::lemma_len_concat(cs@.take(i as int) + run, cs@.skip(e as int));
            crate::text::lemma_len_subrange(cs@, i as int, e as int);
            lemma_offset_le(cs@, i as int, e as int);
            lemma_offset_bound(cs@, e as int);
            lemma_offset_bound(cs@, i as int);
            assert(cs@ =~= cs@.take(i as int) + cs@.subrange(i as int, e as int) + cs@.skip(
                e as int,
            ));
            crate::text::lemma_len_concat(cs@.take(i as int), cs@.subrange(i as int, e as int));
            crate::text::lemma_len_concat(
                cs@.take(i as int) + cs@.subrange(i as int, e as int),
                cs@.skip(e as int),
            );
            lemma_len_ge_count(cs@.subrange(i as int, e as int));
        }
        let lb = last_byte_exec(&s2);
        let c2 = if cur <= lb {
            cur
        } else {
            lb
        };
        Edit {
            mode,
            text: s2,
            cursor: c2,
            yank: y,
            pending: VimPendingState::Idle,
            last_find: lf,
            modified: i < cs.len(),
        }
    } else {
        Edit {
            mode,
            text: cs,
            cursor: cur,
            yank: y,
            pending: VimPendingState::Idle,
            last_find: lf,
            modified: false,
        }
    }
}

// ---------------------------------------------------------------------------
// Normal-mode editing keys
// ---------------------------------------------------------------------------

/// `x`: delete the character under the cursor.
pub open spec fn x_spec(mode: VimMode, s: Seq<char>, i: int, cur: int, y: Seq<char>, lf: Option<(VimFindKind, char)>) -> KeyOut {
    if i < s.len() {
        let s2 = cut(s, i, i + 1);
        KeyOut { mode, text: s2, cursor: min_int(cur, last_byte(s2)), yank: s.subrange(i, i + 1), pending: PendingView::Idle, last_find: lf, modified: true }
    } else {
        same(mode, s, cur, y, PendingView::Idle, lf)
    }
}

/// `X`: delete the character before the cursor.
pub open spec fn big_x_spec(mode: VimMode, s: Seq<char>, i: int, cur: int, y: Seq<char>, lf: Option<(VimFindKind, char)>) -> KeyOut {
    if i > 0 {
        KeyOut { mode, text: cut(s, i - 1, i), cursor: byte_offset(s, i - 1) as int, yank: s.subrange(i - 1, i), pending: PendingView::Idle, last_find: lf, modified: true }
    } else {
        same(mode, s, cur, y, PendingView::Idle, lf)
    }
}

/// `D` (and `C` with `change`): delete to the end of the line.
pub open spec fn to_eol_spec(mode: VimMode, s: Seq<char>, i: int, cur: int, y: Seq<char>, lf: Option<(VimFindKind, char)>, change: bool) -> KeyOut {
    let le = line_end(s, i);
    if change {
        KeyOut { mode: VimMode::Insert, text: cut(s, i, le), cursor: cur, yank: s.subrange(i, le), pending: PendingView::Idle, last_find: lf, modified: true }
    } else if le > i {
        KeyOut { mode, text: cut(s, i, le), cursor: cur, yank: s.subrange(i, le), pending: PendingView::Idle, last_find: lf, modified: true }
    } else {
        same(mode, s, cur, y, PendingView::Idle, lf)
    }
}

/// `s`: substitute the character under the cursor.
pub open spec fn subst_spec(mode: VimMode, s: Seq<char>, i: int, cur: int, y: Seq<char>, lf: Option<(VimFindKind, char)>) -> KeyOut {
    if i < s.len() {
        KeyOut { mode: VimMode::Insert, text: cut(s, i, i + 1), cursor: cur, yank: s.subrange(i, i + 1), pending: PendingView::Idle, last_find: lf, modified: true }
    } else {
        same(mode, s, cur, y, PendingView::Idle, lf)
    }
}

/// `S`: substitute the line (without its newline).
pub open spec fn subst_line_spec(mode: VimMode, s: Seq<char>, i: int, y: Seq<char>, lf: Option<(VimFindKind, char)>) -> KeyOut {
    let ls = line_start(s, i);
    let le = line_end(s, i);
    KeyOut { mode: VimMode::Insert, text: cut(s, ls, le), cursor: byte_offset(s, ls) as int, yank: s.subrange(ls, le), pending: PendingView::Idle, last_find: lf, modified: true }
}

/// `Y` / `yy`: yank the line with its newline.
pub open spec fn yank_line_spec(mode: VimMode, s: Seq<char>, i: int, cur: int, lf: Option<(VimFindKind, char)>) -> KeyOut {
    same(mode, s, cur, s.subrange(line_start(s, i), line_end_incl(s, i)), PendingView::Idle, lf)
}

/// `dd`: delete the line with its newline.
pub open spec fn delete_line_spec(mode: VimMode, s: Seq<char>, i: int, lf: Option<(VimFindKind, char)>) -> KeyOut {
    let ls = line_start(s, i);
    let le = line_end_incl(s, i);
    KeyOut { mode, text: cut(s, ls, le), cursor: byte_offset(s, ls) as int, yank: s.subrange(ls, le), pending: PendingView::Idle, last_find: lf, modified: true }
}

/// `p` (after the cursor) and `P` (at the cursor): insert the yank buffer.
pub open spec fn put_spec(mode: VimMode, s: Seq<char>, i: int, cur: int, y: Seq<char>, lf: Option<(VimFindKind, char)>, after: bool) -> KeyOut {
    if y.len() > 0 {
        let at = if after {
            if i < s.len() { i + 1 } else { s.len() as int }
        } else {
            i
        };
        KeyOut { mode, text: splice(s, at, y), cursor: byte_offset(s, at) + utf8_len(y) - 1int, yank: y, pending: PendingView::Idle, last_find: lf, modified: true }
    } else {
        same(mode, s, cur, y, PendingView::Idle, lf)
    }
}

/// The case-toggled form of a character.
pub open spec fn toggled(c: char) -> char {
    if unicode_uppercase(c) {
        lower_first(c)
    } else {
        upper_first(c)
    }
}

/// `~`: toggle the case of the character under the cursor and move right.
pub open spec fn tilde_spec(mode: VimMode, s: Seq<char>, i: int, cur: int, y: Seq<char>, lf: Option<(VimFindKind, char)>) -> KeyOut {
    if i < s.len() {
        let s2 = s.update(i, toggled(s[i]));
        KeyOut { mode, text: s2, cursor: byte_offset(s2, i + 1) as int, yank: y, pending: PendingView::Idle, last_find: lf, modified: true }
    } else {
        same(mode, s, cur, y, PendingView::Idle, lf)
    }
}

/// `J`: join the next line, with a single space where there is none.
pub open spec fn join_spec(mode: VimMode, s: Seq<char>, i: int, cur: int, y: Seq<char>, lf: Option<(VimFindKind, char)>) -> KeyOut {
    let nl = line_end(s, i);
    if nl < s.len() {
        let s1 = cut(s, nl, nl + 1);
        let s2 = if nl < s1.len() && s1[nl] == ' ' { s1 } else { splice(s1, nl, seq![' ']) };
        KeyOut { mode, text: s2, cursor: cur, yank: y, pending: PendingView::Idle, last_find: lf, modified: true }
    } else {
        same(mode, s, cur, y, PendingView::Idle, lf)
    }
}

/// `o` (below) and `O` (above): open a new line and enter insert mode.
pub open spec fn open_line_spec(s: Seq<char>, i: int, y: Seq<char>, lf: Option<(VimFindKind, char)>, below: bool) -> KeyOut {
    if below {
        let le = line_end(s, i);
        KeyOut { mode: VimMode::Insert, text: splice(s, le, seq!['\n']), cursor: byte_offset(s, le) + 1int, yank: y, pending: PendingView::Idle, last_find: lf, modified: true }
    } else {
        let ls = line_start(s, i);
        KeyOut { mode: VimMode::Insert, text: splice(s, ls, seq!['\n']), cursor: byte_offset(s, ls) as int, yank: y, pending: PendingView::Idle, last_find: lf, modified: true }
    }
}

/// Requirements of the editing keys: the cursor is at character `i`, and the
/// lengths leave room for what an edit adds.
pub open spec fn edit_ctx(s: Seq<char>, i: int, cur: int, y: Seq<char>) -> bool {
    &&& 0 <= i <= s.len()
    &&& cur == byte_offset(s, i)
    &&& room(s, y)
}

fn x_key(mode: VimMode, cs: Vec<char>, i: usize, cur: usize, y: Vec<char>, lf: Option<(VimFindKind, char)>) -> (r: Edit)
    requires edit_ctx(cs@, i as int, cur as int, y@),
    ensures r@ == x_spec(mode, cs@, i as int, cur as int, y@, lf),
{
    if i < cs.len() {
        proof {
            lemma_len_cut(cs@, i as int, i as int + 1);
            crate::text::lemma_len_subrange(cs@, i as int, i as int + 1);
            lemma_offset_bound(cs@, i as int + 1);
        }
        let yk = slice_vec(&cs, i, i + 1);
        let s2 = cut_vec(&cs, i, i + 1);
        let lb = last_byte_exec(&s2);
        let c = if cur <= lb { cur } else { lb };
        Edit { mode, text: s2, cursor: c, yank: yk, pending: VimPendingState::Idle, last_find: lf, modified: true }
    } else {
        Edit { mode, text: cs, cursor: cur, yank: y, pending: VimPendingState::Idle, last_find: lf, modified: false }
    }
}

fn big_x_key(mode: VimMode, cs: Vec<char>, i: usize, cur: usize, y: Vec<char>, lf: Option<(VimFindKind, char)>) -> (r: Edit)
    requires edit_ctx(cs@, i as int, cur as int, y@),
    ensures r@ == big_x_spec(mode, cs@, i as int, cur as int, y@, lf),
{
    if i > 0 {
        proof {
            lemma_len_cut(cs@, i as int - 1, i as int);
            crate::text::lemma_len_subrange(cs@, i as int - 1, i as int);
            lemma_offset_bound(cs@, i as int);
            lemma_offset_le(cs@, i as int - 1, i as int);
        }
        let yk = slice_vec(&cs, i - 1, i);
        let b = index_to_byte(&cs, i - 1);
        let s2 = cut_vec(&cs, i - 1, i);
        Edit { mode, text: s2, cursor: b, yank: yk, pending: VimPendingState::Idle, last_find: lf, modified: true }
    } else {
        Edit { mode, text: cs, cursor: cur, yank: y, pending: VimPendingState::Idle, last_find: lf, modified: false }
    }
}

fn to_eol_key(mode: VimMode, cs: Vec<char>, i: usize, cur: usize, y: Vec<char>, lf: Option<(VimFindKind, char)>, change: bool) -> (r: Edit)
    requires edit_ctx(cs@, i as int, cur as int, y@),
    ensures r@ == to_eol_spec(mode, cs@, i as int, cur as int, y@, lf, change),
{
    let le = line_end_index(&cs, i);
    proof {
        lemma_len_cut(cs@, i as int, le as int);
        crate::text::lemma_len_subrange(cs@, i as int, le as int);
        lemma_offset_bound(cs@, le as int);
    }
    if change {
        let yk = slice_vec(&cs, i, le);
        let s2 = cut_vec(&cs, i, le);
        Edit { mode: VimMode::Insert, text: s2, cursor: cur, yank: yk, pending: VimPendingState::Idle, last_find: lf, modified: true }
    } else if le > i {
        let yk = slice_vec(&cs, i, le);
        let s2 = cut_vec(&cs, i, le);
        Edit { mode, text: s2, cursor: cur, yank: yk, pending: VimPendingState::Idle, last_find: lf, modified: true }
    } else {
        Edit { mode, text: cs, cursor: cur, yank: y, pending: VimPendingState::Idle, last_find: lf, modified: false }
    }
}

fn subst_key(mode: VimMode, cs: Vec<char>, i: usize, cur: usize, y: Vec<char>, lf: Option<(VimFindKind, char)>) -> (r: Edit)
    requires edit_ctx(cs@, i as int, cur as int, y@),
    ensures r@ == subst_spec(mode, cs@, i as int, cur as int, y@, lf),
{
    if i < cs.len() {
        proof {
            lemma_len_cut(cs@, i as int, i as int + 1);
            crate::text::lemma_len_subrange(cs@, i as int, i as int + 1);
            lemma_offset_bound(cs@, i as int + 1);
        }
        let yk = slice_vec(&cs, i, i + 1);
        let s2 = cut_vec(&cs, i, i + 1);
        Edit { mode: VimMode::Insert, text: s2, cursor: cur, yank: yk, pending: VimPendingState::Idle, last_find: lf, modified: true }
    } else {
        Edit { mode, text: cs, cursor: cur, yank: y, pending: VimPendingState::Idle, last_find: lf, modified: false }
    }
}

fn line_cut_key(mode: VimMode, cs: Vec<char>, i: usize, y: Vec<char>, lf: Option<(VimFindKind, char)>, subst: bool) -> (r: Edit)
    requires edit_ctx(cs@, i as int, byte_offset(cs@, i as int) as int, y@),
    ensures
        subst ==> r@ == subst_line_spec(mode, cs@, i as int, y@, lf),
        !subst ==> r@ == delete_line_spec(mode, cs@, i as int, lf),

{
    let ls = line_start_index(&cs, i);
    let le = if subst { line_end_index(&cs, i) } else { line_end_incl_index(&cs, i) };
    proof {
        lemma_len_cut(cs@, ls as int, le as int);
        crate::text::lemma_len_subrange(cs@, ls as int, le as int);
        lemma_offset_bound(cs@, le as int);
        lemma_offset_le(cs@, ls as int, le as int);
    }
    let yk = slice_vec(&cs, ls, le);
    let b = index_to_byte(&cs, ls);
    let s2 = cut_vec(&cs, ls, le);
    Edit {
        mode: if subst { VimMode::Insert } else { mode },
        text: s2,
        cursor: b,
        yank: yk,
        pending: VimPendingState::Idle,
        last_find: lf,
        modified: true,
    }
}

fn yank_line_key(mode: VimMode, cs: Vec<char>, i: usize, cur: usize, y: Vec<char>, lf: Option<(VimFindKind, char)>) -> (r: Edit)
    requires edit_ctx(cs@, i as int, cur as int, y@),
    ensures r@ == yank_line_spec(mode, cs@, i as int, cur as int, lf),
{
    let ls = line_start_index(&cs, i);
    let le = line_end_incl_index(&cs, i);
    proof {
        crate::text::lemma_len_subrange(cs@, ls as int, le as int);
        lemma_offset_bound(cs@, le as int);
        lemma_offset_le(cs@, ls as int, le as int);
    }
    let yk = slice_vec(&cs, ls, le);
    Edit { mode, text: cs, cursor: cur, yank: yk, pending: VimPendingState::Idle, last_find: lf, modified: false }
}

fn put_key(mode: VimMode, cs: Vec<char>, i: usize, cur: usize, y: Vec<char>, lf: Option<(VimFindKind, char)>, after: bool) -> (r: Edit)
    requires edit_ctx(cs@, i as int, cur as int, y@),
    ensures r@ == put_spec(mode, cs@, i as int, cur as int, y@, lf, after),
        utf8_len(r.text@) <= utf8_len(cs@) + utf8_len(y@), r.yank@ == y@,
{
    if y.len() > 0 {
        let at = if after {
            if i < cs.len() { i + 1 } else { cs.len() }
        } else {
            i
        };
        proof {
            lemma_len_splice(cs@, at as int, y@);
            lemma_offset_bound(cs@, at as int);
            lemma_len_ge_count(y@);
        }
        let b = index_to_byte(&cs, at);
        let yl = byte_len(&y);
        let s2 = splice_vec(&cs, at, &y);
        Edit { mode, text: s2, cursor: b + yl - 1, yank: y, pending: VimPendingState::Idle, last_find: lf, modified: true }
    } else {
        Edit { mode, text: cs, cursor: cur, yank: y, pending: VimPendingState::Idle, last_find: lf, modified: false }
    }
}

fn tilde_key(mode: VimMode, cs: Vec<char>, i: usize, cur: usize, y: Vec<char>, lf: Option<(VimFindKind, char)>) -> (r: Edit)
    requires edit_ctx(cs@, i as int, cur as int, y@),
    ensures r@ == tilde_spec(mode, cs@, i as int, cur as int, y@, lf),
        utf8_len(r.text@) <= utf8_len(cs@) + 4, r.yank@ == y@,
{
    if i < cs.len() {
        let c = cs[i];
        let t = if is_uppercase(c) { to_lower_first(c) } else { to_upper_first(c) };
        let mut s2 = cs;
        s2.set(i, t);
        proof {
            lemma_len_update(cs@, i as int, t);
        }
        let b = index_to_byte(&s2, i + 1);
        Edit { mode, text: s2, cursor: b, yank: y, pending: VimPendingState::Idle, last_find: lf, modified: true }
    } else {
        Edit { mode, text: cs, cursor: cur, yank: y, pending: VimPendingState::Idle, last_find: lf, modified: false }
    }
}

fn join_key(mode: VimMode, cs: Vec<char>, i: usize, cur: usize, y: Vec<char>, lf: Option<(VimFindKind, char)>) -> (r: Edit)
    requires edit_ctx(cs@, i as int, cur as int, y@),
    ensures r@ == join_spec(mode, cs@, i as int, cur as int, y@, lf),
        utf8_len(r.text@) <= utf8_len(cs@) + 1, r.yank@ == y@,
{
    let nl = line_end_index(&cs, i);
    if nl < cs.len() {
        proof {
            lemma_len_cut(cs@, nl as int, nl as int + 1);
        }
        let s1 = cut_vec(&cs, nl, nl + 1);
        let s2 = if nl < s1.len() && s1[nl] == ' ' {
            s1
        } else {
            let mut sp: Vec<char> = Vec::new();
            sp.push(' ');
            proof {
                lemma_len_splice(s1@, nl as int, sp@);
                crate::text::lemma_len_single(' ');
                assert(sp@ =~= seq![' ']);
            }
            splice_vec(&s1, nl, &sp)
        };
        Edit { mode, text: s2, cursor: cur, yank: y, pending: VimPendingState::Idle, last_find: lf, modified: true }
    } else {
        Edit { mode, text: cs, cursor: cur, yank: y, pending: VimPendingState::Idle, last_find: lf, modified: false }
    }
}

fn open_line_key(cs: Vec<char>, i: usize, y: Vec<char>, lf: Option<(VimFindKind, char)>, below: bool) -> (r: Edit)
    requires edit_ctx(cs@, i as int, byte_offset(cs@, i as int) as int, y@),
    ensures r@ == open_line_spec(cs@, i as int, y@, lf, below),
        utf8_len(r.text@) <= utf8_len(cs@) + 1, r.yank@ == y@,
{
    let mut nlv: Vec<char> = Vec::new();
    nlv.push('\n');
    assert(nlv@ =~= seq!['\n']);
    proof {
        crate::text::lemma_len_single('\n');
    }
    let at = if below { line_end_index(&cs, i) } else { line_start_index(&cs, i) };
    proof {
        lemma_len_splice(cs@, at as int, nlv@);
        lemma_offset_bound(cs@, at as int);
    }
    let b = index_to_byte(&cs, at);
    let s2 = splice_vec(&cs, at, &nlv);
    Edit {
        mode: VimMode::Insert,
        text: s2,
        cursor: if below { b + 1 } else { b },
        yank: y,
        pending: VimPendingState::Idle,
        last_find: lf,
        modified: true,
    }
}

// ---------------------------------------------------------------------------
// Normal mode
// ---------------------------------------------------------------------------

/// Normal-mode keys that only move the cursor or switch mode.
pub open spec fn is_motion_char(c: char) -> bool {
    c == 'i' || c == 'a' || c == 'I' || c == 'A' || c == 'v' || c == 'h' || c == 'l' || c == '0'
        || c == '^' || c == '$' || c == 'w' || c == 'b' || c == 'e' || c == 'W' || c == 'B' || c
        == 'E' || c == 'G' || c == ';' || c == ','
}

/// Normal-mode keys that start a multi-key command.
pub open spec fn is_prefix_char(c: char) -> bool {
    c == 'g' || c == 'f' || c == 'F' || c == 't' || c == 'T' || c == 'd' || c == 'c' || c == 'y'
        || c == 'r' || c == '>' || c == '<' || c == '"' || c == 'm' || c == '\'' || c == 'q' || c
        == '@'
}

/// A normal-mode key with a `count` prefix (1 without one).
pub open spec fn normal_spec(
    mode: VimMode,
    s: Seq<char>,
    i: int,
    cur: int,
    k: Seq<char>,
    y: Seq<char>,
    lf: Option<(VimFindKind, char)>,
    count: usize,
) -> KeyOut {
    if k == seq!['y', 'y'] {
        yank_line_spec(mode, s, i, cur, lf)
    } else if k == seq!['d', 'd'] {
        delete_line_spec(mode, s, i, lf)
    } else if k.len() != 1 {
        same(mode, s, cur, y, PendingView::Idle, lf)
    } else if is_motion_char(k[0]) {
        normal_motion_spec(mode, s, i, cur, k[0], y, lf, at_least_one(count))
    } else if is_prefix_char(k[0]) {
        normal_prefix_spec(mode, s, cur, k[0], y, lf, at_least_one(count) as usize)
    } else {
        normal_edit_spec(mode, s, i, cur, k[0], y, lf)
    }
}

pub open spec fn normal_motion_spec(
    mode: VimMode,
    s: Seq<char>,
    i: int,
    cur: int,
    c: char,
    y: Seq<char>,
    lf: Option<(VimFindKind, char)>,
    n: nat,
) -> KeyOut {
    let len = s.len() as int;
    let id = PendingView::Idle;
    if c == 'i' {
        same(VimMode::Insert, s, cur, y, id, lf)
    } else if c == 'a' {
        same(VimMode::Insert, s, if i < len { byte_offset(s, i + 1) as int } else { cur }, y, id, lf)
    } else if c == 'I' {
        moved(VimMode::Insert, s, y, lf, first_nonblank_target(s, i))
    } else if c == 'A' {
        moved(VimMode::Insert, s, y, lf, line_end(s, i))
    } else if c == 'v' {
        same(VimMode::Visual, s, cur, y, id, lf)
    } else if c == 'h' {
        moved(mode, s, y, lf, if n >= i { 0 } else { i - n })
    } else if c == 'l' {
        moved(mode, s, y, lf, min_int(i + n, len))
    } else if c == '0' {
        moved(mode, s, y, lf, line_start(s, i))
    } else if c == '^' {
        moved(mode, s, y, lf, first_nonblank_target(s, i))
    } else if c == '$' {
        moved(mode, s, y, lf, line_end(s, i))
    } else if c == 'w' {
        moved(mode, s, y, lf, iterate(Motion::W, s, i, n))
    } else if c == 'b' {
        moved(mode, s, y, lf, iterate(Motion::B, s, i, n))
    } else if c == 'e' {
        moved(mode, s, y, lf, iterate(Motion::E, s, i, n))
    } else if c == 'W' {
        moved(mode, s, y, lf, iterate(Motion::BigW, s, i, n))
    } else if c == 'B' {
        moved(mode, s, y, lf, iterate(Motion::BigB, s, i, n))
    } else if c == 'E' {
        moved(mode, s, y, lf, iterate(Motion::BigE, s, i, n))
    } else if c == 'G' {
        moved(mode, s, y, lf, if n == 1 { last_line_target(s) } else { goto_line_target(s, n) })
    } else {
        // `;` repeats the last find, `,` repeats it in the other direction
        match lf {
            Some((kd, ch)) => {
                let kind = if c == ';' { kd } else { reverse_find(kd) };
                match find_target(s, i, ch, kind, n) {
                    Some(q) => moved(mode, s, y, lf, q),
                    None => same(mode, s, cur, y, id, lf),
                }
            },
            None => same(mode, s, cur, y, id, lf),
        }
    }
}

pub open spec fn normal_prefix_spec(
    mode: VimMode,
    s: Seq<char>,
    cur: int,
    c: char,
    y: Seq<char>,
    lf: Option<(VimFindKind, char)>,
    n: usize,
) -> KeyOut {
    let p = if c == 'g' {
        PendingView::G(n)
    } else if c == 'f' {
        PendingView::Find(VimFindKind::F, n)
    } else if c == 'F' {
        PendingView::Find(VimFindKind::BigF, n)
    } else if c == 't' {
        PendingView::Find(VimFindKind::T, n)
    } else if c == 'T' {
        PendingView::Find(VimFindKind::BigT, n)
    } else if c == 'd' {
        PendingView::Operator(VimOperator::Delete, n)
    } else if c == 'c' {
        PendingView::Operator(VimOperator::Change, n)
    } else if c == 'y' {
        PendingView::Operator(VimOperator::Yank, n)
    } else if c == 'r' {
        PendingView::Replace(n)
    } else if c == '>' || c == '<' {
        PendingView::Indent(c, n)
    } else if c == '"' {
        PendingView::Register('\0')
    } else if c == 'm' {
        PendingView::Mark
    } else if c == '\'' {
        PendingView::JumpMark
    } else if c == 'q' {
        PendingView::MacroRecord
    } else {
        PendingView::MacroReplay
    };
    same(mode, s, cur, y, p, lf)
}

pub open spec fn normal_edit_spec(
    mode: VimMode,
    s: Seq<char>,
    i: int,
    cur: int,
    c: char,
    y: Seq<char>,
    lf: Option<(VimFindKind, char)>,
) -> KeyOut {
    if c == 'x' {
        x_spec(mode, s, i, cur, y, lf)
    } else if c == 'X' {
        big_x_spec(mode, s, i, cur, y, lf)
    } else if c == 'D' {
        to_eol_spec(mode, s, i, cur, y, lf, false)
    } else if c == 'C' {
        to_eol_spec(mode, s, i, cur, y, lf, true)
    } else if c == 's' {
        subst_spec(mode, s, i, cur, y, lf)
    } else if c == 'S' {
        subst_line_spec(mode, s, i, y, lf)
    } else if c == 'Y' {
        yank_line_spec(mode, s, i, cur, lf)
    } else if c == 'p' {
        put_spec(mode, s, i, cur, y, lf, true)
    } else if c == 'P' {
        put_spec(mode, s, i, cur, y, lf, false)
    } else if c == '~' {
        tilde_spec(mode, s, i, cur, y, lf)
    } else if c == 'J' {
        join_spec(mode, s, i, cur, y, lf)
    } else if c == 'o' {
        open_line_spec(s, i, y, lf, true)
    } else if c == 'O' {
        open_line_spec(s, i, y, lf, false)
    } else {
        same(mode, s, cur, y, PendingView::Idle, lf)
    }
}

fn keep(mode: VimMode, cs: Vec<char>, cur: usize, y: Vec<char>, p: VimPendingState, lf: Option<(VimFindKind, char)>) -> (r: Edit)
    ensures r@ == same(mode, cs@, cur as int, y@, p@, lf),
{
    Edit { mode, text: cs, cursor: cur, yank: y, pending: p, last_find: lf, modified: false }
}

fn is_motion_char_exec(c: char) -> (b: bool)
    ensures
        b == is_motion_char(c),
{
    c == 'i' || c == 'a' || c == 'I' || c == 'A' || c == 'v' || c == 'h' || c == 'l' || c == '0'
        || c == '^' || c == '$' || c == 'w' || c == 'b' || c == 'e' || c == 'W' || c == 'B' || c
        == 'E' || c == 'G' || c == ';' || c == ','
}

fn is_prefix_char_exec(c: char) -> (b: bool)
    ensures
        b == is_prefix_char(c),
{
    c == 'g' || c == 'f' || c == 'F' || c == 't' || c == 'T' || c == 'd' || c == 'c' || c == 'y'
        || c == 'r' || c == '>' || c == '<' || c == '"' || c == 'm' || c == '\'' || c == 'q' || c
        == '@'
}

fn normal_motion_key(
    mode: VimMode,
    cs: Vec<char>,
    i: usize,
    cur: usize,
    c: char,
    y: Vec<char>,
    lf: Option<(VimFindKind, char)>,
    n: usize,
) -> (r: Edit)
    requires
        edit_ctx(cs@, i as int, cur as int, y@),
        n >= 1,
    ensures
        r@ == normal_motion_spec(mode, cs@, i as int, cur as int, c, y@, lf, n as nat),
{
    let len = cs.len();
    if c == 'i' {
        keep(VimMode::Insert, cs, cur, y, VimPendingState::Idle, lf)
    } else if c == 'a' {
        let nc = if i < len { index_to_byte(&cs, i + 1) } else { cur };
        keep(VimMode::Insert, cs, nc, y, VimPendingState::Idle, lf)
    } else if c == 'I' {
        let t = first_nonblank_index(&cs, i);
        moved_exec(VimMode::Insert, cs, y, lf, t)
    } else if c == 'A' {
        let t = line_end_index(&cs, i);
        moved_exec(VimMode::Insert, cs, y, lf, t)
    } else if c == 'v' {
        keep(VimMode::Visual, cs, cur, y, VimPendingState::Idle, lf)
    } else if c == 'h' {
        let t = if n >= i { 0 } else { i - n };
        moved_exec(mode, cs, y, lf, t)
    } else if c == 'l' {
        let t = if n >= len - i { len } else { i + n };
        moved_exec(mode, cs, y, lf, t)
    } else if c == '0' {
        let t = line_start_index(&cs, i);
        moved_exec(mode, cs, y, lf, t)
    } else if c == '^' {
        let t = first_nonblank_index(&cs, i);
        moved_exec(mode, cs, y, lf, t)
    } else if c == '$' {
        let t = line_end_index(&cs, i);
        moved_exec(mode, cs, y, lf, t)
    } else if c == 'w' || c == 'b' || c == 'e' || c == 'W' || c == 'B' || c == 'E' {
        let m = if c == 'w' {
            Motion::W
        } else if c == 'b' {
            Motion::B
        } else if c == 'e' {
            Motion::E
        } else if c == 'W' {
            Motion::BigW
        } else if c == 'B' {
            Motion::BigB
        } else {
            Motion::BigE
        };
        let t = iterate_index(m, &cs, i, n);
        moved_exec(mode, cs, y, lf, t)
    } else if c == 'G' {
        let t = if n == 1 { last_line_index(&cs) } else { goto_line_index(&cs, n) };
        moved_exec(mode, cs, y, lf, t)
    } else {
        match lf {
            Some((kd, ch)) => {
                let kind = if c == ';' { kd } else { reverse_find_kind(kd) };
                match find_index(&cs, i, ch, kind, n) {
                    Some(q) => moved_exec(mode, cs, y, lf, q),
                    None => keep(mode, cs, cur, y, VimPendingState::Idle, lf),
                }
            },
            None => keep(mode, cs, cur, y, VimPendingState::Idle, lf),
        }
    }
}

fn normal_prefix_key(
    mode: VimMode,
    cs: Vec<char>,
    cur: usize,
    c: char,
    y: Vec<char>,
    lf: Option<(VimFindKind, char)>,
    n: usize,
) -> (r: Edit)
    ensures
        r@ == normal_prefix_spec(mode, cs@, cur as int, c, y@, lf, n),
{
    let p = if c == 'g' {
        VimPendingState::G { count: n }
    } else if c == 'f' {
        VimPendingState::Find { kind: VimFindKind::F, count: n }
    } else if c == 'F' {
        VimPendingState::Find { kind: VimFindKind::BigF, count: n }
    } else if c == 't' {
        VimPendingState::Find { kind: VimFindKind::T, count: n }
    } else if c == 'T' {
        VimPendingState::Find { kind: VimFindKind::BigT, count: n }
    } else if c == 'd' {
        VimPendingState::Operator { op: VimOperator::Delete, count: n }
    } else if c == 'c' {
        VimPendingState::Operator { op: VimOperator::Change, count: n }
    } else if c == 'y' {
        VimPendingState::Operator { op: VimOperator::Yank, count: n }
    } else if c == 'r' {
        VimPendingState::Replace { count: n }
    } else if c == '>' || c == '<' {
        VimPendingState::Indent { dir: c, count: n }
    } else if c == '"' {
        VimPendingState::Register('\0')
    } else if c == 'm' {
        VimPendingState::Mark
    } else if c == '\'' {
        VimPendingState::JumpMark
    } else if c == 'q' {
        VimPendingState::MacroRecord
    } else {
        VimPendingState::MacroReplay
    };
    keep(mode, cs, cur, y, p, lf)
}

fn normal_edit_key(
    mode: VimMode,
    cs: Vec<char>,
    i: usize,
    cur: usize,
    c: char,
    y: Vec<char>,
    lf: Option<(VimFindKind, char)>,
) -> (r: Edit)
    requires
        edit_ctx(cs@, i as int, cur as int, y@),
    ensures
        r@ == normal_edit_spec(mode, cs@, i as int, cur as int, c, y@, lf),
{
    if c == 'x' {
        x_key(mode, cs, i, cur, y, lf)
    } else if c == 'X' {
        big_x_key(mode, cs, i, cur, y, lf)
    } else if c == 'D' {
        to_eol_key(mode, cs, i, cur, y, lf, false)
    } else if c == 'C' {
        to_eol_key(mode, cs, i, cur, y, lf, true)
    } else if c == 's' {
        subst_key(mode, cs, i, cur, y, lf)
    } else if c == 'S' {
        line_cut_key(mode, cs, i, y, lf, true)
    } else if c == 'Y' {
        yank_line_key(mode, cs, i, cur, y, lf)
    } else if c == 'p' {
        put_key(mode, cs, i, cur, y, lf, true)
    } else if c == 'P' {
        put_key(mode, cs, i, cur, y, lf, false)
    } else if c == '~' {
        tilde_key(mode, cs, i, cur, y, lf)
    } else if c == 'J' {
        join_key(mode, cs, i, cur, y, lf)
    } else if c == 'o' {
        open_line_key(cs, i, y, lf, true)
    } else if c == 'O' {
        open_line_key(cs, i, y, lf, false)
    } else {
        keep(mode, cs, cur, y, VimPendingState::Idle, lf)
    }
}

fn vim_normal(
    mode: VimMode,
    cs: Vec<char>,
    i: usize,
    cur: usize,
    k: &Vec<char>,
    y: Vec<char>,
    lf: Option<(VimFindKind, char)>,
    count: usize,
) -> (r: Edit)
    requires
        edit_ctx(cs@, i as int, cur as int, y@),
    ensures
        r@ == normal_spec(mode, cs@, i as int, cur as int, k@, y@, lf, count),
{
    let n = if count == 0 { 1 } else { count };
    if key2(k, 'y', 'y') {
        return yank_line_key(mode, cs, i, cur, y, lf);
    }
    if key2(k, 'd', 'd') {
        return line_cut_key(mode, cs, i, y, lf, false);
    }
    if k.len() != 1 {
        return keep(mode, cs, cur, y, VimPendingState::Idle, lf);
    }
    let c = k[0];
    if is_motion_char_exec(c) {
        normal_motion_key(mode, cs, i, cur, c, y, lf, n)
    } else if is_prefix_char_exec(c) {
        normal_prefix_key(mode, cs, cur, c, y, lf, n)
    } else {
        normal_edit_key(mode, cs, i, cur, c, y, lf)
    }
}
// ---------------------------------------------------------------------------
// Indentation: `>>` and `<<`
// ---------------------------------------------------------------------------

/// The lines of `s`, split at each `'\n'` (as `str::split('\n')` gives them).
pub open spec fn split_lines(s: Seq<char>) -> Seq<Seq<char>>
    decreases s.len(),
{
    let e = line_end(s, 0);
    if e < 0 || e >= s.len() {
        seq![s]
    } else {
        seq![s.take(e)] + split_lines(s.skip(e + 1))
    }
}

/// The lines `ls` joined with `'\n'`.
pub open spec fn join_lines(ls: Seq<Seq<char>>) -> Seq<char>
    decreases ls.len(),
{
    if ls.len() == 0 {
        Seq::empty()
    } else if ls.len() == 1 {
        ls[0]
    } else {
        join_lines(ls.drop_last()) + seq!['\n'] + ls.last()
    }
}

/// Number of `'\n'` in `s`.
pub open spec fn newline_count(s: Seq<char>) -> nat
    decreases s.len(),
{
    if s.len() == 0 {
        0
    } else {
        newline_count(s.drop_last()) + if s.last() == '\n' {
            1nat
        } else {
            0nat
        }
    }
}

/// One line indented (`>`) or dedented (`<`): dedenting drops two leading
/// spaces, or else all leading tabs and then all leading spaces.
pub open spec fn indent_line(l: Seq<char>, dir: char) -> Seq<char> {
    if dir == '>' {
        seq![' ', ' '] + l
    } else if l.len() >= 2 && l[0] == ' ' && l[1] == ' ' {
        l.skip(2)
    } else {
        let t = l.skip(crate::motions::skip_fwd(l, 0, CharClass::Tab));
        t.skip(crate::motions::skip_fwd(t, 0, CharClass::SpaceChar))
    }
}

/// The text after indenting `n` lines from line `first` in direction `dir`.
pub open spec fn indented(s: Seq<char>, first: nat, n: nat, dir: char) -> Seq<char> {
    let ls = split_lines(s);
    join_lines(
        Seq::new(
            ls.len(),
            |j: int|
                if first <= j < first + n {
                    indent_line(ls[j], dir)
                } else {
                    ls[j]
                },
        ),
    )
}

/// Key after `>` or `<`: the same key again indents `count` lines from the cursor's line.
pub open spec fn indent_spec(
    mode: VimMode,
    s: Seq<char>,
    i: int,
    cur: int,
    k: Seq<char>,
    y: Seq<char>,
    lf: Option<(VimFindKind, char)>,
    dir: char,
    count: usize,
) -> KeyOut {
    if k == seq![dir] {
        let s2 = indented(s, newline_count(s.take(i)), at_least_one(count), dir);
        KeyOut {
            mode,
            text: s2,
            cursor: min_int(cur, utf8_len(s2) as int),
            yank: y,
            pending: PendingView::Idle,
            last_find: lf,
            modified: true,
        }
    } else {
        same(mode, s, cur, y, PendingView::Idle, lf)
    }
}

proof fn lemma_skip_fwd_shift(s: Seq<char>, a: int, j: int, k: CharClass)
    requires
        0 <= a,
        0 <= j,
        a + j <= s.len(),
    ensures
        crate::motions::skip_fwd(s.skip(a), j, k) == crate::motions::skip_fwd(s, a + j, k) - a,
    decreases s.len() - (a + j),
{
    if a + j < s.len() && crate::motions::in_class(k, s[a + j]) {
        lemma_skip_fwd_shift(s, a, j + 1, k);
    }
}

pub open spec fn lines_view(v: Seq<Vec<char>>) -> Seq<Seq<char>> {
    v.map_values(|l: Vec<char>| l@)
}

fn split_lines_exec(cs: &Vec<char>) -> (r: Vec<Vec<char>>)
    ensures
        lines_view(r@) == split_lines(cs@),
{
    let mut lines: Vec<Vec<char>> = Vec::new();
    let mut start: usize = 0;
    proof {
        assert(cs@.skip(0) =~= cs@);
        assert(lines_view(lines@) =~= Seq::<Seq<char>>::empty());
        assert(lines_view(lines@) + split_lines(cs@) =~= split_lines(cs@));
    }
    loop
        invariant
            start <= cs.len(),
            lines_view(lines@) + split_lines(cs@.skip(start as int)) == split_lines(cs@),
        decreases cs.len() - start,
    {
        let e = line_end_index(cs, start);
        let ghost t = cs@.skip(start as int);
        proof {
            lemma_skip_fwd_shift(cs@, start as int, 0, CharClass::NotNewline);
        }
        let piece = slice_vec(cs, start, e);
        if e >= cs.len() {
            proof {
                assert(piece@ =~= t);
                assert(split_lines(t) == seq![t]);
                assert(lines_view(lines@.push(piece)) =~= lines_view(lines@) + seq![t]);
            }
            lines.push(piece);
            return lines;
        }
        proof {
            assert(piece@ =~= t.take(e - start));
            assert(t.skip(e - start + 1) =~= cs@.skip(e + 1));
            assert(lines_view(lines@.push(piece)) =~= lines_view(lines@) + seq![t.take(e - start)]);
            assert(lines_view(lines@) + seq![t.take(e - start)] + split_lines(cs@.skip(e + 1))
                =~= lines_view(lines@) + (seq![t.take(e - start)] + split_lines(t.skip(e - start + 1))));
        }
        lines.push(piece);
        start = e + 1;
    }
}

fn join_lines_exec(ls: &Vec<Vec<char>>) -> (r: Vec<char>)
    ensures
        r@ == join_lines(lines_view(ls@)),
{
    let mut r: Vec<char> = Vec::new();
    if ls.len() == 0 {
        proof {
            assert(lines_view(ls@).len() == 0);
        }
        return r;
    }
    r = crate::text::concat_vec(&r, &ls[0]);
    proof {
        assert(lines_view(ls@).take(1).len() == 1);
    }
    let mut k: usize = 1;
    while k < ls.len()
        invariant
            1 <= k <= ls.len(),
            r@ == join_lines(lines_view(ls@).take(k as int)),
        decreases ls.len() - k,
    {
        let mut nl: Vec<char> = Vec::new();
        nl.push('\n');
        let r1 = crate::text::concat_vec(&r, &nl);
        r = crate::text::concat_vec(&r1, &ls[k]);
        proof {
            let v = lines_view(ls@);
            assert(v.take(k as int + 1).drop_last() =~= v.take(k as int));
            assert(v.take(k as int + 1).last() == ls@[k as int]@);
            assert(nl@ =~= seq!['\n']);
        }
        k = k + 1;
    }
    proof {
        assert(lines_view(ls@).take(ls.len() as int) =~= lines_view(ls@));
    }
    r
}

pub fn newline_count_exec(cs: &Vec<char>, i: usize) -> (r: usize)
    requires
        i <= cs.len(),
    ensures
        r == newline_count(cs@.take(i as int)),
{
    let mut k: usize = 0;
    let mut n: usize = 0;
    while k < i
        invariant
            k <= i <= cs.len(),
            n == newline_count(cs@.take(k as int)),
            n <= k,
        decreases i - k,
    {
        proof {
            assert(cs@.take(k as int + 1).drop_last() =~= cs@.take(k as int));
        }
        if cs[k] == '\n' {
            n = n + 1;
        }
        k = k + 1;
    }
    n
}

fn indent_line_exec(l: &Vec<char>, dir: char) -> (r: Vec<char>)
    ensures
        r@ == indent_line(l@, dir),
{
    if dir == '>' {
        let mut v: Vec<char> = Vec::new();
        v.push(' ');
        v.push(' ');
        assert(v@ =~= seq![' ', ' ']);
        crate::text::concat_vec(&v, l)
    } else if l.len() >= 2 && l[0] == ' ' && l[1] == ' ' {
        let r = slice_vec(l, 2, l.len());
        assert(r@ =~= l@.skip(2));
        r
    } else {
        let a = crate::motions::skip_forward(l, 0, CharClass::Tab);
        let t = slice_vec(l, a, l.len());
        assert(t@ =~= l@.skip(a as int));
        let b = crate::motions::skip_forward(&t, 0, CharClass::SpaceChar);
        let r = slice_vec(&t, b, t.len());
        assert(r@ =~= t@.skip(b as int));
        r
    }
}

/// `min(utf8_len(cs), cap)`, without computing lengths past `cap`.
fn byte_len_capped(cs: &Vec<char>, cap: usize) -> (r: usize)
    ensures
        r == min_int(cap as int, utf8_len(cs@) as int),
{
    let mut k: usize = 0;
    let mut b: usize = 0;
    proof {
        crate::text::lemma_offset_zero(cs@);
    }
    while k < cs.len()
        invariant
            k <= cs.len(),
            b == byte_offset(cs@, k as int),
            b <= cap,
        decreases cs.len() - k,
    {
        proof {
            lemma_offset_step(cs@, k as int);
            lemma_offset_le(cs@, k as int + 1, cs.len() as int);
            lemma_offset_full(cs@);
        }
        let w = crate::text::char_width(cs[k]);
        if w > cap - b {
            return cap;
        }
        b = b + w;
        k = k + 1;
    }
    proof {
        lemma_offset_full(cs@);
    }
    b
}

fn indent_key(
    mode: VimMode,
    cs: Vec<char>,
    i: usize,
    cur: usize,
    k: &Vec<char>,
    y: Vec<char>,
    lf: Option<(VimFindKind, char)>,
    dir: char,
    count: usize,
) -> (r: Edit)
    requires
        i <= cs.len(),
    ensures
        r@ == indent_spec(mode, cs@, i as int, cur as int, k@, y@, lf, dir, count),
{
    if key1(k, dir) {
        let n = if count == 0 { 1 } else { count };
        let cl = newline_count_exec(&cs, i);
        let ls = split_lines_exec(&cs);
        let mut nls: Vec<Vec<char>> = Vec::new();
        let mut j: usize = 0;
        let ghost lsv = split_lines(cs@);
        let ghost target = Seq::new(
            lsv.len(),
            |m: int|
                if cl <= m < cl + n {
                    indent_line(lsv[m], dir)
                } else {
                    lsv[m]
                },
        );
        while j < ls.len()
            invariant
                j <= ls.len(),
                lsv == lines_view(ls@),
                lsv.len() == ls.len(),
                target.len() == lsv.len(),
                target == Seq::new(
                    lsv.len(),
                    |m: int|
                        if cl <= m < cl + n {
                            indent_line(lsv[m], dir)
                        } else {
                            lsv[m]
                        },
                ),
                lines_view(nls@) == target.take(j as int),
            decreases ls.len() - j,
        {
            let line = if cl <= j && j - cl < n {
                indent_line_exec(&ls[j], dir)
            } else {
                crate::text::slice_vec(&ls[j], 0, ls[j].len())
            };
            proof {
                assert(ls[j as int]@ == lsv[j as int]);
                assert(ls[j as int]@.subrange(0, ls[j as int]@.len() as int) =~= ls[j as int]@);
                assert(lines_view(nls@.push(line)) =~= lines_view(nls@).push(line@));
                assert(target.take(j as int + 1) =~= target.take(j as int).push(target[j as int]));
            }
            nls.push(line);
            j = j + 1;
        }
        proof {
            assert(target.take(ls.len() as int) =~= target);
        }
        let s2 = join_lines_exec(&nls);
        let c2 = byte_len_capped(&s2, cur);
        Edit {
            mode,
            text: s2,
            cursor: c2,
            yank: y,
            pending: VimPendingState::Idle,
            last_find: lf,
            modified: true,
        }
    } else {
        keep(mode, cs, cur, y, VimPendingState::Idle, lf)
    }
}

// ---------------------------------------------------------------------------
// One key press
// ---------------------------------------------------------------------------

/// A key with nothing pending: a count digit (not `0`) starts a count.
pub open spec fn idle_spec(
    mode: VimMode,
    s: Seq<char>,
    i: int,
    cur: int,
    k: Seq<char>,
    y: Seq<char>,
    lf: Option<(VimFindKind, char)>,
) -> KeyOut {
    if k.len() == 1 && '1' <= k[0] <= '9' {
        same(mode, s, cur, y, PendingView::Count(k), lf)
    } else {
        normal_spec(mode, s, i, cur, k, y, lf, 1)
    }
}

/// A key after count digits `d`.
pub open spec fn count_spec(
    mode: VimMode,
    s: Seq<char>,
    i: int,
    cur: int,
    k: Seq<char>,
    y: Seq<char>,
    lf: Option<(VimFindKind, char)>,
    d: Seq<char>,
) -> KeyOut {
    if digit_key(k) {
        same(mode, s, cur, y, PendingView::Count(decimal(capped_count(d + k))), lf)
    } else {
        normal_spec(mode, s, i, cur, k, y, lf, count_or_one(d) as usize)
    }
}

/// The outcome of one key press in vim mode: `Escape` returns to normal mode
/// and drops what is pending; otherwise the pending state decides.
pub open spec fn key_spec(
    mode: VimMode,
    s: Seq<char>,
    cur: int,
    k: Seq<char>,
    y: Seq<char>,
    p: PendingView,
    lf: Option<(VimFindKind, char)>,
) -> KeyOut {
    let i = char_index(s, cur);
    if k == "Escape"@ {
        same(VimMode::Normal, s, cur, y, PendingView::Idle, lf)
    } else {
        match p {
            PendingView::Idle => idle_spec(mode, s, i, cur, k, y, lf),
            PendingView::Count(d) => count_spec(mode, s, i, cur, k, y, lf, d),
            PendingView::G(c) => g_spec(mode, s, i, cur, k, y, lf, c),
            PendingView::Operator(op, c) => operator_spec(
                mode,
                s,
                i,
                cur,
                k,
                y,
                lf,
                op,
                c,
                PendingView::Idle,
            ),
            PendingView::OperatorCount(op, c, d) => operator_count_spec(
                mode,
                s,
                i,
                cur,
                k,
                y,
                lf,
                op,
                c,
                d,
            ),
            PendingView::OperatorG(op, c) => operator_g_spec(mode, s, i, cur, k, y, lf, op, c),
            PendingView::Find(kind, c) => find_spec(mode, s, i, cur, k, y, lf, kind, c),
            PendingView::Replace(c) => replace_spec(mode, s, i, cur, k, y, lf, c),
            PendingView::Indent(dir, c) => indent_spec(mode, s, i, cur, k, y, lf, dir, c),
            _ => same(mode, s, cur, y, PendingView::Idle, lf),
        }
    }
}

/// The inputs on which a key press slices the text only at character
/// boundaries: the cursor is a boundary, an operator's `h` lands on one, and
/// `gE` always finds a previous WORD end.
pub open spec fn key_ok(s: Seq<char>, cur: int, k: Seq<char>, p: PendingView) -> bool {
    let i = char_index(s, cur);
    &&& is_boundary(s, cur)
    &&& match p {
        PendingView::Operator(_op, c) => operator_ok(s, cur, k, c),
        PendingView::OperatorCount(_op, c, d) => !digit_key(k) ==> operator_ok(
            s,
            cur,
            k,
            effective_count(c, count_or_one(d)),
        ),
        PendingView::G(c) => k == seq!['E'] ==> big_ge_safe(s, i, at_least_one(c)),
        _ => true,
    }
}

proof fn lemma_iterate_big_ge_safe(s: Seq<char>, i: int, n: nat)
    requires
        0 <= i <= s.len(),
    ensures
        0 <= iterate(Motion::BigGe, s, i, n) <= s.len(),
    decreases n,
{
    if n > 0 {
        let j = big_ge_target(s, i);
        if i > 0 {
            lemma_skip_bwd_range(s, i, CharClass::Space);
            let b = skip_bwd(s, i, CharClass::Space);
            if b > 0 {
                lemma_skip_bwd_range(s, b - 1, CharClass::Solid);
            }
        }
        lemma_iterate_big_ge_safe(s, j, (n - 1) as nat);
    }
}

fn vim_idle(
    mode: VimMode,
    cs: Vec<char>,
    i: usize,
    cur: usize,
    k: &Vec<char>,
    y: Vec<char>,
    lf: Option<(VimFindKind, char)>,
) -> (r: Edit)
    requires
        edit_ctx(cs@, i as int, cur as int, y@),
    ensures
        r@ == idle_spec(mode, cs@, i as int, cur as int, k@, y@, lf),
{
    if k.len() == 1 && '1' <= k[0] && k[0] <= '9' {
        let d = string_of(k);
        keep(mode, cs, cur, y, VimPendingState::Count { digits: d }, lf)
    } else {
        vim_normal(mode, cs, i, cur, k, y, lf, 1)
    }
}

fn vim_count(
    mode: VimMode,
    cs: Vec<char>,
    i: usize,
    cur: usize,
    k: &Vec<char>,
    y: Vec<char>,
    lf: Option<(VimFindKind, char)>,
    d: &String,
) -> (r: Edit)
    requires
        edit_ctx(cs@, i as int, cur as int, y@),
    ensures
        r@ == count_spec(mode, cs@, i as int, cur as int, k@, y@, lf, d@),
{
    let dv = chars_of(d.as_str());
    if k.len() == 1 && crate::text::is_ascii_digit(k[0]) {
        let nd = next_digits(&dv, k);
        keep(mode, cs, cur, y, VimPendingState::Count { digits: nd }, lf)
    } else {
        let c = count_or_one_exec(&dv);
        vim_normal(mode, cs, i, cur, k, y, lf, c)
    }
}

fn vim_operator_count(
    mode: VimMode,
    cs: Vec<char>,
    i: usize,
    cur: usize,
    k: &Vec<char>,
    y: Vec<char>,
    lf: Option<(VimFindKind, char)>,
    op: VimOperator,
    count: usize,
    d: &String,
) -> (r: Edit)
    requires
        edit_ctx(cs@, i as int, cur as int, y@),
        !digit_key(k@) ==> operator_ok(
            cs@,
            cur as int,
            k@,
            effective_count(count, count_or_one(d@)),
        ),
    ensures
        r@ == operator_count_spec(mode, cs@, i as int, cur as int, k@, y@, lf, op, count, d@),
{
    let dv = chars_of(d.as_str());
    if k.len() == 1 && crate::text::is_ascii_digit(k[0]) {
        let nd = next_digits(&dv, k);
        keep(mode, cs, cur, y, VimPendingState::OperatorCount { op, count, digits: nd }, lf)
    } else {
        let mc = count_or_one_exec(&dv);
        let eff = effective_count_exec(count, mc);
        proof {
            lemma_offset_bound(cs@, i as int);
        }
        vim_operator(mode, cs, i, cur, k, y, lf, op, eff, VimPendingState::Operator { op, count: eff })
    }
}

#[verifier::rlimit(100)]
fn dispatch(
    mode: VimMode,
    cs: Vec<char>,
    i: usize,
    cur: usize,
    k: &Vec<char>,
    y: Vec<char>,
    p: VimPendingState,
    lf: Option<(VimFindKind, char)>,
) -> (r: Edit)
    requires
        edit_ctx(cs@, i as int, cur as int, y@),
        key_ok(cs@, cur as int, k@, p@),
        i == char_index(cs@, cur as int),
    ensures
        r@ == key_spec(mode, cs@, cur as int, k@, y@, p@, lf),
{
    if crate::text::str_is(k, "Escape") {
        return keep(VimMode::Normal, cs, cur, y, VimPendingState::Idle, lf);
    }
    proof {
        lemma_offset_bound(cs@, i as int);
    }
    match p {
        VimPendingState::Idle => vim_idle(mode, cs, i, cur, k, y, lf),
        VimPendingState::Count { digits } => vim_count(mode, cs, i, cur, k, y, lf, &digits),
        VimPendingState::G { count } => vim_g(mode, cs, i, cur, k, y, lf, count),
        VimPendingState::Operator { op, count } => vim_operator(
            mode,
            cs,
            i,
            cur,
            k,
            y,
            lf,
            op,
            count,
            VimPendingState::Idle,
        ),
        VimPendingState::OperatorCount { op, count, digits } => vim_operator_count(
            mode,
            cs,
            i,
            cur,
            k,
            y,
            lf,
            op,
            count,
            &digits,
        ),
        VimPendingState::OperatorG { op, count } => vim_operator_g(
            mode,
            cs,
            i,
            cur,
            k,
            y,
            lf,
            op,
            count,
        ),
        VimPendingState::Find { kind, count } => find_key(mode, cs, i, cur, k, y, lf, kind, count),
        VimPendingState::Replace { count } => replace_key(mode, cs, i, cur, k, y, lf, count),
        VimPendingState::Indent { dir, count } => indent_key(
            mode,
            cs,
            i,
            cur,
            k,
            y,
            lf,
            dir,
            count,
        ),
        _ => keep(mode, cs, cur, y, VimPendingState::Idle, lf),
    }
}

/// Process a single key press in vim mode.
/// Returns `true` when text was modified (caller should push undo snapshot).
pub fn apply_vim_key(
    mode: &mut VimMode,
    text: &mut String,
    cursor: &mut usize,
    key: &str,
    yank_buf: &mut String,
    pending: &mut VimPendingState,
    last_find: &mut Option<(VimFindKind, char)>,
) -> (modified: bool)
    requires
        key_ok(old(text)@, *old(cursor) as int, key@, old(pending)@),
        room(old(text)@, old(yank_buf)@),
    ensures
        ({
            let o = key_spec(
                *old(mode),
                old(text)@,
                *old(cursor) as int,
                key@,
                old(yank_buf)@,
                old(pending)@,
                *old(last_find),
            );
            &&& *final(mode) == o.mode
            &&& final(text)@ == o.text
            &&& *final(cursor) == o.cursor
            &&& final(yank_buf)@ == o.yank
            &&& final(pending)@ == o.pending
            &&& *final(last_find) == o.last_find
            &&& modified == o.modified
        }),
{
    let cs = chars_of(text.as_str());
    let ky = chars_of(key);
    let yv = chars_of(yank_buf.as_str());
    let i = byte_to_index(&cs, *cursor);
    proof {
        lemma_char_index(cs@, *cursor as int);
    }
    let p = copy_pending(pending);
    let r = dispatch(*mode, cs, i, *cursor, &ky, yv, p, *last_find);
    *mode = r.mode;
    *text = string_of(&r.text);
    *cursor = r.cursor;
    *yank_buf = string_of(&r.yank);
    *pending = r.pending;
    *last_find = r.last_find;
    r.modified
}

} // verus!
