//! Vim cursor motions over a character sequence.
//!
//! Each motion is defined on character indices (`*_target`), and the public
//! functions take and return byte offsets as the editor does.
use vstd::prelude::*;
use crate::text::{
    byte_offset, byte_to_index, char_index, chars_of, index_to_byte, is_boundary, is_whitespace,
    is_word, is_word_char, unicode_whitespace,
};

verus! {

/// Character classes that the motions skip over.
#[derive(Clone, Copy, PartialEq, Eq)]
pub enum CharClass {
    /// Word characters.
    Word,
    /// Word characters that are not whitespace.
    WordSolid,
    /// Neither word characters nor whitespace.
    Punct,
    /// Whitespace.
    Space,
    /// Anything but whitespace.
    Solid,
    /// Anything but `'\n'`.
    NotNewline,
    /// `' '` or `'\t'`.
    Blank,
    /// `'\t'`.
    Tab,
    /// `' '`.
    SpaceChar,
}

pub open spec fn in_class(k: CharClass, c: char) -> bool {
    match k {
        CharClass::Word => is_word(c),
        CharClass::WordSolid => is_word(c) && !unicode_whitespace(c),
        CharClass::Punct => !is_word(c) && !unicode_whitespace(c),
        CharClass::Space => unicode_whitespace(c),
        CharClass::Solid => !unicode_whitespace(c),
        CharClass::NotNewline => c != '\n',
        CharClass::Blank => c == ' ' || c == '\t',
        CharClass::Tab => c == '\t',
        CharClass::SpaceChar => c == ' ',
    }
}

pub fn class_has(k: CharClass, c: char) -> (b: bool)
    ensures
        b == in_class(k, c),
{
    match k {
        CharClass::Word => is_word_char(c),
        CharClass::WordSolid => is_word_char(c) && !is_whitespace(c),
        CharClass::Punct => !is_word_char(c) && !is_whitespace(c),
        CharClass::Space => is_whitespace(c),
        CharClass::Solid => !is_whitespace(c),
        CharClass::NotNewline => c != '\n',
        CharClass::Blank => c == ' ' || c == '\t',
        CharClass::Tab => c == '\t',
        CharClass::SpaceChar => c == ' ',
    }
}

/// First index at or after `i` whose character is not in class `k`.
pub open spec fn skip_fwd(s: Seq<char>, i: int, k: CharClass) -> int
    decreases s.len() - i,
{
    if 0 <= i < s.len() && in_class(k, s[i]) {
        skip_fwd(s, i + 1, k)
    } else {
        i
    }
}

/// Smallest `j <= i` such that all of `s[j..i]` is in class `k`.
pub open spec fn skip_bwd(s: Seq<char>, i: int, k: CharClass) -> int
    decreases i,
{
    if 0 < i <= s.len() && in_class(k, s[i - 1]) {
        skip_bwd(s, i - 1, k)
    } else {
        i
    }
}

pub proof fn lemma_skip_fwd_range(s: Seq<char>, i: int, k: CharClass)
    requires
        0 <= i <= s.len(),
    ensures
        i <= skip_fwd(s, i, k) <= s.len(),
    decreases s.len() - i,
{
    if i < s.len() && in_class(k, s[i]) {
        lemma_skip_fwd_range(s, i + 1, k);
    }
}

/// From anywhere on a line, `line_end` finds that line's line feed.
pub proof fn lemma_line_end_at(s: Seq<char>, i: int, n: int)
    requires
        0 <= i <= n < s.len(),
        s[n] == '\n',
        forall|k: int| i <= k < n ==> s[k] != '\n',
    ensures
        line_end(s, i) == n,
    decreases n - i,
{
    if i < n {
        lemma_line_end_at(s, i + 1, n);
    }
}

/// On the last line, `line_end` is the end of the text.
pub proof fn lemma_line_end_last(s: Seq<char>, i: int)
    requires
        0 <= i <= s.len(),
        forall|k: int| i <= k < s.len() ==> s[k] != '\n',
    ensures
        line_end(s, i) == s.len(),
    decreases s.len() - i,
{
    if i < s.len() {
        lemma_line_end_last(s, i + 1);
    }
}

pub proof fn lemma_skip_bwd_range(s: Seq<char>, i: int, k: CharClass)
    requires
        0 <= i <= s.len(),
    ensures
        0 <= skip_bwd(s, i, k) <= i,
    decreases i,
{
    if 0 < i && in_class(k, s[i - 1]) {
        lemma_skip_bwd_range(s, i - 1, k);
    }
}

pub fn skip_forward(cs: &Vec<char>, i: usize, k: CharClass) -> (r: usize)
    requires
        i <= cs.len(),
    ensures
        r == skip_fwd(cs@, i as int, k),
        i <= r <= cs.len(),
{
    proof {
        lemma_skip_fwd_range(cs@, i as int, k);
    }
    let mut j = i;
    while j < cs.len() && class_has(k, cs[j])
        invariant
            i <= j <= cs.len(),
            skip_fwd(cs@, j as int, k) == skip_fwd(cs@, i as int, k),
        decreases cs.len() - j,
    {
        j = j + 1;
    }
    j
}

pub fn skip_backward(cs: &Vec<char>, i: usize, k: CharClass) -> (r: usize)
    requires
        i <= cs.len(),
    ensures
        r == skip_bwd(cs@, i as int, k),
        r <= i,
{
    proof {
        lemma_skip_bwd_range(cs@, i as int, k);
    }
    let mut j = i;
    while j > 0 && class_has(k, cs[j - 1])
        invariant
            j <= i <= cs.len(),
            skip_bwd(cs@, j as int, k) == skip_bwd(cs@, i as int, k),
        decreases j,
    {
        j = j - 1;
    }
    j
}

/// Index of the `k`-th occurrence (`k >= 1`) of `c` at or after `i`, or -1.
pub open spec fn nth_fwd(s: Seq<char>, i: int, c: char, k: nat) -> int
    decreases s.len() - i,
{
    if i < 0 || i >= s.len() {
        -1
    } else if s[i] == c {
        if k <= 1 {
            i
        } else {
            nth_fwd(s, i + 1, c, (k - 1) as nat)
        }
    } else {
        nth_fwd(s, i + 1, c, k)
    }
}

/// Index of the `k`-th occurrence (`k >= 1`) of `c` before `i`, counting backwards, or -1.
pub open spec fn nth_bwd(s: Seq<char>, i: int, c: char, k: nat) -> int
    decreases i,
{
    if i <= 0 || i > s.len() {
        -1
    } else if s[i - 1] == c {
        if k <= 1 {
            i - 1
        } else {
            nth_bwd(s, i - 1, c, (k - 1) as nat)
        }
    } else {
        nth_bwd(s, i - 1, c, k)
    }
}

pub proof fn lemma_nth_fwd_range(s: Seq<char>, i: int, c: char, k: nat)
    ensures
        nth_fwd(s, i, c, k) == -1 || (i <= nth_fwd(s, i, c, k) < s.len() && s[nth_fwd(
            s,
            i,
            c,
            k,
        )] == c),
    decreases s.len() - i,
{
    if i < 0 || i >= s.len() {
    } else if s[i] == c {
        if k > 1 {
            lemma_nth_fwd_range(s, i + 1, c, (k - 1) as nat);
        }
    } else {
        lemma_nth_fwd_range(s, i + 1, c, k);
    }
}

pub proof fn lemma_nth_bwd_range(s: Seq<char>, i: int, c: char, k: nat)
    ensures
        nth_bwd(s, i, c, k) == -1 || (0 <= nth_bwd(s, i, c, k) < i && nth_bwd(s, i, c, k)
            < s.len() && s[nth_bwd(s, i, c, k)] == c),
    decreases i,
{
    if i <= 0 || i > s.len() {
    } else if s[i - 1] == c {
        if k > 1 {
            lemma_nth_bwd_range(s, i - 1, c, (k - 1) as nat);
        }
    } else {
        lemma_nth_bwd_range(s, i - 1, c, k);
    }
}

/// Index of the `k`-th occurrence of `c` at or after `i`, if any.
pub fn find_nth_forward(cs: &Vec<char>, i: usize, c: char, k: usize) -> (r: Option<usize>)
    ensures
        match r {
            Some(p) => p == nth_fwd(cs@, i as int, c, k as nat),
            None => nth_fwd(cs@, i as int, c, k as nat) == -1,
        },
{
    let mut j = i;
    let mut left = k;
    while j < cs.len()
        invariant
            i <= j,
            nth_fwd(cs@, j as int, c, left as nat) == nth_fwd(cs@, i as int, c, k as nat),
        decreases cs.len() - j,
    {
        if cs[j] == c {
            if left <= 1 {
                return Some(j);
            }
            left = left - 1;
        }
        j = j + 1;
    }
    None
}

/// Index of the `k`-th occurrence of `c` before `i`, counting backwards, if any.
pub fn find_nth_backward(cs: &Vec<char>, i: usize, c: char, k: usize) -> (r: Option<usize>)
    requires
        i <= cs.len(),
    ensures
        match r {
            Some(p) => p == nth_bwd(cs@, i as int, c, k as nat),
            None => nth_bwd(cs@, i as int, c, k as nat) == -1,
        },
{
    let mut j = i;
    let mut left = k;
    while j > 0
        invariant
            j <= i <= cs.len(),
            nth_bwd(cs@, j as int, c, left as nat) == nth_bwd(cs@, i as int, c, k as nat),
        decreases j,
    {
        if cs[j - 1] == c {
            if left <= 1 {
                return Some(j - 1);
            }
            left = left - 1;
        }
        j = j - 1;
    }
    None
}

// ---------------------------------------------------------------------------
// Motion targets on character indices
// ---------------------------------------------------------------------------

/// `w`: start of the next word.
pub open spec fn w_target(s: Seq<char>, i: int) -> int {
    if i >= s.len() {
        i
    } else {
        let j = if is_word(s[i]) {
            skip_fwd(s, i, CharClass::Word)
        } else if !unicode_whitespace(s[i]) {
            skip_fwd(s, i, CharClass::Punct)
        } else {
            i
        };
        skip_fwd(s, j, CharClass::Space)
    }
}

/// `b`: start of the previous word.
pub open spec fn b_target(s: Seq<char>, i: int) -> int {
    if i == 0 {
        0
    } else {
        let j = skip_bwd(s, i, CharClass::Space);
        if j == 0 {
            0
        } else if is_word(s[j - 1]) {
            skip_bwd(s, j, CharClass::Word)
        } else {
            skip_bwd(s, j, CharClass::Punct)
        }
    }
}

/// `e`: end of the current or next word.
pub open spec fn e_target(s: Seq<char>, i: int) -> int {
    if i >= s.len() {
        i
    } else {
        let at_end = i + 1 == s.len() || unicode_whitespace(s[i + 1]) || is_word(s[i]) != is_word(
            s[i + 1],
        );
        let j = if at_end {
            skip_fwd(s, i + 1, CharClass::Space)
        } else {
            i
        };
        if j >= s.len() {
            i
        } else if is_word(s[j]) {
            skip_fwd(s, j + 1, CharClass::WordSolid) - 1
        } else {
            skip_fwd(s, j + 1, CharClass::Punct) - 1
        }
    }
}

/// `W`: start of the next WORD.
pub open spec fn big_w_target(s: Seq<char>, i: int) -> int {
    skip_fwd(s, skip_fwd(s, i, CharClass::Solid), CharClass::Space)
}

/// `B`: start of the previous WORD.
pub open spec fn big_b_target(s: Seq<char>, i: int) -> int {
    skip_bwd(s, skip_bwd(s, i, CharClass::Space), CharClass::Solid)
}

/// `E`: end of the current or next WORD.
pub open spec fn big_e_target(s: Seq<char>, i: int) -> int {
    if i >= s.len() {
        i
    } else {
        let at_end = i + 1 == s.len() || unicode_whitespace(s[i + 1]);
        let j = if at_end {
            skip_fwd(s, i + 1, CharClass::Space)
        } else {
            i
        };
        if j >= s.len() {
            i
        } else {
            skip_fwd(s, j + 1, CharClass::Solid) - 1
        }
    }
}

/// Start of the line containing index `i`.
pub open spec fn line_start(s: Seq<char>, i: int) -> int {
    skip_bwd(s, i, CharClass::NotNewline)
}

/// Index of the `'\n'` ending the line containing `i`, or the length.
pub open spec fn line_end(s: Seq<char>, i: int) -> int {
    skip_fwd(s, i, CharClass::NotNewline)
}

/// `^`: first character of the line that is not a space or tab.
pub open spec fn first_nonblank_target(s: Seq<char>, i: int) -> int {
    skip_fwd(s, line_start(s, i), CharClass::Blank)
}

/// `G`: start of the last line.
pub open spec fn last_line_target(s: Seq<char>) -> int {
    line_start(s, s.len() as int)
}

/// `gg` with a count: start of line `n` (1-based), or of the last line when there are fewer.
pub open spec fn goto_line_target(s: Seq<char>, n: nat) -> int {
    if n <= 1 {
        0
    } else {
        let j = nth_fwd(s, 0, '\n', (n - 1) as nat);
        if j >= 0 {
            j + 1
        } else {
            last_line_target(s)
        }
    }
}

/// Variants of the character-find motions.
#[derive(Debug, Clone, Copy, PartialEq, Eq, Structural)]
pub enum VimFindKind {
    /// `f{c}` — forward, cursor lands on char
    F,
    /// `F{c}` — backward, cursor lands on char
    BigF,
    /// `t{c}` — forward, cursor stops before char
    T,
    /// `T{c}` — backward, cursor stops after char
    BigT,
}

/// `f`/`F`/`t`/`T`: character index reached, if the `count`-th target exists.
pub open spec fn find_target(s: Seq<char>, i: int, c: char, kind: VimFindKind, count: nat) -> Option<
    int,
> {
    if count == 0 {
        None
    } else {
        match kind {
            VimFindKind::F | VimFindKind::T => {
                if i + 1 >= s.len() {
                    None
                } else {
                    let p = nth_fwd(s, i + 1, c, count);
                    if p < 0 {
                        None
                    } else if kind == VimFindKind::T {
                        Some(p - 1)
                    } else {
                        Some(p)
                    }
                }
            },
            VimFindKind::BigF | VimFindKind::BigT => {
                let p = nth_bwd(s, i, c, count);
                if p < 0 {
                    None
                } else if kind == VimFindKind::BigT {
                    Some(p + 1)
                } else {
                    Some(p)
                }
            },
        }
    }
}

pub open spec fn reverse_find(kind: VimFindKind) -> VimFindKind {
    match kind {
        VimFindKind::F => VimFindKind::BigF,
        VimFindKind::BigF => VimFindKind::F,
        VimFindKind::T => VimFindKind::BigT,
        VimFindKind::BigT => VimFindKind::T,
    }
}

pub fn reverse_find_kind(kind: VimFindKind) -> (r: VimFindKind)
    ensures
        r == reverse_find(kind),
{
    match kind {
        VimFindKind::F => VimFindKind::BigF,
        VimFindKind::BigF => VimFindKind::F,
        VimFindKind::T => VimFindKind::BigT,
        VimFindKind::BigT => VimFindKind::T,
    }
}

// ---------------------------------------------------------------------------
// Index-level executable motions
// ---------------------------------------------------------------------------

pub fn w_index(cs: &Vec<char>, i: usize) -> (r: usize)
    requires
        i <= cs.len(),
    ensures
        r == w_target(cs@, i as int),
        i <= r <= cs.len(),
{
    if i >= cs.len() {
        return i;
    }
    let j = if is_word_char(cs[i]) {
        skip_forward(cs, i, CharClass::Word)
    } else if !is_whitespace(cs[i]) {
        skip_forward(cs, i, CharClass::Punct)
    } else {
        i
    };
    skip_forward(cs, j, CharClass::Space)
}

pub fn b_index(cs: &Vec<char>, i: usize) -> (r: usize)
    requires
        i <= cs.len(),
    ensures
        r == b_target(cs@, i as int),
        r <= i,
{
    if i == 0 {
        return 0;
    }
    let j = skip_backward(cs, i, CharClass::Space);
    if j == 0 {
        0
    } else if is_word_char(cs[j - 1]) {
        skip_backward(cs, j, CharClass::Word)
    } else {
        skip_backward(cs, j, CharClass::Punct)
    }
}

pub fn e_index(cs: &Vec<char>, i: usize) -> (r: usize)
    requires
        i <= cs.len(),
    ensures
        r == e_target(cs@, i as int),
        i <= r <= cs.len(),
        i < cs.len() ==> r < cs.len(),
{
    if i >= cs.len() {
        return i;
    }
    let at_end = i + 1 == cs.len() || is_whitespace(cs[i + 1]) || is_word_char(cs[i])
        != is_word_char(cs[i + 1]);
    let j = if at_end {
        skip_forward(cs, i + 1, CharClass::Space)
    } else {
        i
    };
    if j >= cs.len() {
        i
    } else if is_word_char(cs[j]) {
        skip_forward(cs, j + 1, CharClass::WordSolid) - 1
    } else {
        skip_forward(cs, j + 1, CharClass::Punct) - 1
    }
}

pub fn big_w_index(cs: &Vec<char>, i: usize) -> (r: usize)
    requires
        i <= cs.len(),
    ensures
        r == big_w_target(cs@, i as int),
        i <= r <= cs.len(),
{
    let j = skip_forward(cs, i, CharClass::Solid);
    skip_forward(cs, j, CharClass::Space)
}

pub fn big_b_index(cs: &Vec<char>, i: usize) -> (r: usize)
    requires
        i <= cs.len(),
    ensures
        r == big_b_target(cs@, i as int),
        r <= i,
{
    let j = skip_backward(cs, i, CharClass::Space);
    skip_backward(cs, j, CharClass::Solid)
}

pub fn big_e_index(cs: &Vec<char>, i: usize) -> (r: usize)
    requires
        i <= cs.len(),
    ensures
        r == big_e_target(cs@, i as int),
        i <= r <= cs.len(),
        i < cs.len() ==> r < cs.len(),
{
    if i >= cs.len() {
        return i;
    }
    let at_end = i + 1 == cs.len() || is_whitespace(cs[i + 1]);
    let j = if at_end {
        skip_forward(cs, i + 1, CharClass::Space)
    } else {
        i
    };
    if j >= cs.len() {
        i
    } else {
        skip_forward(cs, j + 1, CharClass::Solid) - 1
    }
}

pub fn line_start_index(cs: &Vec<char>, i: usize) -> (r: usize)
    requires
        i <= cs.len(),
    ensures
        r == line_start(cs@, i as int),
        r <= i,
{
    skip_backward(cs, i, CharClass::NotNewline)
}

pub fn line_end_index(cs: &Vec<char>, i: usize) -> (r: usize)
    requires
        i <= cs.len(),
    ensures
        r == line_end(cs@, i as int),
        i <= r <= cs.len(),
{
    skip_forward(cs, i, CharClass::NotNewline)
}

pub fn first_nonblank_index(cs: &Vec<char>, i: usize) -> (r: usize)
    requires
        i <= cs.len(),
    ensures
        r == first_nonblank_target(cs@, i as int),
        r <= cs.len(),
{
    let ls = line_start_index(cs, i);
    skip_forward(cs, ls, CharClass::Blank)
}

pub fn last_line_index(cs: &Vec<char>) -> (r: usize)
    ensures
        r == last_line_target(cs@),
        r <= cs.len(),
{
    line_start_index(cs, cs.len())
}

pub fn goto_line_index(cs: &Vec<char>, n: usize) -> (r: usize)
    ensures
        r == goto_line_target(cs@, n as nat),
        r <= cs.len(),
{
    if n <= 1 {
        return 0;
    }
    match find_nth_forward(cs, 0, '\n', n - 1) {
        Some(j) => {
            proof {
                lemma_nth_fwd_range(cs@, 0, '\n', (n - 1) as nat);
                assert(j < cs.len());
            }
            j + 1
        },
        None => last_line_index(cs),
    }
}

pub fn find_index(cs: &Vec<char>, i: usize, c: char, kind: VimFindKind, count: usize) -> (r: Option<
    usize,
>)
    requires
        i <= cs.len(),
    ensures
        match find_target(cs@, i as int, c, kind, count as nat) {
            Some(p) => r == Some(p as usize) && 0 <= p <= cs.len(),
            None => r is None,
        },
{
    if count == 0 {
        return None;
    }
    match kind {
        VimFindKind::F | VimFindKind::T => {
            if cs.len() - i < 2 {
                return None;
            }
            proof {
                lemma_nth_fwd_range(cs@, i as int + 1, c, count as nat);
            }
            match find_nth_forward(cs, i + 1, c, count) {
                None => None,
                Some(p) => {
                    if matches!(kind, VimFindKind::T) {
                        Some(p - 1)
                    } else {
                        Some(p)
                    }
                },
            }
        },
        VimFindKind::BigF | VimFindKind::BigT => {
            proof {
                lemma_nth_bwd_range(cs@, i as int, c, count as nat);
            }
            match find_nth_backward(cs, i, c, count) {
                None => None,
                Some(p) => {
                    if matches!(kind, VimFindKind::BigT) {
                        Some(p + 1)
                    } else {
                        Some(p)
                    }
                },
            }
        },
    }
}

// ---------------------------------------------------------------------------
// Byte-offset motions on strings
// ---------------------------------------------------------------------------

/// `w` — byte offset of the start of the next word.
pub fn motion_w(text: &str, cursor: usize) -> (r: usize)
    requires
        is_boundary(text@, cursor as int),
    ensures
        r == byte_offset(text@, w_target(text@, char_index(text@, cursor as int))),
{
    let cs = chars_of(text);
    let i = byte_to_index(&cs, cursor);
    let j = w_index(&cs, i);
    index_to_byte(&cs, j)
}

/// `b` — byte offset of the start of the previous word.
pub fn motion_b(text: &str, cursor: usize) -> (r: usize)
    requires
        is_boundary(text@, cursor as int),
    ensures
        r == byte_offset(text@, b_target(text@, char_index(text@, cursor as int))),
{
    let cs = chars_of(text);
    let i = byte_to_index(&cs, cursor);
    let j = b_index(&cs, i);
    index_to_byte(&cs, j)
}

/// `e` — byte offset of the end of the current or next word.
pub fn motion_e(text: &str, cursor: usize) -> (r: usize)
    requires
        is_boundary(text@, cursor as int),
    ensures
        r == byte_offset(text@, e_target(text@, char_index(text@, cursor as int))),
{
    let cs = chars_of(text);
    let i = byte_to_index(&cs, cursor);
    let j = e_index(&cs, i);
    index_to_byte(&cs, j)
}

/// `W` — byte offset of the start of the next WORD.
#[allow(non_snake_case)]
pub fn motion_W(text: &str, cursor: usize) -> (r: usize)
    requires
        is_boundary(text@, cursor as int),
    ensures
        r == byte_offset(text@, big_w_target(text@, char_index(text@, cursor as int))),
{
    let cs = chars_of(text);
    let i = byte_to_index(&cs, cursor);
    let j = big_w_index(&cs, i);
    index_to_byte(&cs, j)
}

/// `B` — byte offset of the start of the previous WORD.
#[allow(non_snake_case)]
pub fn motion_B(text: &str, cursor: usize) -> (r: usize)
    requires
        is_boundary(text@, cursor as int),
    ensures
        r == byte_offset(text@, big_b_target(text@, char_index(text@, cursor as int))),
{
    let cs = chars_of(text);
    let i = byte_to_index(&cs, cursor);
    let j = big_b_index(&cs, i);
    index_to_byte(&cs, j)
}

/// `E` — byte offset of the end of the current or next WORD.
#[allow(non_snake_case)]
pub fn motion_E(text: &str, cursor: usize) -> (r: usize)
    requires
        is_boundary(text@, cursor as int),
    ensures
        r == byte_offset(text@, big_e_target(text@, char_index(text@, cursor as int))),
{
    let cs = chars_of(text);
    let i = byte_to_index(&cs, cursor);
    let j = big_e_index(&cs, i);
    index_to_byte(&cs, j)
}

/// `^` — byte offset of the first non-blank character of the current line.
pub fn motion_first_nonblank(text: &str, cursor: usize) -> (r: usize)
    requires
        is_boundary(text@, cursor as int),
    ensures
        r == byte_offset(text@, first_nonblank_target(text@, char_index(text@, cursor as int))),
{
    let cs = chars_of(text);
    let i = byte_to_index(&cs, cursor);
    let j = first_nonblank_index(&cs, i);
    index_to_byte(&cs, j)
}

/// `G` — byte offset of the first character of the last line.
#[allow(non_snake_case)]
pub fn motion_G(text: &str) -> (r: usize)
    ensures
        r == byte_offset(text@, last_line_target(text@)),
{
    let cs = chars_of(text);
    let j = last_line_index(&cs);
    index_to_byte(&cs, j)
}

/// `gg` / line-N — byte offset of the start of line `line_num` (1-indexed).
pub fn motion_gg(text: &str, line_num: usize) -> (r: usize)
    ensures
        r == byte_offset(text@, goto_line_target(text@, line_num as nat)),
{
    let cs = chars_of(text);
    let j = goto_line_index(&cs, line_num);
    index_to_byte(&cs, j)
}

/// `f/F/t/T{char}` — byte offset reached by finding `target`, if found.
pub fn motion_find_char(text: &str, cursor: usize, target: char, kind: VimFindKind, count: usize) -> (r:
    Option<usize>)
    requires
        is_boundary(text@, cursor as int),
    ensures
        match find_target(text@, char_index(text@, cursor as int), target, kind, count as nat) {
            Some(p) => r == Some(byte_offset(text@, p) as usize),
            None => r is None,
        },
{
    let cs = chars_of(text);
    let i = byte_to_index(&cs, cursor);
    match find_index(&cs, i, target, kind, count) {
        Some(p) => Some(index_to_byte(&cs, p)),
        None => None,
    }
}

} // verus!
