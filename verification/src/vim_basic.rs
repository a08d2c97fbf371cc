//! The basic vim command handler (`h j k l w b e 0 $ i a I A dd yy x p`),
//! which counts its cursor moves in bytes.
use vstd::prelude::*;
use crate::text::{byte_len, byte_to_index, char_index, chars_of, cut, cut_vec, is_boundary, lemma_char_index, lemma_len_cut, lemma_offset_bound, lemma_offset_full, splice, splice_vec, string_of, utf8_len};
use crate::motions::{e_target, line_end, line_end_index, line_start, line_start_index, motion_e, skip_backward, skip_bwd, skip_forward, skip_fwd, CharClass};
use crate::text::{byte_offset, index_to_byte};
use crate::vim::VimMode;

verus! {

/// Mode, text, byte cursor and yank buffer after a basic command.
pub ghost struct BasicOut {
    pub mode: VimMode,
    pub text: Seq<char>,
    pub cursor: int,
    pub yank: Seq<char>,
}

/// `w`: the cursor advances by the number of word characters after it plus
/// the number of whitespace characters after those, counted in characters.
pub open spec fn basic_w_target(s: Seq<char>, cur: int) -> int {
    let rest = s.skip(char_index(s, cur));
    let sw = skip_fwd(rest, 0, CharClass::Word);
    let j = char_index(rest, sw);
    let ss = skip_fwd(rest, j, CharClass::Space) - j;
    let t = cur + sw + ss;
    if t <= utf8_len(s) {
        t
    } else {
        utf8_len(s) as int
    }
}

/// `b`: the cursor goes back by the number of whitespace characters before
/// it plus the number of word characters before those, counted in characters.
pub open spec fn basic_b_target(s: Seq<char>, cur: int) -> int {
    let i = char_index(s, cur);
    let before = s.take(i);
    let ss = i - skip_bwd(s, i, CharClass::Space);
    let b2 = before.take(char_index(before, cur - ss));
    let sw = b2.len() - skip_bwd(b2, b2.len() as int, CharClass::Word);
    if ss + sw >= cur {
        0
    } else {
        cur - (ss + sw)
    }
}

/// `j`: the same character column on the next line, or that line's end
/// when it is shorter; the cursor stays on the last line.
pub open spec fn basic_j_target(s: Seq<char>, cur: int) -> int {
    let i = char_index(s, cur);
    let col = i - line_start(s, i);
    let le = line_end(s, i);
    if le >= s.len() {
        cur
    } else {
        let ns = le + 1;
        let ne = line_end(s, ns);
        byte_offset(s, if ns + col <= ne { ns + col } else { ne }) as int
    }
}

/// `k`: the same character column on the previous line, or that line's end
/// when it is shorter; the cursor stays on the first line.
pub open spec fn basic_k_target(s: Seq<char>, cur: int) -> int {
    let i = char_index(s, cur);
    let ls = line_start(s, i);
    let col = i - ls;
    if ls <= 0 {
        cur
    } else {
        let pe = ls - 1;
        let ps = line_start(s, pe);
        byte_offset(s, if ps + col <= pe { ps + col } else { pe }) as int
    }
}

/// The inputs on which the basic command slices only at character boundaries.
pub open spec fn basic_ok(mode: VimMode, s: Seq<char>, cur: int, k: Seq<char>) -> bool {
    mode == VimMode::Normal ==> {
        &&& k == seq!['w'] ==> {
            &&& is_boundary(s, cur)
            &&& is_boundary(
                s.skip(char_index(s, cur)),
                skip_fwd(s.skip(char_index(s, cur)), 0, CharClass::Word),
            )
        }
        &&& k == seq!['b'] ==> {
            let i = char_index(s, cur);
            &&& is_boundary(s, cur)
            &&& is_boundary(s.take(i), cur - (i - skip_bwd(s, i, CharClass::Space)))
        }
        &&& (k == seq!['e'] || k == seq!['j'] || k == seq!['k']) ==> is_boundary(s, cur)
        &&& k == seq!['x'] ==> (cur < utf8_len(s) ==> is_boundary(s, cur))
        &&& k == seq!['p'] ==> is_boundary(
            s,
            if cur + 1 <= utf8_len(s) {
                cur + 1
            } else {
                utf8_len(s) as int
            },
        )
    }
}

/// What a basic command does. Motions other than `Escape` act in normal mode only.
pub open spec fn basic_spec(mode: VimMode, s: Seq<char>, cur: int, k: Seq<char>, y: Seq<char>) -> BasicOut {
    let len = utf8_len(s) as int;
    let unchanged = BasicOut { mode, text: s, cursor: cur, yank: y };
    let normal = mode == VimMode::Normal;
    if k == "Escape"@ {
        BasicOut { mode: VimMode::Normal, ..unchanged }
    } else if !normal || k.len() == 0 {
        unchanged
    } else if k == seq!['i'] {
        BasicOut { mode: VimMode::Insert, ..unchanged }
    } else if k == seq!['a'] {
        BasicOut { mode: VimMode::Insert, cursor: if cur < len { cur + 1 } else { cur }, ..unchanged }
    } else if k == seq!['I'] {
        BasicOut { mode: VimMode::Insert, cursor: 0, ..unchanged }
    } else if k == seq!['A'] {
        BasicOut { mode: VimMode::Insert, cursor: len, ..unchanged }
    } else if k == seq!['h'] {
        BasicOut { cursor: if cur > 0 { cur - 1 } else { 0 }, ..unchanged }
    } else if k == seq!['l'] {
        BasicOut { cursor: if cur < len { cur + 1 } else { cur }, ..unchanged }
    } else if k == seq!['0'] {
        BasicOut { cursor: 0, ..unchanged }
    } else if k == seq!['$'] {
        BasicOut { cursor: len, ..unchanged }
    } else if k == seq!['w'] {
        BasicOut { cursor: basic_w_target(s, cur), ..unchanged }
    } else if k == seq!['b'] {
        BasicOut { cursor: basic_b_target(s, cur), ..unchanged }
    } else if k == seq!['e'] {
        BasicOut { cursor: byte_offset(s, e_target(s, char_index(s, cur))) as int, ..unchanged }
    } else if k == seq!['j'] {
        BasicOut { cursor: basic_j_target(s, cur), ..unchanged }
    } else if k == seq!['k'] {
        BasicOut { cursor: basic_k_target(s, cur), ..unchanged }
    } else if k == seq!['x'] {
        if cur < len {
            let i = char_index(s, cur);
            let s2 = cut(s, i, i + 1);
            let len2 = utf8_len(s2) as int;
            BasicOut {
                text: s2,
                yank: seq![if cur < s.len() { s[cur] } else { '\0' }],
                cursor: if cur > 0 && cur >= len2 { if len2 > 0 { len2 - 1 } else { 0 } } else { cur },
                ..unchanged
            }
        } else {
            unchanged
        }
    } else if k == seq!['d', 'd'] {
        BasicOut { text: Seq::empty(), cursor: 0, yank: s, ..unchanged }
    } else if k == seq!['y', 'y'] {
        BasicOut { yank: s, ..unchanged }
    } else if k == seq!['p'] {
        let ins = if cur + 1 <= len { cur + 1 } else { len };
        BasicOut {
            text: splice(s, char_index(s, ins), y),
            cursor: ins + utf8_len(y),
            ..unchanged
        }
    } else {
        unchanged
    }
}

/// Apply a vim normal-mode motion/command to `text`/`cursor`.
/// Covers: h j k l w b e 0 $ i a I A dd yy x p (and Escape).
pub fn apply_vim_command(
    mode: &mut VimMode,
    text: &mut String,
    cursor: &mut usize,
    key: &str,
    yank_buf: &mut String,
)
    requires
        basic_ok(*old(mode), old(text)@, *old(cursor) as int, key@),
        utf8_len(old(text)@) + utf8_len(old(yank_buf)@) + 2 <= usize::MAX,
    ensures
        ({
            let o = basic_spec(*old(mode), old(text)@, *old(cursor) as int, key@, old(yank_buf)@);
            &&& *final(mode) == o.mode
            &&& final(text)@ == o.text
            &&& *final(cursor) == o.cursor
            &&& final(yank_buf)@ == o.yank
        }),
{
    let k = chars_of(key);
    let cs = chars_of(text.as_str());
    let len = byte_len(&cs);
    let cur = *cursor;
    if crate::text::str_is(&k, "Escape") {
        *mode = VimMode::Normal;
        return;
    }
    let normal = *mode == VimMode::Normal;
    if !normal || k.len() == 0 {
        return;
    }
    if k.len() == 1 && k[0] == 'i' {
        assert(k@ =~= seq!['i']);
        *mode = VimMode::Insert;
    } else if k.len() == 1 && k[0] == 'a' {
        assert(k@ =~= seq!['a']);
        *mode = VimMode::Insert;
        if cur < len {
            *cursor = cur + 1;
        }
    } else if k.len() == 1 && k[0] == 'I' {
        assert(k@ =~= seq!['I']);
        *mode = VimMode::Insert;
        *cursor = 0;
    } else if k.len() == 1 && k[0] == 'A' {
        assert(k@ =~= seq!['A']);
        *mode = VimMode::Insert;
        *cursor = len;
    } else if k.len() == 1 && k[0] == 'h' {
        assert(k@ =~= seq!['h']);
        if cur > 0 {
            *cursor = cur - 1;
        }
    } else if k.len() == 1 && k[0] == 'l' {
        assert(k@ =~= seq!['l']);
        if cur < len {
            *cursor = cur + 1;
        }
    } else if k.len() == 1 && k[0] == '0' {
        assert(k@ =~= seq!['0']);
        *cursor = 0;
    } else if k.len() == 1 && k[0] == '$' {
        assert(k@ =~= seq!['$']);
        *cursor = len;
    } else if k.len() == 1 && k[0] == 'w' {
        assert(k@ =~= seq!['w']);
        let i = byte_to_index(&cs, cur);
        proof {
            lemma_char_index(cs@, cur as int);
        }
        let rest = crate::text::slice_vec(&cs, i, cs.len());
        assert(rest@ =~= cs@.skip(i as int));
        proof {
            crate::text::lemma_len_subrange(cs@, i as int, cs.len() as int);
            lemma_offset_full(cs@);
            assert(cs@.subrange(i as int, cs.len() as int) =~= rest@);
        }
        let sw = skip_forward(&rest, 0, CharClass::Word);
        let j = byte_to_index(&rest, sw);
        proof {
            lemma_char_index(rest@, sw as int);
        }
        let e = skip_forward(&rest, j, CharClass::Space);
        let ss = e - j;
        proof {
            lemma_offset_bound(cs@, i as int);
        }
        let room = len - cur;
        *cursor = if sw <= room && ss <= room - sw {
            cur + sw + ss
        } else {
            len
        };
    } else if k.len() == 1 && k[0] == 'b' {
        assert(k@ =~= seq!['b']);
        let i = byte_to_index(&cs, cur);
        proof {
            lemma_char_index(cs@, cur as int);
            lemma_offset_bound(cs@, i as int);
        }
        let before = crate::text::slice_vec(&cs, 0, i);
        assert(before@ =~= cs@.take(i as int));
        let sb = skip_backward(&cs, i, CharClass::Space);
        let ss = i - sb;
        proof {
            crate::text::lemma_len_subrange(cs@, 0, i as int);
            crate::text::lemma_offset_zero(cs@);
            assert(cs@.subrange(0, i as int) =~= before@);
        }
        let m = byte_to_index(&before, cur - ss);
        proof {
            lemma_char_index(before@, cur - ss);
        }
        let b2 = crate::text::slice_vec(&before, 0, m);
        assert(b2@ =~= before@.take(m as int));
        let sb2 = skip_backward(&b2, b2.len(), CharClass::Word);
        let sw = b2.len() - sb2;
        *cursor = if ss >= cur || sw >= cur - ss {
            0
        } else {
            cur - ss - sw
        };
    } else if k.len() == 1 && k[0] == 'e' {
        assert(k@ =~= seq!['e']);
        *cursor = motion_e(text.as_str(), cur);
    } else if k.len() == 1 && k[0] == 'j' {
        assert(k@ =~= seq!['j']);
        let i = byte_to_index(&cs, cur);
        let ls = line_start_index(&cs, i);
        let le = line_end_index(&cs, i);
        if le < cs.len() {
            let col = i - ls;
            let ns = le + 1;
            let ne = line_end_index(&cs, ns);
            let t = if col <= ne - ns { ns + col } else { ne };
            *cursor = index_to_byte(&cs, t);
        }
    } else if k.len() == 1 && k[0] == 'k' {
        assert(k@ =~= seq!['k']);
        let i = byte_to_index(&cs, cur);
        let ls = line_start_index(&cs, i);
        if ls > 0 {
            let col = i - ls;
            let pe = ls - 1;
            let ps = line_start_index(&cs, pe);
            let t = if col <= pe - ps { ps + col } else { pe };
            *cursor = index_to_byte(&cs, t);
        }
    } else if k.len() == 1 && k[0] == 'x' {
        assert(k@ =~= seq!['x']);
        if cur < len {
            let ch = if cur < cs.len() { cs[cur] } else { '\0' };
            let mut yv: Vec<char> = Vec::new();
            yv.push(ch);
            let i = byte_to_index(&cs, cur);
            proof {
                lemma_char_index(cs@, cur as int);
                lemma_offset_full(cs@);
                if i == cs.len() {
                    assert(false);
                }
                lemma_len_cut(cs@, i as int, i as int + 1);
            }
            let s2 = cut_vec(&cs, i, i + 1);
            let len2 = byte_len(&s2);
            *yank_buf = string_of(&yv);
            *text = string_of(&s2);
            if cur > 0 && cur >= len2 {
                *cursor = if len2 > 0 {
                    len2 - 1
                } else {
                    0
                };
            }
        }
    } else if k.len() == 2 && k[0] == 'd' && k[1] == 'd' {
        assert(k@ =~= seq!['d', 'd']);
        *yank_buf = string_of(&cs);
        let empty: Vec<char> = Vec::new();
        *text = string_of(&empty);
        *cursor = 0;
    } else if k.len() == 2 && k[0] == 'y' && k[1] == 'y' {
        assert(k@ =~= seq!['y', 'y']);
        *yank_buf = string_of(&cs);
    } else if k.len() == 1 && k[0] == 'p' {
        assert(k@ =~= seq!['p']);
        let ins = if cur < len {
            cur + 1
        } else {
            len
        };
        let yv = chars_of(yank_buf.as_str());
        let yl = byte_len(&yv);
        let at = byte_to_index(&cs, ins);
        let s2 = splice_vec(&cs, at, &yv);
        *text = string_of(&s2);
        *cursor = ins + yl;
    } else {
        proof {
            assert(k@ != seq!['i'] && k@ != seq!['a'] && k@ != seq!['I'] && k@ != seq!['A']);
            assert(k@ != seq!['h'] && k@ != seq!['l'] && k@ != seq!['0'] && k@ != seq!['$']);
            assert(k@ != seq!['w'] && k@ != seq!['b'] && k@ != seq!['x'] && k@ != seq!['p']);
            assert(k@ != seq!['e'] && k@ != seq!['j'] && k@ != seq!['k']);
            assert(k@ != seq!['d', 'd'] && k@ != seq!['y', 'y']);
        }
    }
}

} // verus!
