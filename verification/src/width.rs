//! Display-width truncation of status and suggestion text, and the spinner.
//!
//! Widths are terminal columns as the `unicode-width` crate measures them.
//! Sums of widths are compared as integers.
use vstd::prelude::*;
use crate::text::{chars_of, concat_vec, slice_vec, string_of, utf8_len};

verus! {

/// What `UnicodeWidthStr::width` returns for a string with characters `s`.
pub uninterp spec fn display_width(s: Seq<char>) -> usize;

/// `UnicodeWidthStr::width` (unicode-width): the displayed width of `s` in
/// columns. Its result is named by `display_width`.
#[verifier::external_body]
fn str_width(s: &str) -> (w: usize)
    ensures
        w == display_width(s@),
{
    unicode_width::UnicodeWidthStr::width(s)
}

fn chars_width(cs: &Vec<char>) -> (w: usize)
    ensures
        w == display_width(cs@),
{
    str_width(string_of(cs).as_str())
}

/// Width of the single character `c`, measured as a one-character string.
pub open spec fn char_columns(c: char) -> int {
    display_width(seq![c]) as int
}

/// How many leading characters of `s` fit, from index `i` with `w` columns
/// used, while each addition stays strictly below `max` columns.
pub open spec fn fitting_prefix(s: Seq<char>, max: int, i: int, w: int) -> int
    decreases s.len() - i,
{
    if 0 <= i < s.len() && w + char_columns(s[i]) < max {
        fitting_prefix(s, max, i + 1, w + char_columns(s[i]))
    } else {
        i
    }
}

pub open spec fn ellipsis() -> Seq<char> {
    seq!['\u{2026}']
}

/// Cut `s` to `max` columns at its end, marking the cut with `…`: unchanged
/// when it fits, `…` alone for a width of 1, nothing for 0.
pub open spec fn truncate_end_spec(s: Seq<char>, max: usize) -> Seq<char> {
    if max == 0 {
        Seq::empty()
    } else if display_width(s) <= max {
        s
    } else if max <= 1 {
        ellipsis()
    } else {
        s.take(fitting_prefix(s, max as int, 0, 0)) + ellipsis()
    }
}

/// Cut `s` to `max` columns in its middle: the first and last `(max - 1) / 2`
/// characters around `…`; widths up to 3 are cut at the end.
pub open spec fn truncate_middle_spec(s: Seq<char>, max: usize) -> Seq<char> {
    if max == 0 {
        Seq::empty()
    } else if display_width(s) <= max {
        s
    } else if max <= 3 {
        truncate_end_spec(s, max)
    } else {
        let keep = (max - 1) / 2;
        let k = if keep <= s.len() {
            keep as int
        } else {
            s.len() as int
        };
        s.take(k) + ellipsis() + s.skip(s.len() - k)
    }
}

/// Index of the first character of `s` from `i` whose prefix no longer fits
/// in `max` columns (the length when all fit).
pub open spec fn first_overflow(s: Seq<char>, max: usize, i: int) -> int
    decreases s.len() - i,
{
    if 0 <= i < s.len() {
        if display_width(s.take(i + 1)) > max {
            i
        } else {
            first_overflow(s, max, i + 1)
        }
    } else {
        i
    }
}

/// Cut `s` to the longest prefix that fits in `max` columns, adding `…` after
/// a cut when there is room for it.
pub open spec fn truncate_text_spec(s: Seq<char>, max: usize) -> Seq<char> {
    if max == 0 {
        Seq::empty()
    } else {
        let i = first_overflow(s, max, 0);
        if i < s.len() {
            let out = s.take(i);
            if max > 1 && display_width(out) < max {
                out + ellipsis()
            } else {
                out
            }
        } else {
            s
        }
    }
}

/// Cut `text` to `max_width` columns at its end, marking the cut with `…`.
pub fn truncate_end(text: &str, max_width: usize) -> (r: String)
    ensures
        r@ == truncate_end_spec(text@, max_width),
{
    if max_width == 0 {
        return String::new();
    }
    if str_width(text) <= max_width {
        return string_of(&chars_of(text));
    }
    if max_width <= 1 {
        return string_of(&vec!['\u{2026}']);
    }
    let cs = chars_of(text);
    let mut i: usize = 0;
    let mut width: usize = 0;
    while i < cs.len()
        invariant_except_break
            i <= cs.len(),
            width < max_width,
            fitting_prefix(cs@, max_width as int, i as int, width as int) == fitting_prefix(
                cs@,
                max_width as int,
                0,
                0,
            ),
        ensures
            i <= cs.len(),
            fitting_prefix(cs@, max_width as int, i as int, width as int) == fitting_prefix(
                cs@,
                max_width as int,
                0,
                0,
            ),
            i == cs.len() || width + char_columns(cs@[i as int]) >= max_width,
        decreases cs.len() - i,
    {
        let one = vec![cs[i]];
        assert(one@ == seq![cs@[i as int]]);
        let ch_width = chars_width(&one);
        if ch_width >= max_width - width {
            break;
        }
        width = width + ch_width;
        i = i + 1;
    }
    let mut out = slice_vec(&cs, 0, i);
    out.push('\u{2026}');
    assert(out@ =~= cs@.take(i as int) + ellipsis());
    string_of(&out)
}

/// Cut `text` to `max_width` columns in its middle.
pub fn truncate_middle(text: &str, max_width: usize) -> (r: String)
    ensures
        r@ == truncate_middle_spec(text@, max_width),
{
    if max_width == 0 {
        return String::new();
    }
    if str_width(text) <= max_width {
        return string_of(&chars_of(text));
    }
    if max_width <= 3 {
        return truncate_end(text, max_width);
    }
    let cs = chars_of(text);
    let keep = (max_width - 1) / 2;
    let k = if keep <= cs.len() {
        keep
    } else {
        cs.len()
    };
    let left = slice_vec(&cs, 0, k);
    let right = slice_vec(&cs, cs.len() - k, cs.len());
    let mut out = left;
    out.push('\u{2026}');
    let all = concat_vec(&out, &right);
    assert(all@ =~= cs@.take(k as int) + ellipsis() + cs@.skip(cs.len() - k));
    string_of(&all)
}

/// Cut `text` to the longest prefix that fits in `max_width` columns, adding
/// `…` after a cut when there is room for it.
pub fn truncate_text(text: &str, max_width: usize) -> (r: String)
    ensures
        r@ == truncate_text_spec(text@, max_width),
{
    if max_width == 0 {
        return String::new();
    }
    let cs = chars_of(text);
    let mut i: usize = 0;
    while i < cs.len()
        invariant
            i <= cs.len(),
            max_width > 0,
            cs@ == text@,
            first_overflow(cs@, max_width, i as int) == first_overflow(cs@, max_width, 0),
        decreases cs.len() - i,
    {
        let next = slice_vec(&cs, 0, i + 1);
        assert(next@ =~= cs@.take(i as int + 1));
        if chars_width(&next) > max_width {
            let mut out = slice_vec(&cs, 0, i);
            assert(out@ =~= cs@.take(i as int));
            if max_width > 1 && chars_width(&out) < max_width {
                out.push('\u{2026}');
                assert(out@ =~= cs@.take(i as int) + ellipsis());
            }
            return string_of(&out);
        }
        i = i + 1;
    }
    assert(cs@.take(cs.len() as int) =~= cs@);
    string_of(&cs)
}

/// Spinner frames: a pulse of glyphs, mirrored; Windows uses `*` in place of
/// U+2733 for font coverage.
pub open spec fn spinner_frames(windows: bool) -> Seq<char> {
    let m = if windows {
        '*'
    } else {
        '\u{2733}'
    };
    seq!['\u{00b7}', '\u{2722}', m, '\u{2736}', '\u{273b}', '\u{273d}', '\u{273d}', '\u{273b}', '\u{2736}', m, '\u{2722}', '\u{00b7}']
}

/// The spinner glyph of animation frame `frame_count` (the frame number taken
/// modulo the machine word, then modulo the 12 glyphs).
pub fn spinner_char_for(frame_count: u64, windows: bool) -> (c: char)
    ensures
        c == spinner_frames(windows)[((frame_count as usize) % 12) as int],
{
    let m = if windows {
        '*'
    } else {
        '\u{2733}'
    };
    let frames = vec!['\u{00b7}', '\u{2722}', m, '\u{2736}', '\u{273b}', '\u{273d}', '\u{273d}', '\u{273b}', '\u{2736}', m, '\u{2722}', '\u{00b7}'];
    assert(frames@ =~= spinner_frames(windows));
    frames[(frame_count as usize) % 12]
}

/// Where the shimmer of a text of `len` characters stands at animation frame
/// `frame_count`: it steps one place every 4 frames, right to left, from 10
/// places past the end to 10 places before the start, then starts over.
pub open spec fn shimmer_center(len: nat, frame_count: u64) -> int {
    let cycle_pos: int = ((frame_count as usize) / 4) as int % ((len + 20) as int);
    if len + 10 >= cycle_pos {
        len + 10 - cycle_pos
    } else {
        0
    }
}

/// Character `i` is lit: the shimmer is over the text and at most one place
/// away.
pub open spec fn shimmer_lit(len: nat, frame_count: u64, i: int) -> bool {
    let c = shimmer_center(len, frame_count);
    0 <= c < len && -1 <= i - c <= 1
}

/// The first `n` characters of `s` split into maximal runs of characters
/// on which `lit` agrees, each with that value.
pub open spec fn runs_by(s: Seq<char>, lit: spec_fn(int) -> bool, n: int) -> Seq<(Seq<char>, bool)>
    decreases n,
{
    if n <= 0 {
        Seq::empty()
    } else {
        let r = runs_by(s, lit, n - 1);
        if r.len() > 0 && r.last().1 == lit(n - 1) {
            r.update(r.len() - 1, (r.last().0.push(s[n - 1]), lit(n - 1)))
        } else {
            r.push((seq![s[n - 1]], lit(n - 1)))
        }
    }
}

/// The shimmer runs of the first `n` characters of `s` at frame `frame_count`.
pub open spec fn shimmer_runs_spec(s: Seq<char>, frame_count: u64, n: int) -> Seq<(Seq<char>, bool)> {
    runs_by(s, |i: int| shimmer_lit(s.len(), frame_count, i), n)
}

/// The runs' characters, in order.
pub open spec fn flatten_runs(r: Seq<(Seq<char>, bool)>) -> Seq<char>
    decreases r.len(),
{
    if r.len() == 0 {
        Seq::empty()
    } else {
        flatten_runs(r.drop_last()) + r.last().0
    }
}

/// The runs of the first `n` characters spell them out, none is empty, and
/// neighbouring runs differ in their value.
pub proof fn lemma_runs_partition(s: Seq<char>, lit: spec_fn(int) -> bool, n: int)
    requires
        0 <= n <= s.len(),
    ensures
        flatten_runs(runs_by(s, lit, n)) == s.take(n),
        forall|k: int| 0 <= k < runs_by(s, lit, n).len() ==> #[trigger] runs_by(s, lit, n)[k].0.len() > 0,
        forall|k: int| 0 < k < runs_by(s, lit, n).len() ==> runs_by(s, lit, n)[k - 1].1 != #[trigger] runs_by(s, lit, n)[k].1,
    decreases n,
{
    if n > 0 {
        lemma_runs_partition(s, lit, n - 1);
        let r = runs_by(s, lit, n - 1);
        assert(s.take(n) =~= s.take(n - 1).push(s[n - 1]));
        if r.len() > 0 && r.last().1 == lit(n - 1) {
            let r2 = r.update(r.len() - 1, (r.last().0.push(s[n - 1]), lit(n - 1)));
            assert(r2.drop_last() =~= r.drop_last());
            assert(flatten_runs(r) == flatten_runs(r.drop_last()) + r.last().0);
            assert(flatten_runs(r2) =~= flatten_runs(r) + seq![s[n - 1]]);
        } else {
            let r2 = r.push((seq![s[n - 1]], lit(n - 1)));
            assert(r2.drop_last() =~= r);
            assert(flatten_runs(r2) =~= flatten_runs(r) + seq![s[n - 1]]);
        }
    } else {
        assert(s.take(0) =~= Seq::<char>::empty());
    }
}

pub open spec fn runs_view(v: Seq<(String, bool)>) -> Seq<(Seq<char>, bool)> {
    v.map_values(|e: (String, bool)| (e.0@, e.1))
}

/// `text` split into runs of characters that the shimmer of frame
/// `frame_count` lights or leaves dim, in order.
pub fn shimmer_runs(text: &str, frame_count: u64) -> (r: Vec<(String, bool)>)
    ensures
        runs_view(r@) == shimmer_runs_spec(text@, frame_count, text@.len() as int),
{
    let cs = chars_of(text);
    let len = cs.len();
    let mut out: Vec<(String, bool)> = Vec::new();
    if len == 0 {
        proof {
            assert(runs_view(out@) =~= Seq::empty());
        }
        return out;
    }
    proof {
        assert(utf8_len(cs@) >= cs@.len()) by {
            crate::text::lemma_offset_bound(cs@, cs@.len() as int);
            crate::text::lemma_offset_full(cs@);
        }
    }
    let cycle_len = len + 20;
    let cycle_pos = ((frame_count as usize) / 4) % cycle_len;
    let center: usize = if len + 10 >= cycle_pos {
        len + 10 - cycle_pos
    } else {
        0
    };
    assert(center == shimmer_center(len as nat, frame_count));
    let mut run: Vec<char> = Vec::new();
    let mut run_lit = false;
    let mut i: usize = 0;
    while i < len
        invariant
            len == cs.len(),
            cs@ == text@,
            i <= len,
            center == shimmer_center(len as nat, frame_count),
            i == 0 ==> run.len() == 0,
            i > 0 ==> run.len() > 0,
            shimmer_runs_spec(cs@, frame_count, i as int) == if run.len() > 0 {
                runs_view(out@).push((run@, run_lit))
            } else {
                runs_view(out@)
            },
        decreases len - i,
    {
        let lit = center < len && i + 1 >= center && i <= center + 1;
        assert(lit == shimmer_lit(len as nat, frame_count, i as int));
        let ghost before = shimmer_runs_spec(cs@, frame_count, i as int);
        if lit != run_lit && run.len() > 0 {
            let ghost ov = runs_view(out@);
            out.push((string_of(&run), run_lit));
            proof {
                assert(runs_view(out@) =~= ov.push((run@, run_lit)));
            }
            run = Vec::new();
        }
        run_lit = lit;
        let ghost old_run = run@;
        run.push(cs[i]);
        i = i + 1;
        proof {
            if old_run.len() > 0 {
                assert(before == runs_view(out@).push((old_run, lit)));
                assert(shimmer_runs_spec(cs@, frame_count, i as int) =~= runs_view(out@).push((run@, run_lit)));
            } else {
                assert(run@ =~= seq![cs@[i - 1]]);
            }
        }
    }
    let ghost ov = runs_view(out@);
    out.push((string_of(&run), run_lit));
    proof {
        assert(runs_view(out@) =~= ov.push((run@, run_lit)));
    }
    out
}

} // verus!
