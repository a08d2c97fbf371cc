//! Text shown for a user prompt in the transcript: very long prompts are cut
//! to their head and tail around a note of how many lines were hidden.
use vstd::prelude::*;
use crate::numbers::{decimal, decimal_exec};
use crate::text::{byte_len, byte_to_index, char_index, chars_of, is_boundary, lemma_char_index, slice_vec, string_of, utf8_len};
use crate::vim::{newline_count, newline_count_exec};

verus! {

/// Prompts of at most this many UTF-8 bytes are shown whole.
pub const MAX_USER_PROMPT_DISPLAY_CHARS: usize = 10_000;

/// Bytes kept from the start of a longer prompt.
pub const TRUNCATE_USER_PROMPT_HEAD_CHARS: usize = 2_500;

/// Bytes kept from the end of a longer prompt.
pub const TRUNCATE_USER_PROMPT_TAIL_CHARS: usize = 2_500;

/// The prompt is cut only at character starts: the head ends and the tail
/// begins on a character boundary whenever the prompt is long enough to cut.
pub open spec fn prompt_cut_ok(s: Seq<char>) -> bool {
    utf8_len(s) > MAX_USER_PROMPT_DISPLAY_CHARS ==> {
        &&& is_boundary(s, TRUNCATE_USER_PROMPT_HEAD_CHARS as int)
        &&& is_boundary(s, utf8_len(s) - TRUNCATE_USER_PROMPT_TAIL_CHARS)
    }
}

/// `"\n… +"`, written before the hidden-line count.
pub open spec fn hidden_open() -> Seq<char> {
    seq!['\n', '\u{2026}', ' ', '+']
}

/// `" lines …\n"`, written after the hidden-line count.
pub open spec fn hidden_close() -> Seq<char> {
    seq![' ', 'l', 'i', 'n', 'e', 's', ' ', '\u{2026}', '\n']
}

/// The head of a long prompt: its first `TRUNCATE_USER_PROMPT_HEAD_CHARS` bytes.
pub open spec fn prompt_head(s: Seq<char>) -> Seq<char> {
    s.take(char_index(s, TRUNCATE_USER_PROMPT_HEAD_CHARS as int))
}

/// The tail of a long prompt: its last `TRUNCATE_USER_PROMPT_TAIL_CHARS` bytes.
pub open spec fn prompt_tail(s: Seq<char>) -> Seq<char> {
    s.skip(char_index(s, utf8_len(s) - TRUNCATE_USER_PROMPT_TAIL_CHARS))
}

/// Line breaks among the first `TRUNCATE_USER_PROMPT_HEAD_CHARS` characters,
/// less those of the tail, and 0 where that would be negative.
pub open spec fn hidden_lines(s: Seq<char>) -> nat {
    let k: int = if TRUNCATE_USER_PROMPT_HEAD_CHARS < s.len() {
        TRUNCATE_USER_PROMPT_HEAD_CHARS as int
    } else {
        s.len() as int
    };
    let a = newline_count(s.take(k));
    let b = newline_count(prompt_tail(s));
    if a >= b {
        (a - b) as nat
    } else {
        0
    }
}

/// What the transcript shows for the prompt `s`.
pub open spec fn user_prompt_display(s: Seq<char>) -> Seq<char> {
    if utf8_len(s) <= MAX_USER_PROMPT_DISPLAY_CHARS {
        s
    } else {
        prompt_head(s) + hidden_open() + decimal(hidden_lines(s)) + hidden_close() + prompt_tail(s)
    }
}

/// The text shown for a user prompt: the prompt itself when it has at most
/// `MAX_USER_PROMPT_DISPLAY_CHARS` bytes, else its head, a line
/// `… +N lines …`, and its tail.
pub fn truncate_user_prompt_text(text: &str) -> (r: String)
    requires
        prompt_cut_ok(text@),
    ensures
        r@ == user_prompt_display(text@),
{
    let cs = chars_of(text);
    let n = byte_len(&cs);
    if n <= MAX_USER_PROMPT_DISPLAY_CHARS {
        return string_of(&cs);
    }
    let hi = byte_to_index(&cs, TRUNCATE_USER_PROMPT_HEAD_CHARS);
    let ti = byte_to_index(&cs, n - TRUNCATE_USER_PROMPT_TAIL_CHARS);
    proof {
        lemma_char_index(cs@, TRUNCATE_USER_PROMPT_HEAD_CHARS as int);
        lemma_char_index(cs@, n - TRUNCATE_USER_PROMPT_TAIL_CHARS);
    }
    let k: usize = if TRUNCATE_USER_PROMPT_HEAD_CHARS < cs.len() {
        TRUNCATE_USER_PROMPT_HEAD_CHARS
    } else {
        cs.len()
    };
    let a = newline_count_exec(&cs, k);
    let tail = slice_vec(&cs, ti, cs.len());
    let b = newline_count_exec(&tail, tail.len());
    proof {
        assert(tail@.take(tail.len() as int) =~= tail@);
        assert(tail@ =~= cs@.skip(ti as int));
    }
    let hidden: usize = if a >= b {
        a - b
    } else {
        0
    };
    let mut out = slice_vec(&cs, 0, hi);
    proof {
        assert(out@ =~= cs@.take(hi as int));
    }
    out.push('\n');
    out.push('\u{2026}');
    out.push(' ');
    out.push('+');
    let digits = decimal_exec(hidden);
    let mut i: usize = 0;
    let ghost base = out@;
    while i < digits.len()
        invariant
            i <= digits.len(),
            out@ == base + digits@.take(i as int),
        decreases digits.len() - i,
    {
        out.push(digits[i]);
        i = i + 1;
        proof {
            assert(digits@.take(i as int) =~= digits@.take(i - 1).push(digits@[i - 1]));
        }
    }
    proof {
        assert(digits@.take(digits.len() as int) =~= digits@);
    }
    out.push(' ');
    out.push('l');
    out.push('i');
    out.push('n');
    out.push('e');
    out.push('s');
    out.push(' ');
    out.push('\u{2026}');
    out.push('\n');
    let ghost before_tail = out@;
    let mut j: usize = 0;
    while j < tail.len()
        invariant
            j <= tail.len(),
            out@ == before_tail + tail@.take(j as int),
        decreases tail.len() - j,
    {
        out.push(tail[j]);
        j = j + 1;
        proof {
            assert(tail@.take(j as int) =~= tail@.take(j - 1).push(tail@[j - 1]));
        }
    }
    proof {
        assert(tail@.take(tail.len() as int) =~= tail@);
        assert(out@ =~= user_prompt_display(cs@));
    }
    string_of(&out)
}

} // verus!
