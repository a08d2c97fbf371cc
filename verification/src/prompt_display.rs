//! What the prompt box shows: the text with a block cursor at the cursor,
//! or a placeholder when empty, split into lines (as `str::lines` splits)
//! and each line cut to the width from the left.
use vstd::prelude::*;
use crate::prompt::{InputMode, PromptInputState};
use crate::text::{byte_len, byte_to_index, char_index, chars_of, is_boundary, splice, splice_vec, string_of, utf8_len};

verus! {

/// The block cursor shown in the prompt.
pub open spec fn cursor_block() -> Seq<char> {
    seq!['\u{2588}']
}

/// The placeholder of an empty, unfocused prompt in the default mode.
pub open spec fn placeholder() -> Seq<char> {
    "How can I help you?"@
}

/// The prompt's content: when empty, the cursor block if focused, else the
/// placeholder in the default mode, else nothing; otherwise the text with
/// the cursor block inserted at the cursor when focused and the cursor is
/// within the text.
pub open spec fn display_text_spec(text: Seq<char>, cursor: int, focused: bool, mode: InputMode) -> Seq<char> {
    if text.len() == 0 {
        if focused {
            cursor_block()
        } else if mode == InputMode::Default {
            placeholder()
        } else {
            Seq::empty()
        }
    } else if focused && cursor <= utf8_len(text) {
        splice(text, char_index(text, cursor), cursor_block())
    } else {
        text
    }
}

/// The inputs on which the cursor block goes at a character boundary.
pub open spec fn display_ok(text: Seq<char>, cursor: int, focused: bool) -> bool {
    focused && text.len() > 0 && cursor <= utf8_len(text) ==> is_boundary(text, cursor)
}

/// A line without the `'\r'` just before its line feed.
pub open spec fn strip_cr(l: Seq<char>) -> Seq<char> {
    if l.len() > 0 && l.last() == '\r' {
        l.drop_last()
    } else {
        l
    }
}

/// The lines ended by a line feed among the first `n` characters of `s`,
/// and the characters after the last of them.
pub open spec fn split_nl(s: Seq<char>, n: int) -> (Seq<Seq<char>>, Seq<char>)
    decreases n,
{
    if n <= 0 {
        (Seq::empty(), Seq::empty())
    } else {
        let (d, c) = split_nl(s, n - 1);
        if s[n - 1] == '\n' {
            (d.push(strip_cr(c)), Seq::empty())
        } else {
            (d, c.push(s[n - 1]))
        }
    }
}

/// `str::lines`: the lines of `s`, each without its line ending; a last
/// line without a line feed counts when it is not empty.
pub open spec fn text_lines(s: Seq<char>) -> Seq<Seq<char>> {
    let (d, c) = split_nl(s, s.len() as int);
    if c.len() > 0 {
        d.push(c)
    } else {
        d
    }
}

/// The last `w` characters of `l` (all of it when shorter).
pub open spec fn keep_last(l: Seq<char>, w: nat) -> Seq<char> {
    if l.len() > w {
        l.skip(l.len() - w)
    } else {
        l
    }
}

/// The rows of the prompt box: the content's lines (one empty line when it
/// has none), each cut to its last `width` characters.
pub open spec fn display_lines_spec(text: Seq<char>, cursor: int, focused: bool, mode: InputMode, width: nat) -> Seq<Seq<char>> {
    let ls = text_lines(display_text_spec(text, cursor, focused, mode));
    let ls = if ls.len() == 0 {
        seq![Seq::<char>::empty()]
    } else {
        ls
    };
    ls.map_values(|l: Seq<char>| keep_last(l, width))
}

pub open spec fn strings_view(v: Seq<String>) -> Seq<Seq<char>> {
    v.map_values(|s: String| s@)
}

/// The prompt's content (see `display_text_spec`).
pub fn prompt_display_text(state: &PromptInputState, focused: bool, mode: InputMode) -> (r: Vec<char>)
    requires
        display_ok(state.text@, state.cursor as int, focused),
    ensures
        r@ == display_text_spec(state.text@, state.cursor as int, focused, mode),
{
    let cs = chars_of(state.text.as_str());
    let block = vec!['\u{2588}'];
    assert(block@ == cursor_block());
    if cs.len() == 0 {
        if focused {
            block
        } else if mode == InputMode::Default {
            chars_of("How can I help you?")
        } else {
            Vec::new()
        }
    } else if focused && state.cursor <= byte_len(&cs) {
        let i = byte_to_index(&cs, state.cursor);
        splice_vec(&cs, i, &block)
    } else {
        cs
    }
}

/// `str::lines` on a character sequence, as strings.
pub fn lines_of(s: &Vec<char>) -> (r: Vec<String>)
    ensures
        strings_view(r@) == text_lines(s@),
{
    let mut done: Vec<String> = Vec::new();
    let mut cur: Vec<char> = Vec::new();
    let mut i: usize = 0;
    while i < s.len()
        invariant
            i <= s.len(),
            split_nl(s@, i as int) == (strings_view(done@), cur@),
        decreases s.len() - i,
    {
        let ghost d0 = strings_view(done@);
        if s[i] == '\n' {
            if cur.len() > 0 && cur[cur.len() - 1] == '\r' {
                cur.pop();
            }
            done.push(string_of(&cur));
            cur = Vec::new();
            proof {
                assert(strings_view(done@) =~= d0.push(strip_cr(split_nl(s@, i as int).1)));
            }
        } else {
            cur.push(s[i]);
        }
        i = i + 1;
    }
    if cur.len() > 0 {
        let ghost d0 = strings_view(done@);
        done.push(string_of(&cur));
        proof {
            assert(strings_view(done@) =~= d0.push(cur@));
        }
    }
    done
}

fn keep_last_exec(l: &String, w: usize) -> (r: String)
    ensures
        r@ == keep_last(l@, w as nat),
{
    let cs = chars_of(l.as_str());
    if cs.len() > w {
        let from = cs.len() - w;
        let kept = crate::text::slice_vec(&cs, from, cs.len());
        assert(kept@ =~= cs@.skip(from as int));
        string_of(&kept)
    } else {
        string_of(&cs)
    }
}

/// The rows the prompt box shows (see `display_lines_spec`).
pub fn prompt_display_lines(state: &PromptInputState, focused: bool, mode: InputMode, width: usize) -> (r: Vec<String>)
    requires
        display_ok(state.text@, state.cursor as int, focused),
    ensures
        strings_view(r@) == display_lines_spec(state.text@, state.cursor as int, focused, mode, width as nat),
{
    let content = prompt_display_text(state, focused, mode);
    let mut ls = lines_of(&content);
    if ls.len() == 0 {
        ls.push(String::new());
        proof {
            assert(strings_view(ls@) =~= seq![Seq::<char>::empty()]);
        }
    }
    let ghost lv = strings_view(ls@);
    let mut out: Vec<String> = Vec::new();
    let mut k: usize = 0;
    while k < ls.len()
        invariant
            k <= ls.len(),
            lv == strings_view(ls@),
            strings_view(out@) == lv.take(k as int).map_values(|l: Seq<char>| keep_last(l, width as nat)),
        decreases ls.len() - k,
    {
        let ghost o0 = strings_view(out@);
        let row = keep_last_exec(&ls[k], width);
        out.push(row);
        k = k + 1;
        proof {
            assert(strings_view(out@) =~= o0.push(keep_last(lv[k - 1], width as nat)));
            assert(lv.take(k as int).map_values(|l: Seq<char>| keep_last(l, width as nat))
                =~= lv.take(k - 1).map_values(|l: Seq<char>| keep_last(l, width as nat)).push(keep_last(lv[k - 1], width as nat)));
        }
    }
    proof {
        assert(lv.take(ls.len() as int) =~= lv);
    }
    out
}

} // verus!
