//! One-line summaries of a tool call's arguments, as the transcript shows
//! them next to the tool's name.
//!
//! The arguments are a JSON object; the summary reads only its string
//! members, which the caller passes as (key, text) pairs in the object's
//! order.
use vstd::prelude::*;
use crate::prompt::{trim, trim_chars};
use crate::text::{chars_of, str_is, string_of};
use crate::json::{json_object, json_string, members, pairs_view, str_of};

verus! {

/// Summaries are cut to this many characters.
pub const TOOL_SUMMARY_CHARS: usize = 60;

pub open spec fn fields_view(f: Seq<(String, String)>) -> Seq<(Seq<char>, Seq<char>)> {
    f.map_values(|e: (String, String)| (e.0@, e.1@))
}

/// The text of the first member named `key` at or after `i`; empty when there
/// is none.
pub open spec fn field_from(f: Seq<(Seq<char>, Seq<char>)>, key: Seq<char>, i: int) -> Seq<char>
    decreases f.len() - i,
{
    if i < 0 || i >= f.len() {
        Seq::empty()
    } else if f[i].0 == key {
        f[i].1
    } else {
        field_from(f, key, i + 1)
    }
}

/// The text of the member named `key`, empty when there is none.
pub open spec fn field_text(f: Seq<(Seq<char>, Seq<char>)>, key: Seq<char>) -> Seq<char> {
    field_from(f, key, 0)
}

/// Index of the first `'\n'` of `s` at or after `i`.
pub open spec fn newline_from(s: Seq<char>, i: int) -> Option<int>
    decreases s.len() - i,
{
    if i < 0 || i >= s.len() {
        None
    } else if s[i] == '\n' {
        Some(i)
    } else {
        newline_from(s, i + 1)
    }
}

/// `str::lines().next()`, empty for empty text: the text up to the first
/// line feed, without a carriage return just before it.
pub open spec fn first_line(s: Seq<char>) -> Seq<char> {
    match newline_from(s, 0) {
        Some(i) => {
            let l = s.take(i);
            if l.len() > 0 && l.last() == '\r' {
                l.drop_last()
            } else {
                l
            }
        },
        None => s,
    }
}

/// `s` trimmed, and cut to `n` characters followed by `…` when longer.
pub open spec fn shorten(s: Seq<char>, n: nat) -> Seq<char> {
    let t = trim(s);
    if t.len() > n {
        t.take(n as int).push('\u{2026}')
    } else {
        t
    }
}

pub open spec fn summary_of(s: Seq<char>) -> Seq<char> {
    shorten(s, TOOL_SUMMARY_CHARS as nat)
}

/// `s` holds no line feed.
pub open spec fn one_line(s: Seq<char>) -> bool {
    forall|k: int| 0 <= k < s.len() ==> s[k] != '\n'
}

/// `newline_from` finds the first line feed at or after `i`.
pub proof fn lemma_newline_from(s: Seq<char>, i: int)
    requires
        0 <= i,
    ensures
        match newline_from(s, i) {
            Some(j) => i <= j < s.len() && s[j] == '\n' && forall|k: int| i <= k < j ==> s[k] != '\n',
            None => forall|k: int| i <= k < s.len() ==> s[k] != '\n',
        },
    decreases s.len() - i,
{
    if i < s.len() && s[i] != '\n' {
        lemma_newline_from(s, i + 1);
    }
}

/// The first line of a text holds no line feed.
pub proof fn lemma_first_line_one_line(s: Seq<char>)
    ensures
        one_line(first_line(s)),
{
    lemma_newline_from(s, 0);
    match newline_from(s, 0) {
        Some(j) => {
            let l = s.take(j);
            if l.len() > 0 && l.last() == '\r' {
                assert forall|k: int| 0 <= k < l.drop_last().len() implies l.drop_last()[k] != '\n' by {
                    assert(l.drop_last()[k] == s[k]);
                }
            } else {
                assert forall|k: int| 0 <= k < l.len() implies l[k] != '\n' by {
                    assert(l[k] == s[k]);
                }
            }
        },
        None => {},
    }
}

/// The first line of a line followed by a line feed and more text is that
/// line; a single line without a carriage return at its end is its own first
/// line.
pub proof fn lemma_first_line_of(a: Seq<char>, rest: Seq<char>)
    requires
        one_line(a),
        a.len() == 0 || a.last() != '\r',
    ensures
        first_line(a + seq!['\n'] + rest) == a,
        first_line(a) == a,
{
    let s = a + seq!['\n'] + rest;
    lemma_newline_from(s, 0);
    assert(s[a.len() as int] == '\n');
    match newline_from(s, 0) {
        Some(j) => {
            if j < a.len() {
                assert(s[j] == a[j]);
            }
            assert(j == a.len());
            assert(s.take(j) =~= a);
        },
        None => {},
    }
    lemma_newline_from(a, 0);
    match newline_from(a, 0) {
        Some(j) => {},
        None => {},
    }
}

/// A text whose trimmed form fits is summarised as its trimmed form.
pub proof fn lemma_summary_fits(s: Seq<char>)
    requires
        trim(s).len() <= TOOL_SUMMARY_CHARS,
    ensures
        summary_of(s) == trim(s),
{
}

/// Trimming keeps a text on one line.
pub proof fn lemma_trim_one_line(s: Seq<char>)
    requires
        one_line(s),
    ensures
        one_line(trim(s)),
{
    lemma_trim_start_one_line(s);
    lemma_trim_end_one_line(crate::prompt::trim_start(s));
}

proof fn lemma_trim_start_one_line(s: Seq<char>)
    requires
        one_line(s),
    ensures
        one_line(crate::prompt::trim_start(s)),
    decreases s.len(),
{
    if s.len() > 0 && crate::text::unicode_whitespace(s[0]) {
        assert forall|k: int| 0 <= k < s.drop_first().len() implies s.drop_first()[k] != '\n' by {
            assert(s.drop_first()[k] == s[k + 1]);
        }
        lemma_trim_start_one_line(s.drop_first());
    }
}

proof fn lemma_trim_end_one_line(s: Seq<char>)
    requires
        one_line(s),
    ensures
        one_line(crate::prompt::trim_end(s)),
    decreases s.len(),
{
    if s.len() > 0 && crate::text::unicode_whitespace(s.last()) {
        assert forall|k: int| 0 <= k < s.drop_last().len() implies s.drop_last()[k] != '\n' by {
            assert(s.drop_last()[k] == s[k]);
        }
        lemma_trim_end_one_line(s.drop_last());
    }
}

/// The summary of a one-line text is on one line.
pub proof fn lemma_summary_one_line(s: Seq<char>)
    requires
        one_line(s),
    ensures
        one_line(summary_of(s)),
{
    lemma_trim_one_line(s);
    let t = trim(s);
    if t.len() > TOOL_SUMMARY_CHARS as nat {
        let r = t.take(TOOL_SUMMARY_CHARS as int).push('\u{2026}');
        assert forall|k: int| 0 <= k < r.len() implies r[k] != '\n' by {
            if k < TOOL_SUMMARY_CHARS as int {
                assert(r[k] == t[k]);
            }
        }
    }
}

/// The summary of a call of tool `name` with string members `f`: the first
/// line of the command for shells, the path for file tools, the pattern for
/// searches, the URL or query for web tools, the first line of the task (or
/// else of the description) for agents, and for any other tool its first
/// string member.
pub open spec fn tool_summary(name: Seq<char>, f: Seq<(Seq<char>, Seq<char>)>) -> Seq<char> {
    if name == "Bash"@ || name == "PowerShell"@ {
        summary_of(first_line(field_text(f, "command"@)))
    } else if name == "Read"@ || name == "Edit"@ || name == "Write"@ {
        summary_of(field_text(f, "file_path"@))
    } else if name == "Glob"@ || name == "Grep"@ {
        summary_of(field_text(f, "pattern"@))
    } else if name == "WebFetch"@ {
        summary_of(field_text(f, "url"@))
    } else if name == "WebSearch"@ {
        summary_of(field_text(f, "query"@))
    } else if name == "Agent"@ {
        let task = field_text(f, "task"@);
        let task = if task.len() == 0 {
            field_text(f, "description"@)
        } else {
            task
        };
        summary_of(first_line(task))
    } else if f.len() > 0 {
        summary_of(f[0].1)
    } else {
        Seq::empty()
    }
}

fn field_text_exec(fields: &Vec<(String, String)>, key: &str) -> (r: Vec<char>)
    ensures
        r@ == field_text(fields_view(fields@), key@),
{
    let ghost fv = fields_view(fields@);
    let mut i: usize = 0;
    while i < fields.len()
        invariant
            i <= fields.len(),
            fv == fields_view(fields@),
            field_from(fv, key@, i as int) == field_text(fv, key@),
        decreases fields.len() - i,
    {
        let k = chars_of(fields[i].0.as_str());
        if str_is(&k, key) {
            return chars_of(fields[i].1.as_str());
        }
        i = i + 1;
    }
    Vec::new()
}

fn first_line_exec(s: &Vec<char>) -> (r: Vec<char>)
    ensures
        r@ == first_line(s@),
{
    let mut i: usize = 0;
    while i < s.len()
        invariant
            i <= s.len(),
            newline_from(s@, i as int) == newline_from(s@, 0),
        decreases s.len() - i,
    {
        if s[i] == '\n' {
            let mut l: Vec<char> = Vec::new();
            let mut j: usize = 0;
            while j < i
                invariant
                    j <= i < s.len(),
                    l@ == s@.take(j as int),
                decreases i - j,
            {
                l.push(s[j]);
                j = j + 1;
                proof {
                    assert(s@.take(j as int) =~= s@.take(j - 1).push(s@[j - 1]));
                }
            }
            if l.len() > 0 && l[l.len() - 1] == '\r' {
                l.pop();
                proof {
                    assert(l@ =~= s@.take(i as int).drop_last());
                }
            }
            return l;
        }
        i = i + 1;
    }
    let mut r: Vec<char> = Vec::new();
    let mut j: usize = 0;
    while j < s.len()
        invariant
            j <= s.len(),
            r@ == s@.take(j as int),
        decreases s.len() - j,
    {
        r.push(s[j]);
        j = j + 1;
        proof {
            assert(s@.take(j as int) =~= s@.take(j - 1).push(s@[j - 1]));
        }
    }
    proof {
        assert(s@.take(s.len() as int) =~= s@);
    }
    r
}

fn shorten_exec(s: &Vec<char>) -> (r: Vec<char>)
    ensures
        r@ == summary_of(s@),
{
    let t = trim_chars(s);
    if t.len() > TOOL_SUMMARY_CHARS {
        let mut r: Vec<char> = Vec::new();
        let mut j: usize = 0;
        while j < TOOL_SUMMARY_CHARS
            invariant
                j <= TOOL_SUMMARY_CHARS < t.len(),
                r@ == t@.take(j as int),
            decreases TOOL_SUMMARY_CHARS - j,
        {
            r.push(t[j]);
            j = j + 1;
            proof {
                assert(t@.take(j as int) =~= t@.take(j - 1).push(t@[j - 1]));
            }
        }
        r.push('\u{2026}');
        r
    } else {
        t
    }
}

/// A one-line summary of a call of tool `tool_name`, whose arguments have the
/// string members `fields` (key and text, in the object's order).
pub fn extract_tool_summary(tool_name: &str, fields: &Vec<(String, String)>) -> (r: String)
    ensures
        r@ == tool_summary(tool_name@, fields_view(fields@)),
{
    let name = chars_of(tool_name);
    let line = if str_is(&name, "Bash") || str_is(&name, "PowerShell") {
        first_line_exec(&field_text_exec(fields, "command"))
    } else if str_is(&name, "Read") || str_is(&name, "Edit") || str_is(&name, "Write") {
        field_text_exec(fields, "file_path")
    } else if str_is(&name, "Glob") || str_is(&name, "Grep") {
        field_text_exec(fields, "pattern")
    } else if str_is(&name, "WebFetch") {
        field_text_exec(fields, "url")
    } else if str_is(&name, "WebSearch") {
        field_text_exec(fields, "query")
    } else if str_is(&name, "Agent") {
        let task = field_text_exec(fields, "task");
        let task = if task.len() == 0 {
            field_text_exec(fields, "description")
        } else {
            task
        };
        first_line_exec(&task)
    } else if fields.len() > 0 {
        chars_of(fields[0].1.as_str())
    } else {
        return String::new();
    };
    string_of(&shorten_exec(&line))
}

/// The string members of the JSON text of a tool call's arguments, in the
/// object's order (none when it is not an object).
pub open spec fn string_members_spec(m: Seq<(Seq<char>, Seq<char>)>) -> Seq<(Seq<char>, Seq<char>)>
    decreases m.len(),
{
    if m.len() == 0 {
        Seq::empty()
    } else {
        let rest = string_members_spec(m.drop_last());
        match json_string(m.last().1) {
            Some(t) => rest.push((m.last().0, t)),
            None => rest,
        }
    }
}

pub open spec fn json_string_members(json: Seq<char>) -> Seq<(Seq<char>, Seq<char>)> {
    match json_object(json) {
        Some(m) => string_members_spec(m),
        None => Seq::empty(),
    }
}

/// The summary of a call of tool `tool_name` whose arguments are the JSON
/// text `input_json` (read as its string members; none when it is not an
/// object).
pub fn tool_summary_from_json(tool_name: &str, input_json: &str) -> (r: String)
    ensures
        r@ == tool_summary(tool_name@, json_string_members(input_json@)),
{
    let mut fields: Vec<(String, String)> = Vec::new();
    match members(input_json) {
        Some(m) => {
            let ghost mv = pairs_view(m@);
            let mut i: usize = 0;
            while i < m.len()
                invariant
                    i <= m.len(),
                    mv == pairs_view(m@),
                    fields_view(fields@) == string_members_spec(mv.take(i as int)),
                decreases m.len() - i,
            {
                proof {
                    assert(mv.take(i as int + 1).drop_last() =~= mv.take(i as int));
                    assert(mv[i as int] == (m@[i as int].0@, m@[i as int].1@));
                }
                match str_of(Some(m[i].1.as_str())) {
                    Some(t) => {
                        let ghost f0 = fields_view(fields@);
                        fields.push((m[i].0.clone(), t));
                        proof {
                            assert(fields_view(fields@) =~= f0.push((mv[i as int].0, json_string(mv[i as int].1).unwrap())));
                        }
                    },
                    None => {},
                }
                i = i + 1;
            }
            proof {
                assert(mv.take(m.len() as int) =~= mv);
            }
        },
        None => {
            assert(fields_view(fields@) =~= Seq::<(Seq<char>, Seq<char>)>::empty());
        },
    }
    extract_tool_summary(tool_name, &fields)
}

} // verus!
