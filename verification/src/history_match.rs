//! Matching a history-search query against a history entry.
//!
//! Both are compared lowercased. A query that occurs in the entry matches as
//! a substring at its first occurrence; otherwise the query's characters are
//! matched in order, each at the first place it can go (a subsequence). The
//! match records what the ranking of the search reads: where it starts, the
//! longest run of adjacent matched characters, and the byte positions to
//! highlight.
use vstd::prelude::*;
use crate::prompt::{find_from, find_from_exec, lemma_find_from, occurs_at};
use crate::width::{runs_by, runs_view};
use crate::text::{string_of, byte_len, byte_offset, char_width, chars_of, index_to_byte, lemma_len_subrange, lemma_offset_bound, lemma_offset_step, lemma_offset_zero, lowercase_str, str_to_lowercase, utf8_len};

verus! {

/// How a query matched an entry.
#[derive(Clone, Copy, Debug, PartialEq, Eq, Structural)]
pub enum MatchKind {
    /// The query is empty: every entry matches.
    EmptyQuery,
    /// The query occurs in the entry.
    Substring,
    /// The query's characters occur in the entry in order, not all adjacent.
    Subsequence,
}

/// A match of a query in an entry (both lowercased).
pub struct HistoryMatch {
    pub kind: MatchKind,
    /// Substring: the byte offset of the occurrence. Subsequence: the
    /// character index of the first matched character. Empty query: 0.
    pub first: usize,
    /// Subsequence: the longest run of matched characters at adjacent
    /// indices. Otherwise 0.
    pub max_run: usize,
    /// Number of characters of the lowercased query (0 for an empty query).
    pub query_len: usize,
    /// Byte offsets in the lowercased entry to highlight, ascending.
    pub positions: Vec<usize>,
}

/// The mathematical content of a match.
pub ghost struct MatchView {
    pub kind: MatchKind,
    pub first: int,
    pub max_run: nat,
    pub query_len: nat,
    pub positions: Seq<int>,
}

impl View for HistoryMatch {
    type V = MatchView;

    open spec fn view(&self) -> MatchView {
        MatchView {
            kind: self.kind,
            first: self.first as int,
            max_run: self.max_run as nat,
            query_len: self.query_len as nat,
            positions: self.positions@.map_values(|p: usize| p as int),
        }
    }
}

/// Indices of `t` matched by the characters of `q`, scanning the first `n`
/// characters of `t` and taking each character of `q` at its first chance.
pub open spec fn greedy(q: Seq<char>, t: Seq<char>, n: int) -> Seq<int>
    decreases n,
{
    if n <= 0 {
        Seq::empty()
    } else {
        let g = greedy(q, t, n - 1);
        if g.len() < q.len() && t[n - 1] == q[g.len() as int] {
            g.push(n - 1)
        } else {
            g
        }
    }
}

/// Length of the run of adjacent indices that ends at element `n - 1` of `m`.
pub open spec fn run_end(m: Seq<int>, n: int) -> nat
    decreases n,
{
    if n <= 1 {
        1
    } else if m[n - 1] == m[n - 2] + 1 {
        run_end(m, n - 1) + 1
    } else {
        1
    }
}

/// The longest run of adjacent indices among the first `n` elements of `m`
/// (1 for fewer than two elements).
pub open spec fn best_run(m: Seq<int>, n: int) -> nat
    decreases n,
{
    if n <= 1 {
        1
    } else {
        let b = best_run(m, n - 1);
        let c = run_end(m, n);
        if c > b {
            c
        } else {
            b
        }
    }
}

/// The match of `query` in `target`, if any.
pub open spec fn match_spec(query: Seq<char>, target: Seq<char>) -> Option<MatchView> {
    if query.len() == 0 {
        Some(MatchView { kind: MatchKind::EmptyQuery, first: 0, max_run: 0, query_len: 0, positions: Seq::empty() })
    } else {
        let q = lowercase_str(query);
        let t = lowercase_str(target);
        match find_from(t, q, 0) {
            Some(j) => {
                let pos = byte_offset(t, j) as int;
                Some(MatchView {
                    kind: MatchKind::Substring,
                    first: pos,
                    max_run: 0,
                    query_len: q.len(),
                    positions: Seq::new(utf8_len(q), |k: int| pos + k),
                })
            },
            None => {
                let m = greedy(q, t, t.len() as int);
                if m.len() < q.len() {
                    None
                } else {
                    Some(MatchView {
                        kind: MatchKind::Subsequence,
                        first: m[0],
                        max_run: best_run(m, m.len() as int),
                        query_len: q.len(),
                        positions: m.map_values(|ci: int| byte_offset(t, ci) as int),
                    })
                }
            },
        }
    }
}

pub proof fn lemma_greedy_shape(q: Seq<char>, t: Seq<char>, n: int)
    requires
        0 <= n <= t.len(),
    ensures
        greedy(q, t, n).len() <= q.len(),
        greedy(q, t, n).len() <= n,
        forall|k: int| 0 <= k < greedy(q, t, n).len() ==> 0 <= #[trigger] greedy(q, t, n)[k] < n,
        forall|a: int, b: int| 0 <= a < b < greedy(q, t, n).len() ==> greedy(q, t, n)[a] < greedy(q, t, n)[b],
    decreases n,
{
    if n > 0 {
        lemma_greedy_shape(q, t, n - 1);
    }
}

proof fn lemma_best_run_bound(m: Seq<int>, n: int)
    requires
        1 <= n,
    ensures
        1 <= run_end(m, n) <= n,
        1 <= best_run(m, n) <= n,
    decreases n,
{
    if n > 1 {
        lemma_best_run_bound(m, n - 1);
    }
}

/// Elements `a` through `b` of `m` are consecutive integers.
pub open spec fn adjacent_run(m: Seq<int>, a: int, b: int) -> bool {
    &&& 0 <= a <= b < m.len()
    &&& forall|k: int| a <= k < b ==> #[trigger] m[k + 1] == m[k] + 1
}

/// The run ending at element `n - 1` is a run, and no run ending there is
/// longer.
pub proof fn lemma_run_end(m: Seq<int>, n: int)
    requires
        1 <= n <= m.len(),
    ensures
        1 <= run_end(m, n) <= n,
        adjacent_run(m, n - run_end(m, n), n - 1),
        forall|a: int| #[trigger] adjacent_run(m, a, n - 1) ==> n - a <= run_end(m, n),
    decreases n,
{
    if n > 1 {
        lemma_run_end(m, n - 1);
        if m[n - 1] == m[n - 2] + 1 {
            assert forall|a: int| #[trigger] adjacent_run(m, a, n - 1) implies n - a <= run_end(m, n) by {
                if a < n - 1 {
                    assert(adjacent_run(m, a, n - 2));
                }
            }
        } else {
            assert forall|a: int| #[trigger] adjacent_run(m, a, n - 1) implies n - a <= run_end(m, n) by {
                if a < n - 1 {
                    assert(m[(n - 2) + 1] == m[n - 2] + 1);
                }
            }
        }
    }
}

/// `best_run` is the length of a run among the first `n` elements, and no
/// run among them is longer.
pub proof fn lemma_best_run(m: Seq<int>, n: int)
    requires
        1 <= n <= m.len(),
    ensures
        exists|a: int, b: int| #[trigger] adjacent_run(m, a, b) && b < n && b - a + 1 == best_run(m, n),
        forall|a: int, b: int| #[trigger] adjacent_run(m, a, b) && b < n ==> b - a + 1 <= best_run(m, n),
    decreases n,
{
    lemma_run_end(m, n);
    let c = run_end(m, n);
    assert(adjacent_run(m, n - c, n - 1));
    if n > 1 {
        lemma_best_run(m, n - 1);
        assert forall|a: int, b: int| #[trigger] adjacent_run(m, a, b) && b < n implies b - a + 1 <= best_run(m, n) by {
            if b == n - 1 {
                assert(adjacent_run(m, a, n - 1));
            }
        }
    } else {
        assert(adjacent_run(m, 0, 0));
    }
}

/// Indices of the lowercased entry matched in order by the lowercased query.
fn greedy_exec(q: &Vec<char>, t: &Vec<char>) -> (m: Vec<usize>)
    ensures
        m@.map_values(|x: usize| x as int) == greedy(q@, t@, t@.len() as int),
        m.len() <= q.len(),
        forall|k: int| 0 <= k < m.len() ==> #[trigger] m@[k] < t.len(),
{
    let mut m: Vec<usize> = Vec::new();
    let mut i: usize = 0;
    while i < t.len()
        invariant
            i <= t.len(),
            m@.map_values(|x: usize| x as int) == greedy(q@, t@, i as int),
            m.len() <= q.len(),
            forall|k: int| 0 <= k < m.len() ==> #[trigger] m@[k] < i,
        decreases t.len() - i,
    {
        let ghost before = m@;
        if m.len() < q.len() && t[i] == q[m.len()] {
            m.push(i);
            proof {
                assert(m@.map_values(|x: usize| x as int) =~= before.map_values(|x: usize| x as int).push(i as int));
            }
        }
        i = i + 1;
    }
    m
}

/// The longest run of adjacent indices in a nonempty `m`.
fn best_run_exec(m: &Vec<usize>) -> (r: usize)
    requires
        m.len() >= 1,
        forall|k: int| 0 <= k < m.len() ==> #[trigger] m@[k] < usize::MAX,
    ensures
        r == best_run(m@.map_values(|x: usize| x as int), m.len() as int),
{
    let ghost g = m@.map_values(|x: usize| x as int);
    let mut best: usize = 1;
    let mut cur: usize = 1;
    let mut w: usize = 1;
    while w < m.len()
        invariant
            1 <= w <= m.len(),
            g == m@.map_values(|x: usize| x as int),
            forall|k: int| 0 <= k < m.len() ==> #[trigger] m@[k] < usize::MAX,
            cur == run_end(g, w as int),
            best == best_run(g, w as int),
            cur <= w,
            best <= w,
        decreases m.len() - w,
    {
        proof {
            lemma_best_run_bound(g, w as int + 1);
        }
        if m[w] == m[w - 1] + 1 {
            cur = cur + 1;
            if cur > best {
                best = cur;
            }
        } else {
            cur = 1;
        }
        w = w + 1;
    }
    best
}

/// Byte offsets of every character of `t`, in order.
fn byte_offsets(t: &Vec<char>) -> (offs: Vec<usize>)
    requires
        utf8_len(t@) <= usize::MAX,
    ensures
        offs.len() == t.len(),
        forall|k: int| 0 <= k < t.len() ==> #[trigger] offs@[k] == byte_offset(t@, k),
{
    let mut offs: Vec<usize> = Vec::new();
    let mut off: usize = 0;
    let mut i: usize = 0;
    proof {
        lemma_offset_zero(t@);
    }
    while i < t.len()
        invariant
            i <= t.len(),
            offs.len() == i,
            off == byte_offset(t@, i as int),
            utf8_len(t@) <= usize::MAX,
            forall|k: int| 0 <= k < i ==> #[trigger] offs@[k] == byte_offset(t@, k),
        decreases t.len() - i,
    {
        proof {
            lemma_offset_step(t@, i as int);
            lemma_offset_bound(t@, i as int + 1);
        }
        offs.push(off);
        off = off + char_width(t[i]);
        i = i + 1;
    }
    offs
}

/// Match `query` against `target`, both lowercased: an empty query matches
/// everything; a query that occurs in the entry matches at its first
/// occurrence; otherwise its characters must occur in order.
pub fn history_match(query: &str, target: &str) -> (r: Option<HistoryMatch>)
    ensures
        match r {
            Some(m) => match_spec(query@, target@) == Some(m@),
            None => match_spec(query@, target@) is None,
        },
{
    let qc = chars_of(query);
    if qc.len() == 0 {
        let r = HistoryMatch { kind: MatchKind::EmptyQuery, first: 0, max_run: 0, query_len: 0, positions: Vec::new() };
        proof {
            assert(r@.positions =~= Seq::<int>::empty());
        }
        return Some(r);
    }
    let q = chars_of(str_to_lowercase(query).as_str());
    let t = chars_of(str_to_lowercase(target).as_str());
    proof {
        lemma_find_from(t@, q@, 0);
        if q.len() == 0 {
            assert(t@.subrange(0, 0) =~= q@);
            assert(occurs_at(t@, q@, 0));
        }
    }
    match find_from_exec(&t, &q, 0) {
        Some(j) => {
            let pos = index_to_byte(&t, j);
            let qb = byte_len(&q);
            proof {
                lemma_len_subrange(t@, j as int, j + q.len());
                assert(t@.subrange(j as int, j + q.len()) == q@);
                lemma_offset_bound(t@, j + q.len());
            }
            let mut positions: Vec<usize> = Vec::new();
            let mut k: usize = 0;
            while k < qb
                invariant
                    k <= qb,
                    pos + qb <= usize::MAX,
                    positions.len() == k,
                    forall|i: int| 0 <= i < k ==> #[trigger] positions@[i] == pos + i,
                decreases qb - k,
            {
                positions.push(pos + k);
                k = k + 1;
            }
            let r = HistoryMatch { kind: MatchKind::Substring, first: pos, max_run: 0, query_len: q.len(), positions };
            proof {
                assert(r@.positions =~= Seq::new(utf8_len(q@), |i: int| pos + i));
            }
            Some(r)
        },
        None => {
            let m = greedy_exec(&q, &t);
            if m.len() < q.len() {
                return None;
            }
            let ghost g = m@.map_values(|x: usize| x as int);
            let best = best_run_exec(&m);
            let offs = byte_offsets(&t);
            let mut positions: Vec<usize> = Vec::new();
            let mut k: usize = 0;
            while k < m.len()
                invariant
                    k <= m.len(),
                    offs.len() == t.len(),
                    forall|i: int| 0 <= i < t.len() ==> #[trigger] offs@[i] == byte_offset(t@, i),
                    forall|i: int| 0 <= i < m.len() ==> #[trigger] m@[i] < t.len(),
                    positions.len() == k,
                    forall|i: int| 0 <= i < k ==> #[trigger] positions@[i] == byte_offset(t@, m@[i] as int),
                decreases m.len() - k,
            {
                positions.push(offs[m[k]]);
                k = k + 1;
            }
            proof {
                assert(m.len() >= 1);
                assert(g[0] == m@[0] as int);
            }
            let r = HistoryMatch { kind: MatchKind::Subsequence, first: m[0], max_run: best, query_len: q.len(), positions };
            proof {
                assert(r@.positions =~= g.map_values(|ci: int| byte_offset(t@, ci) as int));
            }
            Some(r)
        },
    }
}

/// Character `i` of `s` is highlighted: its byte offset is one of `positions`.
pub open spec fn highlighted(s: Seq<char>, positions: Seq<usize>, i: int) -> bool {
    exists|k: int| 0 <= k < positions.len() && positions[k] as int == byte_offset(s, i) as int
}

fn contains_position(v: &Vec<usize>, x: usize) -> (b: bool)
    ensures
        b == exists|k: int| 0 <= k < v.len() && v@[k] as int == x as int,
{
    let mut k: usize = 0;
    while k < v.len()
        invariant
            k <= v.len(),
            forall|j: int| 0 <= j < k ==> v@[j] != x,
        decreases v.len() - k,
    {
        if v[k] == x {
            return true;
        }
        k = k + 1;
    }
    false
}

/// `text` cut to its first `max_chars` characters and split into runs of
/// highlighted and plain characters, a character being highlighted when its
/// byte offset is in `positions`; and whether the text was cut.
pub fn highlight_runs(text: &str, positions: &Vec<usize>, max_chars: usize) -> (r: (Vec<(String, bool)>, bool))
    ensures
        runs_view(r.0@) == runs_by(
            text@,
            |i: int| highlighted(text@, positions@, i),
            if text@.len() > max_chars { max_chars as int } else { text@.len() as int },
        ),
        r.1 == (text@.len() > max_chars),
{
    let cs = chars_of(text);
    let ghost lit = |i: int| highlighted(text@, positions@, i);
    let n: usize = if cs.len() > max_chars {
        max_chars
    } else {
        cs.len()
    };
    let mut out: Vec<(String, bool)> = Vec::new();
    let mut run: Vec<char> = Vec::new();
    let mut run_lit = false;
    let mut off: usize = 0;
    let mut i: usize = 0;
    proof {
        lemma_offset_zero(cs@);
    }
    while i < n
        invariant
            n <= cs.len(),
            cs@ == text@,
            utf8_len(cs@) <= usize::MAX,
            i <= n,
            off == byte_offset(cs@, i as int),
            lit == (|j: int| highlighted(text@, positions@, j)),
            i == 0 ==> run.len() == 0,
            i > 0 ==> run.len() > 0,
            runs_by(cs@, lit, i as int) == if run.len() > 0 {
                runs_view(out@).push((run@, run_lit))
            } else {
                runs_view(out@)
            },
        decreases n - i,
    {
        let is_hl = contains_position(positions, off);
        assert(is_hl == lit(i as int));
        let ghost before = runs_by(cs@, lit, i as int);
        if is_hl != run_lit && run.len() > 0 {
            let ghost ov = runs_view(out@);
            out.push((string_of(&run), run_lit));
            proof {
                assert(runs_view(out@) =~= ov.push((run@, run_lit)));
            }
            run = Vec::new();
        }
        run_lit = is_hl;
        let ghost old_run = run@;
        proof {
            lemma_offset_step(cs@, i as int);
            lemma_offset_bound(cs@, i as int + 1);
        }
        off = off + char_width(cs[i]);
        run.push(cs[i]);
        i = i + 1;
        proof {
            if old_run.len() > 0 {
                assert(before == runs_view(out@).push((old_run, is_hl)));
                assert(runs_by(cs@, lit, i as int) =~= runs_view(out@).push((run@, run_lit)));
            } else {
                assert(run@ =~= seq![cs@[i - 1]]);
            }
        }
    }
    if run.len() > 0 {
        let ghost ov = runs_view(out@);
        out.push((string_of(&run), run_lit));
        proof {
            assert(runs_view(out@) =~= ov.push((run@, run_lit)));
        }
    }
    (out, cs.len() > max_chars)
}

} // verus!
