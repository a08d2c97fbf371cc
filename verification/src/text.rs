//! Character sequences, UTF-8 byte offsets, and the character classes the
//! editor uses.
//!
//! A `String` is viewed as its `Seq<char>`. Cursor positions in the editor are
//! byte offsets into the UTF-8 encoding; `byte_offset(s, i)` is the offset of
//! the `i`-th character.
use vstd::prelude::*;

verus! {

// ---------------------------------------------------------------------------
// UTF-8 lengths and byte offsets
// ---------------------------------------------------------------------------

/// Number of bytes of the UTF-8 encoding of `c`.
pub open spec fn utf8_width(c: char) -> nat {
    let u = c as u32;
    if u < 0x80 {
        1
    } else if u < 0x800 {
        2
    } else if u < 0x10000 {
        3
    } else {
        4
    }
}

/// Number of bytes of the UTF-8 encoding of `s`.
pub open spec fn utf8_len(s: Seq<char>) -> nat
    decreases s.len(),
{
    if s.len() == 0 {
        0
    } else {
        utf8_len(s.drop_last()) + utf8_width(s.last())
    }
}

/// Byte offset at which the `i`-th character of `s` starts.
pub open spec fn byte_offset(s: Seq<char>, i: int) -> nat {
    utf8_len(s.take(i))
}

/// `b` is the byte offset of a character start of `s`, or of its end.
pub open spec fn is_boundary(s: Seq<char>, b: int) -> bool {
    exists|i: int| 0 <= i <= s.len() && #[trigger] byte_offset(s, i) == b
}

/// The character index whose byte offset is `b` (meaningful when `is_boundary(s, b)`).
pub open spec fn char_index(s: Seq<char>, b: int) -> int {
    choose|i: int| 0 <= i <= s.len() && #[trigger] byte_offset(s, i) == b
}


pub proof fn lemma_width_pos(c: char)
    ensures
        1 <= utf8_width(c) <= 4,
{
}

pub proof fn lemma_offset_step(s: Seq<char>, i: int)
    requires
        0 <= i < s.len(),
    ensures
        byte_offset(s, i + 1) == byte_offset(s, i) + utf8_width(s[i]),
{
    assert(s.take(i + 1).drop_last() =~= s.take(i));
}

pub proof fn lemma_offset_zero(s: Seq<char>)
    ensures
        byte_offset(s, 0) == 0,
{
    assert(s.take(0).len() == 0);
}

pub proof fn lemma_offset_full(s: Seq<char>)
    ensures
        byte_offset(s, s.len() as int) == utf8_len(s),
{
    assert(s.take(s.len() as int) =~= s);
}

/// Byte offsets grow strictly with the character index.
pub proof fn lemma_offset_mono(s: Seq<char>, i: int, j: int)
    requires
        0 <= i < j <= s.len(),
    ensures
        byte_offset(s, i) + (j - i) <= byte_offset(s, j),
    decreases j - i,
{
    lemma_offset_step(s, j - 1);
    if i < j - 1 {
        lemma_offset_mono(s, i, j - 1);
    }
}

pub proof fn lemma_offset_le(s: Seq<char>, i: int, j: int)
    requires
        0 <= i <= j <= s.len(),
    ensures
        byte_offset(s, i) <= byte_offset(s, j),
{
    if i < j {
        lemma_offset_mono(s, i, j);
    }
}

pub proof fn lemma_offset_bound(s: Seq<char>, i: int)
    requires
        0 <= i <= s.len(),
    ensures
        i <= byte_offset(s, i) <= utf8_len(s),
{
    lemma_offset_zero(s);
    lemma_offset_full(s);
    lemma_offset_le(s, i, s.len() as int);
    if 0 < i {
        lemma_offset_mono(s, 0, i);
    }
}

/// The offset of a character index determines that index.
pub proof fn lemma_offset_inj(s: Seq<char>, i: int, j: int)
    requires
        0 <= i <= s.len(),
        0 <= j <= s.len(),
        byte_offset(s, i) == byte_offset(s, j),
    ensures
        i == j,
{
    if i < j {
        lemma_offset_mono(s, i, j);
    } else if j < i {
        lemma_offset_mono(s, j, i);
    }
}

/// Character index `i` is the index of the boundary `byte_offset(s, i)`.
pub proof fn lemma_index_of_offset(s: Seq<char>, i: int)
    requires
        0 <= i <= s.len(),
    ensures
        is_boundary(s, byte_offset(s, i) as int),
        char_index(s, byte_offset(s, i) as int) == i,
{
    let b = byte_offset(s, i) as int;
    assert(is_boundary(s, b));
    let k = char_index(s, b);
    lemma_offset_inj(s, i, k);
}

pub proof fn lemma_char_index(s: Seq<char>, b: int)
    requires
        is_boundary(s, b),
    ensures
        0 <= char_index(s, b) <= s.len(),
        byte_offset(s, char_index(s, b)) == b,
{
}

pub proof fn lemma_len_concat(a: Seq<char>, b: Seq<char>)
    ensures
        utf8_len(a + b) == utf8_len(a) + utf8_len(b),
    decreases b.len(),
{
    if b.len() == 0 {
        assert(a + b =~= a);
    } else {
        assert((a + b).drop_last() =~= a + b.drop_last());
        assert((a + b).last() == b.last());
        lemma_len_concat(a, b.drop_last());
    }
}



pub proof fn lemma_len_subrange(s: Seq<char>, i: int, j: int)
    requires
        0 <= i <= j <= s.len(),
    ensures
        utf8_len(s.subrange(i, j)) == byte_offset(s, j) - byte_offset(s, i),
{
    assert(s.take(j) =~= s.take(i) + s.subrange(i, j));
    lemma_len_concat(s.take(i), s.subrange(i, j));
}

pub proof fn lemma_len_single(c: char)
    ensures
        utf8_len(seq![c]) == utf8_width(c),
{
    assert(seq![c].drop_last() =~= Seq::<char>::empty());
    assert(utf8_len(Seq::<char>::empty()) == 0);
}


// ---------------------------------------------------------------------------
// Editing a character sequence
// ---------------------------------------------------------------------------

/// `s` without the characters in `[a, b)`.
pub open spec fn cut(s: Seq<char>, a: int, b: int) -> Seq<char> {
    s.take(a) + s.skip(b)
}

/// `s` with `t` inserted at index `a`.
pub open spec fn splice(s: Seq<char>, a: int, t: Seq<char>) -> Seq<char> {
    s.take(a) + t + s.skip(a)
}

pub proof fn lemma_len_split(s: Seq<char>, a: int)
    requires
        0 <= a <= s.len(),
    ensures
        utf8_len(s) == utf8_len(s.take(a)) + utf8_len(s.skip(a)),
{
    assert(s =~= s.take(a) + s.skip(a));
    lemma_len_concat(s.take(a), s.skip(a));
}

pub proof fn lemma_len_cut(s: Seq<char>, a: int, b: int)
    requires
        0 <= a <= b <= s.len(),
    ensures
        utf8_len(cut(s, a, b)) <= utf8_len(s),
        utf8_len(cut(s, a, b)) == utf8_len(s) - (byte_offset(s, b) - byte_offset(s, a)),
        forall|k: int| 0 <= k <= a ==> #[trigger] byte_offset(cut(s, a, b), k) == byte_offset(s, k),
        byte_offset(s, a) <= byte_offset(s, b),
{
    lemma_len_concat(s.take(a), s.skip(b));
    lemma_len_split(s, b);
    lemma_offset_le(s, a, b);
    assert forall|k: int| 0 <= k <= a implies #[trigger] byte_offset(cut(s, a, b), k) == byte_offset(
        s,
        k,
    ) by {
        assert(cut(s, a, b).take(k) =~= s.take(k));
    }
}

pub proof fn lemma_len_splice(s: Seq<char>, a: int, t: Seq<char>)
    requires
        0 <= a <= s.len(),
    ensures
        utf8_len(splice(s, a, t)) == utf8_len(s) + utf8_len(t),
        forall|k: int| 0 <= k <= a ==> #[trigger] byte_offset(splice(s, a, t), k) == byte_offset(s, k),
        byte_offset(splice(s, a, t), a + t.len()) == byte_offset(s, a) + utf8_len(t),
{
    lemma_len_concat(s.take(a), t);
    lemma_len_concat(s.take(a) + t, s.skip(a));
    lemma_len_split(s, a);
    assert forall|k: int| 0 <= k <= a implies #[trigger] byte_offset(splice(s, a, t), k)
        == byte_offset(s, k) by {
        assert(splice(s, a, t).take(k) =~= s.take(k));
    }
    assert(splice(s, a, t).take(a + t.len()) =~= s.take(a) + t);
    lemma_len_concat(s.take(a), t);
}

pub proof fn lemma_len_update(s: Seq<char>, i: int, c: char)
    requires
        0 <= i < s.len(),
    ensures
        utf8_len(s.update(i, c)) <= utf8_len(s) + 4,
        forall|k: int| 0 <= k <= i ==> #[trigger] byte_offset(s.update(i, c), k) == byte_offset(s, k),
{
    let u = s.update(i, c);
    assert(u =~= s.take(i) + seq![c] + s.skip(i + 1));
    assert(s =~= s.take(i) + seq![s[i]] + s.skip(i + 1));
    lemma_len_concat(s.take(i), seq![c]);
    lemma_len_concat(s.take(i) + seq![c], s.skip(i + 1));
    lemma_len_concat(s.take(i), seq![s[i]]);
    lemma_len_concat(s.take(i) + seq![s[i]], s.skip(i + 1));
    lemma_len_single(c);
    lemma_len_single(s[i]);
    assert forall|k: int| 0 <= k <= i implies #[trigger] byte_offset(s.update(i, c), k)
        == byte_offset(s, k) by {
        assert(s.update(i, c).take(k) =~= s.take(k));
    }
}

/// `s` without the characters in `[a, b)`.
pub fn cut_vec(cs: &Vec<char>, a: usize, b: usize) -> (r: Vec<char>)
    requires
        a <= b <= cs.len(),
    ensures
        r@ == cut(cs@, a as int, b as int),
{
    let mut r: Vec<char> = Vec::new();
    let mut i: usize = 0;
    while i < a
        invariant
            i <= a <= b <= cs.len(),
            r@ == cs@.take(i as int),
        decreases a - i,
    {
        r.push(cs[i]);
        i = i + 1;
        assert(r@ =~= cs@.take(i as int));
    }
    let mut j: usize = b;
    while j < cs.len()
        invariant
            a <= b <= j <= cs.len(),
            r@ == cs@.take(a as int) + cs@.subrange(b as int, j as int),
        decreases cs.len() - j,
    {
        r.push(cs[j]);
        j = j + 1;
        assert(r@ =~= cs@.take(a as int) + cs@.subrange(b as int, j as int));
    }
    assert(cs@.subrange(b as int, cs.len() as int) =~= cs@.skip(b as int));
    r
}

/// `cs` with `t` inserted at index `a`.
pub fn splice_vec(cs: &Vec<char>, a: usize, t: &Vec<char>) -> (r: Vec<char>)
    requires
        a <= cs.len(),
    ensures
        r@ == splice(cs@, a as int, t@),
{
    let mut r: Vec<char> = Vec::new();
    let mut i: usize = 0;
    while i < a
        invariant
            i <= a <= cs.len(),
            r@ == cs@.take(i as int),
        decreases a - i,
    {
        r.push(cs[i]);
        i = i + 1;
        assert(r@ =~= cs@.take(i as int));
    }
    let mut k: usize = 0;
    while k < t.len()
        invariant
            k <= t.len(),
            a <= cs.len(),
            r@ == cs@.take(a as int) + t@.take(k as int),
        decreases t.len() - k,
    {
        r.push(t[k]);
        k = k + 1;
        assert(r@ =~= cs@.take(a as int) + t@.take(k as int));
    }
    assert(t@.take(t.len() as int) =~= t@);
    let mut j: usize = a;
    while j < cs.len()
        invariant
            a <= j <= cs.len(),
            r@ == cs@.take(a as int) + t@ + cs@.subrange(a as int, j as int),
        decreases cs.len() - j,
    {
        r.push(cs[j]);
        j = j + 1;
        assert(r@ =~= cs@.take(a as int) + t@ + cs@.subrange(a as int, j as int));
    }
    assert(cs@.subrange(a as int, cs.len() as int) =~= cs@.skip(a as int));
    r
}

// ---------------------------------------------------------------------------
// Executable conversions
// ---------------------------------------------------------------------------

/// UTF-8 width of a character.
pub fn char_width(c: char) -> (w: usize)
    ensures
        w == utf8_width(c),
        1 <= w <= 4,
{
    let u = c as u32;
    if u < 0x80 {
        1
    } else if u < 0x800 {
        2
    } else if u < 0x10000 {
        3
    } else {
        4
    }
}

/// Byte length of a character sequence.
pub fn byte_len(cs: &Vec<char>) -> (n: usize)
    requires
        utf8_len(cs@) <= usize::MAX,
    ensures
        n == utf8_len(cs@),
{
    let mut i: usize = 0;
    let mut n: usize = 0;
    proof {
        lemma_offset_zero(cs@);
    }
    while i < cs.len()
        invariant
            i <= cs.len(),
            n == byte_offset(cs@, i as int),
            utf8_len(cs@) <= usize::MAX,
        decreases cs.len() - i,
    {
        proof {
            lemma_offset_step(cs@, i as int);
            lemma_offset_bound(cs@, i as int + 1);
        }
        n = n + char_width(cs[i]);
        i = i + 1;
    }
    proof {
        lemma_offset_full(cs@);
    }
    n
}

/// Byte offset of character index `i`.
pub fn index_to_byte(cs: &Vec<char>, i: usize) -> (b: usize)
    requires
        i <= cs.len(),
        utf8_len(cs@) <= usize::MAX,
    ensures
        b == byte_offset(cs@, i as int),
{
    let mut k: usize = 0;
    let mut b: usize = 0;
    proof {
        lemma_offset_zero(cs@);
    }
    while k < i
        invariant
            k <= i <= cs.len(),
            b == byte_offset(cs@, k as int),
            utf8_len(cs@) <= usize::MAX,
        decreases i - k,
    {
        proof {
            lemma_offset_step(cs@, k as int);
            lemma_offset_bound(cs@, k as int + 1);
        }
        b = b + char_width(cs[k]);
        k = k + 1;
    }
    b
}

/// Whether byte offset `b` starts a character of `cs` (or is its end).
pub fn check_boundary(cs: &Vec<char>, b: usize) -> (r: bool)
    requires
        utf8_len(cs@) <= usize::MAX,
    ensures
        r == is_boundary(cs@, b as int),
{
    let mut k: usize = 0;
    let mut off: usize = 0;
    proof {
        lemma_offset_zero(cs@);
    }
    while k < cs.len() && off < b
        invariant
            k <= cs.len(),
            off == byte_offset(cs@, k as int),
            utf8_len(cs@) <= usize::MAX,
            forall|j: int| 0 <= j < k ==> byte_offset(cs@, j) < b,
        decreases cs.len() - k,
    {
        proof {
            lemma_offset_step(cs@, k as int);
            lemma_offset_bound(cs@, k as int + 1);
        }
        off = off + char_width(cs[k]);
        k = k + 1;
    }
    if off == b {
        assert(byte_offset(cs@, k as int) == b);
        true
    } else {
        proof {
            assert forall|j: int| 0 <= j <= cs@.len() implies byte_offset(cs@, j) != b by {
                if j < k {
                } else if j == k {
                } else {
                    lemma_offset_mono(cs@, k as int, j);
                    if k < cs.len() {
                    }
                }
            }
            if k == cs.len() {
                // every index j <= k was visited or is k itself
            }
        }
        false
    }
}

/// Character index of the boundary at byte offset `b`.
pub fn byte_to_index(cs: &Vec<char>, b: usize) -> (i: usize)
    requires
        is_boundary(cs@, b as int),
        utf8_len(cs@) <= usize::MAX,
    ensures
        i == char_index(cs@, b as int),
        i <= cs.len(),
{
    proof {
        lemma_char_index(cs@, b as int);
    }
    let ghost target = char_index(cs@, b as int);
    let mut k: usize = 0;
    let mut off: usize = 0;
    proof {
        lemma_offset_zero(cs@);
    }
    while off < b
        invariant
            k <= target <= cs.len(),
            off == byte_offset(cs@, k as int),
            byte_offset(cs@, target) == b,
            utf8_len(cs@) <= usize::MAX,
        decreases target - k,
    {
        proof {
            if k == target {
                assert(false);
            }
            lemma_offset_step(cs@, k as int);
            lemma_offset_bound(cs@, k as int + 1);
        }
        off = off + char_width(cs[k]);
        k = k + 1;
        proof {
            if k > target {
                lemma_offset_le(cs@, target, k as int);
                lemma_offset_mono(cs@, target, k as int);
            }
        }
    }
    proof {
        if k < target {
            lemma_offset_mono(cs@, k as int, target);
        }
    }
    k
}

// ---------------------------------------------------------------------------
// Conversions between strings and character vectors (std)
// ---------------------------------------------------------------------------

/// `str::chars`, collected: the characters of `s`, in order. A `str` lives in
/// memory, and std documents that no slice is larger than `isize::MAX` bytes,
/// so its UTF-8 length is at most `isize::MAX`.
#[verifier::external_body]
pub(crate) fn chars_of(s: &str) -> (v: Vec<char>)
    ensures
        v@ == s@,
        utf8_len(v@) <= usize::MAX,
        utf8_len(v@) <= isize::MAX,
{
    s.chars().collect()
}

/// `FromIterator<char> for String`: the string made of the characters `v`.
#[verifier::external_body]
pub(crate) fn string_of(v: &Vec<char>) -> (s: String)
    ensures
        s@ == v@,
{
    v.iter().collect()
}

// ---------------------------------------------------------------------------
// Character classes (std `char` methods)
// ---------------------------------------------------------------------------

/// What `char::is_alphanumeric` returns for `c` (Unicode Alphabetic or Numeric).
pub uninterp spec fn unicode_alphanumeric(c: char) -> bool;

/// `char::is_whitespace`: the Unicode White_Space property, which holds of
/// U+0009 to U+000D, U+0020, U+0085, U+00A0, U+1680, U+2000 to U+200A,
/// U+2028, U+2029, U+202F, U+205F and U+3000.
pub open spec fn unicode_whitespace(c: char) -> bool {
    let u = c as u32;
    ||| 0x09 <= u <= 0x0d
    ||| u == 0x20
    ||| u == 0x85
    ||| u == 0xa0
    ||| u == 0x1680
    ||| 0x2000 <= u <= 0x200a
    ||| u == 0x2028
    ||| u == 0x2029
    ||| u == 0x202f
    ||| u == 0x205f
    ||| u == 0x3000
}

/// What `char::is_uppercase` returns for `c` (Unicode Uppercase).
pub uninterp spec fn unicode_uppercase(c: char) -> bool;

/// The first character of `char::to_lowercase(c)`, or `c` itself when it is empty.
pub uninterp spec fn lower_first(c: char) -> char;

/// The first character of `char::to_uppercase(c)`, or `c` itself when it is empty.
pub uninterp spec fn upper_first(c: char) -> char;

/// What `str::to_lowercase` returns for a string with characters `s`.
pub uninterp spec fn lowercase_str(s: Seq<char>) -> Seq<char>;

/// `char::is_alphanumeric`: its result is named by `unicode_alphanumeric`.
#[verifier::external_body]
pub(crate) fn is_alphanumeric(c: char) -> (b: bool)
    ensures
        b == unicode_alphanumeric(c),
{
    c.is_alphanumeric()
}

/// Whether `c` is whitespace, as `char::is_whitespace` decides.
pub fn is_whitespace(c: char) -> (b: bool)
    ensures
        b == unicode_whitespace(c),
{
    let u = c as u32;
    (0x09 <= u && u <= 0x0d) || u == 0x20 || u == 0x85 || u == 0xa0 || u == 0x1680
        || (0x2000 <= u && u <= 0x200a) || u == 0x2028 || u == 0x2029 || u == 0x202f
        || u == 0x205f || u == 0x3000
}

/// `char::is_uppercase`: its result is named by `unicode_uppercase`.
#[verifier::external_body]
pub(crate) fn is_uppercase(c: char) -> (b: bool)
    ensures
        b == unicode_uppercase(c),
{
    c.is_uppercase()
}

/// `char::to_lowercase`, first character (or `c` when the mapping is empty).
#[verifier::external_body]
pub(crate) fn to_lower_first(c: char) -> (r: char)
    ensures
        r == lower_first(c),
{
    c.to_lowercase().next().unwrap_or(c)
}

/// `char::to_uppercase`, first character (or `c` when the mapping is empty).
#[verifier::external_body]
pub(crate) fn to_upper_first(c: char) -> (r: char)
    ensures
        r == upper_first(c),
{
    c.to_uppercase().next().unwrap_or(c)
}

/// `str::to_lowercase`: its result is named by `lowercase_str`.
#[verifier::external_body]
pub(crate) fn str_to_lowercase(s: &str) -> (r: String)
    ensures
        r@ == lowercase_str(s@),
{
    s.to_lowercase()
}

/// A word character of the editor: alphanumeric or `_`.
pub open spec fn is_word(c: char) -> bool {
    unicode_alphanumeric(c) || c == '_'
}

pub fn is_word_char(c: char) -> (b: bool)
    ensures
        b == is_word(c),
{
    c == '_' || is_alphanumeric(c)
}

/// An ASCII digit.
pub open spec fn is_digit(c: char) -> bool {
    '0' <= c <= '9'
}

pub fn is_ascii_digit(c: char) -> (b: bool)
    ensures
        b == is_digit(c),
{
    '0' <= c && c <= '9'
}

// ---------------------------------------------------------------------------
// Small sequence utilities
// ---------------------------------------------------------------------------

/// Copy of `cs[from..to]`.
pub fn slice_vec(cs: &Vec<char>, from: usize, to: usize) -> (r: Vec<char>)
    requires
        from <= to <= cs.len(),
    ensures
        r@ == cs@.subrange(from as int, to as int),
{
    let mut r: Vec<char> = Vec::new();
    let mut i = from;
    while i < to
        invariant
            from <= i <= to <= cs.len(),
            r@ == cs@.subrange(from as int, i as int),
        decreases to - i,
    {
        r.push(cs[i]);
        i = i + 1;
    }
    r
}

/// `a ++ b`.
pub fn concat_vec(a: &Vec<char>, b: &Vec<char>) -> (r: Vec<char>)
    ensures
        r@ == a@ + b@,
{
    let mut r: Vec<char> = Vec::new();
    let mut i: usize = 0;
    while i < a.len()
        invariant
            i <= a.len(),
            r@ == a@.subrange(0, i as int),
        decreases a.len() - i,
    {
        r.push(a[i]);
        i = i + 1;
    }
    let mut j: usize = 0;
    while j < b.len()
        invariant
            j <= b.len(),
            r@ == a@ + b@.subrange(0, j as int),
        decreases b.len() - j,
    {
        r.push(b[j]);
        j = j + 1;
    }
    assert(a@.subrange(0, a@.len() as int) =~= a@);
    assert(b@.subrange(0, b@.len() as int) =~= b@);
    r
}

/// Equality of two character vectors.
pub fn vec_eq(a: &Vec<char>, b: &Vec<char>) -> (r: bool)
    ensures
        r == (a@ == b@),
{
    if a.len() != b.len() {
        return false;
    }
    let mut i: usize = 0;
    while i < a.len()
        invariant
            i <= a.len() == b.len(),
            forall|j: int| 0 <= j < i ==> a@[j] == b@[j],
        decreases a.len() - i,
    {
        if a[i] != b[i] {
            return false;
        }
        i = i + 1;
    }
    assert(a@ =~= b@);
    true
}

/// Whether the characters of `s` equal those of `lit`.
pub fn str_is(s: &Vec<char>, lit: &str) -> (r: bool)
    ensures
        r == (s@ == lit@),
{
    let l = chars_of(lit);
    vec_eq(s, &l)
}

} // verus!
