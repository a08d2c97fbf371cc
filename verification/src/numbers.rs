//! Decimal numerals: parsing (as `str::parse::<usize>` accepts them) and printing.
use vstd::prelude::*;
use crate::text::is_digit;

verus! {

pub open spec fn digit_value(c: char) -> nat {
    ((c as u32) - ('0' as u32)) as nat
}

/// Value of a string of decimal digits.
pub open spec fn digits_value(s: Seq<char>) -> nat
    decreases s.len(),
{
    if s.len() == 0 {
        0
    } else {
        digits_value(s.drop_last()) * 10 + digit_value(s.last())
    }
}

pub open spec fn all_digits(s: Seq<char>) -> bool {
    forall|i: int| 0 <= i < s.len() ==> is_digit(#[trigger] s[i])
}

/// The digits after an optional leading `+`.
pub open spec fn unsigned_body(s: Seq<char>) -> Seq<char> {
    if s.len() > 0 && s[0] == '+' {
        s.drop_first()
    } else {
        s
    }
}

/// What `str::parse::<usize>` gives: an optional `+`, then at least one ASCII
/// digit and nothing else, with a value that fits in a `usize`.
pub open spec fn parse_usize(s: Seq<char>) -> Option<nat> {
    let t = unsigned_body(s);
    if t.len() > 0 && all_digits(t) && digits_value(t) <= usize::MAX {
        Some(digits_value(t))
    } else {
        None
    }
}

/// Decimal digits of `n`, without leading zeros.
pub open spec fn decimal(n: nat) -> Seq<char>
    decreases n,
{
    if n < 10 {
        seq![digit_char(n)]
    } else {
        decimal(n / 10).push(digit_char(n % 10))
    }
}

pub open spec fn digit_char(d: nat) -> char {
    if d == 0 {
        '0'
    } else if d == 1 {
        '1'
    } else if d == 2 {
        '2'
    } else if d == 3 {
        '3'
    } else if d == 4 {
        '4'
    } else if d == 5 {
        '5'
    } else if d == 6 {
        '6'
    } else if d == 7 {
        '7'
    } else if d == 8 {
        '8'
    } else {
        '9'
    }
}

fn digit_to_char(d: usize) -> (c: char)
    ensures
        c == digit_char(d as nat),
{
    if d == 0 {
        '0'
    } else if d == 1 {
        '1'
    } else if d == 2 {
        '2'
    } else if d == 3 {
        '3'
    } else if d == 4 {
        '4'
    } else if d == 5 {
        '5'
    } else if d == 6 {
        '6'
    } else if d == 7 {
        '7'
    } else if d == 8 {
        '8'
    } else {
        '9'
    }
}

proof fn lemma_digits_value_mono(s: Seq<char>, i: int)
    requires
        0 <= i <= s.len(),
        all_digits(s),
    ensures
        digits_value(s.take(i)) <= digits_value(s),
    decreases s.len() - i,
{
    if i < s.len() {
        lemma_digits_value_mono(s, i + 1);
        assert(s.take(i + 1).drop_last() =~= s.take(i));
        assert(digits_value(s.take(i + 1)) >= digits_value(s.take(i)) * 10) by (nonlinear_arith)
            requires
                digits_value(s.take(i + 1)) == digits_value(s.take(i)) * 10 + digit_value(
                    s.take(i + 1).last(),
                ),
        ;
        assert(digits_value(s.take(i)) <= digits_value(s.take(i)) * 10) by (nonlinear_arith);
    } else {
        assert(s.take(i) =~= s);
    }
}

/// `str::parse::<usize>` as specified by `parse_usize`.
pub fn parse_usize_exec(s: &Vec<char>) -> (r: Option<usize>)
    ensures
        match parse_usize(s@) {
            Some(v) => r == Some(v as usize),
            None => r is None,
        },
{
    let start: usize = if s.len() > 0 && s[0] == '+' {
        1
    } else {
        0
    };
    let ghost t = unsigned_body(s@);
    assert(t =~= s@.skip(start as int));
    if start >= s.len() {
        return None;
    }
    let mut i = start;
    let mut v: usize = 0;
    while i < s.len()
        invariant
            start <= i <= s.len(),
            t =~= s@.skip(start as int),
            t == unsigned_body(s@),
            all_digits(t.take(i - start)),
            v == digits_value(t.take(i - start)),
        decreases s.len() - i,
    {
        let c = s[i];
        if !('0' <= c && c <= '9') {
            proof {
                assert(t[i - start] == c);
                assert(!is_digit(t[i - start]));
                assert(!all_digits(t));
                assert(parse_usize(s@) is None);
            }
            return None;
        }
        let d = (c as u32 - '0' as u32) as usize;
        proof {
            assert(t.take(i + 1 - start).drop_last() =~= t.take(i - start));
            assert(t.take(i + 1 - start).last() == c);
            assert(digits_value(t.take(i + 1 - start)) == v * 10 + d);
        }
        match v.checked_mul(10) {
            None => {
                proof {
                    assert(all_digits(t.take(i + 1 - start)));
                    if all_digits(t) {
                        lemma_digits_value_mono(t, i + 1 - start);
                        assert(v * 10 > usize::MAX);
                        assert(digits_value(t) > usize::MAX);
                    }
                    assert(parse_usize(s@) is None);
                }
                return None;
            },
            Some(m) => match m.checked_add(d) {
                None => {
                    proof {
                        assert(all_digits(t.take(i + 1 - start)));
                        if all_digits(t) {
                            lemma_digits_value_mono(t, i + 1 - start);
                        }
                    }
                    return None;
                },
                Some(w) => {
                    v = w;
                },
            },
        }
        i = i + 1;
        proof {
            assert(all_digits(t.take(i - start)));
        }
    }
    assert(t.take(s.len() - start) =~= t);
    Some(v)
}

/// Decimal digits of `n`.
pub fn decimal_exec(n: usize) -> (r: Vec<char>)
    ensures
        r@ == decimal(n as nat),
    decreases n,
{
    if n < 10 {
        let c = digit_to_char(n);
        let mut v: Vec<char> = Vec::new();
        v.push(c);
        v
    } else {
        let mut v = decimal_exec(n / 10);
        let d = n % 10;
        let c = digit_to_char(d);
        v.push(c);
        v
    }
}

/// Decimal digits of a 64-bit `n`.
pub fn decimal_u64(n: u64) -> (r: Vec<char>)
    ensures
        r@ == decimal(n as nat),
    decreases n,
{
    if n < 10 {
        let c = digit_to_char(n as usize);
        let mut v: Vec<char> = Vec::new();
        v.push(c);
        v
    } else {
        let mut v = decimal_u64(n / 10);
        let d = n % 10;
        let c = digit_to_char(d as usize);
        v.push(c);
        v
    }
}

} // verus!
