//! Reading JSON text with serde_json, one layer at a time.
//!
//! Each reader takes JSON text and gives back plain values: the members of an
//! object or the items of an array come back as JSON text of their own, which
//! the next reader takes. What serde_json gives for a text is named; the walks
//! over these values are the library's own, in the modules that read settings
//! and search output.
use vstd::prelude::*;
use crate::text::{chars_of, str_is};

verus! {

/// What serde_json gives for `s` read as an object: its members in the
/// object's order, each value written back as JSON text; none when `s` is not
/// JSON or not an object.
pub uninterp spec fn json_object(s: Seq<char>) -> Option<Seq<(Seq<char>, Seq<char>)>>;

/// What serde_json gives for `s` read as an array: its items, each written
/// back as JSON text; none when `s` is not JSON or not an array.
pub uninterp spec fn json_array(s: Seq<char>) -> Option<Seq<Seq<char>>>;

/// What serde_json gives for `s` read as a string; none when `s` is not JSON
/// or not a string.
pub uninterp spec fn json_string(s: Seq<char>) -> Option<Seq<char>>;

/// What serde_json gives for `s` read as an unsigned 64-bit number; none when
/// `s` is not JSON or not such a number.
pub uninterp spec fn json_u64(s: Seq<char>) -> Option<u64>;

/// What serde_json gives for `s` read as a boolean; none when `s` is not JSON
/// or not a boolean.
pub uninterp spec fn json_bool(s: Seq<char>) -> Option<bool>;

/// Whether serde_json reads `s` as JSON.
pub uninterp spec fn json_parses(s: Seq<char>) -> bool;

/// What serde_json writes (pretty-printed) for the object `s` with member
/// `key` set to the boolean `value`; none when `s` is not a JSON object or
/// the writing fails.
pub uninterp spec fn json_set_bool(s: Seq<char>, key: Seq<char>, value: bool) -> Option<Seq<char>>;

/// What serde_json writes (pretty-printed) for the JSON text `s`; none when
/// `s` is not JSON or the writing fails.
pub uninterp spec fn json_pretty(s: Seq<char>) -> Option<Seq<char>>;

pub open spec fn pairs_view(v: Seq<(String, String)>) -> Seq<(Seq<char>, Seq<char>)> {
    v.map_values(|e: (String, String)| (e.0@, e.1@))
}

pub open spec fn texts_view(v: Seq<String>) -> Seq<Seq<char>> {
    v.map_values(|e: String| e@)
}

/// `serde_json::from_str::<Value>` and `Value::as_object`, with each member
/// value written back by `Value::to_string`.
#[verifier::external_body]
fn parse_object(s: &str) -> (r: Option<Vec<(String, String)>>)
    ensures
        match r {
            Some(v) => json_object(s@) == Some(pairs_view(v@)),
            None => json_object(s@) is None,
        },
{
    let v: serde_json::Value = serde_json::from_str(s).ok()?;
    Some(v.as_object()?.iter().map(|(k, x)| (k.clone(), x.to_string())).collect())
}

/// `serde_json::from_str::<Value>` and `Value::as_array`, with each item
/// written back by `Value::to_string`.
#[verifier::external_body]
fn parse_array(s: &str) -> (r: Option<Vec<String>>)
    ensures
        match r {
            Some(v) => json_array(s@) == Some(texts_view(v@)),
            None => json_array(s@) is None,
        },
{
    let v: serde_json::Value = serde_json::from_str(s).ok()?;
    Some(v.as_array()?.iter().map(|x| x.to_string()).collect())
}

/// `serde_json::from_str::<Value>` and `Value::as_str`.
#[verifier::external_body]
fn parse_string(s: &str) -> (r: Option<String>)
    ensures
        match r {
            Some(t) => json_string(s@) == Some(t@),
            None => json_string(s@) is None,
        },
{
    let v: serde_json::Value = serde_json::from_str(s).ok()?;
    v.as_str().map(|t| t.to_string())
}

/// `serde_json::from_str::<Value>` and `Value::as_u64`.
#[verifier::external_body]
fn parse_u64(s: &str) -> (r: Option<u64>)
    ensures
        r == json_u64(s@),
{
    let v: serde_json::Value = serde_json::from_str(s).ok()?;
    v.as_u64()
}

/// `serde_json::from_str::<Value>` and `Value::as_bool`.
#[verifier::external_body]
fn parse_bool(s: &str) -> (r: Option<bool>)
    ensures
        r == json_bool(s@),
{
    let v: serde_json::Value = serde_json::from_str(s).ok()?;
    v.as_bool()
}

/// `serde_json::from_str::<Value>` succeeds.
#[verifier::external_body]
pub(crate) fn parses(s: &str) -> (r: bool)
    ensures
        r == json_parses(s@),
{
    serde_json::from_str::<serde_json::Value>(s).is_ok()
}

/// `serde_json::from_str::<Map<String, Value>>`, `Map::insert` of
/// `Value::Bool`, and `serde_json::to_string_pretty`.
#[verifier::external_body]
pub(crate) fn set_bool_member(s: &str, key: &str, value: bool) -> (r: Option<String>)
    ensures
        match r {
            Some(t) => json_set_bool(s@, key@, value) == Some(t@),
            None => json_set_bool(s@, key@, value) is None,
        },
{
    let mut m: serde_json::Map<String, serde_json::Value> = serde_json::from_str(s).ok()?;
    m.insert(key.to_string(), serde_json::Value::Bool(value));
    serde_json::to_string_pretty(&m).ok()
}

/// `serde_json::from_str::<Value>` and `serde_json::to_string_pretty`.
#[verifier::external_body]
pub(crate) fn pretty(s: &str) -> (r: Option<String>)
    ensures
        match r {
            Some(t) => json_pretty(s@) == Some(t@),
            None => json_pretty(s@) is None,
        },
{
    let v: serde_json::Value = serde_json::from_str(s).ok()?;
    serde_json::to_string_pretty(&v).ok()
}

// ---------------------------------------------------------------------------
// Walking values
// ---------------------------------------------------------------------------

/// The value of the first member named `key`.
pub open spec fn member_of(m: Seq<(Seq<char>, Seq<char>)>, key: Seq<char>) -> Option<Seq<char>>
    decreases m.len(),
{
    if m.len() == 0 {
        None
    } else if m[0].0 == key {
        Some(m[0].1)
    } else {
        member_of(m.drop_first(), key)
    }
}

/// `value[key]` on JSON text: the member's value when the text is an object
/// that has it.
pub open spec fn json_get(v: Option<Seq<char>>, key: Seq<char>) -> Option<Seq<char>> {
    match v {
        Some(t) => match json_object(t) {
            Some(m) => member_of(m, key),
            None => None,
        },
        None => None,
    }
}

/// `value[0]` on JSON text: the first item when the text is an array that has one.
pub open spec fn json_first(v: Option<Seq<char>>) -> Option<Seq<char>> {
    match v {
        Some(t) => match json_array(t) {
            Some(a) => if a.len() > 0 {
                Some(a[0])
            } else {
                None
            },
            None => None,
        },
        None => None,
    }
}

/// `as_str` on optional JSON text.
pub open spec fn json_str_of(v: Option<Seq<char>>) -> Option<Seq<char>> {
    match v {
        Some(t) => json_string(t),
        None => None,
    }
}

/// `as_u64` on optional JSON text.
pub open spec fn json_u64_of(v: Option<Seq<char>>) -> Option<u64> {
    match v {
        Some(t) => json_u64(t),
        None => None,
    }
}

/// `as_bool` on optional JSON text.
pub open spec fn json_bool_of(v: Option<Seq<char>>) -> Option<bool> {
    match v {
        Some(t) => json_bool(t),
        None => None,
    }
}

pub open spec fn opt_text(v: Option<String>) -> Option<Seq<char>> {
    match v {
        Some(t) => Some(t@),
        None => None,
    }
}

fn member_exec(m: &Vec<(String, String)>, key: &str) -> (r: Option<String>)
    ensures
        opt_text(r) == member_of(pairs_view(m@), key@),
{
    let ghost pv = pairs_view(m@);
    assert(pv.skip(0) =~= pv);
    let mut i: usize = 0;
    while i < m.len()
        invariant
            i <= m.len(),
            pv == pairs_view(m@),
            member_of(pv.skip(i as int), key@) == member_of(pv, key@),
        decreases m.len() - i,
    {
        proof {
            assert(pv.skip(i as int).drop_first() =~= pv.skip(i as int + 1));
        }
        let k = chars_of(m[i].0.as_str());
        if str_is(&k, key) {
            return Some(m[i].1.clone());
        }
        i = i + 1;
    }
    proof {
        assert(pv.skip(i as int).len() == 0);
    }
    None
}

/// `value[key]` on JSON text.
pub fn get(v: Option<&str>, key: &str) -> (r: Option<String>)
    ensures
        opt_text(r) == json_get(opt_str(v), key@),
{
    match v {
        Some(t) => match parse_object(t) {
            Some(m) => member_exec(&m, key),
            None => None,
        },
        None => None,
    }
}

pub open spec fn opt_str(v: Option<&str>) -> Option<Seq<char>> {
    match v {
        Some(t) => Some(t@),
        None => None,
    }
}

/// `value[0]` on JSON text.
pub fn first(v: Option<&str>) -> (r: Option<String>)
    ensures
        opt_text(r) == json_first(opt_str(v)),
{
    match v {
        Some(t) => match parse_array(t) {
            Some(a) => if a.len() > 0 {
                Some(a[0].clone())
            } else {
                None
            },
            None => None,
        },
        None => None,
    }
}

/// The items of JSON text that is an array (none otherwise).
pub fn items(v: &str) -> (r: Option<Vec<String>>)
    ensures
        match r {
            Some(a) => json_array(v@) == Some(texts_view(a@)),
            None => json_array(v@) is None,
        },
{
    parse_array(v)
}

/// The members of JSON text that is an object (none otherwise).
pub fn members(v: &str) -> (r: Option<Vec<(String, String)>>)
    ensures
        match r {
            Some(m) => json_object(v@) == Some(pairs_view(m@)),
            None => json_object(v@) is None,
        },
{
    parse_object(v)
}

/// `as_str` on optional JSON text.
pub fn str_of(v: Option<&str>) -> (r: Option<String>)
    ensures
        opt_text(r) == json_str_of(opt_str(v)),
{
    match v {
        Some(t) => parse_string(t),
        None => None,
    }
}

/// `as_u64` on optional JSON text.
pub fn u64_of(v: Option<&str>) -> (r: Option<u64>)
    ensures
        r == json_u64_of(opt_str(v)),
{
    match v {
        Some(t) => parse_u64(t),
        None => None,
    }
}

/// `as_bool` on optional JSON text.
pub fn bool_of(v: Option<&str>) -> (r: Option<bool>)
    ensures
        r == json_bool_of(opt_str(v)),
{
    match v {
        Some(t) => parse_bool(t),
        None => None,
    }
}

} // verus!
