//! JSON values as the language-server responses carry them, with the
//! lookups the response readers make.
use vstd::prelude::*;

use crate::text::copy_string;

verus! {

/// A JSON value. A number is held as what the readers take from it: its
/// value as an unsigned and as a signed 64-bit integer, where it is an
/// integer that fits. An object keeps its entries in order, each key once.
pub enum JsonValue {
    Null,
    Bool(bool),
    Number(Option<u64>, Option<i64>),
    Str(String),
    Array(Vec<JsonValue>),
    Object(Vec<(String, JsonValue)>),
}

/// The value of the first entry with key `key`.
pub open spec fn entry_value(es: Seq<(String, JsonValue)>, key: Seq<char>) -> Option<JsonValue>
    decreases es.len(),
{
    if es.len() == 0 {
        None
    } else if es[0].0@ == key {
        Some(es[0].1)
    } else {
        entry_value(es.drop_first(), key)
    }
}

/// `v.get(key)`: the member `key` of an object; nothing for other values.
pub open spec fn member(v: JsonValue, key: Seq<char>) -> Option<JsonValue> {
    match v {
        JsonValue::Object(es) => entry_value(es@, key),
        _ => None,
    }
}

/// Looks up `key` in a value that may be missing: `v[key]`, where a missing
/// value stands for `null`.
pub open spec fn fld(v: Option<JsonValue>, key: Seq<char>) -> Option<JsonValue> {
    match v {
        Some(x) => member(x, key),
        None => None,
    }
}

/// `as_str`.
pub open spec fn str_of(v: Option<JsonValue>) -> Option<Seq<char>> {
    match v {
        Some(JsonValue::Str(s)) => Some(s@),
        _ => None,
    }
}

/// `as_u64`.
pub open spec fn u64_of(v: Option<JsonValue>) -> Option<u64> {
    match v {
        Some(JsonValue::Number(n, _)) => n,
        _ => None,
    }
}

/// `as_i64`.
pub open spec fn i64_of(v: Option<JsonValue>) -> Option<i64> {
    match v {
        Some(JsonValue::Number(_, n)) => n,
        _ => None,
    }
}

/// `as_array`.
pub open spec fn items_of(v: Option<JsonValue>) -> Option<Seq<JsonValue>> {
    match v {
        Some(JsonValue::Array(a)) => Some(a@),
        _ => None,
    }
}

/// `as_object`.
pub open spec fn entries_of(v: Option<JsonValue>) -> Option<Seq<(String, JsonValue)>> {
    match v {
        Some(JsonValue::Object(es)) => Some(es@),
        _ => None,
    }
}

/// The value behind an optional reference.
pub open spec fn deref_opt(o: Option<&JsonValue>) -> Option<JsonValue> {
    match o {
        Some(x) => Some(*x),
        None => None,
    }
}

/// The text of an optional string.
pub open spec fn opt_text(o: Option<String>) -> Option<Seq<char>> {
    match o {
        Some(s) => Some(s@),
        None => None,
    }
}

/// The text of a present string, or the empty text.
pub open spec fn text_or_empty(o: Option<Seq<char>>) -> Seq<char> {
    match o {
        Some(t) => t,
        None => seq![],
    }
}

/// The number of a present number, or `d`.
pub open spec fn u64_or(o: Option<u64>, d: u64) -> u64 {
    match o {
        Some(n) => n,
        None => d,
    }
}

fn same_key(a: &String, b: &str) -> (r: bool)
    ensures
        r == (a@ == b@),
{
    crate::text::chars_eq(&crate::text::str_chars(a.as_str()), &crate::text::str_chars(b))
}

/// `v.get(key)`.
pub fn member_exec<'a>(v: &'a JsonValue, key: &str) -> (r: Option<&'a JsonValue>)
    ensures
        deref_opt(r) == member(*v, key@),
{
    match v {
        JsonValue::Object(es) => {
            let mut i: usize = 0;
            proof {
                assert(es@.skip(0) =~= es@);
            }
            while i < es.len()
                invariant
                    i <= es@.len(),
                    member(*v, key@) == entry_value(es@, key@),
                    entry_value(es@, key@) == entry_value(es@.skip(i as int), key@),
                decreases es.len() - i,
            {
                proof {
                    assert(es@.skip(i as int).drop_first() =~= es@.skip(i + 1));
                    assert(es@.skip(i as int)[0] == es@[i as int]);
                }
                if same_key(&es[i].0, key) {
                    proof {
                        let rest = es@.skip(i as int);
                        assert(rest.len() > 0);
                        assert(rest[0].0@ == key@);
                        assert(entry_value(rest, key@) == Some(rest[0].1));
                    }
                    return Some(&es[i].1);
                }
                i += 1;
            }
            None
        },
        _ => None,
    }
}

/// `v[key]` on a value that may be missing.
pub fn fld_exec<'a>(v: Option<&'a JsonValue>, key: &str) -> (r: Option<&'a JsonValue>)
    ensures
        deref_opt(r) == fld(deref_opt(v), key@),
{
    match v {
        Some(x) => member_exec(x, key),
        None => None,
    }
}

/// `as_str`, copied out.
pub fn str_exec(v: Option<&JsonValue>) -> (r: Option<String>)
    ensures
        opt_text(r) == str_of(deref_opt(v)),
{
    match v {
        Some(JsonValue::Str(s)) => Some(copy_string(s)),
        _ => None,
    }
}

/// `as_u64`.
pub fn u64_exec(v: Option<&JsonValue>) -> (r: Option<u64>)
    ensures
        r == u64_of(deref_opt(v)),
{
    match v {
        Some(JsonValue::Number(n, _)) => *n,
        _ => None,
    }
}

/// `as_i64`.
pub fn i64_exec(v: Option<&JsonValue>) -> (r: Option<i64>)
    ensures
        r == i64_of(deref_opt(v)),
{
    match v {
        Some(JsonValue::Number(_, n)) => *n,
        _ => None,
    }
}

/// `as_array`.
pub fn items_exec<'a>(v: Option<&'a JsonValue>) -> (r: Option<&'a Vec<JsonValue>>)
    ensures
        match r {
            Some(a) => items_of(deref_opt(v)) == Some(a@),
            None => items_of(deref_opt(v)) is None,
        },
{
    match v {
        Some(JsonValue::Array(a)) => Some(a),
        _ => None,
    }
}

/// `as_object`.
pub fn entries_exec<'a>(v: Option<&'a JsonValue>) -> (r: Option<&'a Vec<(String, JsonValue)>>)
    ensures
        match r {
            Some(es) => entries_of(deref_opt(v)) == Some(es@),
            None => entries_of(deref_opt(v)) is None,
        },
{
    match v {
        Some(JsonValue::Object(es)) => Some(es),
        _ => None,
    }
}

/// Whether `s` holds at least one character.
pub fn nonempty(s: &String) -> (b: bool)
    ensures
        b == (s@.len() > 0),
{
    crate::text::str_chars(s.as_str()).len() > 0
}

/// A present string, or the empty string.
pub fn string_or_empty(o: Option<String>) -> (s: String)
    ensures
        s@ == text_or_empty(opt_text(o)),
{
    match o {
        Some(s) => s,
        None => String::new(),
    }
}

} // verus!
