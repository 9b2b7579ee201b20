//! How a language server or debug adapter frames what it writes: a
//! `Content-Length: N` header line, a blank line, then N bytes of JSON.
use vstd::prelude::*;

use super::json::JsonValue;
use crate::extension::registry::{all_digits, digits_value, lemma_digits_prefix};
use crate::text::{slice_chars, starts_with, starts_with_exec, str_chars, trim, trim_exec};

verus! {

#[verifier::external_type_specification]
#[verifier::external_body]
pub struct ExJsonValue(serde_json::Value);

/// What serde_json parses `bytes` into, as a `JsonValue`; none when the bytes
/// are not one JSON document.
pub uninterp spec fn json_parsed(bytes: Seq<u8>) -> Option<JsonValue>;

/// Changes a parsed `serde_json::Value` into a `JsonValue`, variant by variant.
#[verifier::external_body]
fn json_value_of(v: &serde_json::Value) -> JsonValue {
    match v {
        serde_json::Value::Null => JsonValue::Null,
        serde_json::Value::Bool(b) => JsonValue::Bool(*b),
        serde_json::Value::Number(n) => JsonValue::Number(n.as_u64(), n.as_i64()),
        serde_json::Value::String(s) => JsonValue::Str(s.clone()),
        serde_json::Value::Array(a) => JsonValue::Array(a.iter().map(json_value_of).collect()),
        serde_json::Value::Object(m) => JsonValue::Object(m.iter().map(|(k, x)| (k.clone(), json_value_of(x))).collect()),
    }
}

/// Parses one JSON document (`serde_json::from_slice::<serde_json::Value>`).
/// Its result is named, not described: it depends on the bytes alone.
#[verifier::external_body]
fn json_parse(bytes: &[u8]) -> (r: Option<JsonValue>)
    ensures
        r == json_parsed(bytes@),
{
    match serde_json::from_slice::<serde_json::Value>(bytes) {
        Ok(v) => Some(json_value_of(&v)),
        Err(_) => None,
    }
}

/// `s.parse::<usize>()`: an optional `+`, then at least one ASCII digit, the
/// value fitting a `usize`.
pub open spec fn parse_usize(s: Seq<char>) -> Option<usize> {
    let d = if s.len() > 0 && s[0] == '+' { s.drop_first() } else { s };
    if d.len() > 0 && all_digits(d) && digits_value(d) <= usize::MAX {
        Some(digits_value(d) as usize)
    } else {
        None
    }
}

/// The header that announces a body.
pub open spec fn length_prefix() -> Seq<char> {
    seq!['C', 'o', 'n', 't', 'e', 'n', 't', '-', 'L', 'e', 'n', 'g', 't', 'h', ':', ' ']
}

/// The body length a header line announces. The line is trimmed; when it
/// does not begin with `Content-Length: ` it announces nothing; otherwise the
/// trimmed rest is read as a number, and 0 is taken when it is none.
pub open spec fn announced_length(header: Seq<char>) -> Option<usize> {
    let h = trim(header);
    if starts_with(h, length_prefix()) {
        match parse_usize(trim(h.skip(length_prefix().len() as int))) {
            Some(n) => Some(n),
            None => Some(0),
        }
    } else {
        None
    }
}

fn parse_usize_exec(s: &Vec<char>) -> (r: Option<usize>)
    ensures
        r == parse_usize(s@),
{
    let start: usize = if s.len() > 0 && s[0] == '+' {
        1
    } else {
        0
    };
    let d = slice_chars(s, start, s.len());
    proof {
        if s@.len() > 0 && s@[0] == '+' {
            assert(d@ =~= s@.drop_first());
        } else {
            assert(d@ =~= s@);
        }
    }
    if d.len() == 0 {
        return None;
    }
    let mut acc: usize = 0;
    let mut i: usize = 0;
    proof {
        assert(d@.take(0) =~= seq![]);
    }
    while i < d.len()
        invariant
            i <= d.len(),
            d@ == (if s@.len() > 0 && s@[0] == '+' { s@.drop_first() } else { s@ }),
            d@.len() > 0,
            all_digits(d@.take(i as int)),
            acc == digits_value(d@.take(i as int)),
        decreases d.len() - i,
    {
        let c = d[i];
        if !('0' <= c && c <= '9') {
            proof {
                assert(!all_digits(d@));
            }
            return None;
        }
        let digit = (c as u32 - '0' as u32) as usize;
        proof {
            assert(d@.take(i + 1).drop_last() =~= d@.take(i as int));
            assert(d@.take(i + 1).last() == c);
            assert(all_digits(d@.take(i + 1)));
            assert(digits_value(d@.take(i + 1)) == acc * 10 + digit);
        }
        let next = match acc.checked_mul(10) {
            Some(m) => m.checked_add(digit),
            None => None,
        };
        match next {
            Some(v) => {
                acc = v;
            },
            None => {
                proof {
                    if all_digits(d@) {
                        lemma_digits_prefix(d@, i + 1);
                    }
                }
                return None;
            },
        }
        i += 1;
    }
    proof {
        assert(d@.take(d@.len() as int) =~= d@);
    }
    Some(acc)
}

/// The body length a header line announces (`Content-Length: N`), or none
/// when the line is no such header; a number that does not parse counts as 0.
pub fn content_length(header: &str) -> (r: Option<usize>)
    ensures
        r == announced_length(header@),
{
    let h = trim_exec(&str_chars(header));
    let p: Vec<char> = vec!['C', 'o', 'n', 't', 'e', 'n', 't', '-', 'L', 'e', 'n', 'g', 't', 'h', ':', ' '];
    proof {
        assert(p@ =~= length_prefix());
    }
    if !starts_with_exec(&h, &p) {
        return None;
    }
    let rest = trim_exec(&slice_chars(&h, p.len(), h.len()));
    proof {
        assert(h@.subrange(p@.len() as int, h@.len() as int) =~= h@.skip(length_prefix().len() as int));
    }
    match parse_usize_exec(&rest) {
        Some(n) => Some(n),
        None => Some(0),
    }
}

/// One framed message: the body, parsed as JSON, when the header line
/// announces a length; none when it announces nothing or the body is no
/// JSON document.
pub fn decode_message(header: &str, body: &[u8]) -> (r: Option<JsonValue>)
    ensures
        r == (if announced_length(header@) is Some { json_parsed(body@) } else { None }),
{
    match content_length(header) {
        Some(_) => json_parse(body),
        None => None,
    }
}

} // verus!
