//! A workspace's Cargo.toml as TOML values, and the members it lists.
use vstd::prelude::*;

use crate::text::{chars_eq, str_chars, texts};

verus! {

/// A TOML value, with what the installer reads of it: strings, integers,
/// booleans, arrays and tables (each key once, in the parser's order); any
/// other value (a float, a date) is `Other`.
pub enum TomlValue {
    Str(String),
    Integer(i64),
    Bool(bool),
    Array(Vec<TomlValue>),
    Table(Vec<(String, TomlValue)>),
    Other,
}

#[verifier::external_type_specification]
#[verifier::external_body]
pub struct ExTomlValue(toml::Value);

/// What the toml crate parses `text` into, as a `TomlValue`; none when the
/// text is not a TOML document.
pub uninterp spec fn toml_parsed(text: Seq<char>) -> Option<TomlValue>;

/// Changes a parsed `toml::Value` into a `TomlValue`, variant by variant.
#[verifier::external_body]
fn toml_value_of(v: &toml::Value) -> TomlValue {
    match v {
        toml::Value::String(s) => TomlValue::Str(s.clone()),
        toml::Value::Integer(i) => TomlValue::Integer(*i),
        toml::Value::Boolean(b) => TomlValue::Bool(*b),
        toml::Value::Array(a) => TomlValue::Array(a.iter().map(toml_value_of).collect()),
        toml::Value::Table(t) => TomlValue::Table(t.iter().map(|(k, x)| (k.clone(), toml_value_of(x))).collect()),
        _ => TomlValue::Other,
    }
}

#[verifier::external_type_specification]
#[verifier::external_body]
pub struct ExTomlError(toml::de::Error);

/// Parses a TOML document (`toml::from_str::<toml::Value>`). Its result is
/// named, not described: it depends on the text alone; the error is handed
/// back as the toml crate gives it.
#[verifier::external_body]
fn toml_parse(text: &str) -> (r: Result<TomlValue, toml::de::Error>)
    ensures
        match r {
            Ok(v) => toml_parsed(text@) == Some(v),
            Err(_) => toml_parsed(text@) is None,
        },
{
    match toml::from_str::<toml::Value>(text) {
        Ok(v) => Ok(toml_value_of(&v)),
        Err(e) => Err(e),
    }
}

/// The message of a TOML parse error, as its `Display` writes it. Nothing is
/// stated of the text.
#[verifier::external_body]
fn toml_error_message(e: &toml::de::Error) -> String {
    format!("{e}")
}

/// The value of the first entry with key `key`.
pub open spec fn entry(es: Seq<(String, TomlValue)>, key: Seq<char>) -> Option<TomlValue>
    decreases es.len(),
{
    if es.len() == 0 {
        None
    } else if es[0].0@ == key {
        Some(es[0].1)
    } else {
        entry(es.drop_first(), key)
    }
}

/// `v.get(key)`: the entry `key` of a table; nothing for other values.
pub open spec fn get(v: Option<TomlValue>, key: Seq<char>) -> Option<TomlValue> {
    match v {
        Some(TomlValue::Table(es)) => entry(es@, key),
        _ => None,
    }
}

/// The strings among `items`, in order.
pub open spec fn strings_of(items: Seq<TomlValue>) -> Seq<Seq<char>>
    decreases items.len(),
{
    if items.len() == 0 {
        seq![]
    } else {
        let rest = strings_of(items.drop_last());
        match items.last() {
            TomlValue::Str(s) => rest.push(s@),
            _ => rest,
        }
    }
}

/// The members a workspace lists: the strings of its `[workspace].members`
/// array; none when there is no such array.
pub open spec fn members_of(v: TomlValue) -> Option<Seq<Seq<char>>> {
    match get(get(Some(v), "workspace"@), "members"@) {
        Some(TomlValue::Array(items)) => Some(strings_of(items@)),
        _ => None,
    }
}

fn get_exec<'a>(v: Option<&'a TomlValue>, key: &str) -> (r: Option<&'a TomlValue>)
    ensures
        match v {
            Some(x) => match r {
                Some(y) => get(Some(*x), key@) == Some(*y),
                None => get(Some(*x), key@) is None,
            },
            None => r is None,
        },
{
    match v {
        Some(TomlValue::Table(es)) => {
            let want = str_chars(key);
            let mut i: usize = 0;
            proof {
                assert(es@.skip(0) =~= es@);
            }
            while i < es.len()
                invariant
                    i <= es@.len(),
                    want@ == key@,
                    v matches Some(x) && *x == TomlValue::Table(*es),
                    entry(es@, key@) == entry(es@.skip(i as int), key@),
                decreases es.len() - i,
            {
                proof {
                    let t = es@.skip(i as int);
                    assert(t.drop_first() =~= es@.skip(i + 1));
                    assert(t[0] == es@[i as int]);
                }
                if chars_eq(&str_chars(es[i].0.as_str()), &want) {
                    proof {
                        assert(es@[i as int].0@ == key@);
                        assert(entry(es@.skip(i as int), key@) == Some(es@[i as int].1));
                    }
                    return Some(&es[i].1);
                }
                i += 1;
            }
            proof {
                assert(es@.skip(es@.len() as int) =~= Seq::<(String, TomlValue)>::empty());
            }
            None
        },
        _ => None,
    }
}

/// Whether the document has a `workspace` entry (a workspace of several
/// modules rather than a single extension).
pub fn is_workspace(v: &TomlValue) -> (b: bool)
    ensures
        b == get(Some(*v), "workspace"@) is Some,
{
    get_exec(Some(v), "workspace").is_some()
}

/// The members a workspace lists (see `members_of`).
pub fn workspace_members(v: &TomlValue) -> (r: Option<Vec<String>>)
    ensures
        match r {
            Some(ms) => members_of(*v) == Some(texts(ms@)),
            None => members_of(*v) is None,
        },
{
    let ws = get_exec(Some(v), "workspace");
    match get_exec(ws, "members") {
        Some(TomlValue::Array(items)) => {
            let mut r: Vec<String> = Vec::new();
            let mut i: usize = 0;
            while i < items.len()
                invariant
                    i <= items@.len(),
                    texts(r@) == strings_of(items@.take(i as int)),
                decreases items.len() - i,
            {
                proof {
                    assert(items@.take(i + 1).drop_last() =~= items@.take(i as int));
                }
                match &items[i] {
                    TomlValue::Str(s) => {
                        let ghost before = r@;
                        r.push(s.clone());
                        proof {
                            assert(texts(r@) =~= texts(before).push(s@));
                        }
                    },
                    _ => {},
                }
                i += 1;
            }
            proof {
                assert(items@.take(items@.len() as int) =~= items@);
            }
            Some(r)
        },
        _ => None,
    }
}

/// The reason given when a workspace lists no members.
pub open spec fn no_members_reason() -> Seq<char> {
    "No [workspace].members found"@
}

/// The members listed in a workspace's Cargo.toml text. When the text is not
/// TOML the error is the parser's message; when it lists no members, the
/// error says so.
pub fn parse_workspace_members(cargo_toml: &str) -> (r: Result<Vec<String>, String>)
    ensures
        match toml_parsed(cargo_toml@) {
            Some(v) => match r {
                Ok(ms) => members_of(v) == Some(texts(ms@)),
                Err(e) => members_of(v) is None && e@ == no_members_reason(),
            },
            None => r is Err,
        },
{
    match toml_parse(cargo_toml) {
        Ok(v) => match workspace_members(&v) {
            Some(ms) => Ok(ms),
            None => Err(crate::text::owned("No [workspace].members found")),
        },
        Err(e) => Err(toml_error_message(&e)),
    }
}

/// Whether a Cargo.toml text describes a workspace (see `is_workspace`);
/// false when it is not TOML.
pub fn describes_workspace(cargo_toml: &str) -> (b: bool)
    ensures
        b == (toml_parsed(cargo_toml@) matches Some(v) && get(Some(v), "workspace"@) is Some),
{
    match toml_parse(cargo_toml) {
        Ok(v) => is_workspace(&v),
        Err(_) => false,
    }
}

} // verus!
