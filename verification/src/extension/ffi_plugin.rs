//! The token list a native language module returns, as flat JSON.
use vstd::prelude::*;

use crate::editor::highlight::{tokens_view, Token, TokenKind};
use crate::text::{
    append_chars, chars_eq, chars_string, find_char, find_char_exec, find_from_exec, first_match,
    slice_chars, str_chars, trim, trim_exec, trim_start, trim_start_exec,
};

verus! {

/// The character a backslash escape `\c` stands for.
pub open spec fn unescaped(c: char) -> char {
    if c == 'n' {
        '\n'
    } else if c == 'r' {
        '\r'
    } else if c == 't' {
        '\t'
    } else {
        c
    }
}

/// The text of a JSON string whose body starts `s`, up to its closing quote,
/// with backslash escapes resolved; none when the string does not close.
pub open spec fn string_body(s: Seq<char>) -> Option<Seq<char>>
    decreases s.len(),
{
    if s.len() == 0 {
        None
    } else if s[0] == '"' {
        Some(seq![])
    } else if s[0] == '\\' {
        if s.len() < 2 {
            None
        } else {
            match string_body(s.skip(2)) {
                Some(r) => Some(seq![unescaped(s[1])] + r),
                None => None,
            }
        }
    } else {
        match string_body(s.drop_first()) {
            Some(r) => Some(seq![s[0]] + r),
            None => None,
        }
    }
}

/// The string value of `key` in a flat JSON object body: after the first
/// `"key":`, past white space, a string must start.
pub open spec fn json_str_field(obj: Seq<char>, key: Seq<char>) -> Option<Seq<char>> {
    let needle = seq!['"'] + key + seq!['"', ':'];
    match first_match(obj, needle, 0) {
        None => None,
        Some(k) => {
            let rest = trim_start(obj.skip((k + needle.len()) as int));
            if rest.len() > 0 && rest[0] == '"' {
                string_body(rest.drop_first())
            } else {
                None
            }
        },
    }
}

fn string_body_exec(s: &Vec<char>, from: usize) -> (r: Option<Vec<char>>)
    requires
        from <= s.len(),
    ensures
        match r {
            Some(v) => string_body(s@.skip(from as int)) == Some(v@),
            None => string_body(s@.skip(from as int)) is None,
        },
{
    let mut out: Vec<char> = Vec::new();
    let mut i = from;
    while i < s.len()
        invariant
            from <= i <= s.len(),
            string_body(s@.skip(from as int)) == (match string_body(s@.skip(i as int)) {
                Some(r) => Some(out@ + r),
                None => None,
            }),
        decreases s.len() - i,
    {
        let c = s[i];
        proof {
            assert(s@.skip(i as int)[0] == c);
        }
        if c == '"' {
            proof {
                assert(out@ + seq![] =~= out@);
            }
            return Some(out);
        } else if c == '\\' {
            if i + 1 >= s.len() {
                return None;
            }
            let e = s[i + 1];
            let u = if e == 'n' {
                '\n'
            } else if e == 'r' {
                '\r'
            } else if e == 't' {
                '\t'
            } else {
                e
            };
            proof {
                assert(s@.skip(i as int).skip(2) =~= s@.skip(i + 2));
                assert(s@.skip(i as int)[1] == e);
                let ghost before = out@;
                assert forall|r: Seq<char>| before + (seq![u] + r) == before.push(u) + r by {
                    assert(before + (seq![u] + r) =~= before.push(u) + r);
                }
            }
            out.push(u);
            i += 2;
        } else {
            proof {
                assert(s@.skip(i as int).drop_first() =~= s@.skip(i + 1));
                let ghost before = out@;
                assert forall|r: Seq<char>| before + (seq![c] + r) == before.push(c) + r by {
                    assert(before + (seq![c] + r) =~= before.push(c) + r);
                }
            }
            out.push(c);
            i += 1;
        }
    }
    proof {
        assert(s@.skip(i as int) =~= seq![]);
    }
    None
}

/// Extracts the string value of `key` from a flat JSON object body.
pub fn extract_json_str(obj: &str, key: &str) -> (r: Option<String>)
    ensures
        crate::paths::opt_string_text(r) == json_str_field(obj@, key@),
{
    let o = str_chars(obj);
    let mut needle: Vec<char> = Vec::new();
    needle.push('"');
    append_chars(&mut needle, &str_chars(key));
    needle.push('"');
    needle.push(':');
    proof {
        assert(needle@ =~= seq!['"'] + key@ + seq!['"', ':']);
    }
    let found = find_from_exec(&o, &needle, 0);
    let k = match found {
        Some(k) => k,
        None => return None,
    };
    proof {
        assert(crate::text::match_at(o@, needle@, k as int));
        assert(k + needle@.len() <= o@.len());
    }
    let nl = needle.len();
    assert(k + nl <= o.len());
    let start = k + nl;
    let after = slice_chars(&o, start, o.len());
    proof {
        assert(after@ =~= o@.skip(k + needle@.len()));
    }
    let rest = trim_start_exec(&after);
    if rest.len() == 0 || rest[0] != '"' {
        return None;
    }
    proof {
        assert(rest@.skip(1) =~= rest@.drop_first());
    }
    match string_body_exec(&rest, 1) {
        Some(v) => Some(chars_string(&v)),
        None => None,
    }
}

/// The token kind a kind name stands for.
pub open spec fn kind_named(k: Seq<char>) -> TokenKind {
    if k == "keyword"@ {
        TokenKind::Keyword
    } else if k == "type"@ {
        TokenKind::KeywordType
    } else if k == "string"@ {
        TokenKind::String
    } else if k == "comment"@ {
        TokenKind::Comment
    } else if k == "number"@ {
        TokenKind::Number
    } else if k == "function"@ {
        TokenKind::Function
    } else if k == "macro"@ {
        TokenKind::Macro
    } else {
        TokenKind::Normal
    }
}

/// `s` without its leading commas and spaces.
pub open spec fn skip_separators(s: Seq<char>) -> Seq<char>
    decreases s.len(),
{
    if s.len() > 0 && (s[0] == ',' || s[0] == ' ') {
        skip_separators(s.drop_first())
    } else {
        s
    }
}

/// A found character is within the text.
pub proof fn lemma_find_char_some(s: Seq<char>, c: char)
    ensures
        find_char(s, c) matches Some(i) ==> 0 <= i < s.len() && s[i] == c,
{
    if exists|i: int| 0 <= i < s.len() && s[i] == c {
        let i = choose|i: int| 0 <= i < s.len() && s[i] == c;
        lemma_first_index(s, c, i);
    }
}

/// Where `c` occurs, it has a first occurrence.
proof fn lemma_first_index(s: Seq<char>, c: char, i: int)
    requires
        0 <= i < s.len(),
        s[i] == c,
    ensures
        exists|k: int| 0 <= k < s.len() && s[k] == c && (forall|j: int| 0 <= j < k ==> s[j] != c),
    decreases i,
{
    if exists|j: int| 0 <= j < i && s[j] == c {
        let j = choose|j: int| 0 <= j < i && s[j] == c;
        lemma_first_index(s, c, j);
    } else {
        assert(0 <= i < s.len() && s[i] == c && (forall|j: int| 0 <= j < i ==> s[j] != c));
    }
}

pub proof fn lemma_skip_separators_len(s: Seq<char>)
    ensures
        skip_separators(s).len() <= s.len(),
    decreases s.len(),
{
    if s.len() > 0 && (s[0] == ',' || s[0] == ' ') {
        lemma_skip_separators_len(s.drop_first());
    }
}

/// The tokens of a run of `{"text":..,"kind":..}` objects, read until the
/// text no longer starts with `{`; none when an object does not close or
/// lacks its text or kind.
pub open spec fn token_items(rest: Seq<char>) -> Option<Seq<(Seq<char>, TokenKind)>>
    decreases rest.len(),
{
    if rest.len() == 0 || rest[0] != '{' {
        Some(seq![])
    } else {
        match find_char(rest, '}') {
            None => None,
            Some(e) => {
                let obj = rest.subrange(1, e);
                let next = skip_separators(rest.skip(e + 1));
                proof {
                    lemma_find_char_some(rest, '}');
                    lemma_skip_separators_len(rest.skip(e + 1));
                }
                match json_str_field(obj, "text"@) {
                    None => None,
                    Some(t) => match json_str_field(obj, "kind"@) {
                        None => None,
                        Some(k) => match token_items(next) {
                            Some(r) => Some(seq![(t, kind_named(k))] + r),
                            None => None,
                        },
                    },
                }
            },
        }
    }
}

/// The tokens of a JSON array `[{"text":"..","kind":".."}, ..]` (trimmed);
/// none when it is not bracketed or an object is malformed.
pub open spec fn token_json(json: Seq<char>) -> Option<Seq<(Seq<char>, TokenKind)>> {
    let j = trim(json);
    if j.len() > 0 && j[0] == '[' && j.last() == ']' && j.len() >= 2 {
        token_items(trim(j.subrange(1, j.len() - 1)))
    } else {
        None
    }
}

fn kind_named_exec(k: &Vec<char>) -> (r: TokenKind)
    ensures
        r == kind_named(k@),
{
    if chars_eq(k, &str_chars("keyword")) {
        TokenKind::Keyword
    } else if chars_eq(k, &str_chars("type")) {
        TokenKind::KeywordType
    } else if chars_eq(k, &str_chars("string")) {
        TokenKind::String
    } else if chars_eq(k, &str_chars("comment")) {
        TokenKind::Comment
    } else if chars_eq(k, &str_chars("number")) {
        TokenKind::Number
    } else if chars_eq(k, &str_chars("function")) {
        TokenKind::Function
    } else if chars_eq(k, &str_chars("macro")) {
        TokenKind::Macro
    } else {
        TokenKind::Normal
    }
}

/// Parses the token array a native language module returns.
pub fn parse_token_json(json: &str) -> (r: Option<Vec<Token>>)
    ensures
        match r {
            Some(v) => token_json(json@) == Some(tokens_view(v@)),
            None => token_json(json@) is None,
        },
{
    let j = trim_exec(&str_chars(json));
    if !(j.len() > 0 && j[0] == '[' && j[j.len() - 1] == ']') {
        return None;
    }
    let inner = slice_chars(&j, 1, j.len() - 1);
    let mut rest = trim_exec(&inner);
    let mut tokens: Vec<Token> = Vec::new();
    proof {
        assert(tokens_view(tokens@) =~= seq![]);
    }
    while rest.len() > 0
        invariant
            token_json(json@) == (match token_items(rest@) {
                Some(r) => Some(tokens_view(tokens@) + r),
                None => None,
            }),
        ensures
            token_json(json@) == (match token_items(rest@) {
                Some(r) => Some(tokens_view(tokens@) + r),
                None => None,
            }),
            rest@.len() == 0 || rest@[0] != '{',
        decreases rest.len(),
    {
        if rest[0] != '{' {
            break;
        }
        let e = match find_char_exec(&rest, '}') {
            Some(e) => e,
            None => return None,
        };
        let obj_v = slice_chars(&rest, 1, e);
        let after = slice_chars(&rest, e + 1, rest.len());
        proof {
            assert(after@ =~= rest@.skip(e + 1));
            lemma_skip_separators_len(after@);
        }
        let mut k: usize = 0;
        proof {
            assert(after@.skip(0) =~= after@);
        }
        while k < after.len() && (after[k] == ',' || after[k] == ' ')
            invariant
                k <= after.len(),
                skip_separators(after@) == skip_separators(after@.skip(k as int)),
            decreases after.len() - k,
        {
            proof {
                assert(after@.skip(k as int).drop_first() =~= after@.skip(k + 1));
            }
            k += 1;
        }
        let next = slice_chars(&after, k, after.len());
        proof {
            assert(next@ =~= after@.skip(k as int));
        }
        let obj = chars_string(&obj_v);
        let text = match extract_json_str(obj.as_str(), "text") {
            Some(t) => t,
            None => return None,
        };
        let kind_str = match extract_json_str(obj.as_str(), "kind") {
            Some(t) => t,
            None => return None,
        };
        let kind = kind_named_exec(&str_chars(kind_str.as_str()));
        let ghost before = tokens_view(tokens@);
        tokens.push(Token { text, kind });
        proof {
            assert(tokens_view(tokens@) =~= before.push((text@, kind)));
            assert forall|r: Seq<(Seq<char>, TokenKind)>| before + (seq![(text@, kind)] + r) == tokens_view(tokens@) + r by {
                assert(before + (seq![(text@, kind)] + r) =~= tokens_view(tokens@) + r);
            }
        }
        rest = next;
    }
    proof {
        assert(tokens_view(tokens@) + seq![] =~= tokens_view(tokens@));
    }
    Some(tokens)
}

} // verus!
