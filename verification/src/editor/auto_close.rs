//! Bracket and quote auto-closing rules.
use vstd::prelude::*;

use super::bracket_match::{close_of, is_open_bracket, open_of};
use crate::text::{char_alphanumeric, char_is_alphanumeric, char_is_whitespace, is_ws};

verus! {

/// The closing partner of an opening bracket or quote.
pub open spec fn closing_of(ch: char) -> Option<char> {
    if ch == '(' {
        Some(')')
    } else if ch == '[' {
        Some(']')
    } else if ch == '{' {
        Some('}')
    } else if ch == '"' {
        Some('"')
    } else if ch == '\'' {
        Some('\'')
    } else if ch == '`' {
        Some('`')
    } else {
        None
    }
}

/// Closing brackets and quotes.
pub open spec fn is_closing_char(ch: char) -> bool {
    ch == ')' || ch == ']' || ch == '}' || ch == '"' || ch == '\'' || ch == '`'
}

/// Auto-close when nothing follows, or white space or a closing character follows.
pub open spec fn auto_close_ok(next_char: Option<char>) -> bool {
    match next_char {
        None => true,
        Some(c) => is_ws(c) || is_closing_char(c),
    }
}

/// A quote right after an alphanumeric character is not auto-closed.
pub open spec fn skip_quote(ch: char, prev_char: Option<char>) -> bool {
    (ch == '\'' || ch == '"' || ch == '`') && match prev_char {
        Some(p) => char_alphanumeric(p),
        None => false,
    }
}

/// Returns the closing character for an opening bracket/quote, if any.
pub fn closing_pair(ch: char) -> (r: Option<char>)
    ensures
        r == closing_of(ch),
{
    match ch {
        '(' => Some(')'),
        '[' => Some(']'),
        '{' => Some('}'),
        '"' => Some('"'),
        '\'' => Some('\''),
        '`' => Some('`'),
        _ => None,
    }
}

/// Returns true if the character is a closing bracket/quote.
pub fn is_closing(ch: char) -> (b: bool)
    ensures
        b == is_closing_char(ch),
{
    ch == ')' || ch == ']' || ch == '}' || ch == '"' || ch == '\'' || ch == '`'
}

/// Returns true if we should auto-close given the character after the cursor.
pub fn should_auto_close(_ch: char, next_char: Option<char>) -> (b: bool)
    ensures
        b == auto_close_ok(next_char),
{
    match next_char {
        None => true,
        Some(c) => char_is_whitespace(c) || is_closing(c),
    }
}

/// For quote characters, check if the previous character suggests we should NOT auto-close.
pub fn should_skip_quote_auto_close(ch: char, prev_char: Option<char>) -> (b: bool)
    ensures
        b == skip_quote(ch, prev_char),
{
    if ch == '\'' || ch == '"' || ch == '`' {
        if let Some(prev) = prev_char {
            return char_is_alphanumeric(prev);
        }
    }
    false
}

/// Every character with a closing partner has one that counts as closing.
pub proof fn lemma_closing_partner_is_closing(ch: char)
    ensures
        closing_of(ch) matches Some(c) ==> is_closing_char(c),
{
}

/// The closing partner of an opening bracket is the bracket of the same
/// kind, and a quote is closed by the same quote; nothing else is
/// auto-closed.
pub proof fn lemma_closing_partner_same_kind(ch: char)
    ensures
        is_open_bracket(ch) ==> closing_of(ch) == Some(close_of(ch)) && open_of(close_of(ch)) == ch,
        (ch == '"' || ch == '\'' || ch == '`') ==> closing_of(ch) == Some(ch),
        closing_of(ch) is Some <==> (is_open_bracket(ch) || ch == '"' || ch == '\'' || ch == '`'),
{
}

} // verus!
