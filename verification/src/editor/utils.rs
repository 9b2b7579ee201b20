//! Word extraction and occurrence search over the buffer.
use vstd::prelude::*;

use super::buffer::{line_count, line_text, Buffer};
use crate::text::{chars_string, find_from_exec, first_match, is_word_char, is_word_char_exec, slice_chars};

verus! {

/// Smallest `s` such that every character in `chars[s..i]` is a word character.
pub open spec fn extend_left(chars: Seq<char>, i: int) -> int
    decreases i,
{
    if i > 0 && i <= chars.len() && is_word_char(chars[i - 1]) {
        extend_left(chars, i - 1)
    } else {
        i
    }
}

/// Largest `e` such that every character in `chars[i..e]` is a word character.
pub open spec fn extend_right(chars: Seq<char>, i: int) -> int
    decreases chars.len() - i,
{
    if 0 <= i < chars.len() && is_word_char(chars[i]) {
        extend_right(chars, i + 1)
    } else {
        i
    }
}

pub proof fn lemma_extend_left(chars: Seq<char>, i: int)
    requires
        0 <= i <= chars.len(),
    ensures
        0 <= extend_left(chars, i) <= i,
    decreases i,
{
    if i > 0 && is_word_char(chars[i - 1]) {
        lemma_extend_left(chars, i - 1);
    }
}

pub proof fn lemma_extend_right(chars: Seq<char>, i: int)
    requires
        0 <= i <= chars.len(),
    ensures
        i <= extend_right(chars, i) <= chars.len(),
    decreases chars.len() - i,
{
    if i < chars.len() && is_word_char(chars[i]) {
        lemma_extend_right(chars, i + 1);
    }
}

/// Walks left over word characters.
pub fn extend_left_exec(chars: &Vec<char>, i: usize) -> (s: usize)
    requires
        i <= chars.len(),
    ensures
        s == extend_left(chars@, i as int),
        s <= i,
{
    let mut s = i;
    while s > 0 && is_word_char_exec(chars[s - 1])
        invariant
            s <= i <= chars.len(),
            extend_left(chars@, i as int) == extend_left(chars@, s as int),
        decreases s,
    {
        s -= 1;
    }
    s
}

/// Walks right over word characters.
pub fn extend_right_exec(chars: &Vec<char>, i: usize) -> (e: usize)
    requires
        i <= chars.len(),
    ensures
        e == extend_right(chars@, i as int),
        i <= e <= chars.len(),
{
    let mut e = i;
    while e < chars.len() && is_word_char_exec(chars[e])
        invariant
            i <= e <= chars.len(),
            extend_right(chars@, i as int) == extend_right(chars@, e as int),
        decreases chars.len() - e,
    {
        e += 1;
    }
    e
}

/// The word around column `col` of `line` (`col` clamped to the last character),
/// if that character is a word character.
pub open spec fn word_at(line: Seq<char>, col: int) -> Option<Seq<char>> {
    let c = if col < line.len() - 1 { col } else if line.len() > 0 { line.len() - 1 } else { 0 };
    if c >= line.len() || !is_word_char(line[c]) {
        None
    } else {
        Some(line.subrange(extend_left(line, c), extend_right(line, c + 1)))
    }
}

/// Extract the word (identifier or path-like token) at `(row, col)` in the buffer.
pub fn get_word_at(buffer: &Buffer, row: usize, col: usize) -> (r: Option<String>)
    ensures
        match r {
            Some(w) => word_at(line_text(buffer.text(), row as int), col as int) == Some(w@),
            None => word_at(line_text(buffer.text(), row as int), col as int) is None,
        },
{
    let chars = buffer.line_vec(row);
    let last = if chars.len() > 0 {
        chars.len() - 1
    } else {
        0
    };
    let c = if col < last {
        col
    } else {
        last
    };
    if c >= chars.len() || !is_word_char_exec(chars[c]) {
        return None;
    }
    let start = extend_left_exec(&chars, c);
    let end = extend_right_exec(&chars, c + 1);
    proof {
        lemma_extend_left(chars@, c as int);
    }
    let w = slice_chars(&chars, start, end);
    Some(chars_string(&w))
}

/// The first occurrence of `w` when scanning rows `r..end`, starting at column
/// `from_col` on row `from_row` and at column 0 on the others.
pub open spec fn scan_rows(t: Seq<char>, w: Seq<char>, r: int, end: int, from_row: int, from_col: nat) -> Option<(int, int)>
    decreases end - r,
{
    if r >= end {
        None
    } else {
        let start = if r == from_row { from_col } else { 0 };
        match first_match(line_text(t, r), w, start) {
            Some(c) => Some((r, c as int)),
            None => scan_rows(t, w, r + 1, end, from_row, from_col),
        }
    }
}

/// Where `find_next_occurrence` finds `w`: from `(from_row, from_col)` to the
/// end of the text, then, wrapping around, from the beginning through the
/// whole of row `from_row` (its part before `from_col` included); none for an
/// empty word.
pub open spec fn next_occurrence(t: Seq<char>, w: Seq<char>, from_row: int, from_col: nat) -> Option<(int, int)> {
    let n = line_count(t) as int;
    if w.len() == 0 {
        None
    } else {
        match scan_rows(t, w, from_row, n, from_row, from_col) {
            Some(p) => Some(p),
            None => scan_rows(t, w, 0, if from_row < n { from_row + 1 } else { n }, from_row, 0),
        }
    }
}

fn scan_rows_exec(buf: &Buffer, w: &Vec<char>, r0: usize, end: usize, from_row: usize, from_col: usize) -> (res: Option<(usize, usize)>)
    ensures
        match res {
            Some(p) => scan_rows(buf.text(), w@, r0 as int, end as int, from_row as int, from_col as nat) == Some((p.0 as int, p.1 as int)),
            None => scan_rows(buf.text(), w@, r0 as int, end as int, from_row as int, from_col as nat) is None,
        },
{
    let mut r = r0;
    while r < end
        invariant
            r0 <= r,
            r0 <= end ==> r <= end,
            scan_rows(buf.text(), w@, r0 as int, end as int, from_row as int, from_col as nat)
                == scan_rows(buf.text(), w@, r as int, end as int, from_row as int, from_col as nat),
        decreases end - r,
    {
        let line = buf.line_vec(r);
        let start = if r == from_row {
            from_col
        } else {
            0
        };
        match find_from_exec(&line, w, start) {
            Some(c) => {
                return Some((r, c));
            },
            None => {},
        }
        r += 1;
    }
    None
}

/// Search for the next occurrence of `word` in the buffer starting at (from_row, from_col),
/// wrapping around to the beginning if needed. Returns (row, col) of the match start.
pub fn find_next_occurrence(buf: &Buffer, word: &str, from_row: usize, from_col: usize) -> (r: Option<(usize, usize)>)
    ensures
        match r {
            Some(p) => next_occurrence(buf.text(), word@, from_row as int, from_col as nat) == Some((p.0 as int, p.1 as int)),
            None => next_occurrence(buf.text(), word@, from_row as int, from_col as nat) is None,
        },
{
    let w = crate::text::str_chars(word);
    if w.len() == 0 {
        return None;
    }
    let total = buf.num_lines();
    match scan_rows_exec(buf, &w, from_row, total, from_row, from_col) {
        Some(p) => Some(p),
        None => {
            let end = if from_row < total {
                from_row + 1
            } else {
                total
            };
            scan_rows_exec(buf, &w, 0, end, from_row, 0)
        },
    }
}

} // verus!
