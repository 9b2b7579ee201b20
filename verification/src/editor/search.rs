//! Find and replace over the lines of the buffer.
use vstd::prelude::*;

use super::buffer::{line_count, line_text, Buffer};
use super::commands::line_replaced;
use super::cursor::{placed, selection_of, Cursor};
use super::editing::{delete_chars, text_deleted_n, text_inserted};
use super::Editor;
use crate::text::{
    chars_eq, is_word_char, is_word_char_exec, slice_chars,
    append_chars, chars_string, chars_to_lowercase, contains, contains_exec, find_from_exec,
    first_match, lowercase, str_chars,
};

verus! {

// ── Regular expressions ──────────────────────────────────────────────────────

/// `regex::Regex::new(pattern)` succeeds.
pub uninterp spec fn regex_compiles(pattern: Seq<char>) -> bool;

/// The regular expression `pattern` matches somewhere in `text`
/// (`regex::Regex::is_match`).
pub uninterp spec fn regex_finds(pattern: Seq<char>, text: Seq<char>) -> bool;

/// Calls `regex::Regex::new`: whether `pattern` compiles. The result is named,
/// not described.
#[verifier::external_body]
fn regex_is_valid(pattern: &str) -> (ok: bool)
    ensures
        ok == regex_compiles(pattern@),
{
    regex::Regex::new(pattern).is_ok()
}

/// Calls `regex::Regex::is_match` on the regex compiled from `pattern` (which
/// compiles). The result is named, not described.
#[verifier::external_body]
fn regex_is_match(pattern: &str, text: &str) -> (b: bool)
    requires
        regex_compiles(pattern@),
    ensures
        b == regex_finds(pattern@, text@),
{
    match regex::Regex::new(pattern) {
        Ok(re) => re.is_match(text),
        Err(_) => false,
    }
}

// ── Which lines match ────────────────────────────────────────────────────────

/// The pattern a regex search uses: the query, prefixed with the `(?i)` flag
/// when case does not matter.
pub open spec fn find_pattern(query: Seq<char>, case_sensitive: bool) -> Seq<char> {
    if case_sensitive {
        query
    } else {
        "(?i)"@ + query
    }
}

/// Whether `line` matches the search: the regex matches, or the query occurs
/// in it (compared lower-cased when case does not matter).
pub open spec fn line_matches(line: Seq<char>, query: Seq<char>, case_sensitive: bool, use_regex: bool) -> bool {
    if use_regex {
        regex_finds(find_pattern(query, case_sensitive), line)
    } else if case_sensitive {
        contains(line, query)
    } else {
        contains(lowercase(line), lowercase(query))
    }
}

/// The rows below `n` of `t` whose line matches, ascending.
pub open spec fn matching_rows(t: Seq<char>, query: Seq<char>, case_sensitive: bool, use_regex: bool, n: nat) -> Seq<usize>
    decreases n,
{
    if n == 0 {
        seq![]
    } else {
        let p = matching_rows(t, query, case_sensitive, use_regex, (n - 1) as nat);
        if line_matches(line_text(t, n - 1), query, case_sensitive, use_regex) {
            p.push((n - 1) as usize)
        } else {
            p
        }
    }
}

/// The matching rows of the whole text; none for an empty query or a regex
/// that does not compile.
pub open spec fn find_rows(t: Seq<char>, query: Seq<char>, case_sensitive: bool, use_regex: bool) -> Seq<usize> {
    if query.len() == 0 || (use_regex && !regex_compiles(find_pattern(query, case_sensitive))) {
        seq![]
    } else {
        matching_rows(t, query, case_sensitive, use_regex, line_count(t))
    }
}

/// Index of the first row in `v` at or after `row`.
pub open spec fn first_at_or_after(v: Seq<usize>, row: usize) -> Option<int>
    decreases v.len(),
{
    if v.len() == 0 {
        None
    } else if v[0] >= row {
        Some(0)
    } else {
        match first_at_or_after(v.drop_first(), row) {
            Some(k) => Some(k + 1),
            None => None,
        }
    }
}

/// The search state after the matches are recomputed: the matching rows; the
/// current match (the first at or after the cursor's row, else the first); the
/// cursor (moved to the start of the current match's row) and whether to
/// scroll to it. With an empty query only the matches change.
pub open spec fn refreshed_search(
    t: Seq<char>,
    query: Seq<char>,
    case_sensitive: bool,
    use_regex: bool,
    current: usize,
    cursor: Cursor,
    scroll: bool,
) -> (Seq<usize>, usize, Cursor, bool) {
    let rows = find_rows(t, query, case_sensitive, use_regex);
    if query.len() == 0 {
        (rows, current, cursor, scroll)
    } else if rows.len() > 0 {
        let k = match first_at_or_after(rows, cursor.row) {
            Some(k) => k,
            None => 0,
        };
        (rows, k as usize, placed(cursor, rows[k], 0), true)
    } else {
        (rows, 0, cursor, scroll)
    }
}

fn line_matches_exec(line: &Vec<char>, query: &Vec<char>, lower_query: &Vec<char>, pattern: &String, case_sensitive: bool, use_regex: bool) -> (b: bool)
    requires
        lower_query@ == lowercase(query@),
        use_regex ==> pattern@ == find_pattern(query@, case_sensitive) && regex_compiles(pattern@),
    ensures
        b == line_matches(line@, query@, case_sensitive, use_regex),
{
    if use_regex {
        let l = chars_string(line);
        regex_is_match(pattern.as_str(), l.as_str())
    } else if case_sensitive {
        contains_exec(line, query)
    } else {
        contains_exec(&chars_to_lowercase(line), lower_query)
    }
}

fn first_at_or_after_exec(v: &Vec<usize>, row: usize) -> (r: Option<usize>)
    ensures
        match r {
            Some(k) => first_at_or_after(v@, row) == Some(k as int) && k < v@.len(),
            None => first_at_or_after(v@, row) is None,
        },
{
    let mut i: usize = 0;
    proof {
        assert(v@.skip(0) =~= v@);
    }
    while i < v.len()
        invariant
            i <= v.len(),
            forall|j: int| 0 <= j < i ==> v@[j] < row,
            first_at_or_after(v@, row) == (match first_at_or_after(v@.skip(i as int), row) {
                Some(k) => Some(k + i),
                None => None,
            }),
        decreases v.len() - i,
    {
        if v[i] >= row {
            return Some(i);
        }
        proof {
            assert(v@.skip(i as int).drop_first() =~= v@.skip(i + 1));
        }
        i += 1;
    }
    proof {
        assert(v@.skip(i as int) =~= seq![]);
    }
    None
}

/// The rows of `buf` matching the search (`find_rows`).
fn compute_find_rows(buf: &Buffer, query: &str, cs: bool, re: bool) -> (rows: Vec<usize>)
    ensures
        rows@ == find_rows(buf.text(), query@, cs, re),
{
    let ghost t = buf.text();
    let q = str_chars(query);
    let mut rows: Vec<usize> = Vec::new();
    if q.len() == 0 {
        return rows;
    }
    let mut pat: Vec<char> = Vec::new();
    if !cs {
        pat = str_chars("(?i)");
    }
    append_chars(&mut pat, &q);
    let pattern = chars_string(&pat);
    if re && !regex_is_valid(pattern.as_str()) {
        return rows;
    }
    let lower_query = chars_to_lowercase(&q);
    let n = buf.num_lines();
    let mut i: usize = 0;
    while i < n
        invariant
            i <= n,
            n == line_count(t),
            t == buf.text(),
            q@ == query@,
            lower_query@ == lowercase(q@),
            re ==> pattern@ == find_pattern(q@, cs) && regex_compiles(pattern@),
            rows@ == matching_rows(t, q@, cs, re, i as nat),
        decreases n - i,
    {
        let line = buf.line_vec(i);
        if line_matches_exec(&line, &q, &lower_query, &pattern, cs, re) {
            rows.push(i);
        }
        i += 1;
    }
    rows
}

// ── Replacing ────────────────────────────────────────────────────────────────

/// The number of bytes UTF-8 encodes a character in.
pub open spec fn utf8_width(c: char) -> nat {
    if (c as u32) < 0x80 {
        1
    } else if (c as u32) < 0x800 {
        2
    } else if (c as u32) < 0x10000 {
        3
    } else {
        4
    }
}

/// The number of bytes UTF-8 encodes a text in.
pub open spec fn utf8_len(s: Seq<char>) -> nat
    decreases s.len(),
{
    if s.len() == 0 {
        0
    } else {
        utf8_len(s.drop_last()) + utf8_width(s.last())
    }
}

/// `n` as a `usize`, saturating at `usize::MAX`.
pub open spec fn sat_usize(n: int) -> usize {
    if n <= usize::MAX {
        n as usize
    } else {
        usize::MAX
    }
}

/// `q` occurs at character `k` of `line`, ignoring case: the `q.len()`
/// characters there, lower-cased, are the lower-cased query.
pub open spec fn matches_at_ci(line: Seq<char>, q: Seq<char>, k: int) -> bool {
    0 <= k && k + q.len() <= line.len() && lowercase(line.subrange(k, k + q.len())) == lowercase(q)
}

/// The first character column at or after `from` where `q` occurs in `line`,
/// ignoring case.
pub open spec fn match_col_from(line: Seq<char>, q: Seq<char>, from: nat) -> Option<nat>
    decreases line.len() + 1 - from,
{
    if from + q.len() > line.len() {
        None
    } else if matches_at_ci(line, q, from as int) {
        Some(from)
    } else {
        match_col_from(line, q, from + 1)
    }
}

/// The column replacing works at: the character column of the first
/// occurrence of the query in the line, ignoring case; none when there is no
/// occurrence.
pub open spec fn match_col(line: Seq<char>, query: Seq<char>) -> Option<usize> {
    match match_col_from(line, query, 0) {
        Some(k) => Some(k as usize),
        None => None,
    }
}

proof fn lemma_match_col_from(line: Seq<char>, q: Seq<char>, from: nat)
    ensures
        match_col_from(line, q, from) matches Some(k) ==> from <= k && k + q.len() <= line.len() && matches_at_ci(
            line,
            q,
            k as int,
        ),
    decreases line.len() + 1 - from,
{
    if from + q.len() <= line.len() && !matches_at_ci(line, q, from as int) {
        lemma_match_col_from(line, q, from + 1);
    }
}

/// The first occurrence of `q` at or after `from` in `line`, ignoring case
/// (`match_col_from`).
fn match_col_exec(line: &Vec<char>, q: &Vec<char>, from: usize) -> (r: Option<usize>)
    ensures
        match r {
            Some(k) => match_col_from(line@, q@, from as nat) == Some(k as nat),
            None => match_col_from(line@, q@, from as nat) is None,
        },
{
    let lq = chars_to_lowercase(q);
    let mut k = from;
    while k <= line.len() && q.len() <= line.len() - k
        invariant
            from <= k,
            lq@ == lowercase(q@),
            match_col_from(line@, q@, from as nat) == match_col_from(line@, q@, k as nat),
        decreases line.len() + 1 - k,
    {
        let w = chars_to_lowercase(&slice_chars(line, k, k + q.len()));
        if chars_eq(&w, &lq) {
            return Some(k);
        }
        if k == line.len() {
            proof {
                if q@.len() == 0 {
                    assert(line@.subrange(k as int, k as int) =~= q@);
                }
            }
            return None;
        }
        k += 1;
    }
    None
}

/// The text after the characters of `rep` are inserted one by one, the
/// `i`-th at column `col + i` of `row`.
pub open spec fn chars_inserted_at(t: Seq<char>, row: usize, col: usize, rep: Seq<char>, i: nat) -> Seq<char>
    decreases i,
{
    if i == 0 {
        t
    } else {
        text_inserted(chars_inserted_at(t, row, col, rep, (i - 1) as nat), row, sat_usize(col + i - 1), rep[i - 1])
    }
}

/// The text after the first occurrence of `query` on `row` (found ignoring
/// case) is replaced by `rep`: as many characters as the query has are
/// deleted at the match column, then `rep` is inserted there; none when the
/// row holds no occurrence.
pub open spec fn row_replaced(t: Seq<char>, row: usize, query: Seq<char>, rep: Seq<char>) -> Option<Seq<char>> {
    match match_col(line_text(t, row as int), query) {
        Some(col) => Some(chars_inserted_at(text_deleted_n(t, row, col, query.len()), row, col, rep, rep.len())),
        None => None,
    }
}

/// The byte offset of character `k` of `s`, saturating.
fn byte_offset(s: &Vec<char>, k: usize) -> (r: usize)
    requires
        k <= s.len(),
    ensures
        r == sat_usize(utf8_len(s@.take(k as int)) as int),
{
    let mut r: usize = 0;
    let mut i: usize = 0;
    while i < k
        invariant
            i <= k <= s.len(),
            r == sat_usize(utf8_len(s@.take(i as int)) as int),
        decreases k - i,
    {
        let c = s[i] as u32;
        let w: usize = if c < 0x80 {
            1
        } else if c < 0x800 {
            2
        } else if c < 0x10000 {
            3
        } else {
            4
        };
        proof {
            assert(s@.take(i + 1).drop_last() =~= s@.take(i as int));
        }
        r = r.saturating_add(w);
        i += 1;
    }
    r
}

/// Replaces the first occurrence of `query` on `row` (`row_replaced`); false
/// when there is none.
fn replace_in_row(buf: &mut Buffer, row: usize, query: &Vec<char>, rep: &Vec<char>) -> (done: bool)
    ensures
        final(buf)@.history == old(buf)@.history,
        final(buf)@.future == old(buf)@.future,
        match row_replaced(old(buf).text(), row, query@, rep@) {
            Some(t2) => done && final(buf).text() == t2,
            None => !done && *final(buf) == *old(buf),
        },
{
    let ghost t = buf.text();
    let line = buf.line_vec(row);
    match match_col_exec(&line, query, 0) {
        Some(col) => {
            delete_chars(buf, row, col, query.len());
            let ghost t1 = buf.text();
            let mut i: usize = 0;
            while i < rep.len()
                invariant
                    i <= rep.len(),
                    t1 == text_deleted_n(t, row, col, query@.len()),
                    buf.text() == chars_inserted_at(t1, row, col, rep@, i as nat),
                    buf@.history == old(buf)@.history,
                    buf@.future == old(buf)@.future,
                decreases rep.len() - i,
            {
                buf.insert_char(row, col.saturating_add(i), rep[i]);
                i += 1;
            }
            true
        },
        None => false,
    }
}

// ── Replacing everywhere ─────────────────────────────────────────────────────

/// The part of `line` from column `from` on with every occurrence of `q`
/// (ignoring case, left to right, each one once) replaced by `rep`;
/// replacement text is never searched again.
pub open spec fn line_all_replaced(line: Seq<char>, q: Seq<char>, rep: Seq<char>, from: nat) -> Seq<char>
    decreases line.len() + 1 - from,
{
    if q.len() == 0 || from > line.len() {
        line.skip(from as int)
    } else {
        match match_col_from(line, q, from) {
            None => line.skip(from as int),
            Some(k) => if k + q.len() <= line.len() && from <= k {
                line.subrange(from as int, k as int) + rep + line_all_replaced(line, q, rep, k + q.len())
            } else {
                line.skip(from as int)
            },
        }
    }
}

/// The text once every occurrence on rows `row..total` has been replaced,
/// row by row (a row without a change is left as it is).
pub open spec fn rows_replaced(t: Seq<char>, q: Seq<char>, rep: Seq<char>, row: nat, total: nat) -> Seq<char>
    decreases total - row,
{
    if row >= total {
        t
    } else {
        let l = line_text(t, row as int);
        let l2 = line_all_replaced(l, q, rep, 0);
        let t2 = if l2 == l { t } else { line_replaced(t, row as int, l2) };
        rows_replaced(t2, q, rep, row + 1, total)
    }
}

fn line_all_replaced_exec(line: &Vec<char>, q: &Vec<char>, rep: &Vec<char>) -> (r: Vec<char>)
    requires
        q.len() > 0,
    ensures
        r@ == line_all_replaced(line@, q@, rep@, 0),
{
    let mut out: Vec<char> = Vec::new();
    let mut p: usize = 0;
    proof {
        assert(out@ + line_all_replaced(line@, q@, rep@, 0) =~= line_all_replaced(line@, q@, rep@, 0));
    }
    loop
        invariant
            q.len() > 0,
            p <= line.len(),
            out@ + line_all_replaced(line@, q@, rep@, p as nat) == line_all_replaced(line@, q@, rep@, 0),
        decreases line.len() + 1 - p,
    {
        proof {
            lemma_match_col_from(line@, q@, p as nat);
        }
        match match_col_exec(line, q, p) {
            None => {
                let ghost before = out@;
                append_chars(&mut out, &slice_chars(line, p, line.len()));
                proof {
                    assert(line@.subrange(p as int, line@.len() as int) =~= line@.skip(p as int));
                    assert(out@ == before + line_all_replaced(line@, q@, rep@, p as nat));
                }
                return out;
            },
            Some(k) => {
                let ghost before = out@;
                append_chars(&mut out, &slice_chars(line, p, k));
                append_chars(&mut out, rep);
                proof {
                    assert(out@ + line_all_replaced(line@, q@, rep@, (k + q.len()) as nat) =~= before
                        + line_all_replaced(line@, q@, rep@, p as nat));
                }
                p = k + q.len();
            },
        }
    }
}

/// Every character of `s` is a word character.
pub open spec fn all_word_chars(s: Seq<char>) -> bool {
    forall|k: int| 0 <= k < s.len() ==> is_word_char(#[trigger] s[k])
}

/// The word whose occurrences are highlighted: the selection, when it lies
/// within one row, is non-empty, is at least three bytes long and holds only
/// word characters; otherwise empty.
pub open spec fn highlight_word(t: Seq<char>, c: Cursor) -> Seq<char> {
    match selection_of(c) {
        Some((st, en)) => if st.0 == en.0 && en.1 > st.1 {
            let line = line_text(t, st.0 as int);
            let sel = if st.1 < line.len() {
                line.subrange(st.1 as int, if en.1 < line.len() { en.1 as int } else { line.len() as int })
            } else {
                seq![]
            };
            if utf8_len(sel) >= 3 && all_word_chars(sel) {
                sel
            } else {
                seq![]
            }
        } else {
            seq![]
        },
        None => seq![],
    }
}

/// The whole-word occurrences of `w` in `chars` (row `row`) from column `pos`
/// on, scanning left to right and resuming after each match; one touching
/// the cursor at `(crow, ccol)` is left out.
pub open spec fn scan_occurrences(chars: Seq<char>, w: Seq<char>, row: usize, crow: usize, ccol: usize, pos: int) -> Seq<(usize, usize, usize)>
    decreases chars.len() - pos,
{
    if w.len() == 0 || pos < 0 || pos + w.len() > chars.len() {
        seq![]
    } else if chars.subrange(pos, pos + w.len()) == w {
        let end = pos + w.len();
        let before_ok = pos == 0 || !is_word_char(chars[pos - 1]);
        let after_ok = end >= chars.len() || !is_word_char(chars[end]);
        let at_cursor = row == crow && pos <= ccol && ccol <= end;
        let here = if before_ok && after_ok && !at_cursor {
            seq![(row, pos as usize, end as usize)]
        } else {
            seq![]
        };
        here + scan_occurrences(chars, w, row, crow, ccol, end)
    } else {
        scan_occurrences(chars, w, row, crow, ccol, pos + 1)
    }
}

/// The occurrences on rows `first..=last`.
pub open spec fn occurrences_in_rows(t: Seq<char>, w: Seq<char>, crow: usize, ccol: usize, first: int, last: int) -> Seq<(usize, usize, usize)>
    decreases last - first + 1,
{
    if first > last {
        seq![]
    } else {
        scan_occurrences(line_text(t, first), w, first as usize, crow, ccol, 0)
            + occurrences_in_rows(t, w, crow, ccol, first + 1, last)
    }
}

fn scan_line(chars: &Vec<char>, w: &Vec<char>, row: usize, crow: usize, ccol: usize, out: &mut Vec<(usize, usize, usize)>)
    requires
        w@.len() > 0,
    ensures
        final(out)@ == old(out)@ + scan_occurrences(chars@, w@, row, crow, ccol, 0),
{
    let wl = w.len();
    let mut pos: usize = 0;
    while pos <= chars.len() && wl <= chars.len() - pos
        invariant
            wl == w@.len(),
            wl > 0,
            pos <= chars.len() + 1,
            old(out)@ + scan_occurrences(chars@, w@, row, crow, ccol, 0) == out@ + scan_occurrences(chars@, w@, row, crow, ccol, pos as int),
        decreases chars.len() + 1 - pos,
    {
        let piece = slice_chars(chars, pos, pos + wl);
        if chars_eq(&piece, w) {
            let end = pos + wl;
            let before_ok = pos == 0 || !is_word_char_exec(chars[pos - 1]);
            let after_ok = end >= chars.len() || !is_word_char_exec(chars[end]);
            let at_cursor = row == crow && pos <= ccol && ccol <= end;
            if before_ok && after_ok && !at_cursor {
                out.push((row, pos, end));
                proof {
                    assert(out@ + scan_occurrences(chars@, w@, row, crow, ccol, end as int) =~= old(out)@ + scan_occurrences(chars@, w@, row, crow, ccol, 0));
                }
            } else {
                proof {
                    assert(out@ + scan_occurrences(chars@, w@, row, crow, ccol, end as int) =~= old(out)@ + scan_occurrences(chars@, w@, row, crow, ccol, 0));
                }
            }
            pos = end;
        } else {
            pos += 1;
        }
    }
    proof {
        assert(out@ =~= old(out)@ + scan_occurrences(chars@, w@, row, crow, ccol, 0));
    }
}

impl Editor {
    /// The current match, when there are matches, is one of them.
    pub open spec fn find_wf(&self) -> bool {
        self.find_matches@.len() > 0 ==> self.find_current < self.find_matches@.len()
    }

    /// Recomputes the rows matching the find query and jumps to the first
    /// match at or after the cursor's row (or the first match).
    pub fn update_find_matches(&mut self)
        ensures
            (final(self).find_matches@, final(self).find_current, final(self).cursor, final(self).scroll_to_cursor)
                == refreshed_search(
                old(self).buffer.text(),
                old(self).find_query@,
                old(self).find_case_sensitive,
                old(self).find_use_regex,
                old(self).find_current,
                old(self).cursor,
                old(self).scroll_to_cursor,
            ),
            final(self).find_wf(),
            final(self).buffer@ == old(self).buffer@,
            final(self).extra_cursors == old(self).extra_cursors,
            final(self).find_query == old(self).find_query,
            final(self).replace_query == old(self).replace_query,
            final(self).find_case_sensitive == old(self).find_case_sensitive,
            final(self).find_use_regex == old(self).find_use_regex,
            final(self).is_modified == old(self).is_modified,
            final(self).content_version == old(self).content_version,
    {
        let rows = compute_find_rows(&self.buffer, self.find_query.as_str(), self.find_case_sensitive, self.find_use_regex);
        let cursor_row = self.cursor.row;
        let empty_query = self.find_query.as_str().is_empty();
        self.find_matches = rows;
        if empty_query {
            return;
        }
        if self.find_matches.len() > 0 {
            let k = match first_at_or_after_exec(&self.find_matches, cursor_row) {
                Some(k) => k,
                None => 0,
            };
            self.find_current = k;
            let row = self.find_matches[k];
            self.cursor.set_position(row, 0);
            self.scroll_to_cursor = true;
        } else {
            self.find_current = 0;
        }
    }

    /// Moves to the next match, wrapping around to the first.
    pub fn find_next(&mut self)
        requires
            old(self).find_current < usize::MAX,
        ensures
            old(self).find_matches@.len() == 0 ==> *final(self) == *old(self),
            old(self).find_matches@.len() > 0 ==> {
                let k = ((old(self).find_current + 1) % old(self).find_matches@.len() as int) as usize;
                &&& final(self).find_current == k
                &&& final(self).cursor == placed(old(self).cursor, old(self).find_matches@[k as int], 0)
                &&& final(self).scroll_to_cursor
                &&& final(self).find_matches == old(self).find_matches
                &&& final(self).buffer@ == old(self).buffer@
            },
    {
        if self.find_matches.len() == 0 {
            return;
        }
        self.find_current = (self.find_current + 1) % self.find_matches.len();
        let row = self.find_matches[self.find_current];
        self.cursor.set_position(row, 0);
        self.scroll_to_cursor = true;
    }

    /// Moves to the previous match, wrapping around to the last.
    pub fn find_prev(&mut self)
        requires
            old(self).find_matches@.len() > 0 ==> old(self).find_current <= old(self).find_matches@.len(),
        ensures
            old(self).find_matches@.len() == 0 ==> *final(self) == *old(self),
            old(self).find_matches@.len() > 0 ==> {
                let k = if old(self).find_current == 0 {
                    (old(self).find_matches@.len() - 1) as usize
                } else {
                    (old(self).find_current - 1) as usize
                };
                &&& final(self).find_current == k
                &&& final(self).cursor == placed(old(self).cursor, old(self).find_matches@[k as int], 0)
                &&& final(self).scroll_to_cursor
                &&& final(self).find_matches == old(self).find_matches
                &&& final(self).buffer@ == old(self).buffer@
            },
    {
        if self.find_matches.len() == 0 {
            return;
        }
        if self.find_current == 0 {
            self.find_current = self.find_matches.len() - 1;
        } else {
            self.find_current -= 1;
        }
        let row = self.find_matches[self.find_current];
        self.cursor.set_position(row, 0);
        self.scroll_to_cursor = true;
    }

    /// Replaces the first occurrence of the find query (ignoring case) on the
    /// current match's row with the replacement, then recomputes the matches.
    pub fn replace_current(&mut self)
        requires
            old(self).find_wf(),
        ensures
            ({
                let q = old(self).find_query@;
                let nothing = q.len() == 0 || old(self).find_matches@.len() == 0 || row_replaced(
                    old(self).buffer.text(),
                    old(self).find_matches@[old(self).find_current as int],
                    q,
                    old(self).replace_query@,
                ) is None;
                &&& nothing ==> *final(self) == *old(self)
                &&& !nothing ==> {
                    let t2 = row_replaced(old(self).buffer.text(), old(self).find_matches@[old(self).find_current as int], q, old(self).replace_query@)->0;
                    &&& final(self).buffer.text() == t2
                    &&& final(self).buffer@.history == old(self).buffer@.history
                    &&& final(self).buffer@.future == old(self).buffer@.future
                    &&& final(self).is_modified
                    &&& final(self).content_version == old(self).content_version.wrapping_add(1)
                    &&& (final(self).find_matches@, final(self).find_current, final(self).cursor, final(self).scroll_to_cursor)
                        == refreshed_search(t2, q, old(self).find_case_sensitive, old(self).find_use_regex, old(self).find_current, old(self).cursor, old(self).scroll_to_cursor)
                }
            }),
    {
        let q = str_chars(self.find_query.as_str());
        if q.len() == 0 {
            return;
        }
        if self.find_matches.len() == 0 {
            return;
        }
        let row = self.find_matches[self.find_current];
        let rep = str_chars(self.replace_query.as_str());
        if replace_in_row(&mut self.buffer, row, &q, &rep) {
            self.is_modified = true;
            self.content_version = self.content_version.wrapping_add(1);
            self.update_find_matches();
        }
    }

    /// Recomputes the occurrences of the selected word on rows
    /// `first_visible_line..=last_visible_line`, unless neither the word nor
    /// the content version changed.
    pub fn update_word_occurrences(&mut self, first_visible_line: usize, last_visible_line: usize)
        requires
            old(self).cursor_fits(),
        ensures
            ({
                let t = old(self).buffer.text();
                let w = highlight_word(t, old(self).cursor);
                let unchanged = w == old(self).word_occurrences_word@ && old(self).content_version == old(self).word_occurrences_version;
                let last = if last_visible_line < line_count(t) - 1 { last_visible_line as int } else { line_count(t) - 1 };
                &&& unchanged ==> final(self).word_occurrences == old(self).word_occurrences
                    && final(self).word_occurrences_word == old(self).word_occurrences_word
                    && final(self).word_occurrences_version == old(self).word_occurrences_version
                &&& !unchanged ==> final(self).word_occurrences_word@ == w
                    && final(self).word_occurrences_version == old(self).content_version
                    && final(self).word_occurrences@ == (if utf8_len(w) < 3 {
                        seq![]
                    } else {
                        occurrences_in_rows(t, w, old(self).cursor.row, old(self).cursor.col, first_visible_line as int, last)
                    })
            }),
            final(self).buffer@ == old(self).buffer@,
            final(self).cursor == old(self).cursor,
            final(self).content_version == old(self).content_version,
            final(self).find_matches == old(self).find_matches,
    {
        let ghost t = self.buffer.text();
        let (row, col) = self.cursor.position();
        let word: Vec<char> = compute_highlight_word(&self.buffer, &self.cursor);
        let old_word = str_chars(self.word_occurrences_word.as_str());
        if chars_eq(&word, &old_word) && self.content_version == self.word_occurrences_version {
            return;
        }
        self.word_occurrences = Vec::new();
        self.word_occurrences_version = self.content_version;
        self.word_occurrences_word = chars_string(&word);
        if byte_offset(&word, word.len()) < 3 {
            proof {
                assert(word@.take(word@.len() as int) =~= word@);
            }
            return;
        }
        proof {
            assert(word@.take(word@.len() as int) =~= word@);
        }
        let n = self.buffer.num_lines();
        let last = if last_visible_line < n - 1 {
            last_visible_line
        } else {
            n - 1
        };
        let mut out: Vec<(usize, usize, usize)> = Vec::new();
        let mut i = first_visible_line;
        while i <= last
            invariant
                last < usize::MAX,
                first_visible_line <= i,
                i <= last + 1 || i == first_visible_line,
                word@.len() > 0,
                t == self.buffer.text(),
                occurrences_in_rows(t, word@, row, col, first_visible_line as int, last as int)
                    == out@ + occurrences_in_rows(t, word@, row, col, i as int, last as int),
            decreases last + 1 - i,
        {
            let chars = self.buffer.line_vec(i);
            let ghost before = out@;
            scan_line(&chars, &word, i, row, col, &mut out);
            proof {
                assert(before + occurrences_in_rows(t, word@, row, col, i as int, last as int) =~= out@ + occurrences_in_rows(t, word@, row, col, i + 1, last as int));
            }
            i += 1;
        }
        proof {
            assert(out@ =~= out@ + occurrences_in_rows(t, word@, row, col, i as int, last as int));
        }
        self.word_occurrences = out;
    }

    /// Replaces every occurrence of the find query (ignoring case) with the
    /// replacement, row by row over the rows the text had at the start: each
    /// occurrence on a row once, left to right (see `rows_replaced`). Then the
    /// matches are recomputed.
    pub fn replace_all_matches(&mut self)
        ensures
            old(self).find_query@.len() == 0 ==> *final(self) == *old(self),
            old(self).find_query@.len() > 0 ==> {
                let q = old(self).find_query@;
                let t2 = rows_replaced(old(self).buffer.text(), q, old(self).replace_query@, 0, line_count(old(self).buffer.text()));
                &&& final(self).buffer.text() == t2
                &&& final(self).buffer@.history == old(self).buffer@.history
                &&& final(self).buffer@.future == old(self).buffer@.future
                &&& final(self).is_modified
                &&& final(self).content_version == old(self).content_version.wrapping_add(1)
                &&& (final(self).find_matches@, final(self).find_current, final(self).cursor, final(self).scroll_to_cursor)
                    == refreshed_search(t2, q, old(self).find_case_sensitive, old(self).find_use_regex, old(self).find_current, old(self).cursor, old(self).scroll_to_cursor)
            },
    {
        let q = str_chars(self.find_query.as_str());
        if q.len() == 0 {
            return;
        }
        let rep = str_chars(self.replace_query.as_str());
        replace_all_in(&mut self.buffer, &q, &rep);
        self.is_modified = true;
        self.content_version = self.content_version.wrapping_add(1);
        self.update_find_matches();
    }
}

/// Replaces every occurrence on every row, in turn (`rows_replaced`).
fn replace_all_in(buf: &mut Buffer, q: &Vec<char>, rep: &Vec<char>)
    requires
        q.len() > 0,
    ensures
        final(buf).text() == rows_replaced(old(buf).text(), q@, rep@, 0, line_count(old(buf).text())),
        final(buf)@.history == old(buf)@.history,
        final(buf)@.future == old(buf)@.future,
{
    let ghost t0 = buf.text();
    let total = buf.num_lines();
    let mut row: usize = 0;
    while row < total
        invariant
            q.len() > 0,
            row <= total,
            total == line_count(t0),
            rows_replaced(t0, q@, rep@, 0, total as nat) == rows_replaced(buf.text(), q@, rep@, row as nat, total as nat),
            buf@.history == old(buf)@.history,
            buf@.future == old(buf)@.future,
        decreases total - row,
    {
        let line = buf.line_vec(row);
        let l2 = line_all_replaced_exec(&line, q, rep);
        if !chars_eq(&l2, &line) {
            let s2 = chars_string(&l2);
            buf.replace_line(row, s2.as_str());
        }
        row += 1;
    }
}

/// The word to highlight (`highlight_word`).
fn compute_highlight_word(buf: &Buffer, c: &Cursor) -> (w: Vec<char>)
    ensures
        w@ == highlight_word(buf.text(), *c),
{
    if let Some(((sr, sc), (er, ec))) = c.selection_range() {
        if sr == er && ec > sc {
            let line = buf.line_vec(sr);
            if sc < line.len() {
                let e = if ec < line.len() {
                    ec
                } else {
                    line.len()
                };
                let sel = slice_chars(&line, sc, e);
                let mut all_word = true;
                let mut k: usize = 0;
                while k < sel.len()
                    invariant
                        k <= sel.len(),
                        all_word == forall|j: int| 0 <= j < k ==> is_word_char(#[trigger] sel@[j]),
                    decreases sel.len() - k,
                {
                    if !is_word_char_exec(sel[k]) {
                        all_word = false;
                    }
                    k += 1;
                }
                proof {
                    assert(sel@.take(sel@.len() as int) =~= sel@);
                }
                if byte_offset(&sel, sel.len()) >= 3 && all_word {
                    return sel;
                }
                return Vec::new();
            }
            proof {
                assert(utf8_len(seq![]) == 0);
            }
            return Vec::new();
        }
    }
    Vec::new()
}

} // verus!