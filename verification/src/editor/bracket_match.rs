//! Matching bracket search across lines.
use vstd::prelude::*;

use super::buffer::{lemma_line_start, lemma_line_text_fits, line_count, line_len, line_start, line_text, Buffer};

verus! {

/// Opening brackets.
pub open spec fn is_open_bracket(c: char) -> bool {
    c == '{' || c == '(' || c == '['
}

/// Closing brackets.
pub open spec fn is_close_bracket(c: char) -> bool {
    c == '}' || c == ')' || c == ']'
}

/// The closing partner of an opening bracket.
pub open spec fn close_of(c: char) -> char {
    if c == '{' {
        '}'
    } else if c == '(' {
        ')'
    } else {
        ']'
    }
}

/// The opening partner of a closing bracket.
pub open spec fn open_of(c: char) -> char {
    if c == '}' {
        '{'
    } else if c == ')' {
        '('
    } else {
        '['
    }
}

/// Scanning forward from `(r, c)` at nesting `depth`: where the bracket that
/// opened the scan is closed.
pub open spec fn fwd_scan(t: Seq<char>, open: char, close: char, r: int, c: int, depth: nat) -> Option<(int, int)>
    decreases line_count(t) - r, line_len(t, r) - c,
{
    if r < 0 || r >= line_count(t) || c < 0 {
        None
    } else if c < line_len(t, r) {
        let ch = line_text(t, r)[c];
        if ch == open {
            fwd_scan(t, open, close, r, c + 1, depth + 1)
        } else if ch == close {
            if depth <= 1 {
                Some((r, c))
            } else {
                fwd_scan(t, open, close, r, c + 1, (depth - 1) as nat)
            }
        } else {
            fwd_scan(t, open, close, r, c + 1, depth)
        }
    } else {
        fwd_scan(t, open, close, r + 1, 0, depth)
    }
}

/// Scanning backward over the first `c` characters of line `r`, then over the
/// earlier lines, at nesting `depth`: where the bracket that closed the scan is opened.
pub open spec fn bwd_scan(t: Seq<char>, open: char, close: char, r: int, c: int, depth: nat) -> Option<(int, int)>
    decreases r, c,
{
    if r < 0 || c < 0 {
        None
    } else if c > 0 {
        let ch = line_text(t, r)[c - 1];
        if ch == close {
            bwd_scan(t, open, close, r, c - 1, depth + 1)
        } else if ch == open {
            if depth <= 1 {
                Some((r, c - 1))
            } else {
                bwd_scan(t, open, close, r, c - 1, (depth - 1) as nat)
            }
        } else {
            bwd_scan(t, open, close, r, c - 1, depth)
        }
    } else if r == 0 {
        None
    } else {
        bwd_scan(t, open, close, r - 1, line_len(t, r - 1) as int, depth)
    }
}

/// The bracket pair for the bracket at `(row, cc)`, as `(open_row, open_col, close_row, close_col)`.
pub open spec fn bracket_at(t: Seq<char>, row: int, cc: int) -> Option<(int, int, int, int)> {
    let line = line_text(t, row);
    if cc < 0 || cc >= line.len() {
        None
    } else {
        let ch = line[cc];
        if is_open_bracket(ch) {
            match fwd_scan(t, ch, close_of(ch), row, cc + 1, 1) {
                Some((r, c)) => Some((row, cc, r, c)),
                None => None,
            }
        } else if is_close_bracket(ch) {
            match bwd_scan(t, open_of(ch), ch, row, cc, 1) {
                Some((r, c)) => Some((r, c, row, cc)),
                None => None,
            }
        } else {
            None
        }
    }
}

/// The pair for the bracket under the cursor, or else for the one just before it.
pub open spec fn matching_bracket(t: Seq<char>, row: int, col: int) -> Option<(int, int, int, int)> {
    match bracket_at(t, row, col) {
        Some(p) => Some(p),
        None => bracket_at(t, row, if col >= 1 { col - 1 } else { usize::MAX as int }),
    }
}

fn scan_forward(buffer: &Buffer, open: char, close: char, row: usize, start: usize) -> (res: Option<(usize, usize)>)
    requires
        row < line_count(buffer.text()),
        start <= line_len(buffer.text(), row as int),
        buffer.text().len() < usize::MAX,
    ensures
        match res {
            Some(p) => fwd_scan(buffer.text(), open, close, row as int, start as int, 1) == Some((p.0 as int, p.1 as int)),
            None => fwd_scan(buffer.text(), open, close, row as int, start as int, 1) is None,
        },
{
    let ghost t = buffer.text();
    let total = buffer.num_lines();
    let mut depth: usize = 1;
    let mut r = row;
    let mut c = start;
    proof {
        lemma_line_text_fits(t, r as int);
        lemma_line_start(t, r as int, r as int);
    }
    loop
        invariant
            t == buffer.text(),
            t.len() < usize::MAX,
            total == line_count(t),
            r < total,
            c <= line_len(t, r as int),
            depth >= 1,
            depth <= line_start(t, r as int) + c + 1,
            line_start(t, r as int) + line_len(t, r as int) <= t.len(),
            fwd_scan(t, open, close, row as int, start as int, 1) == fwd_scan(t, open, close, r as int, c as int, depth as nat),
        decreases total - r,
    {
        let line = buffer.line_vec(r);
        while c < line.len()
            invariant
                t == buffer.text(),
                t.len() < usize::MAX,
                line@ == line_text(t, r as int),
                r < total,
                total == line_count(t),
                c <= line.len(),
                depth >= 1,
                depth <= line_start(t, r as int) + c + 1,
                line_start(t, r as int) + line_len(t, r as int) <= t.len(),
                fwd_scan(t, open, close, row as int, start as int, 1) == fwd_scan(t, open, close, r as int, c as int, depth as nat),
            decreases line.len() - c,
        {
            if line[c] == open {
                depth += 1;
            } else if line[c] == close {
                if depth <= 1 {
                    return Some((r, c));
                }
                depth -= 1;
            }
            c += 1;
        }
        proof {
            lemma_line_text_fits(t, r as int);
        }
        if r + 1 >= total {
            proof {
                assert(fwd_scan(t, open, close, r + 1, 0, depth as nat) is None);
            }
            return None;
        }
        r += 1;
        c = 0;
        proof {
            lemma_line_text_fits(t, r as int);
        }
    }
}

fn scan_backward(buffer: &Buffer, open: char, close: char, row: usize, start: usize) -> (res: Option<(usize, usize)>)
    requires
        row < line_count(buffer.text()),
        start <= line_len(buffer.text(), row as int),
        buffer.text().len() < usize::MAX,
    ensures
        match res {
            Some(p) => bwd_scan(buffer.text(), open, close, row as int, start as int, 1) == Some((p.0 as int, p.1 as int)),
            None => bwd_scan(buffer.text(), open, close, row as int, start as int, 1) is None,
        },
{
    let ghost t = buffer.text();
    let mut depth: usize = 1;
    let mut r = row;
    let mut c = start;
    proof {
        lemma_line_text_fits(t, row as int);
        lemma_line_start(t, r as int, r as int);
    }
    loop
        invariant
            t == buffer.text(),
            t.len() < usize::MAX,
            r <= row < line_count(t),
            c <= line_len(t, r as int),
            depth >= 1,
            depth + line_start(t, r as int) + c <= line_start(t, row as int) + start + 1,
            line_start(t, row as int) + start <= t.len(),
            0 <= line_start(t, r as int),
            bwd_scan(t, open, close, row as int, start as int, 1) == bwd_scan(t, open, close, r as int, c as int, depth as nat),
        decreases r,
    {
        let line = buffer.line_vec(r);
        while c > 0
            invariant
                t == buffer.text(),
                t.len() < usize::MAX,
                line@ == line_text(t, r as int),
                r <= row < line_count(t),
                c <= line.len(),
                depth >= 1,
                depth + line_start(t, r as int) + c <= line_start(t, row as int) + start + 1,
                line_start(t, row as int) + start <= t.len(),
                0 <= line_start(t, r as int),
                bwd_scan(t, open, close, row as int, start as int, 1) == bwd_scan(t, open, close, r as int, c as int, depth as nat),
            decreases c,
        {
            if line[c - 1] == close {
                depth += 1;
            } else if line[c - 1] == open {
                if depth <= 1 {
                    return Some((r, c - 1));
                }
                depth -= 1;
            }
            c -= 1;
        }
        if r == 0 {
            return None;
        }
        r -= 1;
        c = buffer.line_len(r);
        proof {
            lemma_line_text_fits(t, r as int);
            lemma_line_start(t, r as int, r as int);
        }
    }
}

fn bracket_at_exec(buffer: &Buffer, row: usize, check_col: usize) -> (res: Option<(usize, usize, usize, usize)>)
    requires
        buffer.text().len() < usize::MAX,
    ensures
        match res {
            Some(p) => bracket_at(buffer.text(), row as int, check_col as int) == Some((p.0 as int, p.1 as int, p.2 as int, p.3 as int)),
            None => bracket_at(buffer.text(), row as int, check_col as int) is None,
        },
{
    let chars = buffer.line_vec(row);
    if check_col >= chars.len() {
        return None;
    }
    proof {
        if row >= line_count(buffer.text()) {
            assert(chars@.len() == 0);
        }
    }
    let ch = chars[check_col];
    if ch == '{' || ch == '(' || ch == '[' {
        let close = if ch == '{' {
            '}'
        } else if ch == '(' {
            ')'
        } else {
            ']'
        };
        match scan_forward(buffer, ch, close, row, check_col + 1) {
            Some((r, c)) => Some((row, check_col, r, c)),
            None => None,
        }
    } else if ch == '}' || ch == ')' || ch == ']' {
        let open = if ch == '}' {
            '{'
        } else if ch == ')' {
            '('
        } else {
            '['
        };
        match scan_backward(buffer, open, ch, row, check_col) {
            Some((r, c)) => Some((r, c, row, check_col)),
            None => None,
        }
    } else {
        None
    }
}

/// Find the matching bracket for the char at `(row, col)` in the buffer.
/// Returns `(open_row, open_col, close_row, close_col)` or `None`.
pub fn find_matching_bracket(buffer: &Buffer, row: usize, col: usize) -> (res: Option<(usize, usize, usize, usize)>)
    requires
        buffer.text().len() < usize::MAX,
    ensures
        match res {
            Some(p) => matching_bracket(buffer.text(), row as int, col as int) == Some((p.0 as int, p.1 as int, p.2 as int, p.3 as int)),
            None => matching_bracket(buffer.text(), row as int, col as int) is None,
        },
{
    match bracket_at_exec(buffer, row, col) {
        Some(p) => Some(p),
        None => {
            let prev = if col >= 1 {
                col - 1
            } else {
                usize::MAX
            };
            bracket_at_exec(buffer, row, prev)
        },
    }
}

proof fn lemma_fwd_scan(t: Seq<char>, open: char, close: char, r: int, c: int, depth: nat)
    ensures
        fwd_scan(t, open, close, r, c, depth) matches Some((a, b)) ==> {
            &&& (a > r || (a == r && b >= c))
            &&& 0 <= b < line_text(t, a).len()
            &&& line_text(t, a)[b] == close
        },
    decreases line_count(t) - r, line_len(t, r) - c,
{
    if r < 0 || r >= line_count(t) || c < 0 {
    } else if c < line_len(t, r) {
        let ch = line_text(t, r)[c];
        if ch == open {
            lemma_fwd_scan(t, open, close, r, c + 1, depth + 1);
        } else if ch == close {
            if depth > 1 {
                lemma_fwd_scan(t, open, close, r, c + 1, (depth - 1) as nat);
            }
        } else {
            lemma_fwd_scan(t, open, close, r, c + 1, depth);
        }
    } else {
        lemma_fwd_scan(t, open, close, r + 1, 0, depth);
    }
}

proof fn lemma_bwd_scan(t: Seq<char>, open: char, close: char, r: int, c: int, depth: nat)
    requires
        c <= line_text(t, r).len(),
    ensures
        bwd_scan(t, open, close, r, c, depth) matches Some((a, b)) ==> {
            &&& (a < r || (a == r && b < c))
            &&& 0 <= b < line_text(t, a).len()
            &&& line_text(t, a)[b] == open
        },
    decreases r, c,
{
    if r < 0 || c < 0 {
    } else if c > 0 {
        let ch = line_text(t, r)[c - 1];
        if ch == close {
            lemma_bwd_scan(t, open, close, r, c - 1, depth + 1);
        } else if ch == open {
            if depth > 1 {
                lemma_bwd_scan(t, open, close, r, c - 1, (depth - 1) as nat);
            }
        } else {
            lemma_bwd_scan(t, open, close, r, c - 1, depth);
        }
    } else if r == 0 {
    } else {
        lemma_bwd_scan(t, open, close, r - 1, line_len(t, r - 1) as int, depth);
    }
}

/// A bracket pair found from a position is an opening bracket followed,
/// later in the text, by its closing partner, and one of the two stands at
/// that position or just before it.
pub proof fn lemma_matching_bracket_pair(t: Seq<char>, row: int, col: int)
    requires
        t.len() < usize::MAX,
        0 <= col,
    ensures
        matching_bracket(t, row, col) matches Some((or, oc, cr, cc)) ==> {
            &&& 0 <= oc < line_text(t, or).len() && 0 <= cc < line_text(t, cr).len()
            &&& is_open_bracket(line_text(t, or)[oc])
            &&& line_text(t, cr)[cc] == close_of(line_text(t, or)[oc])
            &&& (or < cr || (or == cr && oc < cc))
            &&& ((or, oc) == (row, col) || (cr, cc) == (row, col) || (or, oc) == (row, col - 1) || (cr, cc) == (
                row,
                col - 1,
            ))
        },
{
    lemma_bracket_at_pair(t, row, col);
    lemma_bracket_at_pair(t, row, if col >= 1 { col - 1 } else { usize::MAX as int });
    if col == 0 && row >= 0 {
        lemma_line_text_fits(t, row);
        lemma_line_start(t, row, row);
    }
}

proof fn lemma_bracket_at_pair(t: Seq<char>, row: int, cc: int)
    ensures
        bracket_at(t, row, cc) matches Some((or, oc, cr, c2)) ==> {
            &&& 0 <= oc < line_text(t, or).len() && 0 <= c2 < line_text(t, cr).len()
            &&& is_open_bracket(line_text(t, or)[oc])
            &&& line_text(t, cr)[c2] == close_of(line_text(t, or)[oc])
            &&& (or < cr || (or == cr && oc < c2))
            &&& ((or, oc) == (row, cc) || (cr, c2) == (row, cc))
        },
{
    let line = line_text(t, row);
    if 0 <= cc < line.len() {
        let ch = line[cc];
        if is_open_bracket(ch) {
            lemma_fwd_scan(t, ch, close_of(ch), row, cc + 1, 1);
        } else if is_close_bracket(ch) {
            lemma_bwd_scan(t, open_of(ch), ch, row, cc, 1);
        }
    }
}

/// Scanning backward from where a forward scan stopped comes back to where
/// the forward scan started, at the depth it started with.
proof fn lemma_fwd_then_bwd(t: Seq<char>, open: char, close: char, r: int, c: int, d: nat)
    requires
        open != close,
        d >= 1,
        0 <= r < line_count(t),
        0 <= c <= line_len(t, r),
        fwd_scan(t, open, close, r, c, d) is Some,
    ensures
        ({
            let q = fwd_scan(t, open, close, r, c, d)->0;
            bwd_scan(t, open, close, q.0, q.1, 1) == bwd_scan(t, open, close, r, c, d)
        }),
    decreases line_count(t) - r, line_len(t, r) - c,
{
    if c < line_len(t, r) {
        let ch = line_text(t, r)[c];
        if ch == open {
            lemma_fwd_then_bwd(t, open, close, r, c + 1, d + 1);
        } else if ch == close {
            if d > 1 {
                lemma_fwd_then_bwd(t, open, close, r, c + 1, (d - 1) as nat);
            }
        } else {
            lemma_fwd_then_bwd(t, open, close, r, c + 1, d);
        }
    } else {
        if r + 1 >= line_count(t) {
            assert(fwd_scan(t, open, close, r + 1, 0, d) is None);
        } else {
            lemma_fwd_then_bwd(t, open, close, r + 1, 0, d);
        }
    }
}

/// Scanning forward from just after where a backward scan stopped comes back
/// to where the backward scan started, at the depth it started with.
proof fn lemma_bwd_then_fwd(t: Seq<char>, open: char, close: char, r: int, c: int, d: nat)
    requires
        open != close,
        d >= 1,
        0 <= r < line_count(t),
        0 <= c <= line_len(t, r),
        bwd_scan(t, open, close, r, c, d) is Some,
    ensures
        ({
            let p = bwd_scan(t, open, close, r, c, d)->0;
            fwd_scan(t, open, close, p.0, p.1 + 1, 1) == fwd_scan(t, open, close, r, c, d)
        }),
    decreases r, c,
{
    if c > 0 {
        let ch = line_text(t, r)[c - 1];
        if ch == close {
            lemma_bwd_then_fwd(t, open, close, r, c - 1, d + 1);
        } else if ch == open {
            if d > 1 {
                lemma_bwd_then_fwd(t, open, close, r, c - 1, (d - 1) as nat);
            }
        } else {
            lemma_bwd_then_fwd(t, open, close, r, c - 1, d);
        }
    } else if r > 0 {
        lemma_bwd_then_fwd(t, open, close, r - 1, line_len(t, r - 1) as int, d);
    }
}

/// The pair found for the bracket at `(row, cc)` is found again from its
/// other end.
proof fn lemma_bracket_at_symmetric(t: Seq<char>, row: int, cc: int)
    ensures
        bracket_at(t, row, cc) matches Some((or, oc, cr, cl)) ==> bracket_at(t, or, oc) == Some((or, oc, cr, cl))
            && bracket_at(t, cr, cl) == Some((or, oc, cr, cl)),
{
    let line = line_text(t, row);
    if 0 <= cc < line.len() {
        assert(0 <= row < line_count(t));
        let ch = line[cc];
        if is_open_bracket(ch) {
            let cl = close_of(ch);
            if fwd_scan(t, ch, cl, row, cc + 1, 1) is Some {
                let q = fwd_scan(t, ch, cl, row, cc + 1, 1)->0;
                lemma_fwd_then_bwd(t, ch, cl, row, cc + 1, 1);
                lemma_fwd_scan(t, ch, cl, row, cc + 1, 1);
                assert(0 <= q.0 < line_count(t));
                assert(is_close_bracket(line_text(t, q.0)[q.1]));
                assert(open_of(cl) == ch);
            }
        } else if is_close_bracket(ch) {
            let op = open_of(ch);
            if bwd_scan(t, op, ch, row, cc, 1) is Some {
                let p = bwd_scan(t, op, ch, row, cc, 1)->0;
                lemma_bwd_then_fwd(t, op, ch, row, cc, 1);
                lemma_bwd_scan(t, op, ch, row, cc, 1);
                assert(0 <= p.0 < line_count(t));
                assert(is_open_bracket(line_text(t, p.0)[p.1]));
                assert(close_of(op) == ch);
            }
        }
    }
}

/// Querying either end of a bracket pair finds the same pair: the pair found
/// from any position is found again from its opening bracket and from its
/// closing bracket.
pub proof fn lemma_matching_bracket_symmetric(t: Seq<char>, row: int, col: int)
    ensures
        matching_bracket(t, row, col) matches Some((or, oc, cr, cc)) ==> matching_bracket(t, or, oc) == Some(
            (or, oc, cr, cc),
        ) && matching_bracket(t, cr, cc) == Some((or, oc, cr, cc)),
{
    lemma_bracket_at_symmetric(t, row, col);
    lemma_bracket_at_symmetric(t, row, if col >= 1 { col - 1 } else { usize::MAX as int });
}

} // verus!
