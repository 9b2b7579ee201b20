//! Indentation-based fold regions.
use vstd::prelude::*;

use super::buffer::{line_count, line_text, Buffer};
use crate::text::{is_blank, is_blank_exec, leading, leading_exec};

verus! {

/// Indent level of a line: leading tabs, or half the leading spaces, whichever
/// is larger; `usize::MAX` for a blank line.
pub open spec fn indent_level(l: Seq<char>) -> usize {
    if is_blank(l) {
        usize::MAX
    } else {
        let t = leading(l, '\t');
        let s = leading(l, ' ') / 2;
        (if t >= s { t } else { s }) as usize
    }
}

/// Indent level of line `i` of `t`.
pub open spec fn indent_at(t: Seq<char>, i: int) -> usize {
    indent_level(line_text(t, i))
}

/// First line at or after `end` that is neither blank nor indented deeper than `cur`
/// (the line count when there is none).
pub open spec fn fold_scan(t: Seq<char>, cur: usize, end: int) -> int
    decreases line_count(t) - end,
{
    if end < line_count(t) && (indent_at(t, end) == usize::MAX || indent_at(t, end) > cur) {
        fold_scan(t, cur, end + 1)
    } else {
        end
    }
}

/// The fold region starting at line `i`: up to the last line before indentation
/// returns to line `i`'s level, when that spans at least two more lines.
pub open spec fn fold_region_at(t: Seq<char>, i: int) -> Option<(usize, usize)> {
    let cur = indent_at(t, i);
    if cur == usize::MAX {
        None
    } else {
        let e = fold_scan(t, cur, i + 1) - 1;
        if e > i + 1 {
            Some((i as usize, e as usize))
        } else {
            None
        }
    }
}

/// The fold regions starting at lines `0..n`, in order.
pub open spec fn fold_regions_upto(t: Seq<char>, n: int) -> Seq<(usize, usize)>
    decreases n,
{
    if n <= 0 {
        seq![]
    } else {
        let p = fold_regions_upto(t, n - 1);
        match fold_region_at(t, n - 1) {
            Some(r) => p.push(r),
            None => p,
        }
    }
}

/// All fold regions: those starting on every line but the last.
pub open spec fn fold_regions(t: Seq<char>) -> Seq<(usize, usize)> {
    fold_regions_upto(t, line_count(t) - 1)
}

proof fn lemma_leading_le(l: Seq<char>, c: char)
    ensures
        leading(l, c) <= l.len(),
    decreases l.len(),
{
    if l.len() > 0 && l[0] == c {
        lemma_leading_le(l.drop_first(), c);
    }
}

proof fn lemma_leading_at_least(l: Seq<char>, c: char, n: int)
    requires
        0 <= n <= l.len(),
        forall|i: int| 0 <= i < n ==> l[i] == c,
    ensures
        leading(l, c) >= n,
    decreases n,
{
    if n > 0 {
        assert forall|i: int| 0 <= i < n - 1 implies l.drop_first()[i] == c by {
            assert(l.drop_first()[i] == l[i + 1]);
        }
        lemma_leading_at_least(l.drop_first(), c, n - 1);
    }
}

/// A non-blank line that starts with `n` tabs is indented at least `n`
/// levels.
pub proof fn lemma_tab_indent_level(l: Seq<char>, n: int)
    requires
        !is_blank(l),
        l.len() <= usize::MAX,
        0 <= n <= l.len(),
        forall|i: int| 0 <= i < n ==> l[i] == '\t',
    ensures
        indent_level(l) >= n,
{
    lemma_leading_at_least(l, '\t', n);
    let t = leading(l, '\t');
    let s = leading(l, ' ') / 2;
    lemma_leading_le(l, '\t');
    lemma_leading_le(l, ' ');
}

/// A non-blank line that starts with neither a tab nor a space is not
/// indented.
pub proof fn lemma_unindented_level(l: Seq<char>)
    requires
        !is_blank(l),
        l[0] != '\t' && l[0] != ' ',
    ensures
        indent_level(l) == 0,
{
}

/// A non-blank line that starts with exactly `n` spaces, then neither a
/// space nor a tab, is indented `n / 2` levels; one that starts with exactly
/// `n` tabs, then neither, is indented `n` levels.
pub proof fn lemma_plain_indent_level(l: Seq<char>, n: int, c: char)
    requires
        !is_blank(l),
        l.len() <= usize::MAX,
        c == ' ' || c == '\t',
        0 <= n < l.len(),
        forall|i: int| 0 <= i < n ==> l[i] == c,
        l[n] != ' ' && l[n] != '\t',
    ensures
        c == ' ' ==> indent_level(l) == n / 2,
        c == '\t' ==> indent_level(l) == n,
{
    crate::text::lemma_leading(l, c, n);
    let other = if c == ' ' { '\t' } else { ' ' };
    if n > 0 {
        crate::text::lemma_leading(l, other, 0);
    } else {
        crate::text::lemma_leading(l, ' ', 0);
        crate::text::lemma_leading(l, '\t', 0);
    }
}

proof fn lemma_scan_over_tab_lines(t: Seq<char>, i: int, e: int, j: int)
    requires
        t.len() <= usize::MAX,
        0 <= i < j <= e + 1,
        e < line_count(t),
        forall|k: int| i < k <= e ==> !is_blank(#[trigger] line_text(t, k)) && line_text(t, k)[0] == '\t',
        e + 1 < line_count(t) ==> indent_at(t, e + 1) == 0,
    ensures
        fold_scan(t, 0, j) == e + 1,
    decreases e + 1 - j,
{
    if j <= e {
        let l = line_text(t, j);
        super::editing::lemma_line_len_le(t, j);
        lemma_tab_indent_level(l, 1);
        lemma_scan_over_tab_lines(t, i, e, j + 1);
    }
}

proof fn lemma_region_listed(t: Seq<char>, i: int, n: int)
    requires
        0 <= i < n,
        fold_region_at(t, i) is Some,
    ensures
        fold_regions_upto(t, n).contains(fold_region_at(t, i)->0),
    decreases n,
{
    if i < n - 1 {
        lemma_region_listed(t, i, n - 1);
        let p = fold_regions_upto(t, n - 1);
        let k = choose|k: int| 0 <= k < p.len() && p[k] == fold_region_at(t, i)->0;
        if let Some(r) = fold_region_at(t, n - 1) {
            assert(p.push(r)[k] == p[k]);
        }
    } else {
        let p = fold_regions_upto(t, n - 1);
        assert(p.push(fold_region_at(t, i)->0)[p.len() as int] == fold_region_at(t, i)->0);
    }
}

/// A line without indentation, followed by two or more lines that each
/// start with a tab, up to a line without indentation or the end of the
/// text, opens a fold region that ends at the last tab-indented line.
pub proof fn lemma_tab_block_folds(t: Seq<char>, i: int, e: int)
    requires
        t.len() <= usize::MAX,
        0 <= i,
        i + 2 <= e < line_count(t),
        !is_blank(line_text(t, i)) && line_text(t, i)[0] != '\t' && line_text(t, i)[0] != ' ',
        forall|k: int| i < k <= e ==> !is_blank(#[trigger] line_text(t, k)) && line_text(t, k)[0] == '\t',
        e + 1 < line_count(t) ==> !is_blank(line_text(t, e + 1)) && line_text(t, e + 1)[0] != '\t' && line_text(
            t,
            e + 1,
        )[0] != ' ',
    ensures
        fold_region_at(t, i) == Some((i as usize, e as usize)),
        fold_regions(t).contains((i as usize, e as usize)),
{
    lemma_unindented_level(line_text(t, i));
    if e + 1 < line_count(t) {
        lemma_unindented_level(line_text(t, e + 1));
    }
    lemma_scan_over_tab_lines(t, i, e, i + 1);
    lemma_region_listed(t, i, line_count(t) - 1);
}

fn indent_exec(buffer: &Buffer, i: usize) -> (r: usize)
    ensures
        r == indent_at(buffer.text(), i as int),
{
    let line = buffer.line_vec(i);
    if is_blank_exec(&line) {
        return usize::MAX;
    }
    let tabs = leading_exec(&line, '\t');
    let spaces = leading_exec(&line, ' ');
    if tabs >= spaces / 2 {
        tabs
    } else {
        spaces / 2
    }
}

/// Compute foldable regions from buffer by indent level.
/// Returns list of `(start_line, end_line)`.
pub fn compute_fold_regions(buffer: &Buffer) -> (regions: Vec<(usize, usize)>)
    ensures
        regions@ == fold_regions(buffer.text()),
{
    let total = buffer.num_lines();
    let ghost t = buffer.text();
    let mut regions: Vec<(usize, usize)> = Vec::new();
    let mut i: usize = 0;
    while i + 1 < total
        invariant
            total == line_count(t),
            t == buffer.text(),
            i + 1 <= total,
            regions@ == fold_regions_upto(t, i as int),
        decreases total - i,
    {
        let cur_ind = indent_exec(buffer, i);
        if cur_ind == usize::MAX {
            i += 1;
            continue;
        }
        let mut end = i + 1;
        while end < total
            invariant
                i + 1 <= end <= total,
                total == line_count(t),
                t == buffer.text(),
                cur_ind == indent_at(t, i as int),
                fold_scan(t, cur_ind, i + 1) == fold_scan(t, cur_ind, end as int),
            ensures
                i + 1 <= end <= total,
                fold_scan(t, cur_ind, i + 1) == end,
            decreases total - end,
        {
            let next_ind = indent_exec(buffer, end);
            if next_ind == usize::MAX || next_ind > cur_ind {
                end += 1;
            } else {
                break;
            }
        }
        end -= 1;
        if end > i + 1 {
            regions.push((i, end));
        }
        i += 1;
    }
    regions
}

} // verus!
