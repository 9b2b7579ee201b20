//! Indentation style detection.
use vstd::prelude::*;

use crate::text::{leading, leading_exec, lines, seqs_of, split_lines, str_chars};

verus! {

/// A line indented with a tab.
pub open spec fn is_tab_line(l: Seq<char>) -> bool {
    l.len() > 0 && l[0] == '\t'
}

/// A line indented with (at least two) spaces.
pub open spec fn is_space_line(l: Seq<char>) -> bool {
    !is_tab_line(l) && l.len() >= 2 && l[0] == ' ' && l[1] == ' '
}

/// Number of tab-indented lines.
pub open spec fn count_tab_lines(ls: Seq<Seq<char>>) -> nat
    decreases ls.len(),
{
    if ls.len() == 0 {
        0
    } else {
        count_tab_lines(ls.drop_last()) + if is_tab_line(ls.last()) { 1nat } else { 0nat }
    }
}

/// Number of space-indented lines.
pub open spec fn count_space_lines(ls: Seq<Seq<char>>) -> nat
    decreases ls.len(),
{
    if ls.len() == 0 {
        0
    } else {
        count_space_lines(ls.drop_last()) + if is_space_line(ls.last()) { 1nat } else { 0nat }
    }
}

/// Some space-indented line starts with exactly `n` spaces.
pub open spec fn has_space_indent(ls: Seq<Seq<char>>, n: nat) -> bool {
    exists|i: int| 0 <= i < ls.len() && is_space_line(ls[i]) && leading(ls[i], ' ') == n
}

/// The lines looked at: the first 200.
pub open spec fn indent_sample(content: Seq<char>) -> Seq<Seq<char>> {
    let ls = lines(content);
    if ls.len() > 200 {
        ls.take(200)
    } else {
        ls
    }
}

/// `(use_spaces, indent_size)`: spaces unless tab-indented lines outnumber
/// space-indented ones; the size is the first of 2, 4, 3, 8 that some
/// space-indented line uses, else 4 (always 4 for tabs).
pub open spec fn detected_indent(content: Seq<char>) -> (bool, usize) {
    let ls = indent_sample(content);
    let use_spaces = count_space_lines(ls) >= count_tab_lines(ls);
    let size: usize = if !use_spaces {
        4
    } else if has_space_indent(ls, 2) {
        2
    } else if has_space_indent(ls, 4) {
        4
    } else if has_space_indent(ls, 3) {
        3
    } else if has_space_indent(ls, 8) {
        8
    } else {
        4
    };
    (use_spaces, size)
}

/// A line starts with exactly `n` spaces.
pub open spec fn starts_with_spaces(l: Seq<char>, n: int) -> bool {
    &&& n <= l.len()
    &&& forall|k: int| 0 <= k < n ==> l[k] == ' '
    &&& n == l.len() || l[n] != ' '
}

/// When space-indented lines are not outnumbered by tab-indented ones and
/// one of the first two hundred lines starts with exactly two spaces, the
/// indent detected is two spaces, whatever other widths appear.
pub proof fn lemma_two_space_indent_wins(content: Seq<char>, i: int)
    requires
        count_space_lines(indent_sample(content)) >= count_tab_lines(indent_sample(content)),
        0 <= i < 200,
        i < lines(content).len(),
        starts_with_spaces(lines(content)[i], 2),
    ensures
        detected_indent(content) == (true, 2usize),
{
    let ls = indent_sample(content);
    let l = lines(content)[i];
    assert(ls[i] == l);
    crate::text::lemma_leading(l, ' ', 2);
    assert(is_space_line(ls[i]) && leading(ls[i], ' ') == 2);
    assert(has_space_indent(ls, 2));
}

/// When tab-indented lines outnumber space-indented ones, tabs are detected,
/// with the width 4.
pub proof fn lemma_tab_indent_wins(content: Seq<char>)
    requires
        count_tab_lines(indent_sample(content)) > count_space_lines(indent_sample(content)),
    ensures
        detected_indent(content) == (false, 4usize),
{
}

/// When space-indented lines are not outnumbered, none of the first two
/// hundred lines starts with exactly two spaces, and one starts with exactly
/// four, the indent detected is four spaces.
pub proof fn lemma_four_space_indent(content: Seq<char>, i: int)
    requires
        count_space_lines(indent_sample(content)) >= count_tab_lines(indent_sample(content)),
        forall|j: int| 0 <= j < 200 && j < lines(content).len() ==> !starts_with_spaces(#[trigger] lines(content)[j], 2),
        0 <= i < 200,
        i < lines(content).len(),
        starts_with_spaces(lines(content)[i], 4),
    ensures
        detected_indent(content) == (true, 4usize),
{
    let ls = indent_sample(content);
    let l = lines(content)[i];
    assert(ls[i] == l);
    crate::text::lemma_leading(l, ' ', 4);
    assert(is_space_line(ls[i]) && leading(ls[i], ' ') == 4);
    assert(has_space_indent(ls, 4));
    assert(!has_space_indent(ls, 2)) by {
        if has_space_indent(ls, 2) {
            let j = choose|j: int| 0 <= j < ls.len() && is_space_line(ls[j]) && leading(ls[j], ' ') == 2;
            let m = ls[j];
            assert(m == lines(content)[j]);
            assert(m.drop_first().drop_first() =~= m.subrange(2, m.len() as int));
            assert(leading(m.drop_first(), ' ') == 1);
            assert(leading(m.drop_first().drop_first(), ' ') == 0);
            assert(starts_with_spaces(m, 2)) by {
                if m.len() > 2 {
                    assert(m.drop_first().drop_first()[0] == m[2]);
                }
            }
        }
    }
}

/// Detect whether a file uses spaces or tabs and the indent unit size.
/// Returns `(use_spaces, indent_size)`.
pub fn detect_indent(content: &str) -> (r: (bool, usize))
    ensures
        r == detected_indent(content@),
{
    let chars = str_chars(content);
    let all = split_lines(&chars);
    let n = if all.len() > 200 {
        200
    } else {
        all.len()
    };
    let ghost ls = indent_sample(content@);
    proof {
        assert(ls =~= seqs_of(all@).take(n as int));
    }
    let mut space_lines: usize = 0;
    let mut tab_lines: usize = 0;
    let mut has2 = false;
    let mut has3 = false;
    let mut has4 = false;
    let mut has8 = false;
    let mut i: usize = 0;
    while i < n
        invariant
            n <= all.len(),
            i <= n,
            ls == seqs_of(all@).take(n as int),
            space_lines == count_space_lines(ls.take(i as int)),
            tab_lines == count_tab_lines(ls.take(i as int)),
            space_lines <= i,
            tab_lines <= i,
            has2 == has_space_indent(ls.take(i as int), 2),
            has3 == has_space_indent(ls.take(i as int), 3),
            has4 == has_space_indent(ls.take(i as int), 4),
            has8 == has_space_indent(ls.take(i as int), 8),
        decreases n - i,
    {
        let line = &all[i];
        let ghost prev = ls.take(i as int);
        let ghost cur = ls.take(i + 1);
        proof {
            assert(cur.drop_last() =~= prev);
            assert(cur.last() == line@);
        }
        let is_tab = line.len() > 0 && line[0] == '\t';
        let is_space = !is_tab && line.len() >= 2 && line[0] == ' ' && line[1] == ' ';
        if is_tab {
            tab_lines += 1;
        } else if is_space {
            space_lines += 1;
            let k = leading_exec(line, ' ');
            if k == 2 {
                has2 = true;
            } else if k == 3 {
                has3 = true;
            } else if k == 4 {
                has4 = true;
            } else if k == 8 {
                has8 = true;
            }
        }
        proof {
            assert forall|m: nat| #![trigger has_space_indent(cur, m)] has_space_indent(cur, m) <==> (has_space_indent(prev, m) || (is_space_line(line@) && leading(line@, ' ') == m)) by {
                if has_space_indent(cur, m) {
                    let j = choose|j: int| 0 <= j < cur.len() && is_space_line(cur[j]) && leading(cur[j], ' ') == m;
                    if j < i {
                        assert(cur[j] == prev[j]);
                    }
                }
                if has_space_indent(prev, m) {
                    let j = choose|j: int| 0 <= j < prev.len() && is_space_line(prev[j]) && leading(prev[j], ' ') == m;
                    assert(cur[j] == prev[j]);
                }
                if is_space_line(line@) && leading(line@, ' ') == m {
                    assert(cur[i as int] == line@);
                }
            }
        }
        i += 1;
    }
    proof {
        assert(ls.take(n as int) =~= ls);
    }
    let use_spaces = space_lines >= tab_lines;
    let size: usize = if !use_spaces {
        4
    } else if has2 {
        2
    } else if has4 {
        4
    } else if has3 {
        3
    } else if has8 {
        8
    } else {
        4
    };
    (use_spaces, size)
}

} // verus!
