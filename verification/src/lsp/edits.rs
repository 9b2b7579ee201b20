//! Applying the text edits a rename brings to a file's text, and picking the
//! diagnostics a code-action request reports.
use vstd::prelude::*;

use super::client::Diagnostic;
use crate::text::{append_chars, chars_string, join_lines, join_nl, lines, seqs_of, slice_chars, split_lines, str_chars, texts};

verus! {

/// An edit on one line: line, start column, end column, new text.
pub type LineEdit = (u32, u32, u32, String);

/// An edit as plain values.
pub open spec fn line_edit_view(e: LineEdit) -> (u32, u32, u32, Seq<char>) {
    (e.0, e.1, e.2, e.3@)
}

/// Edit `a` goes before edit `b` when edits run from the end of the text
/// back: by line, then start column, both descending.
pub open spec fn runs_before(a: (u32, u32, u32, Seq<char>), b: (u32, u32, u32, Seq<char>)) -> bool {
    a.0 > b.0 || (a.0 == b.0 && a.1 >= b.1)
}

/// `e` placed into the ordered list `s` after every edit that does not come
/// after it, so that edits with equal positions keep their order.
pub open spec fn insert_ordered(s: Seq<(u32, u32, u32, Seq<char>)>, e: (u32, u32, u32, Seq<char>)) -> Seq<
    (u32, u32, u32, Seq<char>),
>
    decreases s.len(),
{
    if s.len() == 0 {
        seq![e]
    } else if runs_before(s[0], e) {
        seq![s[0]] + insert_ordered(s.drop_first(), e)
    } else {
        seq![e] + s
    }
}

/// The edits in the order they are applied: from the last position back,
/// equal positions in their given order.
pub open spec fn back_to_front(es: Seq<(u32, u32, u32, Seq<char>)>) -> Seq<(u32, u32, u32, Seq<char>)>
    decreases es.len(),
{
    if es.len() == 0 {
        seq![]
    } else {
        insert_ordered(back_to_front(es.drop_last()), es.last())
    }
}

/// `line` with columns `start..end` (each kept within the line) replaced
/// by `t`.
pub open spec fn edited_line(line: Seq<char>, start: int, end: int, t: Seq<char>) -> Seq<char> {
    let a = if start < line.len() { start } else { line.len() as int };
    let b = if end < line.len() { end } else { line.len() as int };
    line.take(a) + t + line.skip(b)
}

/// The lines after one edit; an edit past the last line changes nothing.
pub open spec fn apply_edit(ls: Seq<Seq<char>>, e: (u32, u32, u32, Seq<char>)) -> Seq<Seq<char>> {
    if (e.0 as int) < ls.len() {
        ls.update(e.0 as int, edited_line(ls[e.0 as int], e.1 as int, e.2 as int, e.3))
    } else {
        ls
    }
}

/// The lines after the edits, applied in order.
pub open spec fn apply_edits(ls: Seq<Seq<char>>, es: Seq<(u32, u32, u32, Seq<char>)>) -> Seq<Seq<char>>
    decreases es.len(),
{
    if es.len() == 0 {
        ls
    } else {
        apply_edit(apply_edits(ls, es.drop_last()), es.last())
    }
}

/// The text after a rename's edits: its lines edited from the last edit
/// back, joined with newlines.
pub open spec fn renamed_text(content: Seq<char>, es: Seq<(u32, u32, u32, Seq<char>)>) -> Seq<char> {
    join_nl(apply_edits(lines(content), back_to_front(es)))
}

fn runs_before_exec(a: &(u32, u32, u32, Vec<char>), b: &(u32, u32, u32, Vec<char>)) -> (r: bool)
    ensures
        r == runs_before((a.0, a.1, a.2, a.3@), (b.0, b.1, b.2, b.3@)),
{
    a.0 > b.0 || (a.0 == b.0 && a.1 >= b.1)
}

/// The edits as plain values.
pub open spec fn char_edits_view(v: Seq<(u32, u32, u32, Vec<char>)>) -> Seq<(u32, u32, u32, Seq<char>)> {
    v.map_values(|e: (u32, u32, u32, Vec<char>)| (e.0, e.1, e.2, e.3@))
}

fn insert_ordered_exec(s: &mut Vec<(u32, u32, u32, Vec<char>)>, e: (u32, u32, u32, Vec<char>))
    ensures
        char_edits_view(final(s)@) == insert_ordered(char_edits_view(old(s)@), (e.0, e.1, e.2, e.3@)),
{
    let ghost ev = (e.0, e.1, e.2, e.3@);
    let ghost whole = char_edits_view(s@);
    let mut p: usize = 0;
    proof {
        assert(whole.skip(0) =~= whole);
        assert(whole.take(0) + insert_ordered(whole.skip(0), ev) =~= insert_ordered(whole, ev));
    }
    while p < s.len() && runs_before_exec(&s[p], &e)
        invariant
            p <= s@.len(),
            whole == char_edits_view(s@),
            s@ == old(s)@,
            ev == (e.0, e.1, e.2, e.3@),
            whole.take(p as int) + insert_ordered(whole.skip(p as int), ev) == insert_ordered(whole, ev),
        decreases s.len() - p,
    {
        proof {
            let rest = whole.skip(p as int);
            assert(rest[0] == whole[p as int]);
            assert(rest.drop_first() =~= whole.skip(p + 1));
            assert(whole.take(p + 1) =~= whole.take(p as int).push(whole[p as int]));
            assert(whole.take(p + 1) + insert_ordered(whole.skip(p + 1), ev) =~= whole.take(p as int) + (seq![
                whole[p as int],
            ] + insert_ordered(whole.skip(p + 1), ev)));
        }
        p += 1;
    }
    proof {
        let rest = whole.skip(p as int);
        assert(insert_ordered(rest, ev) =~= seq![ev] + rest);
    }
    s.insert(p, e);
    proof {
        assert(char_edits_view(s@) =~= whole.take(p as int) + (seq![ev] + whole.skip(p as int)));
    }
}

fn edited_line_exec(line: &Vec<char>, start: u32, end: u32, t: &Vec<char>) -> (r: Vec<char>)
    ensures
        r@ == edited_line(line@, start as int, end as int, t@),
{
    let n = line.len();
    let a: usize = if (start as usize) < n {
        start as usize
    } else {
        n
    };
    let b: usize = if (end as usize) < n {
        end as usize
    } else {
        n
    };
    let mut r = slice_chars(line, 0, a);
    append_chars(&mut r, t);
    append_chars(&mut r, &slice_chars(line, b, n));
    proof {
        assert(line@.subrange(0, a as int) =~= line@.take(a as int));
        assert(line@.subrange(b as int, n as int) =~= line@.skip(b as int));
    }
    r
}

/// The text of a file after the edits a rename brings to it: edits run from
/// the last position back, each replacing its columns (kept within the
/// line) on its line; the lines are joined with newlines.
pub fn apply_line_edits(content: &str, edits: &Vec<LineEdit>) -> (r: String)
    ensures
        r@ == renamed_text(content@, edits@.map_values(|e: LineEdit| line_edit_view(e))),
{
    let ghost ev = edits@.map_values(|e: LineEdit| line_edit_view(e));
    let mut order: Vec<(u32, u32, u32, Vec<char>)> = Vec::new();
    let mut i: usize = 0;
    while i < edits.len()
        invariant
            i <= edits@.len(),
            ev == edits@.map_values(|e: LineEdit| line_edit_view(e)),
            char_edits_view(order@) == back_to_front(ev.take(i as int)),
        decreases edits.len() - i,
    {
        proof {
            assert(ev.take(i + 1).drop_last() =~= ev.take(i as int));
            assert(ev.take(i + 1).last() == line_edit_view(edits@[i as int]));
        }
        let e = &edits[i];
        insert_ordered_exec(&mut order, (e.0, e.1, e.2, str_chars(e.3.as_str())));
        i += 1;
    }
    proof {
        assert(ev.take(ev.len() as int) =~= ev);
    }
    let mut ls = split_lines(&str_chars(content));
    let ghost start_lines = seqs_of(ls@);
    let mut k: usize = 0;
    proof {
        assert(char_edits_view(order@).take(0) =~= seq![]);
    }
    while k < order.len()
        invariant
            k <= order@.len(),
            start_lines == lines(content@),
            seqs_of(ls@) == apply_edits(start_lines, char_edits_view(order@).take(k as int)),
        decreases order.len() - k,
    {
        proof {
            let ov = char_edits_view(order@);
            assert(ov.take(k + 1).drop_last() =~= ov.take(k as int));
            assert(ov.take(k + 1).last() == ov[k as int]);
        }
        let line_no = order[k].0 as usize;
        if line_no < ls.len() {
            let ghost before = ls@;
            let new_line = edited_line_exec(&ls[line_no], order[k].1, order[k].2, &order[k].3);
            ls.set(line_no, new_line);
            proof {
                assert(seqs_of(ls@) =~= seqs_of(before).update(line_no as int, new_line@));
            }
        }
        k += 1;
    }
    proof {
        assert(char_edits_view(order@).take(order@.len() as int) =~= char_edits_view(order@));
    }
    chars_string(&join_lines(&ls))
}

/// The messages of the diagnostics on line `row`, in order.
pub open spec fn messages_on(diags: Seq<Diagnostic>, row: usize) -> Seq<Seq<char>>
    decreases diags.len(),
{
    if diags.len() == 0 {
        seq![]
    } else {
        let rest = messages_on(diags.drop_last(), row);
        if diags.last().line as int == row as int {
            rest.push(diags.last().message@)
        } else {
            rest
        }
    }
}

/// The messages of the diagnostics on line `row` (a code-action request
/// sends them along).
pub fn messages_on_line(diags: &Vec<Diagnostic>, row: usize) -> (r: Vec<String>)
    ensures
        texts(r@) == messages_on(diags@, row),
{
    let mut r: Vec<String> = Vec::new();
    let mut i: usize = 0;
    while i < diags.len()
        invariant
            i <= diags@.len(),
            texts(r@) == messages_on(diags@.take(i as int), row),
        decreases diags.len() - i,
    {
        proof {
            assert(diags@.take(i + 1).drop_last() =~= diags@.take(i as int));
            assert(diags@.take(i + 1).last() == diags@[i as int]);
        }
        if diags[i].line as usize == row {
            let ghost before = r@;
            let m = crate::text::copy_string(&diags[i].message);
            r.push(m);
            proof {
                assert(texts(r@) =~= texts(before).push(m@));
            }
        }
        i += 1;
    }
    proof {
        assert(diags@.take(diags@.len() as int) =~= diags@);
    }
    r
}

/// Each edit of `s` runs before the next.
pub open spec fn ordered_back_to_front(s: Seq<(u32, u32, u32, Seq<char>)>) -> bool {
    forall|i: int| 0 <= i < s.len() - 1 ==> #[trigger] runs_before(s[i], s[i + 1])
}

proof fn lemma_insert_ordered(s: Seq<(u32, u32, u32, Seq<char>)>, e: (u32, u32, u32, Seq<char>))
    requires
        ordered_back_to_front(s),
    ensures
        ordered_back_to_front(insert_ordered(s, e)),
        insert_ordered(s, e).len() == s.len() + 1,
        insert_ordered(s, e)[0] == e || (s.len() > 0 && insert_ordered(s, e)[0] == s[0]),
    decreases s.len(),
{
    if s.len() == 0 {
    } else if runs_before(s[0], e) {
        let rest = s.drop_first();
        assert forall|i: int| 0 <= i < rest.len() - 1 implies #[trigger] runs_before(rest[i], rest[i + 1]) by {
            assert(runs_before(s[i + 1], s[i + 1 + 1]));
        }
        lemma_insert_ordered(rest, e);
        let r = insert_ordered(s, e);
        let t = insert_ordered(rest, e);
        assert(r =~= seq![s[0]] + t);
        assert forall|i: int| 0 <= i < r.len() - 1 implies #[trigger] runs_before(r[i], r[i + 1]) by {
            if i == 0 {
                if t[0] != e {
                    assert(runs_before(s[0], s[1]));
                }
            } else {
                assert(r[i] == t[i - 1] && r[i + 1] == t[i]);
                assert(runs_before(t[i - 1], t[i - 1 + 1]));
            }
        }
    } else {
        let r = insert_ordered(s, e);
        assert(r =~= seq![e] + s);
        assert forall|i: int| 0 <= i < r.len() - 1 implies #[trigger] runs_before(r[i], r[i + 1]) by {
            if i > 0 {
                assert(runs_before(s[i - 1], s[i - 1 + 1]));
            }
        }
    }
}

/// Rename edits are applied from the end of the text back: by line, then
/// start column, both descending, so an edit never shifts a later one.
pub proof fn lemma_back_to_front_ordered(es: Seq<(u32, u32, u32, Seq<char>)>)
    ensures
        ordered_back_to_front(back_to_front(es)),
        back_to_front(es).len() == es.len(),
    decreases es.len(),
{
    if es.len() > 0 {
        lemma_back_to_front_ordered(es.drop_last());
        lemma_insert_ordered(back_to_front(es.drop_last()), es.last());
    }
}

} // verus!
