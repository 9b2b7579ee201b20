//! Editing commands bound to keys: new lines above and below, moving a line,
//! adding cursors on neighbouring lines, jumping to line ends, selecting all,
//! deleting and indenting lines.
use vstd::prelude::*;

use super::buffer::{
    lemma_undo_restores_checkpoint, undo_model, checkpoint_model, char_index, delete_line_text, insert_text, line_count, line_len, line_text, min_int, remove_text, Buffer, BufferModel,
};
use super::cursor::selection_of;
use super::multi_cursor::{comment_prefix_for, path_ext};
use super::input::selection_text;
use super::utils::{extend_left, extend_left_exec, find_next_occurrence, lemma_extend_left, lemma_extend_right, next_occurrence, scan_rows};
use super::word_analysis::{clamp_col, word_around};
use super::buffer::{lemma_line_start, lemma_line_text_fits};
use crate::text::{first_match, lemma_first_match, trim, trim_exec};
use crate::extension::registry::{all_digits, digits_value, lemma_digits_prefix};
use super::cursor::placed;
use crate::text::{char_is_whitespace, is_ws, leading, leading_exec, slice_chars, starts_with, starts_with_exec, str_chars, trim_end, trim_end_exec};
use super::cursor::Cursor;
use super::input::bumped;
use super::multi_cursor::{cursor_rows, deduped, increasing, pos, rows_between};
use super::{same_besides_edit, Editor};

verus! {

/// `t` with a line break inserted at `(row, col)` (the index kept within the text).
pub open spec fn split_text(t: Seq<char>, row: int, col: int) -> Seq<char> {
    t.insert(min_int(char_index(t, row, col), t.len() as int), '\n')
}

/// `t` with the text of line `row` replaced by `s`, its line break kept.
pub open spec fn line_replaced(t: Seq<char>, row: int, s: Seq<char>) -> Seq<char> {
    let a = char_index(t, row, 0);
    let b = min_int(char_index(t, row, line_len(t, row) as int), t.len() as int);
    if a <= b {
        insert_text(remove_text(t, a, b), a, s)
    } else {
        t
    }
}

/// `t` with the texts of lines `a` and `b` traded: line `a` takes the text
/// of line `b`, then line `b` the former text of line `a`.
pub open spec fn lines_traded(t: Seq<char>, a: int, b: int) -> Seq<char> {
    line_replaced(line_replaced(t, a, line_text(t, b)), b, line_text(t, a))
}

/// The buffer after a checkpoint and an edit that leaves the text `t`.
pub open spec fn edited_model(m: BufferModel, t: Seq<char>) -> BufferModel {
    BufferModel { text: t, ..checkpoint_model(m) }
}

/// A new cursor at `(row, col)` without a selection.
pub open spec fn fresh_cursor(row: usize, col: usize) -> Cursor {
    Cursor { row, col, desired_col: col, sel_anchor: None }
}

/// The cursor added on the line above `c`'s, at its column kept within
/// that line; none on the first line.
pub open spec fn cursor_above(t: Seq<char>, c: Cursor) -> Seq<Cursor> {
    if c.row > 0 {
        let r = (c.row - 1) as usize;
        seq![fresh_cursor(r, if c.col <= line_len(t, r as int) { c.col } else { line_len(t, r as int) as usize })]
    } else {
        seq![]
    }
}

/// The cursor added on the line below `c`'s; none on the last line.
pub open spec fn cursor_below(t: Seq<char>, c: Cursor) -> Seq<Cursor> {
    if c.row + 1 < line_count(t) {
        let r = (c.row + 1) as usize;
        seq![fresh_cursor(r, if c.col <= line_len(t, r as int) { c.col } else { line_len(t, r as int) as usize })]
    } else {
        seq![]
    }
}

/// The cursors added above each of `cs`, in order.
pub open spec fn cursors_above(t: Seq<char>, cs: Seq<Cursor>) -> Seq<Cursor>
    decreases cs.len(),
{
    if cs.len() == 0 {
        seq![]
    } else {
        cursors_above(t, cs.drop_last()) + cursor_above(t, cs.last())
    }
}

/// The cursors added below each of `cs`, in order.
pub open spec fn cursors_below(t: Seq<char>, cs: Seq<Cursor>) -> Seq<Cursor>
    decreases cs.len(),
{
    if cs.len() == 0 {
        seq![]
    } else {
        cursors_below(t, cs.drop_last()) + cursor_below(t, cs.last())
    }
}

/// Each cursor moved to the start (`to_end` false) or end of its line,
/// without a selection.
pub open spec fn at_line_edge(t: Seq<char>, c: Cursor, to_end: bool) -> Cursor {
    fresh_cursor(c.row, if to_end { line_len(t, c.row as int) as usize } else { 0 })
}

pub open spec fn all_at_line_edge(t: Seq<char>, cs: Seq<Cursor>, to_end: bool) -> Seq<Cursor> {
    cs.map_values(|c: Cursor| at_line_edge(t, c, to_end))
}

fn col_within(col: usize, len: usize) -> (r: usize)
    ensures
        r == (if col <= len { col } else { len }),
{
    if col <= len {
        col
    } else {
        len
    }
}

fn edge_col(buffer: &Buffer, row: usize, to_end: bool) -> (col: usize)
    ensures
        col == (if to_end { line_len(buffer.text(), row as int) as usize } else { 0 }),
{
    if to_end {
        buffer.line_len(row)
    } else {
        0
    }
}

impl Editor {
    /// Opens an empty line above the cursor's line (the cursor follows its
    /// text down to column 0); extra cursors and the selection are dropped.
    pub fn insert_line_above(&mut self)
        ensures
            final(self).buffer@ == edited_model(old(self).buffer@, split_text(old(self).buffer.text(), old(self).cursor.row as int, 0)),
            final(self).cursor == (Cursor { col: 0, sel_anchor: None, ..old(self).cursor }),
            final(self).extra_cursors@.len() == 0,
            final(self).is_modified,
            final(self).content_version == bumped(old(self).content_version, 1),
            same_besides_edit(*final(self), *old(self)),
    {
        let ghost before = *self;
        self.buffer.checkpoint();
        let row = self.cursor.row;
        self.buffer.split_line(row, 0);
        self.cursor.col = 0;
        self.cursor.sel_anchor = None;
        self.extra_cursors = Vec::new();
        self.is_modified = true;
        self.content_version = self.content_version.wrapping_add(1);
        proof {
            reveal_with_fuel(bumped, 2);
            assert(same_besides_edit(*self, before));
        }
    }

    /// Opens an empty line below the cursor's line and moves there.
    pub fn insert_line_below(&mut self)
        requires
            old(self).cursor.row < usize::MAX,
        ensures
            final(self).buffer@ == edited_model(
                old(self).buffer@,
                split_text(
                    old(self).buffer.text(),
                    old(self).cursor.row as int,
                    line_len(old(self).buffer.text(), old(self).cursor.row as int) as int,
                ),
            ),
            final(self).cursor == (Cursor { row: (old(self).cursor.row + 1) as usize, col: 0, sel_anchor: None, ..old(self).cursor }),
            final(self).extra_cursors@.len() == 0,
            final(self).is_modified,
            final(self).content_version == bumped(old(self).content_version, 1),
            same_besides_edit(*final(self), *old(self)),
    {
        let ghost before = *self;
        self.buffer.checkpoint();
        let row = self.cursor.row;
        let len = self.buffer.line_len(row);
        self.buffer.split_line(row, len);
        self.cursor.row = row + 1;
        self.cursor.col = 0;
        self.cursor.sel_anchor = None;
        self.extra_cursors = Vec::new();
        self.is_modified = true;
        self.content_version = self.content_version.wrapping_add(1);
        proof {
            reveal_with_fuel(bumped, 2);
            assert(same_besides_edit(*self, before));
        }
    }

    /// Moves the cursor's line up past the line above it (the cursor goes
    /// along); nothing happens on the first line. Returns whether it moved.
    pub fn move_line_up(&mut self) -> (moved: bool)
        ensures
            moved == (old(self).cursor.row > 0),
            !moved ==> *final(self) == *old(self),
            moved ==> {
                &&& final(self).buffer@ == edited_model(
                    old(self).buffer@,
                    lines_traded(old(self).buffer.text(), old(self).cursor.row as int, old(self).cursor.row - 1),
                )
                &&& final(self).cursor == (Cursor { row: (old(self).cursor.row - 1) as usize, ..old(self).cursor })
                &&& final(self).extra_cursors == old(self).extra_cursors
                &&& final(self).is_modified
                &&& final(self).content_version == bumped(old(self).content_version, 1)
                &&& same_besides_edit(*final(self), *old(self))
            },
    {
        let row = self.cursor.row;
        if row == 0 {
            return false;
        }
        let ghost before = *self;
        self.buffer.checkpoint();
        let ghost t = before.buffer.text();
        let current = self.buffer.line(row);
        let above = self.buffer.line(row - 1);
        self.buffer.replace_line(row, above.as_str());
        assert(self.buffer.text() == line_replaced(t, row as int, line_text(t, row - 1)));
        self.buffer.replace_line(row - 1, current.as_str());
        assert(self.buffer.text() == lines_traded(t, row as int, row - 1));
        assert(self.buffer@ == edited_model(before.buffer@, lines_traded(t, row as int, row - 1)));
        self.cursor.row = row - 1;
        self.is_modified = true;
        self.content_version = self.content_version.wrapping_add(1);
        proof {
            reveal_with_fuel(bumped, 2);
            assert(same_besides_edit(*self, before));
        }
        true
    }

    /// Moves the cursor's line down past the line below it; nothing happens
    /// on the last line. Returns whether it moved.
    pub fn move_line_down(&mut self) -> (moved: bool)
        ensures
            moved == (old(self).cursor.row + 1 < line_count(old(self).buffer.text())),
            !moved ==> *final(self) == *old(self),
            moved ==> {
                &&& final(self).buffer@ == edited_model(
                    old(self).buffer@,
                    lines_traded(old(self).buffer.text(), old(self).cursor.row as int, old(self).cursor.row + 1),
                )
                &&& final(self).cursor == (Cursor { row: (old(self).cursor.row + 1) as usize, ..old(self).cursor })
                &&& final(self).extra_cursors == old(self).extra_cursors
                &&& final(self).is_modified
                &&& final(self).content_version == bumped(old(self).content_version, 1)
                &&& same_besides_edit(*final(self), *old(self))
            },
    {
        let row = self.cursor.row;
        let n = self.buffer.num_lines();
        if row >= n - 1 {
            return false;
        }
        let ghost before = *self;
        self.buffer.checkpoint();
        let ghost t = before.buffer.text();
        let current = self.buffer.line(row);
        let below = self.buffer.line(row + 1);
        self.buffer.replace_line(row, below.as_str());
        self.buffer.replace_line(row + 1, current.as_str());
        assert(self.buffer.text() == lines_traded(t, row as int, row + 1));
        assert(self.buffer@ == edited_model(before.buffer@, lines_traded(t, row as int, row + 1)));
        self.cursor.row = row + 1;
        self.is_modified = true;
        self.content_version = self.content_version.wrapping_add(1);
        proof {
            reveal_with_fuel(bumped, 2);
            assert(same_besides_edit(*self, before));
        }
        true
    }

    /// Adds a cursor on the line above each cursor (at its column, kept
    /// within the line), then drops duplicates.
    pub fn add_cursor_above(&mut self)
        ensures
            final(self).extra_cursors@ == deduped(
                old(self).extra_cursors@ + cursor_above(old(self).buffer.text(), old(self).cursor) + cursors_above(
                    old(self).buffer.text(),
                    old(self).extra_cursors@,
                ),
                pos(old(self).cursor),
            ),
            final(self).cursor == old(self).cursor,
            final(self).buffer@ == old(self).buffer@,
    {
        let ghost t = self.buffer.text();
        let mut added: Vec<Cursor> = Vec::new();
        let (pr, pc) = self.cursor.position();
        if pr > 0 {
            let col = col_within(pc, self.buffer.line_len(pr - 1));
            added.push(Cursor { row: pr - 1, col, desired_col: col, sel_anchor: None });
        }
        proof {
            assert(added@ =~= cursor_above(t, self.cursor));
        }
        let mut i: usize = 0;
        while i < self.extra_cursors.len()
            invariant
                i <= self.extra_cursors@.len(),
                t == self.buffer.text(),
                added@ == cursor_above(t, self.cursor) + cursors_above(t, self.extra_cursors@.take(i as int)),
            decreases self.extra_cursors.len() - i,
        {
            proof {
                assert(self.extra_cursors@.take(i + 1).drop_last() =~= self.extra_cursors@.take(i as int));
                assert(self.extra_cursors@.take(i + 1).last() == self.extra_cursors@[i as int]);
            }
            let (er, ec) = self.extra_cursors[i].position();
            let ghost prev = added@;
            if er > 0 {
                let col = col_within(ec, self.buffer.line_len(er - 1));
                added.push(Cursor { row: er - 1, col, desired_col: col, sel_anchor: None });
            }
            proof {
                assert(added@ =~= prev + cursor_above(t, self.extra_cursors@[i as int]));
            }
            i += 1;
        }
        proof {
            assert(self.extra_cursors@.take(self.extra_cursors@.len() as int) =~= self.extra_cursors@);
        }
        let ghost mid = self.extra_cursors@;
        self.extra_cursors.append(&mut added);
        proof {
            assert(self.extra_cursors@ =~= mid + (cursor_above(t, self.cursor) + cursors_above(t, mid)));
            assert(mid + (cursor_above(t, self.cursor) + cursors_above(t, mid)) =~= mid + cursor_above(t, self.cursor)
                + cursors_above(t, mid));
        }
        self.dedup_cursors();
    }

    /// Adds a cursor on the line below each cursor, then drops duplicates.
    pub fn add_cursor_below(&mut self)
        ensures
            final(self).extra_cursors@ == deduped(
                old(self).extra_cursors@ + cursor_below(old(self).buffer.text(), old(self).cursor) + cursors_below(
                    old(self).buffer.text(),
                    old(self).extra_cursors@,
                ),
                pos(old(self).cursor),
            ),
            final(self).cursor == old(self).cursor,
            final(self).buffer@ == old(self).buffer@,
    {
        let ghost t = self.buffer.text();
        let n = self.buffer.num_lines();
        let mut added: Vec<Cursor> = Vec::new();
        let (pr, pc) = self.cursor.position();
        if pr < n - 1 {
            let col = col_within(pc, self.buffer.line_len(pr + 1));
            added.push(Cursor { row: pr + 1, col, desired_col: col, sel_anchor: None });
        }
        proof {
            assert(added@ =~= cursor_below(t, self.cursor));
        }
        let mut i: usize = 0;
        while i < self.extra_cursors.len()
            invariant
                i <= self.extra_cursors@.len(),
                t == self.buffer.text(),
                n == line_count(t),
                n >= 1,
                added@ == cursor_below(t, self.cursor) + cursors_below(t, self.extra_cursors@.take(i as int)),
            decreases self.extra_cursors.len() - i,
        {
            proof {
                assert(self.extra_cursors@.take(i + 1).drop_last() =~= self.extra_cursors@.take(i as int));
                assert(self.extra_cursors@.take(i + 1).last() == self.extra_cursors@[i as int]);
            }
            let (er, ec) = self.extra_cursors[i].position();
            let ghost prev = added@;
            if er < n - 1 {
                let col = col_within(ec, self.buffer.line_len(er + 1));
                added.push(Cursor { row: er + 1, col, desired_col: col, sel_anchor: None });
            }
            proof {
                assert(added@ =~= prev + cursor_below(t, self.extra_cursors@[i as int]));
            }
            i += 1;
        }
        proof {
            assert(self.extra_cursors@.take(self.extra_cursors@.len() as int) =~= self.extra_cursors@);
        }
        let ghost mid = self.extra_cursors@;
        self.extra_cursors.append(&mut added);
        proof {
            assert(self.extra_cursors@ =~= mid + cursor_below(t, self.cursor) + cursors_below(t, mid));
        }
        self.dedup_cursors();
    }

    /// Moves every cursor to the start (Home) or end (End) of its line,
    /// dropping selections, then drops duplicate cursors.
    pub fn cursors_to_line_edge(&mut self, to_end: bool)
        ensures
            final(self).cursor == at_line_edge(old(self).buffer.text(), old(self).cursor, to_end),
            final(self).extra_cursors@ == deduped(
                all_at_line_edge(old(self).buffer.text(), old(self).extra_cursors@, to_end),
                pos(at_line_edge(old(self).buffer.text(), old(self).cursor, to_end)),
            ),
            final(self).buffer@ == old(self).buffer@,
    {
        let ghost t = self.buffer.text();
        let row = self.cursor.row;
        let col = edge_col(&self.buffer, row, to_end);
        self.cursor = Cursor { row, col, desired_col: col, sel_anchor: None };
        let mut moved: Vec<Cursor> = Vec::new();
        let mut i: usize = 0;
        while i < self.extra_cursors.len()
            invariant
                i <= self.extra_cursors@.len(),
                t == self.buffer.text(),
                moved@ == all_at_line_edge(t, self.extra_cursors@.take(i as int), to_end),
            decreases self.extra_cursors.len() - i,
        {
            let er = self.extra_cursors[i].row;
            let c = edge_col(&self.buffer, er, to_end);
            moved.push(Cursor { row: er, col: c, desired_col: c, sel_anchor: None });
            proof {
                assert(moved@ =~= all_at_line_edge(t, self.extra_cursors@.take(i + 1), to_end));
            }
            i += 1;
        }
        proof {
            assert(self.extra_cursors@.take(self.extra_cursors@.len() as int) =~= self.extra_cursors@);
        }
        self.extra_cursors = moved;
        self.dedup_cursors();
    }

    /// Selects the whole text: anchored at the start, the cursor at the end.
    pub fn select_all(&mut self)
        ensures
            final(self).cursor == (Cursor {
                row: (line_count(old(self).buffer.text()) - 1) as usize,
                col: line_len(old(self).buffer.text(), line_count(old(self).buffer.text()) - 1) as usize,
                desired_col: line_len(old(self).buffer.text(), line_count(old(self).buffer.text()) - 1) as usize,
                sel_anchor: Some((0, 0)),
            }),
            final(self).extra_cursors == old(self).extra_cursors,
            final(self).buffer@ == old(self).buffer@,
    {
        let last_row = self.buffer.num_lines() - 1;
        let last_col = self.buffer.line_len(last_row);
        self.cursor = Cursor { row: last_row, col: last_col, desired_col: last_col, sel_anchor: Some((0, 0)) };
    }
}

// ---- commands on whole lines ----

/// The rows of `s` in increasing order.
pub open spec fn sorted_rows(s: Set<usize>) -> Seq<usize> {
    choose|r: Seq<usize>| increasing(r) && r.to_set() == s
}

/// Two increasing sequences with the same elements are the same.
pub proof fn lemma_increasing_unique(a: Seq<usize>, b: Seq<usize>)
    requires
        increasing(a),
        increasing(b),
        a.to_set() == b.to_set(),
    ensures
        a == b,
    decreases a.len(),
{
    if a.len() == 0 {
        if b.len() > 0 {
            assert(b.to_set().contains(b[0]));
            assert(!a.to_set().contains(b[0]));
        }
        assert(a =~= b);
    } else {
        assert(a.to_set().contains(a[0]));
        assert(b.to_set().contains(a[0]));
        let j = choose|j: int| 0 <= j < b.len() && b[j] == a[0];
        assert(b.to_set().contains(b[0]));
        assert(a.to_set().contains(b[0]));
        let i = choose|i: int| 0 <= i < a.len() && a[i] == b[0];
        if j > 0 {
            assert(b[0] < b[j]);
        }
        if i > 0 {
            assert(a[0] < a[i]);
        }
        assert(a[0] == b[0]);
        let a2 = a.drop_first();
        let b2 = b.drop_first();
        assert forall|x: usize| a2.to_set().contains(x) implies b2.to_set().contains(x) by {
            let k = choose|k: int| 0 <= k < a2.len() && a2[k] == x;
            assert(a[k + 1] == x);
            assert(a[0] < a[k + 1]);
            assert(a.to_set().contains(x));
            let m = choose|m: int| 0 <= m < b.len() && b[m] == x;
            assert(m != 0);
            assert(b2[m - 1] == x);
        }
        assert forall|x: usize| b2.to_set().contains(x) implies a2.to_set().contains(x) by {
            let k = choose|k: int| 0 <= k < b2.len() && b2[k] == x;
            assert(b[k + 1] == x);
            assert(b[0] < b[k + 1]);
            assert(b.to_set().contains(x));
            let m = choose|m: int| 0 <= m < a.len() && a[m] == x;
            assert(m != 0);
            assert(a2[m - 1] == x);
        }
        assert(a2.to_set() =~= b2.to_set());
        lemma_increasing_unique(a2, b2);
        assert(a =~= seq![a[0]] + a2);
        assert(b =~= seq![b[0]] + b2);
    }
}

proof fn lemma_sorted_rows(r: Seq<usize>, s: Set<usize>)
    requires
        increasing(r),
        r.to_set() == s,
    ensures
        sorted_rows(s) == r,
{
    assert(increasing(r) && r.to_set() == s);
    let c = sorted_rows(s);
    lemma_increasing_unique(c, r);
}

/// The rows a line command works on: those the selection spans, or else
/// the rows of all cursors, ascending.
pub open spec fn command_rows(c: Cursor, extras: Seq<Cursor>) -> Seq<usize> {
    match selection_of(c) {
        Some((st, en)) => rows_between(st.0, en.0),
        None => sorted_rows(cursor_rows(c, extras)),
    }
}

/// `t` with the lines `rows` deleted, the last first.
pub open spec fn rows_deleted(t: Seq<char>, rows: Seq<usize>) -> Seq<char>
    decreases rows.len(),
{
    if rows.len() == 0 {
        t
    } else {
        rows_deleted(delete_line_text(t, rows.last() as int), rows.drop_last())
    }
}

/// `t` with a space inserted at `(row, col)`.
pub open spec fn space_at(t: Seq<char>, row: int, col: int) -> Seq<char> {
    t.insert(min_int(char_index(t, row, col), t.len() as int), ' ')
}

/// `t` with four spaces put in front of line `row`, one column at a time.
pub open spec fn four_spaces(t: Seq<char>, row: int) -> Seq<char> {
    space_at(space_at(space_at(space_at(t, row, 0), row, 1), row, 2), row, 3)
}

/// `t` with each of `rows` indented by four spaces, in order.
pub open spec fn rows_indented(t: Seq<char>, rows: Seq<usize>) -> Seq<char>
    decreases rows.len(),
{
    if rows.len() == 0 {
        t
    } else {
        four_spaces(rows_indented(t, rows.drop_last()), rows.last() as int)
    }
}

/// `t` with the first character of line `row` deleted `k` times (while the
/// text reaches that far).
pub open spec fn front_removed(t: Seq<char>, row: int, k: nat) -> Seq<char>
    decreases k,
{
    if k == 0 {
        t
    } else {
        let t2 = front_removed(t, row, (k - 1) as nat);
        if char_index(t2, row, 0) < t2.len() {
            t2.remove(char_index(t2, row, 0))
        } else {
            t2
        }
    }
}

/// The spaces an outdent takes off a line: its leading spaces, at most four.
pub open spec fn outdent_width(line: Seq<char>) -> nat {
    if leading(line, ' ') < 4 {
        leading(line, ' ')
    } else {
        4
    }
}

/// The text and the cursor's column after outdenting `rows` in order; the
/// cursor's column moves back on its own row.
pub open spec fn rows_outdented(t: Seq<char>, col: usize, crow: usize, rows: Seq<usize>) -> (Seq<char>, usize)
    decreases rows.len(),
{
    if rows.len() == 0 {
        (t, col)
    } else {
        let (t2, c2) = rows_outdented(t, col, crow, rows.drop_last());
        let r = rows.last();
        let k = outdent_width(line_text(t2, r as int));
        (front_removed(t2, r as int, k), if r == crow { if c2 >= k { (c2 - k) as usize } else { 0 } } else { c2 })
    }
}

fn command_rows_exec(e: &Editor) -> (rows: Vec<usize>)
    ensures
        rows@ == command_rows(e.cursor, e.extra_cursors@),
{
    let rows = e.selected_line_rows();
    proof {
        if selection_of(e.cursor) is None {
            lemma_sorted_rows(rows@, cursor_rows(e.cursor, e.extra_cursors@));
        }
    }
    rows
}

fn delete_rows(buffer: &mut Buffer, rows: &Vec<usize>)
    ensures
        final(buffer).text() == rows_deleted(old(buffer).text(), rows@),
        final(buffer)@.history == old(buffer)@.history,
        final(buffer)@.future == old(buffer)@.future,
{
    let mut i = rows.len();
    proof {
        assert(rows@.take(rows@.len() as int) =~= rows@);
    }
    while i > 0
        invariant
            i <= rows@.len(),
            rows_deleted(old(buffer).text(), rows@) == rows_deleted(buffer.text(), rows@.take(i as int)),
            buffer@.history == old(buffer)@.history,
            buffer@.future == old(buffer)@.future,
        decreases i,
    {
        proof {
            assert(rows@.take(i as int).drop_last() =~= rows@.take(i - 1));
            assert(rows@.take(i as int).last() == rows@[i - 1]);
        }
        buffer.delete_line(rows[i - 1]);
        i -= 1;
    }
}

fn indent_rows(buffer: &mut Buffer, rows: &Vec<usize>)
    ensures
        final(buffer).text() == rows_indented(old(buffer).text(), rows@),
        final(buffer)@.history == old(buffer)@.history,
        final(buffer)@.future == old(buffer)@.future,
{
    let mut i: usize = 0;
    while i < rows.len()
        invariant
            i <= rows@.len(),
            buffer.text() == rows_indented(old(buffer).text(), rows@.take(i as int)),
            buffer@.history == old(buffer)@.history,
            buffer@.future == old(buffer)@.future,
        decreases rows.len() - i,
    {
        proof {
            assert(rows@.take(i + 1).drop_last() =~= rows@.take(i as int));
            assert(rows@.take(i + 1).last() == rows@[i as int]);
        }
        let r = rows[i];
        buffer.insert_char(r, 0, ' ');
        buffer.insert_char(r, 1, ' ');
        buffer.insert_char(r, 2, ' ');
        buffer.insert_char(r, 3, ' ');
        i += 1;
    }
    proof {
        assert(rows@.take(rows@.len() as int) =~= rows@);
    }
}

fn remove_front(buffer: &mut Buffer, row: usize, k: usize)
    ensures
        final(buffer).text() == front_removed(old(buffer).text(), row as int, k as nat),
        final(buffer)@.history == old(buffer)@.history,
        final(buffer)@.future == old(buffer)@.future,
{
    let mut j: usize = 0;
    while j < k
        invariant
            j <= k,
            buffer.text() == front_removed(old(buffer).text(), row as int, j as nat),
            buffer@.history == old(buffer)@.history,
            buffer@.future == old(buffer)@.future,
        decreases k - j,
    {
        buffer.delete_char(row, 0);
        j += 1;
    }
}

fn outdent_rows(buffer: &mut Buffer, col: &mut usize, crow: usize, rows: &Vec<usize>)
    ensures
        (final(buffer).text(), *final(col)) == rows_outdented(old(buffer).text(), *old(col), crow, rows@),
        final(buffer)@.history == old(buffer)@.history,
        final(buffer)@.future == old(buffer)@.future,
{
    let mut i: usize = 0;
    while i < rows.len()
        invariant
            i <= rows@.len(),
            (buffer.text(), *col) == rows_outdented(old(buffer).text(), *old(col), crow, rows@.take(i as int)),
            buffer@.history == old(buffer)@.history,
            buffer@.future == old(buffer)@.future,
        decreases rows.len() - i,
    {
        proof {
            assert(rows@.take(i + 1).drop_last() =~= rows@.take(i as int));
            assert(rows@.take(i + 1).last() == rows@[i as int]);
        }
        let r = rows[i];
        let line = str_chars(buffer.line(r).as_str());
        let lead = leading_exec(&line, ' ');
        let k: usize = if lead < 4 {
            lead
        } else {
            4
        };
        remove_front(buffer, r, k);
        if r == crow {
            *col = if *col >= k {
                *col - k
            } else {
                0
            };
        }
        i += 1;
    }
    proof {
        assert(rows@.take(rows@.len() as int) =~= rows@);
    }
}

impl Editor {
    /// Deletes the lines of all cursors (the last first); the cursor goes to
    /// column 0 of its row, kept within the text, and extra cursors are dropped.
    pub fn delete_cursor_lines(&mut self)
        ensures
            ({
                let t = rows_deleted(old(self).buffer.text(), sorted_rows(cursor_rows(old(self).cursor, old(self).extra_cursors@)));
                &&& final(self).buffer@ == edited_model(old(self).buffer@, t)
                &&& final(self).cursor == (Cursor {
                    row: if old(self).cursor.row <= line_count(t) - 1 { old(self).cursor.row } else { (line_count(t) - 1) as usize },
                    col: 0,
                    ..old(self).cursor
                })
            }),
            final(self).extra_cursors@.len() == 0,
            final(self).is_modified,
            final(self).content_version == bumped(old(self).content_version, 1),
            same_besides_edit(*final(self), *old(self)),
    {
        let ghost before = *self;
        self.buffer.checkpoint();
        let rows = self.all_cursor_rows();
        proof {
            lemma_sorted_rows(rows@, cursor_rows(before.cursor, before.extra_cursors@));
        }
        delete_rows(&mut self.buffer, &rows);
        let max_row = self.buffer.num_lines() - 1;
        if self.cursor.row > max_row {
            self.cursor.row = max_row;
        }
        self.cursor.col = 0;
        self.extra_cursors = Vec::new();
        self.is_modified = true;
        self.content_version = self.content_version.wrapping_add(1);
        proof {
            reveal_with_fuel(bumped, 2);
            assert(same_besides_edit(*self, before));
        }
    }

    /// Indents the selected lines (or the cursors' lines) by four spaces;
    /// the cursor's column moves along (saturating).
    pub fn indent_lines(&mut self)
        ensures
            final(self).buffer@ == edited_model(
                old(self).buffer@,
                rows_indented(old(self).buffer.text(), command_rows(old(self).cursor, old(self).extra_cursors@)),
            ),
            final(self).cursor == (Cursor {
                col: if old(self).cursor.col <= usize::MAX - 4 { (old(self).cursor.col + 4) as usize } else { usize::MAX },
                desired_col: if old(self).cursor.col <= usize::MAX - 4 { (old(self).cursor.col + 4) as usize } else { usize::MAX },
                ..old(self).cursor
            }),
            final(self).extra_cursors == old(self).extra_cursors,
            final(self).is_modified,
            final(self).content_version == bumped(old(self).content_version, 1),
            same_besides_edit(*final(self), *old(self)),
    {
        let ghost before = *self;
        self.buffer.checkpoint();
        let rows = command_rows_exec(self);
        indent_rows(&mut self.buffer, &rows);
        self.cursor.col = self.cursor.col.saturating_add(4);
        self.cursor.desired_col = self.cursor.col;
        self.is_modified = true;
        self.content_version = self.content_version.wrapping_add(1);
        proof {
            reveal_with_fuel(bumped, 2);
            assert(same_besides_edit(*self, before));
        }
    }

    /// Takes up to four leading spaces off each selected line (or cursor
    /// line); on the cursor's row its column moves back as far.
    pub fn outdent_lines(&mut self)
        ensures
            ({
                let r = rows_outdented(
                    old(self).buffer.text(),
                    old(self).cursor.col,
                    old(self).cursor.row,
                    command_rows(old(self).cursor, old(self).extra_cursors@),
                );
                &&& final(self).buffer@ == edited_model(old(self).buffer@, r.0)
                &&& final(self).cursor == (if command_rows(old(self).cursor, old(self).extra_cursors@).contains(
                    old(self).cursor.row,
                ) {
                    Cursor { col: r.1, desired_col: r.1, ..old(self).cursor }
                } else {
                    old(self).cursor
                })
            }),
            final(self).extra_cursors == old(self).extra_cursors,
            final(self).is_modified,
            final(self).content_version == bumped(old(self).content_version, 1),
            same_besides_edit(*final(self), *old(self)),
    {
        let ghost before = *self;
        self.buffer.checkpoint();
        let rows = command_rows_exec(self);
        let crow = self.cursor.row;
        let mut col = self.cursor.col;
        outdent_rows(&mut self.buffer, &mut col, crow, &rows);
        if has_row(&rows, crow) {
            self.cursor.col = col;
            self.cursor.desired_col = col;
        }
        self.is_modified = true;
        self.content_version = self.content_version.wrapping_add(1);
        proof {
            reveal_with_fuel(bumped, 2);
            assert(same_besides_edit(*self, before));
        }
    }
}

fn has_row(rows: &Vec<usize>, r: usize) -> (b: bool)
    ensures
        b == rows@.contains(r),
{
    let mut i: usize = 0;
    while i < rows.len()
        invariant
            i <= rows@.len(),
            forall|j: int| 0 <= j < i ==> rows@[j] != r,
        decreases rows.len() - i,
    {
        if rows[i] == r {
            return true;
        }
        i += 1;
    }
    false
}

// ---- line comments ----

/// The number of white-space characters a line starts with.
pub open spec fn ws_lead(l: Seq<char>) -> nat
    decreases l.len(),
{
    if l.len() > 0 && is_ws(l[0]) {
        1 + ws_lead(l.drop_first())
    } else {
        0
    }
}

/// After its leading white space, `line` starts with `pt`.
pub open spec fn is_commented(line: Seq<char>, pt: Seq<char>) -> bool {
    starts_with(line.skip(ws_lead(line) as int), pt)
}

/// Every line of `rows` is commented with `pt`.
pub open spec fn all_commented(t: Seq<char>, rows: Seq<usize>, pt: Seq<char>) -> bool {
    forall|i: int| 0 <= i < rows.len() ==> #[trigger] is_commented(line_text(t, rows[i] as int), pt)
}

/// `t` with the character at `(row, col)` deleted `k` times (while the text
/// reaches that far).
pub open spec fn removed_at(t: Seq<char>, row: int, col: int, k: nat) -> Seq<char>
    decreases k,
{
    if k == 0 {
        t
    } else {
        let t2 = removed_at(t, row, col, (k - 1) as nat);
        if char_index(t2, row, col) < t2.len() {
            t2.remove(char_index(t2, row, col))
        } else {
            t2
        }
    }
}

/// `t` with the first `k` characters of `p` put at the start of line `row`,
/// the `i`-th at column `i`.
pub open spec fn prefix_inserted(t: Seq<char>, row: int, p: Seq<char>, k: nat) -> Seq<char>
    decreases k,
{
    if k == 0 {
        t
    } else {
        let t2 = prefix_inserted(t, row, p, (k - 1) as nat);
        t2.insert(min_int(char_index(t2, row, k - 1), t2.len() as int), p[k - 1])
    }
}

/// One line of a comment toggle: uncommenting deletes the prefix (or its
/// trimmed form) after the leading white space; commenting puts the prefix
/// at the start of the line.
pub open spec fn comment_step(t: Seq<char>, row: int, p: Seq<char>, pt: Seq<char>, uncomment: bool) -> Seq<char> {
    let line = line_text(t, row);
    let lead = ws_lead(line);
    if uncomment {
        removed_at(t, row, lead as int, if starts_with(line.skip(lead as int), p) { p.len() } else { pt.len() })
    } else {
        prefix_inserted(t, row, p, p.len())
    }
}

/// The toggle applied to `rows`, the last first.
pub open spec fn comments_toggled(t: Seq<char>, rows: Seq<usize>, p: Seq<char>, pt: Seq<char>, uncomment: bool) -> Seq<char>
    decreases rows.len(),
{
    if rows.len() == 0 {
        t
    } else {
        comments_toggled(comment_step(t, rows.last() as int, p, pt, uncomment), rows.drop_last(), p, pt, uncomment)
    }
}

fn ws_lead_exec(l: &Vec<char>) -> (n: usize)
    ensures
        n == ws_lead(l@),
        n <= l.len(),
{
    let mut k: usize = 0;
    proof {
        assert(l@.skip(0) =~= l@);
    }
    while k < l.len() && char_is_whitespace(l[k])
        invariant
            k <= l.len(),
            ws_lead(l@) == k + ws_lead(l@.skip(k as int)),
        decreases l.len() - k,
    {
        proof {
            assert(l@.skip(k as int)[0] == l@[k as int]);
            assert(l@.skip(k as int).drop_first() =~= l@.skip(k + 1));
        }
        k += 1;
    }
    proof {
        if k < l.len() {
            assert(l@.skip(k as int)[0] == l@[k as int]);
        }
    }
    k
}

fn after_lead_starts_with(line: &Vec<char>, p: &Vec<char>) -> (b: bool)
    ensures
        b == starts_with(line@.skip(ws_lead(line@) as int), p@),
{
    let lead = ws_lead_exec(line);
    let rest = slice_chars(line, lead, line.len());
    proof {
        assert(rest@ =~= line@.skip(lead as int));
    }
    starts_with_exec(&rest, p)
}

fn remove_at(buffer: &mut Buffer, row: usize, col: usize, k: usize)
    ensures
        final(buffer).text() == removed_at(old(buffer).text(), row as int, col as int, k as nat),
        final(buffer)@.history == old(buffer)@.history,
        final(buffer)@.future == old(buffer)@.future,
{
    let mut j: usize = 0;
    while j < k
        invariant
            j <= k,
            buffer.text() == removed_at(old(buffer).text(), row as int, col as int, j as nat),
            buffer@.history == old(buffer)@.history,
            buffer@.future == old(buffer)@.future,
        decreases k - j,
    {
        buffer.delete_char(row, col);
        j += 1;
    }
}

fn insert_prefix(buffer: &mut Buffer, row: usize, p: &Vec<char>)
    ensures
        final(buffer).text() == prefix_inserted(old(buffer).text(), row as int, p@, p@.len()),
        final(buffer)@.history == old(buffer)@.history,
        final(buffer)@.future == old(buffer)@.future,
{
    let mut i: usize = 0;
    while i < p.len()
        invariant
            i <= p@.len(),
            buffer.text() == prefix_inserted(old(buffer).text(), row as int, p@, i as nat),
            buffer@.history == old(buffer)@.history,
            buffer@.future == old(buffer)@.future,
        decreases p.len() - i,
    {
        buffer.insert_char(row, i, p[i]);
        i += 1;
    }
}

fn all_commented_exec(buffer: &Buffer, rows: &Vec<usize>, pt: &Vec<char>) -> (b: bool)
    ensures
        b == all_commented(buffer.text(), rows@, pt@),
{
    let mut i: usize = 0;
    while i < rows.len()
        invariant
            i <= rows@.len(),
            forall|j: int| 0 <= j < i ==> #[trigger] is_commented(line_text(buffer.text(), rows@[j] as int), pt@),
        decreases rows.len() - i,
    {
        let line = str_chars(buffer.line(rows[i]).as_str());
        if !after_lead_starts_with(&line, pt) {
            proof {
                assert(!is_commented(line_text(buffer.text(), rows@[i as int] as int), pt@));
            }
            return false;
        }
        i += 1;
    }
    true
}

fn toggle_rows(buffer: &mut Buffer, rows: &Vec<usize>, p: &Vec<char>, pt: &Vec<char>, uncomment: bool)
    ensures
        final(buffer).text() == comments_toggled(old(buffer).text(), rows@, p@, pt@, uncomment),
        final(buffer)@.history == old(buffer)@.history,
        final(buffer)@.future == old(buffer)@.future,
{
    let mut i = rows.len();
    proof {
        assert(rows@.take(rows@.len() as int) =~= rows@);
    }
    while i > 0
        invariant
            i <= rows@.len(),
            comments_toggled(old(buffer).text(), rows@, p@, pt@, uncomment) == comments_toggled(
                buffer.text(),
                rows@.take(i as int),
                p@,
                pt@,
                uncomment,
            ),
            buffer@.history == old(buffer)@.history,
            buffer@.future == old(buffer)@.future,
        decreases i,
    {
        proof {
            assert(rows@.take(i as int).drop_last() =~= rows@.take(i - 1));
            assert(rows@.take(i as int).last() == rows@[i - 1]);
        }
        let row = rows[i - 1];
        let line = str_chars(buffer.line(row).as_str());
        if uncomment {
            let lead = ws_lead_exec(&line);
            let n = if after_lead_starts_with(&line, p) {
                p.len()
            } else {
                pt.len()
            };
            remove_at(buffer, row, lead, n);
        } else {
            insert_prefix(buffer, row, p);
        }
        i -= 1;
    }
}

impl Editor {
    /// Toggles line comments on the selected lines (or the cursors' lines)
    /// with the file's comment prefix: when every line is commented (the
    /// trimmed prefix after its indentation), the prefix is taken off,
    /// else it is put at the start of each line.
    pub fn toggle_comment(&mut self)
        ensures
            ({
                let p = comment_prefix_for(path_ext(old(self).current_path));
                let pt = trim_end(p);
                let rows = command_rows(old(self).cursor, old(self).extra_cursors@);
                let t = old(self).buffer.text();
                final(self).buffer@ == edited_model(
                    old(self).buffer@,
                    comments_toggled(t, rows, p, pt, all_commented(t, rows, pt)),
                )
            }),
            final(self).cursor == old(self).cursor,
            final(self).extra_cursors == old(self).extra_cursors,
            final(self).is_modified,
            final(self).content_version == bumped(old(self).content_version, 1),
            same_besides_edit(*final(self), *old(self)),
    {
        let ghost before = *self;
        self.buffer.checkpoint();
        let p = str_chars(self.comment_prefix());
        let pt = trim_end_exec(&p);
        let rows = command_rows_exec(self);
        let uncomment = all_commented_exec(&self.buffer, &rows, &pt);
        toggle_rows(&mut self.buffer, &rows, &p, &pt, uncomment);
        self.is_modified = true;
        self.content_version = self.content_version.wrapping_add(1);
        proof {
            reveal_with_fuel(bumped, 2);
            assert(same_besides_edit(*self, before));
        }
    }
}

// ---- selecting occurrences ----

/// The word a selection command works with: the selection's text when it is
/// non-empty and within one line, else the whole word around the cursor.
#[verifier::opaque]
pub open spec fn command_word(e: Editor) -> Option<Seq<char>> {
    match selection_text(e.state()) {
        Some(x) => if x.len() > 0 && !x.contains('\n') {
            Some(x)
        } else {
            word_around(line_text(e.buffer.text(), e.cursor.row as int), e.cursor.col as int)
        },
        None => word_around(line_text(e.buffer.text(), e.cursor.row as int), e.cursor.col as int),
    }
}

proof fn lemma_scan_fits(t: Seq<char>, w: Seq<char>, r: int, end: int, fr: int, fc: nat)
    requires
        0 <= r,
    ensures
        scan_rows(t, w, r, end, fr, fc) matches Some((mr, mc)) ==> 0 <= mr && 0 <= mc && mc + w.len() <= line_len(
            t,
            mr,
        ) <= t.len(),
    decreases end - r,
{
    if r < end {
        let start = if r == fr { fc } else { 0 };
        lemma_first_match(line_text(t, r), w, start);
        lemma_line_text_fits(t, r);
        lemma_line_start(t, r, r);
        if first_match(line_text(t, r), w, start) is None {
            lemma_scan_fits(t, w, r + 1, end, fr, fc);
        }
    }
}

impl Editor {
    /// Selects the word `w` found around the cursor: anchored at its start,
    /// the cursor at its end.
    fn select_word_around(&mut self, w: &Vec<char>)
        requires
            word_around(line_text(old(self).buffer.text(), old(self).cursor.row as int), old(self).cursor.col as int)
                == Some(w@),
        ensures
            *final(self) == (Editor { cursor: final(self).cursor, ..*old(self) }),
            ({
                let line = line_text(old(self).buffer.text(), old(self).cursor.row as int);
                let st = extend_left(line, clamp_col(old(self).cursor.col as int, line.len() as int));
                final(self).cursor == (Cursor {
                    row: old(self).cursor.row,
                    col: (st + w@.len()) as usize,
                    desired_col: (st + w@.len()) as usize,
                    sel_anchor: Some((old(self).cursor.row, st as usize)),
                })
            }),
    {
        let (row, col) = self.cursor.position();
        let chars = str_chars(self.buffer.line(row).as_str());
        let c = if col < chars.len() {
            col
        } else {
            chars.len()
        };
        let start = extend_left_exec(&chars, c);
        proof {
            let t = self.buffer.text();
            lemma_extend_left(chars@, c as int);
            lemma_extend_right(chars@, c as int);
            lemma_line_text_fits(t, row as int);
            lemma_line_start(t, row as int, row as int);
        }
        let end = start + w.len();
        self.cursor = Cursor { row, col: end, desired_col: end, sel_anchor: Some((row, start)) };
    }

    /// Keeps the primary cursor as an extra one and selects the next
    /// occurrence of `w` after it (wrapping around); nothing when there is none.
    fn select_next_match(&mut self, w: &str)
        requires
            old(self).cursor_fits(),
        ensures
            *final(self) == (Editor { cursor: final(self).cursor, extra_cursors: final(self).extra_cursors, ..*old(self) }),
            match next_occurrence(old(self).buffer.text(), w@, old(self).cursor.row as int, old(self).cursor.col as nat) {
                None => final(self).cursor == old(self).cursor && final(self).extra_cursors == old(self).extra_cursors,
                Some((mr, mc)) => {
                    &&& final(self).cursor == (Cursor {
                        row: mr as usize,
                        col: (mc + w@.len()) as usize,
                        desired_col: (mc + w@.len()) as usize,
                        sel_anchor: Some((mr as usize, mc as usize)),
                    })
                    &&& final(self).extra_cursors@ == deduped(
                        old(self).extra_cursors@.push(old(self).cursor),
                        (mr as usize, (mc + w@.len()) as usize),
                    )
                },
            },
    {
        let (cur_row, cur_col) = self.cursor.position();
        let word_len = str_chars(w).len();
        match find_next_occurrence(&self.buffer, w, cur_row, cur_col) {
            Some((mr, mc)) => {
                proof {
                    let t = self.buffer.text();
                    lemma_scan_fits(t, w@, cur_row as int, line_count(t) as int, cur_row as int, cur_col as nat);
                    let n = line_count(t) as int;
                    lemma_scan_fits(t, w@, 0, if (cur_row as int) < n { cur_row + 1 } else { n }, cur_row as int, 0);
                }
                let saved = self.cursor;
                self.extra_cursors.push(saved);
                let end = mc + word_len;
                self.cursor = Cursor { row: mr, col: end, desired_col: end, sel_anchor: Some((mr, mc)) };
                self.dedup_cursors();
            },
            None => {},
        }
    }

    /// Selects the word under the cursor (when nothing is selected), or else
    /// keeps the current selection as an extra cursor and selects the next
    /// occurrence of its word (wrapping around the text).
    #[verifier::rlimit(100)]
    pub fn select_next_occurrence(&mut self)
        requires
            old(self).cursor_fits(),
        ensures
            *final(self) == (Editor { cursor: final(self).cursor, extra_cursors: final(self).extra_cursors, ..*old(self) }),
            match command_word(*old(self)) {
                None => final(self).cursor == old(self).cursor && final(self).extra_cursors == old(self).extra_cursors,
                Some(w) => if old(self).cursor.sel_anchor is None {
                    let line = line_text(old(self).buffer.text(), old(self).cursor.row as int);
                    let st = extend_left(line, clamp_col(old(self).cursor.col as int, line.len() as int));
                    &&& final(self).cursor == (Cursor {
                        row: old(self).cursor.row,
                        col: (st + w.len()) as usize,
                        desired_col: (st + w.len()) as usize,
                        sel_anchor: Some((old(self).cursor.row, st as usize)),
                    })
                    &&& final(self).extra_cursors == old(self).extra_cursors
                } else {
                    match next_occurrence(old(self).buffer.text(), w, old(self).cursor.row as int, old(self).cursor.col as nat) {
                        None => final(self).cursor == old(self).cursor && final(self).extra_cursors == old(self).extra_cursors,
                        Some((mr, mc)) => {
                            &&& final(self).cursor == (Cursor {
                                row: mr as usize,
                                col: (mc + w.len()) as usize,
                                desired_col: (mc + w.len()) as usize,
                                sel_anchor: Some((mr as usize, mc as usize)),
                            })
                            &&& final(self).extra_cursors@ == deduped(
                                old(self).extra_cursors@.push(old(self).cursor),
                                (mr as usize, (mc + w.len()) as usize),
                            )
                        },
                    }
                },
            },
    {
        let word = match self.current_word_full() {
            Some(w) => w,
            None => {
                assert(command_word(*self) is None) by {
                    reveal(command_word);
                }
                return;
            },
        };
        assert(command_word(*self) == Some(word@)) by {
            reveal(command_word);
        }
        if self.cursor.sel_anchor.is_none() {
            assert(word_around(line_text(self.buffer.text(), self.cursor.row as int), self.cursor.col as int) == Some(
                word@,
            )) by {
                reveal(command_word);
            }
            let wv = str_chars(word.as_str());
            self.select_word_around(&wv);
        } else {
            self.select_next_match(word.as_str());
        }
    }
}

impl Editor {
    /// Escape: closes the completion list when it shows; otherwise closes
    /// the find bar (clearing its query and matches) and the go-to-line
    /// prompt, drops the extra cursors and the selection.
    pub fn escape(&mut self)
        ensures
            old(self).autocomplete.visible ==> *final(self) == (Editor {
                autocomplete: super::autocomplete::Autocomplete { visible: false, ..old(self).autocomplete },
                ..*old(self)
            }),
            !old(self).autocomplete.visible ==> {
                &&& !final(self).show_find && !final(self).show_goto_line
                &&& old(self).show_find ==> final(self).find_query@.len() == 0 && final(self).find_matches@.len() == 0
                &&& !old(self).show_find ==> final(self).find_query == old(self).find_query
                    && final(self).find_matches == old(self).find_matches
                &&& old(self).show_goto_line ==> final(self).goto_line_input@.len() == 0
                &&& !old(self).show_goto_line ==> final(self).goto_line_input == old(self).goto_line_input
                &&& final(self).extra_cursors@.len() == 0
                &&& final(self).cursor == (Cursor { sel_anchor: None, ..old(self).cursor })
                &&& *final(self) == (Editor {
                    show_find: final(self).show_find,
                    find_query: final(self).find_query,
                    find_matches: final(self).find_matches,
                    show_goto_line: final(self).show_goto_line,
                    goto_line_input: final(self).goto_line_input,
                    extra_cursors: final(self).extra_cursors,
                    cursor: final(self).cursor,
                    ..*old(self)
                })
            },
    {
        if self.autocomplete.visible {
            self.autocomplete.visible = false;
            return;
        }
        if self.show_find {
            self.show_find = false;
            self.find_query = String::new();
            self.find_matches = Vec::new();
        }
        if self.show_goto_line {
            self.show_goto_line = false;
            self.goto_line_input = String::new();
        }
        self.extra_cursors = Vec::new();
        self.cursor.sel_anchor = None;
    }
}

/// Every line command checkpoints first, so one undo after it brings back
/// the text as it was before the command.
pub proof fn lemma_line_command_undo(m: BufferModel, t: Seq<char>)
    ensures
        undo_model(edited_model(m, t)).text == m.text,
{
    lemma_undo_restores_checkpoint(m, t);
}

// ---- go to line ----

/// `s.parse::<usize>()`: an optional `+`, then at least one ASCII digit, the
/// value fitting a `usize`.
pub open spec fn parse_usize(s: Seq<char>) -> Option<usize> {
    let d = if s.len() > 0 && s[0] == '+' { s.drop_first() } else { s };
    if d.len() > 0 && all_digits(d) && digits_value(d) <= usize::MAX {
        Some(digits_value(d) as usize)
    } else {
        None
    }
}

fn parse_usize_exec(s: &Vec<char>) -> (r: Option<usize>)
    ensures
        r == parse_usize(s@),
{
    let start: usize = if s.len() > 0 && s[0] == '+' {
        1
    } else {
        0
    };
    let d = slice_chars(s, start, s.len());
    proof {
        if s@.len() > 0 && s@[0] == '+' {
            assert(d@ =~= s@.drop_first());
        } else {
            assert(d@ =~= s@);
        }
    }
    if d.len() == 0 {
        return None;
    }
    let mut acc: usize = 0;
    let mut i: usize = 0;
    proof {
        assert(d@.take(0) =~= seq![]);
    }
    while i < d.len()
        invariant
            i <= d.len(),
            d@ == (if s@.len() > 0 && s@[0] == '+' { s@.drop_first() } else { s@ }),
            d@.len() > 0,
            all_digits(d@.take(i as int)),
            acc == digits_value(d@.take(i as int)),
        decreases d.len() - i,
    {
        let c = d[i];
        if !('0' <= c && c <= '9') {
            proof {
                assert(!all_digits(d@));
            }
            return None;
        }
        let digit = (c as u32 - '0' as u32) as usize;
        proof {
            assert(d@.take(i + 1).drop_last() =~= d@.take(i as int));
            assert(all_digits(d@.take(i + 1)));
            assert(digits_value(d@.take(i + 1)) == acc * 10 + digit);
        }
        let next = match acc.checked_mul(10) {
            Some(m) => m.checked_add(digit),
            None => None,
        };
        match next {
            Some(v) => {
                acc = v;
            },
            None => {
                proof {
                    if all_digits(d@) {
                        lemma_digits_prefix(d@, i + 1);
                    }
                }
                return None;
            },
        }
        i += 1;
    }
    proof {
        assert(d@.take(d@.len() as int) =~= d@);
    }
    Some(acc)
}

/// The row a go-to-line request lands on: the 1-based line number the
/// input spells (white space around it ignored), kept within the text.
pub open spec fn goto_row(input: Seq<char>, t: Seq<char>) -> Option<usize> {
    match parse_usize(trim(input)) {
        Some(n) => {
            let r = if n > 0 { n - 1 } else { 0 };
            Some((if r <= line_count(t) - 1 { r } else { line_count(t) - 1 }) as usize)
        },
        None => None,
    }
}

impl Editor {
    /// Go to line: when the input spells a line number, the cursor moves to
    /// the start of that line (kept within the text) and the extra cursors
    /// are dropped; the prompt closes and its input is cleared.
    pub fn go_to_line(&mut self)
        ensures
            match goto_row(old(self).goto_line_input@, old(self).buffer.text()) {
                Some(r) => final(self).cursor == placed(old(self).cursor, r, 0) && final(self).extra_cursors@.len() == 0,
                None => final(self).cursor == old(self).cursor && final(self).extra_cursors == old(self).extra_cursors,
            },
            !final(self).show_goto_line,
            final(self).goto_line_input@.len() == 0,
            *final(self) == (Editor {
                cursor: final(self).cursor,
                extra_cursors: final(self).extra_cursors,
                show_goto_line: false,
                goto_line_input: final(self).goto_line_input,
                ..*old(self)
            }),
    {
        let input = trim_exec(&str_chars(self.goto_line_input.as_str()));
        match parse_usize_exec(&input) {
            Some(n) => {
                let r = if n > 0 {
                    n - 1
                } else {
                    0
                };
                let last = self.buffer.num_lines() - 1;
                let row = if r <= last {
                    r
                } else {
                    last
                };
                self.cursor.set_position(row, 0);
                self.extra_cursors = Vec::new();
            },
            None => {},
        }
        self.show_goto_line = false;
        self.goto_line_input = String::new();
    }
}

} // verus!
