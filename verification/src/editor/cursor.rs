//! A text cursor with an optional selection anchor.
use vstd::prelude::*;

use super::buffer::{line_count, line_len, Buffer};

verus! {

#[derive(Clone, Copy, Debug)]
pub struct Cursor {
    pub row: usize,
    pub col: usize,
    pub desired_col: usize,
    pub sel_anchor: Option<(usize, usize)>,
}

/// `(r1, c1)` comes no later than `(r2, c2)` in reading order.
pub open spec fn pos_le(a: (usize, usize), b: (usize, usize)) -> bool {
    a.0 < b.0 || (a.0 == b.0 && a.1 <= b.1)
}

/// Reading-order comparison of two positions.
pub fn pos_le_exec(a: (usize, usize), b: (usize, usize)) -> (r: bool)
    ensures
        r == pos_le(a, b),
{
    a.0 < b.0 || (a.0 == b.0 && a.1 <= b.1)
}

/// The selection of `c` as (start, end) in reading order, if it has an anchor.
pub open spec fn selection_of(c: Cursor) -> Option<((usize, usize), (usize, usize))> {
    match c.sel_anchor {
        Some(anchor) => {
            let cur = (c.row, c.col);
            if pos_le(anchor, cur) {
                Some((anchor, cur))
            } else {
                Some((cur, anchor))
            }
        },
        None => None,
    }
}

/// The cursor with its anchor set to its position, unless it already has one.
pub open spec fn with_selection_started(c: Cursor) -> Cursor {
    Cursor {
        sel_anchor: if c.sel_anchor is None { Some((c.row, c.col)) } else { c.sel_anchor },
        ..c
    }
}

/// One character to the left, wrapping to the end of the previous line; the
/// anchor is left as it is.
pub open spec fn step_left(c: Cursor, t: Seq<char>) -> Cursor {
    let (row, col) = if c.col > 0 {
        (c.row, (c.col - 1) as usize)
    } else if c.row > 0 {
        ((c.row - 1) as usize, line_len(t, c.row - 1) as usize)
    } else {
        (c.row, c.col)
    };
    Cursor { row, col, desired_col: col, ..c }
}

/// One character to the right, wrapping to the start of the next line.
pub open spec fn step_right(c: Cursor, t: Seq<char>) -> Cursor {
    let (row, col) = if c.col < line_len(t, c.row as int) {
        (c.row, (c.col + 1) as usize)
    } else if c.row + 1 < line_count(t) {
        ((c.row + 1) as usize, 0usize)
    } else {
        (c.row, c.col)
    };
    Cursor { row, col, desired_col: col, ..c }
}

/// One line up, at the remembered column clamped to that line.
pub open spec fn step_up(c: Cursor, t: Seq<char>) -> Cursor {
    if c.row > 0 {
        let row = (c.row - 1) as usize;
        let ll = line_len(t, row as int);
        Cursor { row, col: if c.desired_col < ll { c.desired_col } else { ll as usize }, ..c }
    } else {
        c
    }
}

/// One line down, at the remembered column clamped to that line.
pub open spec fn step_down(c: Cursor, t: Seq<char>) -> Cursor {
    if c.row + 1 < line_count(t) {
        let row = (c.row + 1) as usize;
        let ll = line_len(t, row as int);
        Cursor { row, col: if c.desired_col < ll { c.desired_col } else { ll as usize }, ..c }
    } else {
        c
    }
}

/// The cursor without a selection.
pub open spec fn cleared(c: Cursor) -> Cursor {
    Cursor { sel_anchor: None, ..c }
}

/// The cursor after `move_left`.
pub open spec fn moved_left(c: Cursor, t: Seq<char>) -> Cursor {
    step_left(cleared(c), t)
}

/// The cursor after `move_right`.
pub open spec fn moved_right(c: Cursor, t: Seq<char>) -> Cursor {
    step_right(cleared(c), t)
}

/// The cursor placed at `(row, col)`, remembering `col`.
pub open spec fn placed(c: Cursor, row: usize, col: usize) -> Cursor {
    Cursor { row, col, desired_col: col, ..c }
}

impl Cursor {
    /// A cursor at the start of the text, without a selection.
    pub fn new() -> (c: Self)
        ensures
            c == (Cursor { row: 0, col: 0, desired_col: 0, sel_anchor: None }),
    {
        Cursor { row: 0, col: 0, desired_col: 0, sel_anchor: None }
    }

    /// The position as `(row, col)`.
    pub fn position(&self) -> (p: (usize, usize))
        ensures
            p == (self.row, self.col),
    {
        (self.row, self.col)
    }

    /// Moves to `(row, col)` and remembers `col`; the anchor is kept.
    pub fn set_position(&mut self, row: usize, col: usize)
        ensures
            *final(self) == placed(*old(self), row, col),
    {
        self.row = row;
        self.col = col;
        self.desired_col = col;
    }

    /// Anchors a selection at the current position, unless one is already anchored.
    pub fn start_selection(&mut self)
        ensures
            *final(self) == with_selection_started(*old(self)),
    {
        if self.sel_anchor.is_none() {
            self.sel_anchor = Some((self.row, self.col));
        }
    }

    /// Drops the selection anchor.
    pub fn clear_selection(&mut self)
        ensures
            *final(self) == cleared(*old(self)),
    {
        self.sel_anchor = None;
    }

    /// Whether a selection is anchored.
    pub fn has_selection(&self) -> (b: bool)
        ensures
            b == self.sel_anchor is Some,
    {
        self.sel_anchor.is_some()
    }

    /// The selection as (start, end) in reading order.
    pub fn selection_range(&self) -> (r: Option<((usize, usize), (usize, usize))>)
        ensures
            r == selection_of(*self),
    {
        let anchor = self.sel_anchor?;
        let cursor = (self.row, self.col);
        if pos_le_exec(anchor, cursor) {
            Some((anchor, cursor))
        } else {
            Some((cursor, anchor))
        }
    }

    fn step_left_exec(&mut self, buf: &Buffer)
        ensures
            *final(self) == step_left(*old(self), buf.text()),
    {
        if self.col > 0 {
            self.col -= 1;
        } else if self.row > 0 {
            self.row -= 1;
            self.col = buf.line_len(self.row);
        }
        self.desired_col = self.col;
    }

    fn step_right_exec(&mut self, buf: &Buffer)
        ensures
            *final(self) == step_right(*old(self), buf.text()),
    {
        let line_len = buf.line_len(self.row);
        if self.col < line_len {
            self.col += 1;
        } else if self.row < buf.num_lines() - 1 {
            self.row += 1;
            self.col = 0;
        }
        self.desired_col = self.col;
    }

    fn step_up_exec(&mut self, buf: &Buffer)
        ensures
            *final(self) == step_up(*old(self), buf.text()),
    {
        if self.row > 0 {
            self.row -= 1;
            let ll = buf.line_len(self.row);
            self.col = if self.desired_col < ll {
                self.desired_col
            } else {
                ll
            };
        }
    }

    fn step_down_exec(&mut self, buf: &Buffer)
        ensures
            *final(self) == step_down(*old(self), buf.text()),
    {
        if self.row < buf.num_lines() - 1 {
            self.row += 1;
            let ll = buf.line_len(self.row);
            self.col = if self.desired_col < ll {
                self.desired_col
            } else {
                ll
            };
        }
    }

    /// Clears the selection and moves one character left.
    pub fn move_left(&mut self, buf: &Buffer)
        ensures
            *final(self) == moved_left(*old(self), buf.text()),
    {
        self.clear_selection();
        self.step_left_exec(buf);
    }

    /// Clears the selection and moves one character right.
    pub fn move_right(&mut self, buf: &Buffer)
        ensures
            *final(self) == moved_right(*old(self), buf.text()),
    {
        self.clear_selection();
        self.step_right_exec(buf);
    }

    /// Clears the selection and moves one line up.
    pub fn move_up(&mut self, buf: &Buffer)
        ensures
            *final(self) == step_up(cleared(*old(self)), buf.text()),
    {
        self.clear_selection();
        self.step_up_exec(buf);
    }

    /// Clears the selection and moves one line down.
    pub fn move_down(&mut self, buf: &Buffer)
        ensures
            *final(self) == step_down(cleared(*old(self)), buf.text()),
    {
        self.clear_selection();
        self.step_down_exec(buf);
    }

    /// Extends the selection one character left.
    pub fn move_left_select(&mut self, buf: &Buffer)
        ensures
            *final(self) == step_left(with_selection_started(*old(self)), buf.text()),
    {
        self.start_selection();
        self.step_left_exec(buf);
    }

    /// Extends the selection one character right.
    pub fn move_right_select(&mut self, buf: &Buffer)
        ensures
            *final(self) == step_right(with_selection_started(*old(self)), buf.text()),
    {
        self.start_selection();
        self.step_right_exec(buf);
    }

    /// Extends the selection one line up.
    pub fn move_up_select(&mut self, buf: &Buffer)
        ensures
            *final(self) == step_up(with_selection_started(*old(self)), buf.text()),
    {
        self.start_selection();
        self.step_up_exec(buf);
    }

    /// Extends the selection one line down.
    pub fn move_down_select(&mut self, buf: &Buffer)
        ensures
            *final(self) == step_down(with_selection_started(*old(self)), buf.text()),
    {
        self.start_selection();
        self.step_down_exec(buf);
    }
}

// ── Laws ─────────────────────────────────────────────────────────────────────

/// The selection range is always ordered: its start comes no later than its end.
pub proof fn lemma_selection_ordered(c: Cursor)
    ensures
        selection_of(c) matches Some((s, e)) ==> pos_le(s, e),
        selection_of(c) is Some <==> c.sel_anchor is Some,
{
}

/// Moving right and then left from inside a line returns to the same column.
pub proof fn lemma_right_then_left(c: Cursor, t: Seq<char>)
    requires
        c.col < line_len(t, c.row as int),
        c.col < usize::MAX,
    ensures
        moved_left(moved_right(c, t), t).row == c.row,
        moved_left(moved_right(c, t), t).col == c.col,
        moved_left(moved_right(c, t), t).sel_anchor is None,
{
}

/// Moving left and then right from inside a line returns to the same column.
pub proof fn lemma_left_then_right(c: Cursor, t: Seq<char>)
    requires
        0 < c.col <= line_len(t, c.row as int),
    ensures
        moved_right(moved_left(c, t), t).row == c.row,
        moved_right(moved_left(c, t), t).col == c.col,
{
}

} // verus!
