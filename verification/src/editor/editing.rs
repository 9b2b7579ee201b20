//! The text and cursors an edit works on, and how every extra cursor takes part
//! in an edit made at the primary cursor.
use vstd::prelude::*;

use super::buffer::{
    char_index, checkpoint_model, join_text, lemma_line_text_fits, line_len, min_int, Buffer,
};
use super::cursor::{cleared, moved_left, moved_right, placed, selection_of, Cursor};

verus! {

/// The text, the primary cursor and the extra cursors.
pub struct EditState {
    pub text: Seq<char>,
    pub primary: Cursor,
    pub extras: Seq<Cursor>,
}

/// The text after `Buffer::insert_char(row, col, ch)`.
pub open spec fn text_inserted(t: Seq<char>, row: usize, col: usize, ch: char) -> Seq<char> {
    t.insert(min_int(char_index(t, row as int, col as int), t.len() as int), ch)
}

/// The text after `Buffer::delete_char(row, col)`.
pub open spec fn text_deleted(t: Seq<char>, row: usize, col: usize) -> Seq<char> {
    let i = char_index(t, row as int, col as int);
    if i < t.len() {
        t.remove(i)
    } else {
        t
    }
}

/// The text after `k` calls of `Buffer::delete_char(row, col)`.
pub open spec fn text_deleted_n(t: Seq<char>, row: usize, col: usize, k: nat) -> Seq<char>
    decreases k,
{
    if k == 0 {
        t
    } else {
        text_deleted(text_deleted_n(t, row, col, (k - 1) as nat), row, col)
    }
}

/// How the cursors after an edited position are moved along.
#[derive(Clone, Copy)]
pub enum Shift {
    /// A character was inserted at `(row, col)`: positions on `row` past `col`
    /// (or at `col` too, when `at_too`) move one to the right.
    Insert { row: usize, col: usize, at_too: bool },
    /// The characters `sc..ec` of `row` were removed: positions on `row` past
    /// `sc` become `(pos - ec, saturating at 0) + sc`.
    Removal { row: usize, sc: usize, ec: usize },
    /// The character before `col` on `row` was removed (`col > 0`): positions
    /// on `row` at or past `col` move one to the left.
    Backspace { row: usize, col: usize },
}

/// The shifts the edits make: a backspace is never at column 0, and a removed
/// range ends no earlier than it starts.
pub open spec fn shift_ok(sh: Shift) -> bool {
    match sh {
        Shift::Insert { .. } => true,
        Shift::Removal { sc, ec, .. } => sc <= ec,
        Shift::Backspace { col, .. } => col > 0,
    }
}

/// How far a shift can move a coordinate to the right.
pub open spec fn growth(sh: Shift) -> int {
    if sh is Insert {
        1
    } else {
        0
    }
}

/// Where a column `x` on the edited row ends up, when it is affected.
pub open spec fn shifted_col(x: usize, sh: Shift) -> usize {
    match sh {
        Shift::Insert { .. } => (x + 1) as usize,
        Shift::Removal { sc, ec, .. } => (if x >= ec { x - ec } else { 0 } + sc) as usize,
        Shift::Backspace { .. } => (x - 1) as usize,
    }
}

/// Whether a column `x` on the edited row is affected.
pub open spec fn col_affected(x: usize, sh: Shift) -> bool {
    match sh {
        Shift::Insert { col, at_too, .. } => x > col || (at_too && x == col),
        Shift::Removal { sc, .. } => x > sc,
        Shift::Backspace { col, .. } => x >= col,
    }
}

/// The row a shift is about.
pub open spec fn shift_row(sh: Shift) -> usize {
    match sh {
        Shift::Insert { row, .. } => row,
        Shift::Removal { row, .. } => row,
        Shift::Backspace { row, .. } => row,
    }
}

/// A cursor moved along by a shift: its position (remembering the new column)
/// and its anchor, each when it lies on the edited row and is affected.
pub open spec fn shifted(c: Cursor, sh: Shift) -> Cursor {
    let c1 = if c.row == shift_row(sh) && col_affected(c.col, sh) {
        Cursor { col: shifted_col(c.col, sh), desired_col: shifted_col(c.col, sh), ..c }
    } else {
        c
    };
    match c.sel_anchor {
        Some((ar, ac)) => if ar == shift_row(sh) && col_affected(ac, sh) {
            Cursor { sel_anchor: Some((ar, shifted_col(ac, sh))), ..c1 }
        } else {
            c1
        },
        None => c1,
    }
}

/// The cursors with every one from index `from` on shifted.
pub open spec fn shift_from(cs: Seq<Cursor>, from: int, sh: Shift) -> Seq<Cursor> {
    Seq::new(cs.len(), |j: int| if j >= from { shifted(cs[j], sh) } else { cs[j] })
}

/// Extra cursor `i` gives up its selection: a selection within one row is
/// deleted (the later extra cursors on that row pulled back); a selection over
/// several rows is only dropped. The cursor goes to the selection start.
pub open spec fn extra_selection_cleared(s: EditState, i: int) -> EditState {
    let c = s.extras[i];
    match selection_of(c) {
        Some((st, en)) => {
            let c2 = cleared(placed(c, st.0, st.1));
            if st.0 == en.0 {
                EditState {
                    text: text_deleted_n(s.text, st.0, st.1, (en.1 - st.1) as nat),
                    primary: s.primary,
                    extras: shift_from(s.extras, i + 1, Shift::Removal { row: st.0, sc: st.1, ec: en.1 }).update(i, c2),
                }
            } else {
                EditState { text: s.text, primary: s.primary, extras: s.extras.update(i, c2) }
            }
        },
        None => s,
    }
}

/// Extra cursor `i` types `ch`: inserted at its position, the cursor moves
/// right, later extra cursors on that row at or past it move right.
pub open spec fn extra_typed(s: EditState, i: int, ch: char) -> EditState {
    let c = s.extras[i];
    let t = text_inserted(s.text, c.row, c.col, ch);
    EditState {
        text: t,
        primary: s.primary,
        extras: shift_from(s.extras, i + 1, Shift::Insert { row: c.row, col: c.col, at_too: true }).update(i, moved_right(c, t)),
    }
}

/// Extra cursor `i` (without a selection) deletes the character before it, or
/// joins its line onto the previous one at the start of a line.
pub open spec fn extra_backspaced(s: EditState, i: int) -> EditState {
    let c = s.extras[i];
    if c.col > 0 {
        let t = text_deleted(s.text, c.row, (c.col - 1) as usize);
        EditState {
            text: t,
            primary: s.primary,
            extras: shift_from(s.extras, i + 1, Shift::Backspace { row: c.row, col: c.col }).update(i, moved_left(c, t)),
        }
    } else if c.row > 0 {
        EditState {
            text: join_text(s.text, c.row as int),
            primary: s.primary,
            extras: s.extras.update(i, placed(c, (c.row - 1) as usize, line_len(s.text, c.row - 1) as usize)),
        }
    } else {
        s
    }
}

/// Extra cursor `i` breaks its line: a line break at its position, the cursor
/// at the start of the next row.
pub open spec fn extra_newlined(s: EditState, i: int) -> EditState {
    let c = s.extras[i];
    EditState {
        text: text_inserted(s.text, c.row, c.col, '\n'),
        primary: s.primary,
        extras: s.extras.update(i, placed(c, (c.row + 1) as usize, 0)),
    }
}

/// The edit every extra cursor repeats.
#[derive(Clone, Copy)]
pub enum ExtraEdit {
    Type(char),
    Backspace,
    Newline,
}

/// What extra cursor `i` does for an edit.
pub open spec fn extra_step(s: EditState, i: int, e: ExtraEdit) -> EditState {
    match e {
        ExtraEdit::Type(ch) => extra_typed(extra_selection_cleared(s, i), i, ch),
        ExtraEdit::Backspace => if s.extras[i].sel_anchor is Some {
            extra_selection_cleared(s, i)
        } else {
            extra_backspaced(s, i)
        },
        ExtraEdit::Newline => extra_newlined(extra_selection_cleared(s, i), i),
    }
}

/// The state after extra cursors `0..k` have, in order, made the edit.
pub open spec fn extras_edited(s: EditState, e: ExtraEdit, k: nat) -> EditState
    decreases k,
{
    if k == 0 {
        s
    } else {
        extra_step(extras_edited(s, e, (k - 1) as nat), k - 1, e)
    }
}

// ── Room for the arithmetic ──────────────────────────────────────────────────

/// Every coordinate of `c`, plus `b`, fits in a `usize`.
pub open spec fn fits(c: Cursor, b: int) -> bool {
    &&& c.row + b <= usize::MAX
    &&& c.col + b <= usize::MAX
    &&& c.desired_col + b <= usize::MAX
    &&& c.sel_anchor matches Some((ar, ac)) ==> ar + b <= usize::MAX && ac + b <= usize::MAX
}

/// The text length and every extra cursor coordinate leave `slack` steps of
/// growth (of the text and of the coordinates) within a `usize`.
pub open spec fn extras_room(t: Seq<char>, cs: Seq<Cursor>, slack: int) -> bool {
    &&& 0 <= slack
    &&& cs.len() < usize::MAX
    &&& 2 * t.len() + slack <= usize::MAX
    &&& forall|j: int| 0 <= j < cs.len() ==> fits(#[trigger] cs[j], t.len() + slack)
}

/// The state of a buffer and extra cursors.
pub open spec fn state_of(buf: &Buffer, primary: Cursor, cs: Seq<Cursor>) -> EditState {
    EditState { text: buf.text(), primary, extras: cs }
}

pub proof fn lemma_line_len_le(t: Seq<char>, k: int)
    ensures
        line_len(t, k) <= t.len(),
{
    if 0 <= k {
        lemma_line_text_fits(t, k);
        super::buffer::lemma_line_start(t, 0, k);
    }
}

pub proof fn lemma_char_index_nonneg(t: Seq<char>, row: int, col: int)
    requires
        0 <= col,
    ensures
        0 <= char_index(t, row, col),
{
    let r = if row < super::buffer::line_count(t) - 1 { row } else { super::buffer::line_count(t) - 1 };
    super::buffer::lemma_line_start(t, r, r);
}

pub proof fn lemma_text_deleted_len(t: Seq<char>, row: usize, col: usize)
    ensures
        text_deleted(t, row, col).len() <= t.len(),
{
    lemma_char_index_nonneg(t, row as int, col as int);
}

pub proof fn lemma_text_deleted_n_len(t: Seq<char>, row: usize, col: usize, k: nat)
    ensures
        text_deleted_n(t, row, col, k).len() <= t.len(),
    decreases k,
{
    if k > 0 {
        lemma_text_deleted_n_len(t, row, col, (k - 1) as nat);
        lemma_text_deleted_len(text_deleted_n(t, row, col, (k - 1) as nat), row, col);
    }
}

pub proof fn lemma_join_text_len(t: Seq<char>, row: int)
    ensures
        join_text(t, row).len() <= t.len(),
{
    if super::buffer::join_removes(t, row) {
        super::buffer::lemma_break_positions(t, t.len());
        super::buffer::lemma_line_start(t, row, row);
        let b = super::buffer::breaks(t);
        assert(0 <= b[row - 1]);
    }
}

// ── Executable pieces ────────────────────────────────────────────────────────

/// Deletes the character at `(row, col)` `k` times.
pub(crate) fn delete_chars(buf: &mut Buffer, row: usize, col: usize, k: usize)
    ensures
        final(buf)@.history == old(buf)@.history,
        final(buf)@.future == old(buf)@.future,
        final(buf).text() == text_deleted_n(old(buf).text(), row, col, k as nat),
{
    let mut n: usize = 0;
    while n < k
        invariant
            n <= k,
            buf.text().len() <= old(buf).text().len(),
            buf@.history == old(buf)@.history,
            buf@.future == old(buf)@.future,
            buf.text() == text_deleted_n(old(buf).text(), row, col, n as nat),
        decreases k - n,
    {
        proof {
            lemma_text_deleted_len(buf.text(), row, col);
        }
        buf.delete_char(row, col);
        n += 1;
    }
}

/// Applies a shift to one cursor.
fn shift_cursor(c: Cursor, sh: Shift) -> (r: Cursor)
    requires
        fits(c, growth(sh)),
        shift_ok(sh),
    ensures
        r == shifted(c, sh),
{
    let mut r = c;
    let (row, aff_row) = match sh {
        Shift::Insert { row, .. } => (row, row),
        Shift::Removal { row, .. } => (row, row),
        Shift::Backspace { row, .. } => (row, row),
    };
    if c.row == row && col_affected_exec(c.col, sh) {
        let n = shifted_col_exec(c.col, sh);
        r.col = n;
        r.desired_col = n;
    }
    if let Some((ar, ac)) = c.sel_anchor {
        if ar == aff_row && col_affected_exec(ac, sh) {
            r.sel_anchor = Some((ar, shifted_col_exec(ac, sh)));
        }
    }
    r
}

fn col_affected_exec(x: usize, sh: Shift) -> (b: bool)
    ensures
        b == col_affected(x, sh),
{
    match sh {
        Shift::Insert { col, at_too, .. } => x > col || (at_too && x == col),
        Shift::Removal { sc, .. } => x > sc,
        Shift::Backspace { col, .. } => x >= col,
    }
}

fn shifted_col_exec(x: usize, sh: Shift) -> (r: usize)
    requires
        x + growth(sh) <= usize::MAX,
        col_affected(x, sh),
        shift_ok(sh),
    ensures
        r == shifted_col(x, sh),
{
    match sh {
        Shift::Insert { .. } => x + 1,
        Shift::Removal { sc, ec, .. } => x.saturating_sub(ec).saturating_add(sc),
        Shift::Backspace { .. } => x - 1,
    }
}

/// Shifts every cursor from index `from` on.
pub(crate) fn shift_cursors_from(cs: &mut Vec<Cursor>, from: usize, sh: Shift)
    requires
        forall|j: int| from <= j < old(cs)@.len() ==> fits(#[trigger] old(cs)@[j], growth(sh)),
        shift_ok(sh),
    ensures
        final(cs)@ == shift_from(old(cs)@, from as int, sh),
{
    let mut j: usize = from;
    while j < cs.len()
        invariant
            from <= j,
            cs@.len() == old(cs)@.len(),
            shift_ok(sh),
            forall|k: int| from <= k < old(cs)@.len() ==> fits(#[trigger] old(cs)@[k], growth(sh)),
            forall|k: int| 0 <= k < cs@.len() ==> #[trigger] cs@[k] == (if from <= k < j {
                shifted(old(cs)@[k], sh)
            } else {
                old(cs)@[k]
            }),
        decreases cs.len() - j,
    {
        let c = cs[j];
        let c2 = shift_cursor(c, sh);
        cs.set(j, c2);
        j += 1;
    }
    proof {
        assert(cs@ =~= shift_from(old(cs)@, from as int, sh));
    }
}


// ── Room lemmas ──────────────────────────────────────────────────────────────

pub proof fn lemma_room_mono(t: Seq<char>, cs: Seq<Cursor>, a: int, b: int)
    requires
        extras_room(t, cs, a),
        0 <= b <= a,
    ensures
        extras_room(t, cs, b),
{
    assert forall|j: int| 0 <= j < cs.len() implies fits(#[trigger] cs[j], t.len() + b) by {
        assert(fits(cs[j], t.len() + a));
    }
}

/// Room for `slack` more steps, from a bound `b` on every coordinate.
pub proof fn lemma_room_from(t: Seq<char>, cs: Seq<Cursor>, slack: int, b: int)
    requires
        forall|j: int| 0 <= j < cs.len() ==> fits(#[trigger] cs[j], b),
        0 <= slack,
        t.len() + slack <= b,
        2 * t.len() + slack <= usize::MAX,
        cs.len() < usize::MAX,
    ensures
        extras_room(t, cs, slack),
{
    assert forall|j: int| 0 <= j < cs.len() implies fits(#[trigger] cs[j], t.len() + slack) by {
        assert(fits(cs[j], b));
    }
}

/// A shift moves coordinates by at most one to the right (an insertion) and
/// never to the right otherwise.
pub proof fn lemma_shift_fits(c: Cursor, sh: Shift, b: int)
    requires
        shift_ok(sh),
        fits(c, if sh is Insert { b + 1 } else { b }),
    ensures
        fits(shifted(c, sh), b),
{
}

/// Every cursor from `from` on, shifted, still fits.
pub proof fn lemma_shift_from_fits(cs: Seq<Cursor>, from: int, sh: Shift, b: int)
    requires
        shift_ok(sh),
        forall|j: int| 0 <= j < cs.len() ==> fits(#[trigger] cs[j], if sh is Insert { b + 1 } else { b }),
    ensures
        forall|j: int| 0 <= j < cs.len() ==> fits(#[trigger] shift_from(cs, from, sh)[j], b),
{
    assert forall|j: int| 0 <= j < cs.len() implies fits(#[trigger] shift_from(cs, from, sh)[j], b) by {
        assert(fits(cs[j], if sh is Insert { b + 1 } else { b }));
        if j >= from {
            lemma_shift_fits(cs[j], sh, b);
        }
    }
}

// ── One extra cursor ─────────────────────────────────────────────────────────

/// Extra cursor `i` gives up its selection (`extra_selection_cleared`).
fn clear_extra_selection(buf: &mut Buffer, cs: &mut Vec<Cursor>, i: usize, Ghost(p): Ghost<Cursor>, Ghost(slack): Ghost<int>)
    requires
        i < old(cs)@.len(),
        extras_room(old(buf).text(), old(cs)@, slack),
    ensures
        state_of(final(buf), p, final(cs)@) == extra_selection_cleared(state_of(old(buf), p, old(cs)@), i as int),
        final(buf)@.history == old(buf)@.history,
        final(buf)@.future == old(buf)@.future,
        final(buf).text().len() <= old(buf).text().len(),
        extras_room(final(buf).text(), final(cs)@, slack),
{
    let ghost s0 = state_of(buf, p, cs@);
    let c = cs[i];
    if let Some(((sr, sc), (er, ec))) = c.selection_range() {
        let ghost t0 = buf.text();
        let ghost b0 = t0.len() + slack;
        assert(fits(cs@[i as int], b0));
        if sr == er {
            delete_chars(buf, sr, sc, ec - sc);
            let mut c2 = c;
            c2.set_position(sr, sc);
            c2.clear_selection();
            proof {
                lemma_text_deleted_n_len(t0, sr, sc, (ec - sc) as nat);
                assert forall|j: int| 0 <= j < cs@.len() implies fits(#[trigger] cs@[j], b0) by {}
            }
            shift_cursors_from(cs, i + 1, Shift::Removal { row: sr, sc, ec });
            proof {
                let b1 = buf.text().len() + slack;
                lemma_shift_from_fits(old(cs)@, i + 1, Shift::Removal { row: sr, sc, ec }, b0);
                assert forall|j: int| 0 <= j < cs@.len() implies fits(#[trigger] cs@[j], b1) by {
                    assert(fits(shift_from(old(cs)@, i + 1, Shift::Removal { row: sr, sc, ec })[j], b0));
                }
            }
            cs.set(i, c2);
            proof {
                let b1 = buf.text().len() + slack;
                assert forall|j: int| 0 <= j < cs@.len() implies fits(#[trigger] cs@[j], b1) by {
                    if j != i {
                        assert(fits(shift_from(old(cs)@, i + 1, Shift::Removal { row: sr, sc, ec })[j], b0));
                    }
                }
            }
        } else {
            let mut c2 = c;
            c2.set_position(sr, sc);
            c2.clear_selection();
            cs.set(i, c2);
            proof {
                assert forall|j: int| 0 <= j < cs@.len() implies fits(#[trigger] cs@[j], b0) by {
                    if j != i {
                        assert(fits(old(cs)@[j], b0));
                    }
                }
            }
        }
    }
}

/// Extra cursor `i` types `ch` (`extra_typed`).
fn type_at_extra(buf: &mut Buffer, cs: &mut Vec<Cursor>, i: usize, ch: char, Ghost(p): Ghost<Cursor>, Ghost(slack): Ghost<int>)
    requires
        i < old(cs)@.len(),
        slack >= 2,
        extras_room(old(buf).text(), old(cs)@, slack),
    ensures
        state_of(final(buf), p, final(cs)@) == extra_typed(state_of(old(buf), p, old(cs)@), i as int, ch),
        final(buf)@.history == old(buf)@.history,
        final(buf)@.future == old(buf)@.future,
        extras_room(final(buf).text(), final(cs)@, slack - 2),
{
    let ghost t0 = buf.text();
    let ghost b0 = t0.len() + slack;
    let mut c = cs[i];
    proof {
        assert(fits(cs@[i as int], b0));
    }
    let (er, ec) = c.position();
    proof {
        lemma_char_index_nonneg(t0, er as int, ec as int);
    }
    buf.insert_char(er, ec, ch);
    c.move_right(buf);
    proof {
        assert forall|j: int| 0 <= j < cs@.len() implies fits(#[trigger] cs@[j], b0) by {}
        lemma_shift_from_fits(cs@, i + 1, Shift::Insert { row: er, col: ec, at_too: true }, b0 - 1);
    }
    shift_cursors_from(cs, i + 1, Shift::Insert { row: er, col: ec, at_too: true });
    cs.set(i, c);
    proof {
        let b1 = buf.text().len() + slack - 2;
        assert forall|j: int| 0 <= j < cs@.len() implies fits(#[trigger] cs@[j], b1) by {
            if j != i {
                assert(fits(shift_from(old(cs)@, i + 1, Shift::Insert { row: er, col: ec, at_too: true })[j], b0 - 1));
            }
        }
    }
}

/// Extra cursor `i` deletes backwards (`extra_backspaced`).
fn backspace_at_extra(buf: &mut Buffer, cs: &mut Vec<Cursor>, i: usize, Ghost(p): Ghost<Cursor>, Ghost(slack): Ghost<int>)
    requires
        i < old(cs)@.len(),
        slack >= 2,
        extras_room(old(buf).text(), old(cs)@, slack),
    ensures
        state_of(final(buf), p, final(cs)@) == extra_backspaced(state_of(old(buf), p, old(cs)@), i as int),
        final(buf)@.history == old(buf)@.history,
        final(buf)@.future == old(buf)@.future,
        extras_room(final(buf).text(), final(cs)@, slack - 2),
{
    let ghost t0 = buf.text();
    let ghost b0 = t0.len() + slack;
    let mut c = cs[i];
    proof {
        assert(fits(cs@[i as int], b0));
        assert forall|j: int| 0 <= j < cs@.len() implies fits(#[trigger] cs@[j], b0) by {}
    }
    let (er, ec) = c.position();
    if ec > 0 {
        buf.delete_char(er, ec - 1);
        c.move_left(buf);
        proof {
            lemma_text_deleted_len(t0, er, (ec - 1) as usize);
            lemma_line_len_le(buf.text(), er - 1);
            lemma_shift_from_fits(cs@, i + 1, Shift::Backspace { row: er, col: ec }, b0);
        }
        shift_cursors_from(cs, i + 1, Shift::Backspace { row: er, col: ec });
        cs.set(i, c);
        proof {
            let b1 = buf.text().len() + slack - 2;
            assert forall|j: int| 0 <= j < cs@.len() implies fits(#[trigger] cs@[j], b1) by {
                if j != i {
                    assert(fits(shift_from(old(cs)@, i + 1, Shift::Backspace { row: er, col: ec })[j], b0));
                }
            }
        }
    } else if er > 0 {
        let prev_len = buf.line_len(er - 1);
        buf.join_lines(er);
        c.set_position(er - 1, prev_len);
        cs.set(i, c);
        proof {
            lemma_line_len_le(t0, er - 1);
            lemma_join_text_len(t0, er as int);
            let b1 = buf.text().len() + slack - 2;
            assert forall|j: int| 0 <= j < cs@.len() implies fits(#[trigger] cs@[j], b1) by {
                if j != i {
                    assert(fits(old(cs)@[j], b0));
                }
            }
        }
    } else {
        proof {
            lemma_room_mono(t0, cs@, slack, slack - 2);
        }
    }
}

/// Extra cursor `i` breaks its line (`extra_newlined`).
fn newline_at_extra(buf: &mut Buffer, cs: &mut Vec<Cursor>, i: usize, Ghost(p): Ghost<Cursor>, Ghost(slack): Ghost<int>)
    requires
        i < old(cs)@.len(),
        slack >= 2,
        extras_room(old(buf).text(), old(cs)@, slack),
    ensures
        state_of(final(buf), p, final(cs)@) == extra_newlined(state_of(old(buf), p, old(cs)@), i as int),
        final(buf)@.history == old(buf)@.history,
        final(buf)@.future == old(buf)@.future,
        extras_room(final(buf).text(), final(cs)@, slack - 2),
{
    let ghost t0 = buf.text();
    let ghost b0 = t0.len() + slack;
    let mut c = cs[i];
    proof {
        assert(fits(cs@[i as int], b0));
        lemma_char_index_nonneg(t0, c.row as int, c.col as int);
    }
    let (er, ec) = c.position();
    buf.split_line(er, ec);
    c.set_position(er + 1, 0);
    cs.set(i, c);
    proof {
        let b1 = buf.text().len() + slack - 2;
        assert forall|j: int| 0 <= j < cs@.len() implies fits(#[trigger] cs@[j], b1) by {
            if j != i {
                assert(fits(old(cs)@[j], b0));
            }
        }
    }
}

/// Every extra cursor, in order, makes the edit `e` (`extras_edited`).
pub(crate) fn edit_extras(buf: &mut Buffer, cs: &mut Vec<Cursor>, e: ExtraEdit, Ghost(p): Ghost<Cursor>)
    requires
        extras_room(old(buf).text(), old(cs)@, 2 * old(cs)@.len() as int + 2),
    ensures
        state_of(final(buf), p, final(cs)@) == extras_edited(state_of(old(buf), p, old(cs)@), e, old(cs)@.len()),
        final(buf)@.history == old(buf)@.history,
        final(buf)@.future == old(buf)@.future,
{
    let n = cs.len();
    let mut i: usize = 0;
    while i < n
        invariant
            i <= n,
            n == old(cs)@.len(),
            cs@.len() == n,
            buf@.history == old(buf)@.history,
            buf@.future == old(buf)@.future,
            state_of(buf, p, cs@) == extras_edited(state_of(old(buf), p, old(cs)@), e, i as nat),
            extras_room(buf.text(), cs@, 2 * (n - i) + 2),
        decreases n - i,
    {
        let ghost slack: int = 2 * (n - i) + 2;
        match e {
            ExtraEdit::Type(ch) => {
                clear_extra_selection(buf, cs, i, Ghost(p), Ghost(slack));
                type_at_extra(buf, cs, i, ch, Ghost(p), Ghost(slack));
            },
            ExtraEdit::Backspace => {
                if cs[i].has_selection() {
                    clear_extra_selection(buf, cs, i, Ghost(p), Ghost(slack));
                    proof {
                        lemma_room_mono(buf.text(), cs@, slack, slack - 2);
                    }
                } else {
                    backspace_at_extra(buf, cs, i, Ghost(p), Ghost(slack));
                }
            },
            ExtraEdit::Newline => {
                clear_extra_selection(buf, cs, i, Ghost(p), Ghost(slack));
                newline_at_extra(buf, cs, i, Ghost(p), Ghost(slack));
            },
        }
        i += 1;
    }
}
} // verus!
