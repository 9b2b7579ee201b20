//! Typing, deleting and breaking lines at the primary cursor and every extra cursor.
use vstd::prelude::*;

use super::auto_close::{
    auto_close_ok, closing_of, closing_pair, is_closing, is_closing_char, should_auto_close,
    should_skip_quote_auto_close, skip_quote,
};
use super::buffer::{
    char_index, checkpoint_model, join_text, line_len, line_text, min_int, remove_text, Buffer,
};
use super::cursor::{cleared, moved_left, moved_right, placed, selection_of, Cursor};
use super::editing::{
    edit_extras, extra_step, shift_cursors_from, extras_edited, extras_room, fits, lemma_char_index_nonneg, lemma_join_text_len,
    lemma_line_len_le, lemma_room_from, lemma_room_mono, lemma_shift_from_fits, lemma_text_deleted_len,
    shift_from, state_of, text_deleted, text_inserted, EditState, ExtraEdit, Shift,
};
use super::{same_besides_edit, Editor};
use crate::paths::opt_string_text;

verus! {

/// `v` bumped (wrapping) `k` times.
pub open spec fn bumped(v: i32, k: nat) -> i32
    decreases k,
{
    if k == 0 {
        v
    } else {
        bumped(v, (k - 1) as nat).wrapping_add(1)
    }
}

/// The primary selection removed and the primary cursor at its start
/// (`delete_selection`); unchanged without a selection.
pub open spec fn selection_deleted(s: EditState) -> EditState {
    match selection_of(s.primary) {
        Some((st, en)) => {
            let a = char_index(s.text, st.0 as int, st.1 as int);
            let b = min_int(char_index(s.text, en.0 as int, en.1 as int), s.text.len() as int);
            EditState {
                text: if a < b { remove_text(s.text, a, b) } else { s.text },
                primary: cleared(placed(s.primary, st.0, st.1)),
                extras: s.extras,
            }
        },
        None => s,
    }
}

/// The text of the primary selection (`selected_text`): the characters
/// between its start and end, the end clamped to the text.
pub open spec fn selection_text(s: EditState) -> Option<Seq<char>> {
    match selection_of(s.primary) {
        Some((st, en)) => {
            let a = char_index(s.text, st.0 as int, st.1 as int);
            let b = min_int(char_index(s.text, en.0 as int, en.1 as int), s.text.len() as int);
            Some(if a < b { s.text.subrange(a, b) } else { seq![] })
        },
        None => None,
    }
}

/// The character of `line` at `i`, if there is one.
pub open spec fn char_at(line: Seq<char>, i: int) -> Option<char> {
    if 0 <= i < line.len() {
        Some(line[i])
    } else {
        None
    }
}

/// The state after typing `ch`, and how many times the content version is
/// bumped:
/// - with auto-close on, typing the closing character that is under the
///   cursor only steps over it;
/// - with auto-close on, typing an opening character over a selection wraps
///   the selection in the pair;
/// - otherwise the selection (if any) is deleted, `ch` is inserted and the
///   cursor steps past it; with auto-close on, an opening character gets its
///   closing partner when followed by nothing, white space or a closing
///   character (a quote not after an alphanumeric character); extra cursors
///   on the row past the insertion move along, and then every extra cursor
///   types `ch` as well.
#[verifier::opaque]
pub open spec fn typed(s: EditState, ch: char, auto_close: bool) -> (EditState, nat) {
    let t = s.text;
    let p = s.primary;
    let line = line_text(t, p.row as int);
    if auto_close && is_closing_char(ch) && p.col < line.len() && line[p.col as int] == ch {
        (EditState { text: t, primary: moved_right(p, t), extras: s.extras }, 0)
    } else if auto_close && closing_of(ch) is Some && selection_of(p) is Some {
        let close = closing_of(ch)->0;
        let (st, en) = selection_of(p)->0;
        let t2 = text_inserted(text_inserted(t, en.0, en.1, close), st.0, st.1, ch);
        let col = if st.0 == en.0 { en.1 + 2 } else { en.1 + 1 };
        (EditState { text: t2, primary: cleared(placed(p, en.0, col as usize)), extras: s.extras }, 1)
    } else {
        let s1 = selection_deleted(s);
        let (row, col) = (s1.primary.row, s1.primary.col);
        let t2 = text_inserted(s1.text, row, col, ch);
        let p2 = moved_right(s1.primary, t2);
        let line2 = line_text(t2, row as int);
        let next = char_at(line2, col + 1);
        let prev = if col > 0 { char_at(line2, col - 1) } else { None };
        let t3 = if auto_close && closing_of(ch) is Some && !skip_quote(ch, prev) && auto_close_ok(next) {
            text_inserted(t2, p2.row, p2.col, closing_of(ch)->0)
        } else {
            t2
        };
        let s3 = EditState {
            text: t3,
            primary: p2,
            extras: shift_from(s1.extras, 0, Shift::Insert { row, col, at_too: false }),
        };
        (extras_edited(s3, ExtraEdit::Type(ch), s.extras.len()), if p.sel_anchor is Some { 2nat } else { 1nat })
    }
}

/// The text of a single character that is no line break is one line: that
/// character.
proof fn lemma_one_char_line(c: char)
    requires
        c != '\n' && c != '\r' && !super::buffer::is_line_break(c),
    ensures
        super::buffer::line_count(seq![c]) == 1,
        line_text(seq![c], 0) == seq![c],
        super::buffer::line_start(seq![c], 0) == 0,
{
    let t = seq![c];
    assert(!super::buffer::break_ends_at(t, 0));
    assert(super::buffer::break_positions(t, 0) =~= Seq::<int>::empty());
    assert(super::buffer::break_positions(t, 1) =~= Seq::<int>::empty());
    assert(super::buffer::raw_line(t, 0) =~= t);
    assert(crate::text::trim_end_char(t, '\n') =~= t);
    assert(crate::text::trim_end_char(t, '\r') =~= t);
}

/// Typing an opening bracket into an empty text with auto-close on gives the
/// bracket followed by its own closing partner, with the cursor between
/// them: `(` gives `()`, `[` gives `[]`, `{` gives `{}`.
pub proof fn lemma_typing_open_bracket_closes_it(s: EditState, ch: char)
    requires
        s.text.len() == 0,
        s.primary.row == 0 && s.primary.col == 0 && s.primary.sel_anchor is None,
        s.extras.len() == 0,
        ch == '(' || ch == '[' || ch == '{',
    ensures
        typed(s, ch, true).0.text == seq![ch, if ch == '(' { ')' } else if ch == '[' { ']' } else { '}' }],
        typed(s, ch, true).0.primary.row == 0,
        typed(s, ch, true).0.primary.col == 1,
        typed(s, ch, true).0.extras.len() == 0,
{
    reveal(typed);
    let t = s.text;
    assert(super::buffer::breaks(t) =~= Seq::<int>::empty());
    assert(line_text(t, 0) =~= Seq::<char>::empty()) by {
        assert(super::buffer::raw_line(t, 0) =~= Seq::<char>::empty());
    }
    lemma_one_char_line(ch);
    let t2 = seq![ch];
    assert(t.insert(0, ch) =~= t2);
    let close = if ch == '(' { ')' } else if ch == '[' { ']' } else { '}' };
    assert(t2.insert(1, close) =~= seq![ch, close]);
}

/// The state after a backspace:
/// - a selection is deleted, and nothing else happens;
/// - between an opening character and its closing partner, both go;
/// - otherwise the character before the cursor goes (extra cursors on the row
///   at or past it move back), or at the start of a line the line is joined
///   onto the previous one; then every extra cursor deletes backwards too.
pub open spec fn backspaced(s: EditState) -> EditState {
    let t = s.text;
    let p = s.primary;
    let (row, col) = (p.row, p.col);
    let line = line_text(t, row as int);
    if p.sel_anchor is Some {
        selection_deleted(s)
    } else if col > 0 && closing_of(line[col - 1]) is Some && col < line.len() && line[col as int] == closing_of(
        line[col - 1],
    )->0 {
        let t2 = text_deleted(text_deleted(t, row, col), row, (col - 1) as usize);
        EditState { text: t2, primary: moved_left(p, t2), extras: s.extras }
    } else {
        let s1 = if col > 0 {
            let t1 = text_deleted(t, row, (col - 1) as usize);
            EditState {
                text: t1,
                primary: moved_left(p, t1),
                extras: shift_from(s.extras, 0, Shift::Backspace { row, col }),
            }
        } else if row > 0 {
            EditState {
                text: join_text(t, row as int),
                primary: placed(p, (row - 1) as usize, line_len(t, row - 1) as usize),
                extras: s.extras,
            }
        } else {
            s
        };
        extras_edited(s1, ExtraEdit::Backspace, s.extras.len())
    }
}

/// The state after breaking the line: the selection (if any) deleted, a line
/// break at the cursor, the cursor at the start of the next row, then the
/// same at every extra cursor; and how many times the version is bumped.
pub open spec fn newlined(s: EditState) -> (EditState, nat) {
    let s1 = selection_deleted(s);
    let p = s1.primary;
    let s2 = EditState {
        text: text_inserted(s1.text, p.row, p.col, '\n'),
        primary: placed(p, (p.row + 1) as usize, 0),
        extras: s1.extras,
    };
    (extras_edited(s2, ExtraEdit::Newline, s.extras.len()), if s.primary.sel_anchor is Some { 2nat } else { 1nat })
}

/// Deleting the selection never lengthens the text.
pub proof fn lemma_selection_deleted_len(s: EditState)
    ensures
        selection_deleted(s).text.len() <= s.text.len(),
        selection_deleted(s).extras == s.extras,
        s.primary.sel_anchor is None ==> selection_deleted(s) == s,
{
    if let Some((st, en)) = selection_of(s.primary) {
        lemma_char_index_nonneg(s.text, st.0 as int, st.1 as int);
    }
}

impl Editor {
    /// The text and the cursors.
    pub open spec fn state(&self) -> EditState {
        state_of(&self.buffer, self.cursor, self.extra_cursors@)
    }

    /// The text length and cursor coordinates leave room for an edit at every
    /// cursor within a `usize`.
    pub open spec fn has_room(&self) -> bool {
        let slack = 2 * self.extra_cursors@.len() as int + 8;
        &&& extras_room(self.buffer.text(), self.extra_cursors@, slack)
        &&& fits(self.cursor, self.buffer.text().len() + slack)
    }

    /// The primary cursor's coordinates fit a `usize` added to the text length.
    pub open spec fn cursor_fits(&self) -> bool {
        fits(self.cursor, self.buffer.text().len() as int)
    }

    /// The text of the primary selection, if there is one.
    pub fn selected_text(&self) -> (r: Option<String>)
        requires
            self.cursor_fits(),
        ensures
            opt_string_text(r) == selection_text(self.state()),
    {
        let ((sr, sc), (er, ec)) = match self.cursor.selection_range() {
            Some(r) => r,
            None => return None,
        };
        let start = self.buffer.char_index(sr, sc);
        let e = self.buffer.char_index(er, ec);
        let len = self.buffer.rope_len();
        let end = if e < len {
            e
        } else {
            len
        };
        Some(self.buffer.rope_slice(start, end))
    }

    /// Deletes the primary selection and puts the cursor at its start.
    pub fn delete_selection(&mut self)
        requires
            old(self).cursor_fits(),
        ensures
            final(self).state() == selection_deleted(old(self).state()),
            final(self).buffer@.history == old(self).buffer@.history,
            final(self).buffer@.future == old(self).buffer@.future,
            selection_of(old(self).cursor) is Some ==> final(self).is_modified
                && final(self).content_version == old(self).content_version.wrapping_add(1),
            selection_of(old(self).cursor) is None ==> final(self).is_modified == old(self).is_modified
                && final(self).content_version == old(self).content_version,
            same_besides_edit(*old(self), *final(self)),
    {
        let ghost before = *self;
        let ghost extras = self.extra_cursors@;
        let deleted = delete_selection_in(&mut self.buffer, &mut self.cursor, Ghost(extras));
        if deleted {
            self.is_modified = true;
            self.content_version = self.content_version.wrapping_add(1);
        }
        assert(same_besides_edit(before, *self));
    }

    /// Types `ch` at the primary cursor and at every extra cursor, with
    /// auto-closing of brackets and quotes when enabled (see `typed`); the text
    /// before is kept as an undo snapshot.
    #[verifier::rlimit(80)]
    pub fn insert_char(&mut self, ch: char, auto_close_enabled: bool)
        requires
            old(self).has_room(),
        ensures
            final(self).state() == typed(old(self).state(), ch, auto_close_enabled).0,
            final(self).buffer@.history == checkpoint_model(old(self).buffer@).history,
            final(self).buffer@.future.len() == 0,
            final(self).is_modified == (old(self).is_modified || typed(old(self).state(), ch, auto_close_enabled).1 > 0),
            final(self).content_version == bumped(old(self).content_version, typed(old(self).state(), ch, auto_close_enabled).1),
            same_besides_edit(*old(self), *final(self)),
    {
        self.buffer.checkpoint();
        let bumps = type_everywhere(&mut self.buffer, &mut self.cursor, &mut self.extra_cursors, ch, auto_close_enabled);
        self.is_modified = modified_after(self.is_modified, bumps);
        self.content_version = bump_version(self.content_version, bumps);
    }

    /// Deletes backwards at the primary cursor and at every extra cursor (see
    /// `backspaced`); the text before is kept as an undo snapshot.
    pub fn delete_char_before(&mut self)
        requires
            old(self).has_room(),
            old(self).cursor.sel_anchor is None && old(self).cursor.col > 0 ==> old(self).cursor.col <= line_len(
                old(self).buffer.text(),
                old(self).cursor.row as int,
            ),
        ensures
            final(self).state() == backspaced(old(self).state()),
            final(self).buffer@.history == checkpoint_model(old(self).buffer@).history,
            final(self).buffer@.future.len() == 0,
            final(self).is_modified,
            final(self).content_version == old(self).content_version.wrapping_add(1),
            same_besides_edit(*old(self), *final(self)),
    {
        let ghost before = *self;
        self.buffer.checkpoint();
        backspace_everywhere(&mut self.buffer, &mut self.cursor, &mut self.extra_cursors);
        self.is_modified = true;
        self.content_version = self.content_version.wrapping_add(1);
        assert(same_besides_edit(before, *self));
    }

    /// Breaks the line at the primary cursor (its selection deleted first) and
    /// at every extra cursor; the text before is kept as an undo snapshot.
    pub fn insert_newline(&mut self)
        requires
            old(self).has_room(),
        ensures
            final(self).state() == newlined(old(self).state()).0,
            final(self).buffer@.history == checkpoint_model(old(self).buffer@).history,
            final(self).buffer@.future.len() == 0,
            final(self).is_modified,
            final(self).content_version == bumped(old(self).content_version, newlined(old(self).state()).1),
            same_besides_edit(*old(self), *final(self)),
    {
        self.buffer.checkpoint();
        let bumps: u8 = if self.cursor.has_selection() {
            2
        } else {
            1
        };
        newline_everywhere(&mut self.buffer, &mut self.cursor, &mut self.extra_cursors);
        self.is_modified = true;
        self.content_version = bump_version(self.content_version, bumps);
    }
}

/// Types `ch` at every cursor (`typed`); returns how many times the content
/// version is to be bumped.
#[verifier::rlimit(40)]
fn type_everywhere(buf: &mut Buffer, cursor: &mut Cursor, cs: &mut Vec<Cursor>, ch: char, auto_close: bool) -> (bumps: u8)
    requires
        ({
            let slack = 2 * old(cs)@.len() as int + 8;
            &&& extras_room(old(buf).text(), old(cs)@, slack)
            &&& fits(*old(cursor), old(buf).text().len() + slack)
        }),
    ensures
        state_of(final(buf), *final(cursor), final(cs)@) == typed(state_of(old(buf), *old(cursor), old(cs)@), ch, auto_close).0,
        bumps == typed(state_of(old(buf), *old(cursor), old(cs)@), ch, auto_close).1,
        bumps <= 2,
        final(buf)@.history == old(buf)@.history,
        final(buf)@.future == old(buf)@.future,
{
    let ghost s0 = state_of(buf, *cursor, cs@);
    let ghost n = cs@.len() as int;
    proof {
        reveal(typed);
    }
    if auto_close && is_closing(ch) {
        let (row, col) = cursor.position();
        let chars = buf.line_vec(row);
        if col < chars.len() && chars[col] == ch {
            cursor.move_right(buf);
            cursor.clear_selection();
            return 0;
        }
    }
    if auto_close && cursor.has_selection() {
        if let Some(close) = closing_pair(ch) {
            if let Some(((sr, sc), (er, ec))) = cursor.selection_range() {
                proof {
                    lemma_char_index_nonneg(buf.text(), er as int, ec as int);
                }
                buf.insert_char(er, ec, close);
                buf.insert_char(sr, sc, ch);
                if sr == er {
                    cursor.set_position(er, ec + 2);
                } else {
                    cursor.set_position(er, ec + 1);
                }
                cursor.clear_selection();
                return 1;
            }
        }
    }
    let had_selection = cursor.has_selection();
    delete_selection_in(buf, cursor, Ghost(cs@));
    proof {
        lemma_selection_deleted_len(s0);
    }
    let ghost t1 = buf.text();
    let (row, col) = cursor.position();
    proof {
        lemma_char_index_nonneg(t1, row as int, col as int);
    }
    buf.insert_char(row, col, ch);
    cursor.move_right(buf);
    cursor.clear_selection();
    let ghost t2 = buf.text();
    if auto_close {
        if let Some(close) = closing_pair(ch) {
            let chars = buf.line_vec(row);
            let cursor_col = col + 1;
            let next_char = if cursor_col < chars.len() {
                Some(chars[cursor_col])
            } else {
                None
            };
            let prev_char = if col > 0 {
                if col - 1 < chars.len() {
                    Some(chars[col - 1])
                } else {
                    None
                }
            } else {
                None
            };
            if !should_skip_quote_auto_close(ch, prev_char) && should_auto_close(ch, next_char) {
                let (cur_row, cur_col) = cursor.position();
                proof {
                    lemma_char_index_nonneg(t2, cur_row as int, cur_col as int);
                    lemma_line_len_le(t2, row as int);
                }
                buf.insert_char(cur_row, cur_col, close);
            }
        }
    }
    proof {
        let b0 = s0.text.len() + 2 * n + 8;
        assert forall|j: int| 0 <= j < cs@.len() implies fits(#[trigger] cs@[j], b0) by {
            assert(fits(s0.extras[j], b0));
        }
        lemma_shift_from_fits(cs@, 0, Shift::Insert { row, col, at_too: false }, b0 - 1);
    }
    shift_cursors_from(cs, 0, Shift::Insert { row, col, at_too: false });
    proof {
        let b0 = s0.text.len() + 2 * n + 8;
        lemma_room_from(buf.text(), cs@, 2 * n + 2, b0 - 1);
    }
    edit_extras(buf, cs, ExtraEdit::Type(ch), Ghost(*cursor));
    if had_selection {
        2
    } else {
        1
    }
}

/// Deletes backwards at every cursor (`backspaced`).
#[verifier::rlimit(40)]
fn backspace_everywhere(buf: &mut Buffer, cursor: &mut Cursor, cs: &mut Vec<Cursor>)
    requires
        ({
            let slack = 2 * old(cs)@.len() as int + 8;
            &&& extras_room(old(buf).text(), old(cs)@, slack)
            &&& fits(*old(cursor), old(buf).text().len() + slack)
        }),
        old(cursor).sel_anchor is None && old(cursor).col > 0 ==> old(cursor).col <= line_len(old(buf).text(), old(cursor).row as int),
    ensures
        state_of(final(buf), *final(cursor), final(cs)@) == backspaced(state_of(old(buf), *old(cursor), old(cs)@)),
        final(buf)@.history == old(buf)@.history,
        final(buf)@.future == old(buf)@.future,
{
    let ghost s0 = state_of(buf, *cursor, cs@);
    let ghost n = cs@.len() as int;
    if cursor.has_selection() {
        delete_selection_in(buf, cursor, Ghost(cs@));
        return;
    }
    let (row, col) = cursor.position();
    if col > 0 {
        let chars = buf.line_vec(row);
        let prev = chars[col - 1];
        if let Some(expected_close) = closing_pair(prev) {
            if col < chars.len() && chars[col] == expected_close {
                buf.delete_char(row, col);
                proof {
                    lemma_text_deleted_len(s0.text, row, col);
                }
                buf.delete_char(row, col - 1);
                cursor.move_left(buf);
                return;
            }
        }
    }
    let ghost b0 = s0.text.len() + 2 * n + 8;
    proof {
        assert forall|j: int| 0 <= j < cs@.len() implies fits(#[trigger] cs@[j], b0) by {
            assert(fits(s0.extras[j], b0));
        }
    }
    if col > 0 {
        buf.delete_char(row, col - 1);
        cursor.move_left(buf);
        proof {
            lemma_text_deleted_len(s0.text, row, (col - 1) as usize);
            lemma_shift_from_fits(cs@, 0, Shift::Backspace { row, col }, b0);
        }
        shift_cursors_from(cs, 0, Shift::Backspace { row, col });
    } else if row > 0 {
        let prev_len = buf.line_len(row - 1);
        buf.join_lines(row);
        cursor.set_position(row - 1, prev_len);
        proof {
            lemma_join_text_len(s0.text, row as int);
        }
    }
    proof {
        lemma_room_from(buf.text(), cs@, 2 * n + 2, b0);
    }
    edit_extras(buf, cs, ExtraEdit::Backspace, Ghost(*cursor));
}

/// Whether the text counts as modified after an edit that bumped the version `bumps` times.
fn modified_after(was: bool, bumps: u8) -> (r: bool)
    ensures
        r == (was || bumps > 0),
{
    was || bumps > 0
}

/// `v` bumped (wrapping) `k` times.
fn bump_version(v: i32, k: u8) -> (r: i32)
    ensures
        r == bumped(v, k as nat),
{
    let mut r = v;
    let mut i: u8 = 0;
    while i < k
        invariant
            i <= k,
            r == bumped(v, i as nat),
        decreases k - i,
    {
        r = r.wrapping_add(1);
        i += 1;
    }
    r
}

/// Deletes the primary selection (`selection_deleted`); true when there was one.
fn delete_selection_in(buf: &mut Buffer, cursor: &mut Cursor, Ghost(cs): Ghost<Seq<Cursor>>) -> (deleted: bool)
    requires
        old(buf).text().len() + old(cursor).col <= usize::MAX,
        old(cursor).sel_anchor matches Some(a) ==> old(buf).text().len() + a.1 <= usize::MAX,
    ensures
        state_of(final(buf), *final(cursor), cs) == selection_deleted(state_of(old(buf), *old(cursor), cs)),
        final(buf)@.history == old(buf)@.history,
        final(buf)@.future == old(buf)@.future,
        deleted == (selection_of(*old(cursor)) is Some),
{
    if let Some(((sr, sc), (er, ec))) = cursor.selection_range() {
        let start = buf.char_index(sr, sc);
        let e = buf.char_index(er, ec);
        let len = buf.rope_len();
        let end = if e < len {
            e
        } else {
            len
        };
        buf.delete_range(start, end);
        cursor.set_position(sr, sc);
        cursor.clear_selection();
        true
    } else {
        false
    }
}

/// Breaks the line at every cursor (`newlined`).
fn newline_everywhere(buf: &mut Buffer, cursor: &mut Cursor, cs: &mut Vec<Cursor>)
    requires
        ({
            let slack = 2 * old(cs)@.len() as int + 8;
            &&& extras_room(old(buf).text(), old(cs)@, slack)
            &&& fits(*old(cursor), old(buf).text().len() + slack)
        }),
    ensures
        state_of(final(buf), *final(cursor), final(cs)@) == newlined(state_of(old(buf), *old(cursor), old(cs)@)).0,
        final(buf)@.history == old(buf)@.history,
        final(buf)@.future == old(buf)@.future,
{
    let ghost s0 = state_of(buf, *cursor, cs@);
    let ghost n = cs@.len() as int;
    delete_selection_in(buf, cursor, Ghost(cs@));
    proof {
        lemma_selection_deleted_len(s0);
    }
    let (row, col) = cursor.position();
    proof {
        lemma_char_index_nonneg(buf.text(), row as int, col as int);
    }
    buf.split_line(row, col);
    cursor.set_position(row + 1, 0);
    proof {
        assert forall|j: int| 0 <= j < cs@.len() implies fits(#[trigger] cs@[j], s0.text.len() + 2 * n + 8) by {
            assert(fits(s0.extras[j], s0.text.len() + 2 * n + 8));
        }
        lemma_room_from(buf.text(), cs@, 2 * n + 2, s0.text.len() + 2 * n + 8);
    }
    edit_extras(buf, cs, ExtraEdit::Newline, Ghost(*cursor));
}

// ── Laws ─────────────────────────────────────────────────────────────────────

/// No cursor among `cs` has a selection.
pub open spec fn no_selections(cs: Seq<Cursor>) -> bool {
    forall|j: int| 0 <= j < cs.len() ==> (#[trigger] cs[j]).sel_anchor is None
}

/// Extra cursors without selections keep none while they all type.
proof fn lemma_extras_typed_len(s: EditState, ch: char, k: nat)
    requires
        k <= s.extras.len(),
        no_selections(s.extras),
    ensures
        extras_edited(s, ExtraEdit::Type(ch), k).text.len() == s.text.len() + k,
        extras_edited(s, ExtraEdit::Type(ch), k).extras.len() == s.extras.len(),
        no_selections(extras_edited(s, ExtraEdit::Type(ch), k).extras),
    decreases k,
{
    if k > 0 {
        lemma_extras_typed_len(s, ch, (k - 1) as nat);
        let p = extras_edited(s, ExtraEdit::Type(ch), (k - 1) as nat);
        let c = p.extras[k - 1];
        assert(p.extras[k - 1].sel_anchor is None);
        assert(super::editing::extra_selection_cleared(p, k - 1) == p);
        lemma_char_index_nonneg(p.text, c.row as int, c.col as int);
        let q = extra_step(p, k - 1, ExtraEdit::Type(ch));
        assert forall|j: int| 0 <= j < q.extras.len() implies (#[trigger] q.extras[j]).sel_anchor is None by {
            assert(p.extras[j].sel_anchor is None);
        }
    }
}

/// Extra cursors without selections keep none while they all break lines.
proof fn lemma_extras_newlined_len(s: EditState, k: nat)
    requires
        k <= s.extras.len(),
        no_selections(s.extras),
    ensures
        extras_edited(s, ExtraEdit::Newline, k).text.len() == s.text.len() + k,
        extras_edited(s, ExtraEdit::Newline, k).extras.len() == s.extras.len(),
        no_selections(extras_edited(s, ExtraEdit::Newline, k).extras),
    decreases k,
{
    if k > 0 {
        lemma_extras_newlined_len(s, (k - 1) as nat);
        let p = extras_edited(s, ExtraEdit::Newline, (k - 1) as nat);
        let c = p.extras[k - 1];
        assert(p.extras[k - 1].sel_anchor is None);
        assert(super::editing::extra_selection_cleared(p, k - 1) == p);
        lemma_char_index_nonneg(p.text, c.row as int, c.col as int);
        let q = extra_step(p, k - 1, ExtraEdit::Newline);
        assert forall|j: int| 0 <= j < q.extras.len() implies (#[trigger] q.extras[j]).sel_anchor is None by {
            assert(p.extras[j].sel_anchor is None);
        }
    }
}

/// Typing without auto-close and without any selection inserts exactly one
/// character per cursor.
pub proof fn lemma_typing_inserts_one_per_cursor(s: EditState, ch: char)
    requires
        s.primary.sel_anchor is None,
        no_selections(s.extras),
    ensures
        typed(s, ch, false).0.text.len() == s.text.len() + s.extras.len() + 1,
        typed(s, ch, false).1 == 1,
{
    reveal(typed);
    let p = s.primary;
    lemma_char_index_nonneg(s.text, p.row as int, p.col as int);
    let t2 = text_inserted(s.text, p.row, p.col, ch);
    let s3 = EditState {
        text: t2,
        primary: moved_right(p, t2),
        extras: shift_from(s.extras, 0, Shift::Insert { row: p.row, col: p.col, at_too: false }),
    };
    assert(no_selections(s3.extras)) by {
        assert forall|j: int| 0 <= j < s3.extras.len() implies (#[trigger] s3.extras[j]).sel_anchor is None by {
            assert(s.extras[j].sel_anchor is None);
        }
    }
    lemma_extras_typed_len(s3, ch, s.extras.len());
}

/// Breaking lines without any selection inserts exactly one line break per cursor.
pub proof fn lemma_newline_inserts_one_per_cursor(s: EditState)
    requires
        s.primary.sel_anchor is None,
        no_selections(s.extras),
    ensures
        newlined(s).0.text.len() == s.text.len() + s.extras.len() + 1,
        newlined(s).1 == 1,
{
    let p = s.primary;
    lemma_char_index_nonneg(s.text, p.row as int, p.col as int);
    let s2 = EditState {
        text: text_inserted(s.text, p.row, p.col, '\n'),
        primary: placed(p, (p.row + 1) as usize, 0),
        extras: s.extras,
    };
    lemma_extras_newlined_len(s2, s.extras.len());
}

/// With a single cursor, no selection and auto-close off, typing inserts the
/// character at the cursor and steps past it.
pub proof fn lemma_typing_single_cursor(s: EditState, ch: char)
    requires
        s.primary.sel_anchor is None,
        s.extras.len() == 0,
    ensures
        typed(s, ch, false).0 == (EditState {
            text: text_inserted(s.text, s.primary.row, s.primary.col, ch),
            primary: moved_right(s.primary, text_inserted(s.text, s.primary.row, s.primary.col, ch)),
            extras: seq![],
        }),
{
    reveal(typed);
    let p = s.primary;
    let t2 = text_inserted(s.text, p.row, p.col, ch);
    assert(shift_from(s.extras, 0, Shift::Insert { row: p.row, col: p.col, at_too: false }) =~= seq![]);
}

/// With a single cursor and no selection, a backspace that is not between a
/// bracket pair deletes the character before the cursor and steps back.
pub proof fn lemma_backspace_single_cursor(s: EditState)
    requires
        s.primary.sel_anchor is None,
        s.extras.len() == 0,
        s.primary.col > 0,
        !({
            let line = line_text(s.text, s.primary.row as int);
            let col = s.primary.col as int;
            closing_of(line[col - 1]) is Some && col < line.len() && line[col] == closing_of(line[col - 1])->0
        }),
    ensures
        backspaced(s) == (EditState {
            text: text_deleted(s.text, s.primary.row, (s.primary.col - 1) as usize),
            primary: moved_left(s.primary, text_deleted(s.text, s.primary.row, (s.primary.col - 1) as usize)),
            extras: seq![],
        }),
{
    let p = s.primary;
    assert(shift_from(s.extras, 0, Shift::Backspace { row: p.row, col: p.col }) =~= seq![]);
}

/// Every edit keeps an undo snapshot of the text before it: undo right after
/// the edit gives that text back, whatever the edit made of it.
pub proof fn lemma_edit_undo(before: super::buffer::BufferModel, after: super::buffer::BufferModel)
    requires
        after.history == checkpoint_model(before).history,
    ensures
        super::buffer::undo_model(after).text == before.text,
        super::buffer::undo_model(after).future.last() == after.text,
{
}

} // verus!