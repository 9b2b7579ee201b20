//! What copy and cut put on the clipboard, and the mouse gestures that place
//! cursors and selections.
use vstd::prelude::*;

use super::buffer::{checkpoint_model, line_len, line_text};
use super::cursor::{selection_of, Cursor};
use super::input::{selection_deleted, selection_text};
use super::utils::{extend_left, extend_left_exec, extend_right, extend_right_exec, lemma_extend_left, lemma_extend_right};
use super::{same_besides_edit, Editor};
use crate::paths::opt_string_text;
use crate::text::{append_chars, chars_string, is_word_char, is_word_char_exec, join_nl, str_chars};

verus! {

/// `s` without its first `n` characters (nothing when `n` passes the end).
pub open spec fn skip_n(s: Seq<char>, n: int) -> Seq<char> {
    if n < s.len() {
        s.skip(n)
    } else {
        seq![]
    }
}

/// The first `n` characters of `s` (all of them when `n` passes the end,
/// none when it is not positive).
pub open spec fn take_n(s: Seq<char>, n: int) -> Seq<char> {
    if n <= 0 {
        seq![]
    } else if n < s.len() {
        s.take(n)
    } else {
        s
    }
}

/// The text a selection covers, read line by line: on one line its columns;
/// across lines the rest of the first line, the middle lines and the start
/// of the last line, joined with newlines.
pub open spec fn selection_lines(t: Seq<char>, sr: int, sc: int, er: int, ec: int) -> Seq<char>
    decreases er - sr,
{
    if er <= sr {
        take_n(skip_n(line_text(t, sr), sc), ec - sc)
    } else {
        selection_span(t, sr, sc, er, ec, er)
    }
}

/// The text of a selection across lines `sr..=r` (with `r <= er`).
pub open spec fn selection_span(t: Seq<char>, sr: int, sc: int, er: int, ec: int, r: int) -> Seq<char>
    decreases r - sr,
{
    if r <= sr {
        skip_n(line_text(t, sr), sc)
    } else {
        selection_span(t, sr, sc, er, ec, r - 1) + seq!['\n'] + (if r == er { take_n(line_text(t, r), ec) } else { line_text(t, r) })
    }
}

/// What the primary cursor contributes to a copy with several cursors: its
/// selection's text, or its whole line.
pub open spec fn primary_part(t: Seq<char>, c: Cursor) -> Seq<char> {
    match selection_of(c) {
        Some((st, en)) => selection_lines(t, st.0 as int, st.1 as int, en.0 as int, en.1 as int),
        None => line_text(t, c.row as int),
    }
}

/// What an extra cursor contributes: its selection's text on one line, the
/// selection's first line when it spans several, or its whole line.
pub open spec fn extra_part(t: Seq<char>, c: Cursor) -> Seq<char> {
    match selection_of(c) {
        Some((st, en)) => if st.0 == en.0 {
            take_n(skip_n(line_text(t, st.0 as int), st.1 as int), en.1 - st.1)
        } else {
            line_text(t, st.0 as int)
        },
        None => line_text(t, c.row as int),
    }
}

/// The clipboard text of a copy: with extra cursors, each cursor's part on
/// its own line; otherwise the selection's text, or the cursor's line with
/// its newline when nothing is selected.
pub open spec fn copied_text(e: Editor) -> Seq<char> {
    let t = e.buffer.text();
    if e.extra_cursors@.len() > 0 {
        join_nl(seq![primary_part(t, e.cursor)] + e.extra_cursors@.map_values(|c: Cursor| extra_part(t, c)))
    } else {
        match selection_text(e.state()) {
            Some(x) => x,
            None => line_text(t, e.cursor.row as int) + seq!['\n'],
        }
    }
}

fn skip_take(line: &Vec<char>, a: usize, n: Option<usize>) -> (r: Vec<char>)
    ensures
        r@ == (match n {
            Some(k) => take_n(skip_n(line@, a as int), k as int),
            None => skip_n(line@, a as int),
        }),
{
    let mut r: Vec<char> = Vec::new();
    if a >= line.len() {
        return r;
    }
    let end = match n {
        Some(k) => if k < line.len() - a {
            a + k
        } else {
            line.len()
        },
        None => line.len(),
    };
    let mut i = a;
    while i < end
        invariant
            a <= i <= end <= line@.len(),
            r@ == line@.subrange(a as int, i as int),
        decreases end - i,
    {
        r.push(line[i]);
        i += 1;
    }
    proof {
        assert(r@ =~= match n {
            Some(k) => take_n(skip_n(line@, a as int), k as int),
            None => skip_n(line@, a as int),
        });
    }
    r
}

fn take_front(line: &Vec<char>, n: usize) -> (r: Vec<char>)
    ensures
        r@ == take_n(line@, n as int),
{
    let end = if n < line.len() {
        n
    } else {
        line.len()
    };
    let r = crate::text::slice_chars(line, 0, end);
    proof {
        assert(r@ =~= take_n(line@, n as int));
    }
    r
}

impl Editor {
    fn line_chars(&self, row: usize) -> (r: Vec<char>)
        ensures
            r@ == line_text(self.buffer.text(), row as int),
    {
        str_chars(self.buffer.line(row).as_str())
    }

    fn selection_lines_exec(&self, sr: usize, sc: usize, er: usize, ec: usize) -> (r: Vec<char>)
        requires
            sr <= er,
        ensures
            r@ == selection_lines(self.buffer.text(), sr as int, sc as int, er as int, ec as int),
    {
        let ghost t = self.buffer.text();
        if sr == er {
            let n = if ec >= sc {
                ec - sc
            } else {
                0
            };
            proof {
                if ec < sc {
                    assert(take_n(skip_n(line_text(t, sr as int), sc as int), ec - sc) =~= seq![]);
                }
            }
            return skip_take(&self.line_chars(sr), sc, Some(n));
        }
        let mut out = skip_take(&self.line_chars(sr), sc, None);
        let mut r = sr;
        while r < er
            invariant
                sr <= r <= er,
                out@ == selection_span(self.buffer.text(), sr as int, sc as int, er as int, ec as int, r as int),
            decreases er - r,
        {
            r += 1;
            out.push('\n');
            let part = if r == er {
                take_front(&self.line_chars(r), ec)
            } else {
                self.line_chars(r)
            };
            append_chars(&mut out, &part);
        }
        out
    }

    fn extra_part_exec(&self, c: &Cursor) -> (r: Vec<char>)
        ensures
            r@ == extra_part(self.buffer.text(), *c),
    {
        match c.selection_range() {
            Some(((sr, sc), (er, ec))) => {
                if sr == er {
                    let n = if ec >= sc {
                        ec - sc
                    } else {
                        0
                    };
                    proof {
                        if ec < sc {
                            assert(take_n(skip_n(line_text(self.buffer.text(), sr as int), sc as int), ec - sc) =~= seq![]);
                        }
                    }
                    skip_take(&self.line_chars(sr), sc, Some(n))
                } else {
                    self.line_chars(sr)
                }
            },
            None => self.line_chars(c.row),
        }
    }

    /// The text a copy puts on the clipboard.
    pub fn copy_text(&self) -> (r: String)
        requires
            self.cursor_fits(),
        ensures
            r@ == copied_text(*self),
    {
        let ghost t = self.buffer.text();
        if self.extra_cursors.len() > 0 {
            let first = match self.cursor.selection_range() {
                Some(((sr, sc), (er, ec))) => {
                    proof {
                        super::cursor::lemma_selection_ordered(self.cursor);
                    }
                    self.selection_lines_exec(sr, sc, er, ec)
                },
                None => self.line_chars(self.cursor.row),
            };
            let mut parts: Vec<Vec<char>> = Vec::new();
            parts.push(first);
            let mut i: usize = 0;
            while i < self.extra_cursors.len()
                invariant
                    i <= self.extra_cursors@.len(),
                    t == self.buffer.text(),
                    crate::text::seqs_of(parts@) == seq![primary_part(t, self.cursor)] + self.extra_cursors@.take(
                        i as int,
                    ).map_values(|c: Cursor| extra_part(t, c)),
                decreases self.extra_cursors.len() - i,
            {
                let ghost before = parts@;
                let p = self.extra_part_exec(&self.extra_cursors[i]);
                parts.push(p);
                proof {
                    assert(crate::text::seqs_of(parts@) =~= crate::text::seqs_of(before).push(p@));
                    assert(self.extra_cursors@.take(i + 1).map_values(|c: Cursor| extra_part(t, c)) =~= self.extra_cursors@.take(
                        i as int,
                    ).map_values(|c: Cursor| extra_part(t, c)).push(extra_part(t, self.extra_cursors@[i as int])));
                }
                i += 1;
            }
            proof {
                assert(self.extra_cursors@.take(self.extra_cursors@.len() as int) =~= self.extra_cursors@);
            }
            chars_string(&crate::text::join_lines(&parts))
        } else {
            match self.selected_text() {
                Some(s) => s,
                None => {
                    let mut v = self.line_chars(self.cursor.row);
                    v.push('\n');
                    chars_string(&v)
                },
            }
        }
    }

    /// Cut: when something is selected, returns its text for the clipboard
    /// and deletes it (after a checkpoint); otherwise nothing changes.
    pub fn cut_selection(&mut self) -> (r: Option<String>)
        requires
            old(self).cursor_fits(),
        ensures
            opt_string_text(r) == selection_text(old(self).state()),
            r is None ==> *final(self) == *old(self),
            r is Some ==> {
                &&& final(self).state() == selection_deleted(old(self).state())
                &&& final(self).buffer@.history == checkpoint_model(old(self).buffer@).history
                &&& final(self).buffer@.future == checkpoint_model(old(self).buffer@).future
                &&& final(self).is_modified
                &&& final(self).content_version == old(self).content_version.wrapping_add(1)
                &&& same_besides_edit(*old(self), *final(self))
            },
    {
        let text = match self.selected_text() {
            Some(s) => s,
            None => return None,
        };
        self.buffer.checkpoint();
        proof {
            assert(self.state() == old(self).state());
        }
        self.delete_selection();
        Some(text)
    }

    /// A double click at `(row, col)`: drops the extra cursors and, when a
    /// word character is there, selects its whole word.
    pub fn select_word_at(&mut self, row: usize, col: usize)
        ensures
            *final(self) == (Editor { cursor: final(self).cursor, extra_cursors: final(self).extra_cursors, ..*old(self) }),
            final(self).extra_cursors@.len() == 0,
            ({
                let line = line_text(old(self).buffer.text(), row as int);
                let c = if col < line.len() { col as int } else { line.len() as int };
                if c < line.len() && is_word_char(line[c]) {
                    final(self).cursor == (Cursor {
                        row,
                        col: extend_right(line, c) as usize,
                        desired_col: extend_right(line, c) as usize,
                        sel_anchor: Some((row, extend_left(line, c) as usize)),
                    })
                } else {
                    final(self).cursor == old(self).cursor
                }
            }),
    {
        self.extra_cursors = Vec::new();
        let chars = self.line_chars(row);
        let c = if col < chars.len() {
            col
        } else {
            chars.len()
        };
        if c < chars.len() && is_word_char_exec(chars[c]) {
            proof {
                lemma_extend_left(chars@, c as int);
                lemma_extend_right(chars@, c as int);
            }
            let start = extend_left_exec(&chars, c);
            let end = extend_right_exec(&chars, c);
            self.cursor = Cursor { row, col: end, desired_col: end, sel_anchor: Some((row, start)) };
        }
    }

    /// A click (the start of a drag) at `(row, col)`: with Ctrl it adds a
    /// cursor there; with Shift it extends the selection (anchoring it where
    /// the cursor was); otherwise it drops the extra cursors and starts an
    /// empty selection there. The completion list closes.
    pub fn click_at(&mut self, row: usize, col: usize, ctrl: bool, shift: bool)
        ensures
            *final(self) == (Editor {
                cursor: final(self).cursor,
                extra_cursors: final(self).extra_cursors,
                autocomplete: final(self).autocomplete,
                ..*old(self)
            }),
            final(self).autocomplete == (super::autocomplete::Autocomplete { visible: false, ..old(self).autocomplete }),
            ctrl ==> final(self).cursor == old(self).cursor
                && final(self).extra_cursors@ == old(self).extra_cursors@.push(Cursor { row, col, desired_col: col, sel_anchor: None }),
            !ctrl && shift ==> final(self).extra_cursors == old(self).extra_cursors && final(self).cursor == (Cursor {
                row,
                col,
                desired_col: col,
                sel_anchor: Some(match old(self).cursor.sel_anchor {
                    Some(a) => a,
                    None => (old(self).cursor.row, old(self).cursor.col),
                }),
            }),
            !ctrl && !shift ==> final(self).extra_cursors@.len() == 0 && final(self).cursor == (Cursor {
                row,
                col,
                desired_col: col,
                sel_anchor: Some((row, col)),
            }),
    {
        if ctrl {
            self.extra_cursors.push(Cursor { row, col, desired_col: col, sel_anchor: None });
        } else if shift {
            let anchor = match self.cursor.sel_anchor {
                Some(a) => a,
                None => (self.cursor.row, self.cursor.col),
            };
            self.cursor = Cursor { row, col, desired_col: col, sel_anchor: Some(anchor) };
        } else {
            self.extra_cursors = Vec::new();
            self.cursor = Cursor { row, col, desired_col: col, sel_anchor: Some((row, col)) };
        }
        self.autocomplete.visible = false;
    }

    /// Dragging to `(row, col)`: the cursor follows, and a selection is
    /// anchored there when none was.
    pub fn drag_to(&mut self, row: usize, col: usize)
        ensures
            *final(self) == (Editor { cursor: final(self).cursor, ..*old(self) }),
            final(self).cursor == (Cursor {
                row,
                col,
                desired_col: col,
                sel_anchor: Some(match old(self).cursor.sel_anchor {
                    Some(a) => a,
                    None => (row, col),
                }),
            }),
    {
        let anchor = match self.cursor.sel_anchor {
            Some(a) => a,
            None => (row, col),
        };
        self.cursor = Cursor { row, col, desired_col: col, sel_anchor: Some(anchor) };
    }
}

} // verus!
