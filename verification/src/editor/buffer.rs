//! The text buffer: a `ropey::Rope` with snapshot-based undo and redo.
use ropey::Rope;
use vstd::prelude::*;

use crate::text::{chars_string, trim_end_char, trim_end_char_exec};

verus! {

// ── The rope, as this library uses it ────────────────────────────────────────

#[verifier::external_type_specification]
#[verifier::external_body]
pub struct ExRope(Rope);

/// The characters a rope holds, in order.
pub uninterp spec fn rope_chars(r: Rope) -> Seq<char>;

/// The characters ropey treats as ending a line (its default `unicode_lines`
/// configuration): LF, VT, FF, CR, NEL, LS and PS.
pub open spec fn is_line_break(c: char) -> bool {
    c == '\n' || c == '\u{0B}' || c == '\u{0C}' || c == '\r' || c == '\u{85}' || c == '\u{2028}'
        || c == '\u{2029}'
}

/// A line break ends at index `i` of `t` (a CR directly followed by LF is not
/// itself a break: the pair is one break, ending at the LF).
pub open spec fn break_ends_at(t: Seq<char>, i: int) -> bool {
    0 <= i < t.len() && is_line_break(t[i]) && !(t[i] == '\r' && i + 1 < t.len() && t[i + 1]
        == '\n')
}

/// The indices below `n` at which a line break ends, in increasing order.
pub open spec fn break_positions(t: Seq<char>, n: nat) -> Seq<int>
    decreases n,
{
    if n == 0 {
        seq![]
    } else {
        let p = break_positions(t, (n - 1) as nat);
        if break_ends_at(t, n - 1) {
            p.push(n - 1)
        } else {
            p
        }
    }
}

/// All line-break end positions of `t`.
pub open spec fn breaks(t: Seq<char>) -> Seq<int> {
    break_positions(t, t.len())
}

/// Number of lines: one more than the number of line breaks (`Rope::len_lines`).
pub open spec fn line_count(t: Seq<char>) -> nat {
    breaks(t).len() + 1
}

/// Char index at which line `k` starts; `t.len()` for `k >= line_count`
/// (`Rope::line_to_char`).
pub open spec fn line_start(t: Seq<char>, k: int) -> int {
    if k <= 0 {
        0
    } else if k <= breaks(t).len() {
        breaks(t)[k - 1] + 1
    } else {
        t.len() as int
    }
}

/// Line `k` including its line break (`Rope::line`).
pub open spec fn raw_line(t: Seq<char>, k: int) -> Seq<char> {
    t.subrange(line_start(t, k), line_start(t, k + 1))
}

/// Line `k` as `Buffer::line` returns it: trailing `'\n'` and then trailing
/// `'\r'` characters removed; empty when `k` is past the last line.
pub open spec fn line_text(t: Seq<char>, k: int) -> Seq<char> {
    if 0 <= k < line_count(t) {
        trim_end_char(trim_end_char(raw_line(t, k), '\n'), '\r')
    } else {
        seq![]
    }
}

/// Number of characters of line `k` (`Buffer::line_len`).
pub open spec fn line_len(t: Seq<char>, k: int) -> nat {
    line_text(t, k).len()
}

/// Absolute char index of `(row, col)`: start of `row` (clamped to the last
/// line) plus `col` (`Buffer::char_index`).
pub open spec fn char_index(t: Seq<char>, row: int, col: int) -> int {
    line_start(t, if row < line_count(t) - 1 { row } else { line_count(t) - 1 }) + col
}

/// Line-break positions are increasing and lie below `n`.
pub proof fn lemma_break_positions(t: Seq<char>, n: nat)
    requires
        n <= t.len(),
    ensures
        forall|i: int| 0 <= i < break_positions(t, n).len() ==> 0 <= #[trigger] break_positions(t, n)[i] < n,
        forall|i: int, j: int|
            0 <= i < j < break_positions(t, n).len() ==> break_positions(t, n)[i] < break_positions(t, n)[j],
        break_positions(t, n).len() <= n,
    decreases n,
{
    if n > 0 {
        lemma_break_positions(t, (n - 1) as nat);
    }
}

/// Line starts are ordered and bounded by the text length.
pub proof fn lemma_line_start(t: Seq<char>, k: int, m: int)
    requires
        k <= m,
    ensures
        0 <= line_start(t, k) <= line_start(t, m) <= t.len(),
        line_start(t, k) <= t.len(),
{
    lemma_break_positions(t, t.len());
}

/// A line's text fits between its start and the next line's start.
pub proof fn lemma_line_text_fits(t: Seq<char>, k: int)
    requires
        0 <= k,
    ensures
        line_start(t, k) + line_len(t, k) <= line_start(t, k + 1),
        line_start(t, k + 1) <= t.len(),
{
    lemma_line_start(t, k, k + 1);
    if k < line_count(t) {
        crate::text::lemma_trim_end_char_len(raw_line(t, k), '\n');
        crate::text::lemma_trim_end_char_len(trim_end_char(raw_line(t, k), '\n'), '\r');
    }
}

/// `Rope::from_str`: a rope holding the characters of `s`.
#[verifier::external_body]
fn rope_from_str(s: &str) -> (r: Rope)
    ensures
        rope_chars(r) == s@,
{
    Rope::from_str(s)
}

/// `Rope::len_chars`: the number of characters.
#[verifier::external_body]
fn rope_len_chars(r: &Rope) -> (n: usize)
    ensures
        n == rope_chars(*r).len(),
{
    r.len_chars()
}

/// `Rope::len_lines`: one more than the number of line breaks.
#[verifier::external_body]
fn rope_len_lines(r: &Rope) -> (n: usize)
    ensures
        n == line_count(rope_chars(*r)),
{
    r.len_lines()
}

/// `Rope::line_to_char`: the char index at which line `k` starts; it panics for
/// `k > len_lines()`.
#[verifier::external_body]
fn rope_line_to_char(r: &Rope, k: usize) -> (i: usize)
    requires
        k <= line_count(rope_chars(*r)),
    ensures
        i == line_start(rope_chars(*r), k as int),
{
    r.line_to_char(k)
}

/// `Rope::char`: the character at index `i`; it panics for `i >= len_chars()`.
#[verifier::external_body]
fn rope_char(r: &Rope, i: usize) -> (c: char)
    requires
        i < rope_chars(*r).len(),
    ensures
        c == rope_chars(*r)[i as int],
{
    r.char(i)
}

/// `Rope::insert_char`: inserts `c` at char index `i`; it panics for `i > len_chars()`.
#[verifier::external_body]
fn rope_insert_char(r: &mut Rope, i: usize, c: char)
    requires
        i <= rope_chars(*old(r)).len(),
    ensures
        rope_chars(*final(r)) == rope_chars(*old(r)).insert(i as int, c),
{
    r.insert_char(i, c)
}

/// `Rope::insert`: inserts the text `s` at char index `i`; it panics for `i > len_chars()`.
#[verifier::external_body]
fn rope_insert(r: &mut Rope, i: usize, s: &str)
    requires
        i <= rope_chars(*old(r)).len(),
    ensures
        rope_chars(*final(r)) == rope_chars(*old(r)).subrange(0, i as int) + s@ + rope_chars(
            *old(r),
        ).subrange(i as int, rope_chars(*old(r)).len() as int),
{
    r.insert(i, s)
}

/// `Rope::remove(a..b)`: removes the characters in `a..b`; it panics unless
/// `a <= b <= len_chars()`.
#[verifier::external_body]
fn rope_remove(r: &mut Rope, a: usize, b: usize)
    requires
        a <= b <= rope_chars(*old(r)).len(),
    ensures
        rope_chars(*final(r)) == rope_chars(*old(r)).subrange(0, a as int) + rope_chars(
            *old(r),
        ).subrange(b as int, rope_chars(*old(r)).len() as int),
{
    r.remove(a..b)
}

/// `Rope::clone`: a rope with the same characters.
#[verifier::external_body]
fn rope_clone(r: &Rope) -> (c: Rope)
    ensures
        rope_chars(c) == rope_chars(*r),
{
    r.clone()
}

/// `Rope::line(k)`, its characters collected: line `k` with its line break;
/// it panics for `k >= len_lines()`.
#[verifier::external_body]
fn rope_line_chars(r: &Rope, k: usize) -> (res: Vec<char>)
    requires
        k < line_count(rope_chars(*r)),
    ensures
        res@ == raw_line(rope_chars(*r), k as int),
{
    r.line(k).chars().collect()
}

/// `Rope::slice(a..b)` as a `String`; it panics unless `a <= b <= len_chars()`.
#[verifier::external_body]
fn rope_slice_string(r: &Rope, a: usize, b: usize) -> (res: String)
    requires
        a <= b <= rope_chars(*r).len(),
    ensures
        res@ == rope_chars(*r).subrange(a as int, b as int),
{
    r.slice(a..b).to_string()
}

/// The whole text of the rope (`Display`).
#[verifier::external_body]
fn rope_string(r: &Rope) -> (res: String)
    ensures
        res@ == rope_chars(*r),
{
    r.to_string()
}

// ── The buffer ───────────────────────────────────────────────────────────────

/// Undo snapshots kept at most.
pub const MAX_HISTORY: usize = 200;

/// What a buffer holds: its text, the undo snapshots (oldest first) and the
/// redo snapshots (most recently undone last).
pub struct BufferModel {
    pub text: Seq<char>,
    pub history: Seq<Seq<char>>,
    pub future: Seq<Seq<char>>,
}

/// Text of each rope in a sequence.
pub open spec fn ropes_text(v: Seq<Rope>) -> Seq<Seq<char>> {
    v.map_values(|r: Rope| rope_chars(r))
}

pub struct Buffer {
    rope: Rope,
    history: Vec<Rope>,
    future: Vec<Rope>,
}

impl View for Buffer {
    type V = BufferModel;

    closed spec fn view(&self) -> BufferModel {
        BufferModel {
            text: rope_chars(self.rope),
            history: ropes_text(self.history@),
            future: ropes_text(self.future@),
        }
    }
}

/// The model after `checkpoint`: the current text is pushed as an undo snapshot
/// (the oldest one dropped beyond `MAX_HISTORY`) and the redo snapshots are cleared.
pub open spec fn checkpoint_model(m: BufferModel) -> BufferModel {
    let h = m.history.push(m.text);
    BufferModel {
        text: m.text,
        history: if h.len() > MAX_HISTORY { h.drop_first() } else { h },
        future: seq![],
    }
}

/// The model after `undo` (unchanged when there is no undo snapshot).
pub open spec fn undo_model(m: BufferModel) -> BufferModel {
    if m.history.len() > 0 {
        BufferModel {
            text: m.history.last(),
            history: m.history.drop_last(),
            future: m.future.push(m.text),
        }
    } else {
        m
    }
}

/// The model after `redo` (unchanged when there is no redo snapshot).
pub open spec fn redo_model(m: BufferModel) -> BufferModel {
    if m.future.len() > 0 {
        BufferModel {
            text: m.future.last(),
            history: m.history.push(m.text),
            future: m.future.drop_last(),
        }
    } else {
        m
    }
}

/// The text with `s` inserted at char index `i`.
pub open spec fn insert_text(t: Seq<char>, i: int, s: Seq<char>) -> Seq<char> {
    t.subrange(0, i) + s + t.subrange(i, t.len() as int)
}

/// The text with the chars in `a..b` removed.
pub open spec fn remove_text(t: Seq<char>, a: int, b: int) -> Seq<char> {
    t.subrange(0, a) + t.subrange(b, t.len() as int)
}

/// Index of the character before line `row` that `join_lines` removes, when it does.
pub open spec fn join_removes(t: Seq<char>, row: int) -> bool {
    0 < row < line_count(t) && line_start(t, row) - 1 < t.len() && t[line_start(t, row) - 1]
        == '\n'
}

/// The text after `join_lines(row)`.
pub open spec fn join_text(t: Seq<char>, row: int) -> Seq<char> {
    if join_removes(t, row) {
        remove_text(t, line_start(t, row) - 1, line_start(t, row))
    } else {
        t
    }
}

/// The text after `delete_line(row)`: the clamped row, its line break included, removed.
pub open spec fn delete_line_text(t: Seq<char>, row: int) -> Seq<char> {
    let r = if row < line_count(t) - 1 { row } else { line_count(t) - 1 };
    remove_text(t, line_start(t, r), line_start(t, r + 1))
}

impl Buffer {
    /// The text of the buffer.
    pub open spec fn text(&self) -> Seq<char> {
        self@.text
    }

    /// An empty buffer with no undo or redo snapshots.
    pub fn new() -> (b: Self)
        ensures
            b@ == (BufferModel { text: seq![], history: seq![], future: seq![] }),
    {
        proof {
            reveal_strlit("");
        }
        let b = Buffer { rope: rope_from_str(""), history: Vec::new(), future: Vec::new() };
        proof {
            assert(rope_chars(b.rope) =~= seq![]);
            assert(ropes_text(b.history@) =~= seq![]);
            assert(ropes_text(b.future@) =~= seq![]);
        }
        b
    }

    /// A buffer holding `s`, with no undo or redo snapshots.
    pub fn from_str(s: &str) -> (b: Self)
        ensures
            b@ == (BufferModel { text: s@, history: seq![], future: seq![] }),
    {
        let b = Buffer { rope: rope_from_str(s), history: Vec::new(), future: Vec::new() };
        proof {
            assert(ropes_text(b.history@) =~= seq![]);
            assert(ropes_text(b.future@) =~= seq![]);
        }
        b
    }

    /// Number of lines (at least one).
    pub fn num_lines(&self) -> (n: usize)
        ensures
            n == line_count(self.text()),
            n >= 1,
    {
        let n = rope_len_lines(&self.rope);
        if n < 1 {
            1
        } else {
            n
        }
    }

    /// Line `idx` without its line break; empty past the last line.
    pub(crate) fn line_vec(&self, idx: usize) -> (res: Vec<char>)
        ensures
            res@ == line_text(self.text(), idx as int),
    {
        if idx >= rope_len_lines(&self.rope) {
            return Vec::new();
        }
        let raw = rope_line_chars(&self.rope, idx);
        let a = trim_end_char_exec(&raw, '\n');
        trim_end_char_exec(&a, '\r')
    }

    /// Line `idx` without its line break; empty past the last line.
    pub fn line(&self, idx: usize) -> (res: String)
        ensures
            res@ == line_text(self.text(), idx as int),
    {
        let v = self.line_vec(idx);
        chars_string(&v)
    }

    /// Number of characters of line `idx`.
    pub fn line_len(&self, idx: usize) -> (n: usize)
        ensures
            n == line_len(self.text(), idx as int),
    {
        self.line_vec(idx).len()
    }

    /// Absolute char index of `(row, col)`.
    pub fn char_index(&self, row: usize, col: usize) -> (i: usize)
        requires
            self.text().len() + col <= usize::MAX,
        ensures
            i == char_index(self.text(), row as int, col as int),
    {
        let n = rope_len_lines(&self.rope);
        let r = if row < n - 1 {
            row
        } else {
            n - 1
        };
        let start = rope_line_to_char(&self.rope, r);
        proof {
            lemma_line_start(self.text(), r as int, r as int);
        }
        start + col
    }

    /// `char_index(row, col)` clamped to the end of the text, computed without
    /// overflow.
    fn index_in_text(&self, row: usize, col: usize) -> (i: usize)
        ensures
            i == min_int(char_index(self.text(), row as int, col as int), self.text().len() as int),
    {
        let n = rope_len_lines(&self.rope);
        let r = if row < n - 1 {
            row
        } else {
            n - 1
        };
        let start = rope_line_to_char(&self.rope, r);
        let len = rope_len_chars(&self.rope);
        proof {
            lemma_line_start(self.text(), r as int, r as int);
        }
        if col < len - start {
            start + col
        } else {
            len
        }
    }

    /// Records the current text as an undo snapshot and clears the redo snapshots.
    pub fn checkpoint(&mut self)
        ensures
            final(self)@ == checkpoint_model(old(self)@),
    {
        let snap = rope_clone(&self.rope);
        self.history.push(snap);
        self.future.clear();
        proof {
            assert(ropes_text(self.history@) =~= ropes_text(old(self).history@).push(rope_chars(self.rope)));
            assert(ropes_text(self.future@) =~= seq![]);
        }
        if self.history.len() > MAX_HISTORY {
            let ghost h = self.history@;
            self.history.remove(0);
            proof {
                assert(self.history@ =~= h.drop_first());
                assert(ropes_text(self.history@) =~= ropes_text(h).drop_first());
            }
        }
    }

    /// Restores the latest undo snapshot; false when there is none.
    pub fn undo(&mut self) -> (done: bool)
        ensures
            done == (old(self)@.history.len() > 0),
            final(self)@ == undo_model(old(self)@),
    {
        match self.history.pop() {
            Some(prev) => {
                let cur = rope_clone(&self.rope);
                self.future.push(cur);
                self.rope = prev;
                proof {
                    assert(ropes_text(self.history@) =~= ropes_text(old(self).history@).drop_last());
                    assert(ropes_text(self.future@) =~= ropes_text(old(self).future@).push(
                        rope_chars(old(self).rope),
                    ));
                }
                true
            },
            None => false,
        }
    }

    /// Restores the latest redo snapshot; false when there is none.
    pub fn redo(&mut self) -> (done: bool)
        ensures
            done == (old(self)@.future.len() > 0),
            final(self)@ == redo_model(old(self)@),
    {
        match self.future.pop() {
            Some(next) => {
                let cur = rope_clone(&self.rope);
                self.history.push(cur);
                self.rope = next;
                proof {
                    assert(ropes_text(self.future@) =~= ropes_text(old(self).future@).drop_last());
                    assert(ropes_text(self.history@) =~= ropes_text(old(self).history@).push(
                        rope_chars(old(self).rope),
                    ));
                }
                true
            },
            None => false,
        }
    }

    /// Inserts `ch` at `(row, col)`, the index clamped to the end of the text.
    pub fn insert_char(&mut self, row: usize, col: usize, ch: char)
        ensures
            final(self)@.history == old(self)@.history,
            final(self)@.future == old(self)@.future,
            final(self).text() == old(self).text().insert(
                min_int(char_index(old(self).text(), row as int, col as int), old(self).text().len() as int),
                ch,
            ),
    {
        let idx = self.index_in_text(row, col);
        rope_insert_char(&mut self.rope, idx, ch);
    }

    /// Deletes the character at `(row, col)`, if that index is inside the text.
    pub fn delete_char(&mut self, row: usize, col: usize)
        ensures
            final(self)@.history == old(self)@.history,
            final(self)@.future == old(self)@.future,
            final(self).text() == (if char_index(old(self).text(), row as int, col as int) < old(
                self,
            ).text().len() {
                old(self).text().remove(char_index(old(self).text(), row as int, col as int))
            } else {
                old(self).text()
            }),
    {
        let idx = self.index_in_text(row, col);
        if idx < rope_len_chars(&self.rope) {
            rope_remove(&mut self.rope, idx, idx + 1);
            proof {
                let t = old(self).text();
                assert(remove_text(t, idx as int, idx + 1) =~= t.remove(idx as int));
            }
        }
    }

    /// Inserts a line break at `(row, col)`, the index clamped to the end of the text.
    pub fn split_line(&mut self, row: usize, col: usize)
        ensures
            final(self)@.history == old(self)@.history,
            final(self)@.future == old(self)@.future,
            final(self).text() == old(self).text().insert(
                min_int(char_index(old(self).text(), row as int, col as int), old(self).text().len() as int),
                '\n',
            ),
    {
        self.insert_char(row, col, '\n');
    }

    /// Joins line `row` onto the previous line by removing the `'\n'` between them.
    pub fn join_lines(&mut self, row: usize)
        ensures
            final(self)@.history == old(self)@.history,
            final(self)@.future == old(self)@.future,
            final(self).text() == join_text(old(self).text(), row as int),
    {
        if row == 0 || row >= rope_len_lines(&self.rope) {
            return;
        }
        let line_start = rope_line_to_char(&self.rope, row);
        proof {
            lemma_break_positions(self.text(), self.text().len());
        }
        let prev_line_end = line_start - 1;
        if prev_line_end < rope_len_chars(&self.rope) {
            let ch = rope_char(&self.rope, prev_line_end);
            if ch == '\n' {
                rope_remove(&mut self.rope, prev_line_end, prev_line_end + 1);
            }
        }
    }

    /// Inserts the text `s` at `(row, col)`, the index clamped to the end of the text.
    pub fn insert_str(&mut self, row: usize, col: usize, s: &str)
        ensures
            final(self)@.history == old(self)@.history,
            final(self)@.future == old(self)@.future,
            final(self).text() == insert_text(
                old(self).text(),
                min_int(char_index(old(self).text(), row as int, col as int), old(self).text().len() as int),
                s@,
            ),
    {
        let idx = self.index_in_text(row, col);
        rope_insert(&mut self.rope, idx, s);
    }

    /// Removes the characters in `start..end`, `end` clamped to the end of the text.
    pub fn delete_range(&mut self, start: usize, end: usize)
        ensures
            final(self)@.history == old(self)@.history,
            final(self)@.future == old(self)@.future,
            final(self).text() == (if start < min_int(end as int, old(self).text().len() as int) {
                remove_text(old(self).text(), start as int, min_int(end as int, old(self).text().len() as int))
            } else {
                old(self).text()
            }),
    {
        let len = rope_len_chars(&self.rope);
        let end = if end < len {
            end
        } else {
            len
        };
        if start < end {
            rope_remove(&mut self.rope, start, end);
        }
    }

    /// Replaces the text of line `row` (its line break kept) with `new_content`.
    pub fn replace_line(&mut self, row: usize, new_content: &str)
        ensures
            final(self)@.history == old(self)@.history,
            final(self)@.future == old(self)@.future,
            ({
                let t = old(self).text();
                let a = char_index(t, row as int, 0);
                let b = min_int(char_index(t, row as int, line_len(t, row as int) as int), t.len() as int);
                final(self).text() == (if a <= b {
                    insert_text(remove_text(t, a, b), a, new_content@)
                } else {
                    t
                })
            }),
    {
        let start_idx = self.index_in_text(row, 0);
        let ll = self.line_len(row);
        let end_idx = self.index_in_text(row, ll);
        proof {
            let t = old(self).text();
            let r = if row < line_count(t) - 1 { row as int } else { line_count(t) - 1 };
            lemma_line_start(t, r, r);
        }
        if start_idx <= end_idx {
            rope_remove(&mut self.rope, start_idx, end_idx);
            proof {
                let t = old(self).text();
                lemma_line_start(t, 0, 0);
            }
            rope_insert(&mut self.rope, start_idx, new_content);
        }
    }

    /// Number of characters in the text.
    pub fn rope_len(&self) -> (n: usize)
        ensures
            n == self.text().len(),
    {
        rope_len_chars(&self.rope)
    }

    /// The characters in `start..end` (`end` clamped to the text); empty when `start >= end`.
    pub fn rope_slice(&self, start: usize, end: usize) -> (res: String)
        ensures
            res@ == (if start < min_int(end as int, self.text().len() as int) {
                self.text().subrange(start as int, min_int(end as int, self.text().len() as int))
            } else {
                seq![]
            }),
    {
        let len = rope_len_chars(&self.rope);
        let end = if end < len {
            end
        } else {
            len
        };
        if start >= end {
            return String::new();
        }
        rope_slice_string(&self.rope, start, end)
    }

    /// Removes line `row` (clamped to the last line) together with its line break.
    pub fn delete_line(&mut self, row: usize)
        ensures
            final(self)@.history == old(self)@.history,
            final(self)@.future == old(self)@.future,
            final(self).text() == delete_line_text(old(self).text(), row as int),
    {
        let total = rope_len_lines(&self.rope);
        let row = if row < total - 1 {
            row
        } else {
            total - 1
        };
        let start = rope_line_to_char(&self.rope, row);
        let end = if row + 1 < total {
            rope_line_to_char(&self.rope, row + 1)
        } else {
            rope_len_chars(&self.rope)
        };
        proof {
            lemma_line_start(self.text(), row as int, row + 1);
        }
        if start < end {
            rope_remove(&mut self.rope, start, end);
        } else {
            proof {
                let t = old(self).text();
                assert(remove_text(t, start as int, end as int) =~= t);
            }
        }
    }

    /// The whole text.
    pub fn to_string(&self) -> (res: String)
        ensures
            res@ == self.text(),
    {
        rope_string(&self.rope)
    }
}

/// The smaller of two integers.
pub open spec fn min_int(a: int, b: int) -> int {
    if a < b {
        a
    } else {
        b
    }
}

// ── Laws of undo and redo ────────────────────────────────────────────────────

/// After a checkpoint, whatever edits follow (they leave the snapshots alone),
/// `undo` brings back the text as it was at the checkpoint.
pub proof fn lemma_undo_restores_checkpoint(m: BufferModel, edited: Seq<char>)
    ensures
        undo_model(
            (BufferModel {
                text: edited,
                history: checkpoint_model(m).history,
                future: checkpoint_model(m).future,
            }),
        ).text == m.text,
{
}

/// `redo` right after a successful `undo` restores the model exactly.
pub proof fn lemma_redo_after_undo(m: BufferModel)
    requires
        m.history.len() > 0,
    ensures
        redo_model(undo_model(m)) == m,
{
    assert(m.history.drop_last().push(m.history.last()) =~= m.history);
    assert(m.future.push(m.text).drop_last() =~= m.future);
}

/// `undo` right after a successful `redo` restores the model exactly.
pub proof fn lemma_undo_after_redo(m: BufferModel)
    requires
        m.future.len() > 0,
    ensures
        undo_model(redo_model(m)) == m,
{
    assert(m.future.drop_last().push(m.future.last()) =~= m.future);
    assert(m.history.push(m.text).drop_last() =~= m.history);
}

/// A checkpoint discards everything that could be redone.
pub proof fn lemma_checkpoint_clears_redo(m: BufferModel)
    ensures
        checkpoint_model(m).future.len() == 0,
        redo_model(checkpoint_model(m)) == checkpoint_model(m),
{
}

/// The number of undo snapshots never exceeds `MAX_HISTORY` after a checkpoint
/// taken with at most `MAX_HISTORY` snapshots.
pub proof fn lemma_checkpoint_bounded(m: BufferModel)
    requires
        m.history.len() <= MAX_HISTORY,
    ensures
        checkpoint_model(m).history.len() <= MAX_HISTORY,
        checkpoint_model(m).history.last() == m.text,
{
}

} // verus!
