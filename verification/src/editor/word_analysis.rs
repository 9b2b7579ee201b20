//! Words around the cursor and in the buffer.
use vstd::prelude::*;

use super::buffer::{line_count, line_text, min_int};
use super::cursor::selection_of;
use super::input::selection_text;
use super::utils::{
    extend_left, extend_left_exec, extend_right, extend_right_exec, lemma_extend_left,
    lemma_extend_right,
};
use super::Editor;
use crate::paths::opt_string_text;
use crate::text::{
    append_chars, chars_string, contains, contains_exec, find_char, find_char_exec, has_char,
    insert_sorted_unique, is_word_char, is_word_char_exec, lines, seqs_of, slice_chars,
    split_lines, starts_with, starts_with_exec, str_chars, strictly_sorted, texts, trim,
    trim_end, trim_end_char, trim_end_char_exec, trim_end_exec, trim_exec,
};

verus! {

/// `col` clamped to `len`.
pub open spec fn clamp_col(col: int, len: int) -> int {
    if col < len {
        col
    } else {
        len
    }
}

/// The partial word ending at column `col` of `line` (clamped to the line):
/// where it starts, and its text.
pub open spec fn word_before(line: Seq<char>, col: int) -> (int, Seq<char>) {
    let c = clamp_col(col, line.len() as int);
    let s = extend_left(line, c);
    (s, line.subrange(s, c))
}

/// The whole word around column `col` of `line` (clamped to the line); none
/// when no word character touches that column.
pub open spec fn word_around(line: Seq<char>, col: int) -> Option<Seq<char>> {
    let c = clamp_col(col, line.len() as int);
    let s = extend_left(line, c);
    let e = extend_right(line, c);
    if s == e {
        None
    } else {
        Some(line.subrange(s, e))
    }
}

/// `line[a..b]` is a whole word of at least two characters: word characters
/// only, with no word character just before or just after it.
pub open spec fn is_word_run(line: Seq<char>, a: int, b: int) -> bool {
    &&& 0 <= a
    &&& a + 2 <= b <= line.len()
    &&& forall|k: int| a <= k < b ==> is_word_char(#[trigger] line[k])
    &&& (a == 0 || !is_word_char(line[a - 1]))
    &&& (b == line.len() || !is_word_char(line[b]))
}

/// The words of at least two characters of `line` that end before index `i`
/// (a word ends where the first non-word character after it stands, or at the
/// end of the line).
pub open spec fn words_ending_before(line: Seq<char>, i: int) -> Set<Seq<char>> {
    Set::new(|w: Seq<char>| exists|a: int, b: int| #![trigger is_word_run(line, a, b)] is_word_run(line, a, b) && b < i && w == line.subrange(a, b))
}

/// The words of at least two characters of `line`.
pub open spec fn words_of_line(line: Seq<char>) -> Set<Seq<char>> {
    Set::new(|w: Seq<char>| exists|a: int, b: int| #![trigger is_word_run(line, a, b)] is_word_run(line, a, b) && w == line.subrange(a, b))
}

/// The words of at least two characters on lines `0..k` of `t`.
pub open spec fn words_of_lines(t: Seq<char>, k: int) -> Set<Seq<char>>
    decreases k,
{
    if k <= 0 {
        Set::empty()
    } else {
        words_of_lines(t, k - 1).union(words_of_line(line_text(t, k - 1)))
    }
}

/// The words of at least two characters anywhere in `t`.
pub open spec fn buffer_word_set(t: Seq<char>) -> Set<Seq<char>> {
    words_of_lines(t, line_count(t) as int)
}

proof fn lemma_extend_left_run(line: Seq<char>, i: int)
    requires
        0 <= i <= line.len(),
    ensures
        0 <= extend_left(line, i) <= i,
        forall|k: int| extend_left(line, i) <= k < i ==> is_word_char(#[trigger] line[k]),
        extend_left(line, i) == 0 || !is_word_char(line[extend_left(line, i) - 1]),
    decreases i,
{
    if i > 0 && is_word_char(line[i - 1]) {
        lemma_extend_left_run(line, i - 1);
    }
}

/// A word run ending at `b` starts where `extend_left` stops.
proof fn lemma_run_start(line: Seq<char>, a: int, b: int)
    requires
        is_word_run(line, a, b),
    ensures
        a == extend_left(line, b),
    decreases b - a,
{
    lemma_extend_left_run(line, b);
    let s = extend_left(line, b);
    if s < a {
        assert(is_word_char(line[a - 1]));
    } else if s > a {
        assert(is_word_char(line[s - 1]));
    }
}

/// The words so far, after one more character of the line is scanned.
proof fn lemma_words_step(line: Seq<char>, i: int)
    requires
        0 <= i < line.len(),
    ensures
        !is_word_char(line[i]) && i - extend_left(line, i) >= 2 ==> words_ending_before(line, i + 1)
            == words_ending_before(line, i).insert(line.subrange(extend_left(line, i), i)),
        !(!is_word_char(line[i]) && i - extend_left(line, i) >= 2) ==> words_ending_before(line, i + 1)
            == words_ending_before(line, i),
{
    lemma_extend_left_run(line, i);
    let s = extend_left(line, i);
    if !is_word_char(line[i]) && i - s >= 2 {
        assert(is_word_run(line, s, i));
        assert forall|w: Seq<char>| #[trigger] words_ending_before(line, i + 1).contains(w) <==> words_ending_before(line, i).insert(line.subrange(s, i)).contains(w) by {
            if words_ending_before(line, i + 1).contains(w) {
                let (a, b) = choose|a: int, b: int| #![trigger is_word_run(line, a, b)] is_word_run(line, a, b) && b < i + 1 && w == line.subrange(a, b);
                if b == i {
                    lemma_run_start(line, a, b);
                }
            }
        }
        assert(words_ending_before(line, i + 1) =~= words_ending_before(line, i).insert(line.subrange(s, i)));
    } else {
        assert forall|w: Seq<char>| #[trigger] words_ending_before(line, i + 1).contains(w) <==> words_ending_before(line, i).contains(w) by {
            if words_ending_before(line, i + 1).contains(w) {
                let (a, b) = choose|a: int, b: int| #![trigger is_word_run(line, a, b)] is_word_run(line, a, b) && b < i + 1 && w == line.subrange(a, b);
                if b == i {
                    lemma_run_start(line, a, b);
                }
            }
        }
        assert(words_ending_before(line, i + 1) =~= words_ending_before(line, i));
    }
}

/// At the end of the line, the trailing word (if long enough) completes the set.
proof fn lemma_words_end(line: Seq<char>)
    ensures
        line.len() - extend_left(line, line.len() as int) >= 2 ==> words_of_line(line)
            == words_ending_before(line, line.len() as int).insert(line.subrange(extend_left(line, line.len() as int), line.len() as int)),
        !(line.len() - extend_left(line, line.len() as int) >= 2) ==> words_of_line(line)
            == words_ending_before(line, line.len() as int),
{
    let n = line.len() as int;
    lemma_extend_left_run(line, n);
    let s = extend_left(line, n);
    if n - s >= 2 {
        assert(is_word_run(line, s, n));
    }
    assert forall|w: Seq<char>| #[trigger] words_of_line(line).contains(w) <==> (if n - s >= 2 {
        words_ending_before(line, n).insert(line.subrange(s, n))
    } else {
        words_ending_before(line, n)
    }).contains(w) by {
        if words_of_line(line).contains(w) {
            let (a, b) = choose|a: int, b: int| #![trigger is_word_run(line, a, b)] is_word_run(line, a, b) && w == line.subrange(a, b);
            if b == n {
                lemma_run_start(line, a, b);
            } else {
                assert(words_ending_before(line, n).contains(w));
            }
        }
        if words_ending_before(line, n).contains(w) {
            let (a, b) = choose|a: int, b: int| #![trigger is_word_run(line, a, b)] is_word_run(line, a, b) && b < n && w == line.subrange(a, b);
            assert(words_of_line(line).contains(w));
        }
    }
    if n - s >= 2 {
        assert(words_of_line(line) =~= words_ending_before(line, n).insert(line.subrange(s, n)));
    } else {
        assert(words_of_line(line) =~= words_ending_before(line, n));
    }
}

/// `a`, then `w`, then `b`.
pub open spec fn around(a: Seq<char>, w: Seq<char>, b: Seq<char>) -> Seq<char> {
    a + w + b
}

/// A trimmed line declares a function named `w`: it holds `fn w(` or
/// `fn w (`, and starts with `fn `, `pub fn `, `async fn `, `pub async fn `,
/// `pub(crate) fn `, `unsafe fn ` or `pub unsafe fn `.
pub open spec fn declares_fn(l: Seq<char>, w: Seq<char>) -> bool {
    &&& (contains(l, around("fn "@, w, "("@)) || contains(l, around("fn "@, w, " ("@)))
    &&& (starts_with(l, "fn "@) || starts_with(l, "pub fn "@) || starts_with(l, "async fn "@)
        || starts_with(l, "pub async fn "@) || starts_with(l, "pub(crate) fn "@)
        || starts_with(l, "unsafe fn "@) || starts_with(l, "pub unsafe fn "@))
}

/// A trimmed line declares a struct named `w`.
pub open spec fn declares_struct(l: Seq<char>, w: Seq<char>) -> bool {
    starts_with(l, around("struct "@, w, " "@)) || starts_with(l, around("struct "@, w, "{"@))
        || starts_with(l, around("pub struct "@, w, " "@)) || starts_with(l, around("pub struct "@, w, "{"@))
        || starts_with(l, around("pub(crate) struct "@, w, " "@))
}

/// A trimmed line declares an enum named `w`.
pub open spec fn declares_enum(l: Seq<char>, w: Seq<char>) -> bool {
    starts_with(l, around("enum "@, w, " "@)) || starts_with(l, around("enum "@, w, "{"@))
        || starts_with(l, around("pub enum "@, w, " "@)) || starts_with(l, around("pub enum "@, w, "{"@))
}

/// A trimmed line declares a type alias named `w`.
pub open spec fn declares_type(l: Seq<char>, w: Seq<char>) -> bool {
    starts_with(l, around("type "@, w, " "@)) || starts_with(l, around("pub type "@, w, " "@))
}

/// A trimmed line binds `w` with `let`.
pub open spec fn declares_let(l: Seq<char>, w: Seq<char>) -> bool {
    starts_with(l, around("let "@, w, ": "@)) || starts_with(l, around("let mut "@, w, ": "@))
        || starts_with(l, around("let "@, w, " ="@)) || starts_with(l, around("let mut "@, w, " ="@))
}

/// Where a `let` declaration's text ends: at the first `=`, else the first
/// `;`, else the end of the line.
pub open spec fn let_end(l: Seq<char>) -> int {
    match find_char(l, '=') {
        Some(i) => i,
        None => match find_char(l, ';') {
            Some(i) => i,
            None => l.len() as int,
        },
    }
}

/// The signature a trimmed line gives for `w`, if it declares it.
pub open spec fn line_signature(l: Seq<char>, w: Seq<char>) -> Option<Seq<char>> {
    if declares_fn(l, w) || declares_struct(l, w) || declares_enum(l, w) {
        Some(trim_end(trim_end_char(l, '{')))
    } else if declares_type(l, w) {
        Some(trim_end(trim_end_char(l, ';')))
    } else if declares_let(l, w) {
        Some(trim_end(l.take(let_end(l))))
    } else {
        None
    }
}

/// The signature from the first of `ls` (trimmed) that declares `w`.
pub open spec fn first_signature(ls: Seq<Seq<char>>, w: Seq<char>) -> Option<Seq<char>>
    decreases ls.len(),
{
    if ls.len() == 0 {
        None
    } else {
        match line_signature(trim(ls[0]), w) {
            Some(sig) => Some(sig),
            None => first_signature(ls.drop_first(), w),
        }
    }
}

pub(crate) fn around_exec(a: &str, w: &Vec<char>, b: &str) -> (r: Vec<char>)
    ensures
        r@ == around(a@, w@, b@),
{
    let mut r = str_chars(a);
    append_chars(&mut r, w);
    append_chars(&mut r, &str_chars(b));
    r
}

fn starts_around(l: &Vec<char>, a: &str, w: &Vec<char>, b: &str) -> (r: bool)
    ensures
        r == starts_with(l@, around(a@, w@, b@)),
{
    starts_with_exec(l, &around_exec(a, w, b))
}

fn starts_lit(l: &Vec<char>, a: &str) -> (r: bool)
    ensures
        r == starts_with(l@, a@),
{
    starts_with_exec(l, &str_chars(a))
}

fn line_signature_exec(l: &Vec<char>, w: &Vec<char>) -> (r: Option<Vec<char>>)
    ensures
        match r {
            Some(v) => line_signature(l@, w@) == Some(v@),
            None => line_signature(l@, w@) is None,
        },
{
    let is_fn = (contains_exec(l, &around_exec("fn ", w, "(")) || contains_exec(l, &around_exec("fn ", w, " (")))
        && (starts_lit(l, "fn ") || starts_lit(l, "pub fn ") || starts_lit(l, "async fn ")
        || starts_lit(l, "pub async fn ") || starts_lit(l, "pub(crate) fn ")
        || starts_lit(l, "unsafe fn ") || starts_lit(l, "pub unsafe fn "));
    let is_struct = starts_around(l, "struct ", w, " ") || starts_around(l, "struct ", w, "{")
        || starts_around(l, "pub struct ", w, " ") || starts_around(l, "pub struct ", w, "{")
        || starts_around(l, "pub(crate) struct ", w, " ");
    let is_enum = starts_around(l, "enum ", w, " ") || starts_around(l, "enum ", w, "{")
        || starts_around(l, "pub enum ", w, " ") || starts_around(l, "pub enum ", w, "{");
    if is_fn || is_struct || is_enum {
        return Some(trim_end_exec(&trim_end_char_exec(l, '{')));
    }
    if starts_around(l, "type ", w, " ") || starts_around(l, "pub type ", w, " ") {
        return Some(trim_end_exec(&trim_end_char_exec(l, ';')));
    }
    if starts_around(l, "let ", w, ": ") || starts_around(l, "let mut ", w, ": ")
        || starts_around(l, "let ", w, " =") || starts_around(l, "let mut ", w, " =") {
        let end = match find_char_exec(l, '=') {
            Some(i) => i,
            None => match find_char_exec(l, ';') {
                Some(i) => i,
                None => l.len(),
            },
        };
        return Some(trim_end_exec(&slice_chars(l, 0, end)));
    }
    None
}

impl Editor {
    /// The partial word ending at the primary cursor: its start column and text.
    pub fn current_word_at_cursor(&self) -> (r: (usize, String))
        ensures
            (r.0 as int, r.1@) == word_before(line_text(self.buffer.text(), self.cursor.row as int), self.cursor.col as int),
    {
        let (row, col) = self.cursor.position();
        let chars = self.buffer.line_vec(row);
        let col = if col < chars.len() {
            col
        } else {
            chars.len()
        };
        let start = extend_left_exec(&chars, col);
        let word = chars_string(&slice_chars(&chars, start, col));
        (start, word)
    }

    /// The selection's text when it is non-empty and within one line;
    /// otherwise the whole word around the primary cursor.
    pub fn current_word_full(&self) -> (r: Option<String>)
        requires
            self.cursor_fits(),
        ensures
            opt_string_text(r) == (match selection_text(self.state()) {
                Some(x) => if x.len() > 0 && !x.contains('\n') {
                    Some(x)
                } else {
                    word_around(line_text(self.buffer.text(), self.cursor.row as int), self.cursor.col as int)
                },
                None => word_around(line_text(self.buffer.text(), self.cursor.row as int), self.cursor.col as int),
            }),
    {
        if let Some(text) = self.selected_text() {
            let tv = str_chars(text.as_str());
            if tv.len() > 0 && !has_char(&tv, '\n') {
                return Some(text);
            }
        }
        let (row, col) = self.cursor.position();
        let chars = self.buffer.line_vec(row);
        let col = if col < chars.len() {
            col
        } else {
            chars.len()
        };
        let start = extend_left_exec(&chars, col);
        let end = extend_right_exec(&chars, col);
        if start == end {
            return None;
        }
        Some(chars_string(&slice_chars(&chars, start, end)))
    }

    /// Same as `current_word_full`, for callers outside the editor.
    pub fn current_word_full_pub(&self) -> (r: Option<String>)
        requires
            self.cursor_fits(),
        ensures
            opt_string_text(r) == (match selection_text(self.state()) {
                Some(x) => if x.len() > 0 && !x.contains('\n') {
                    Some(x)
                } else {
                    word_around(line_text(self.buffer.text(), self.cursor.row as int), self.cursor.col as int)
                },
                None => word_around(line_text(self.buffer.text(), self.cursor.row as int), self.cursor.col as int),
            }),
    {
        self.current_word_full()
    }

    /// Every word of at least two characters in the buffer, sorted, each once.
    pub fn buffer_words(&self) -> (r: Vec<String>)
        ensures
            strictly_sorted(texts(r@)),
            texts(r@).to_set() == buffer_word_set(self.buffer.text()),
    {
        let ghost t = self.buffer.text();
        let mut result: Vec<String> = Vec::new();
        proof {
            assert(texts(result@).to_set() =~= Set::empty());
        }
        let n = self.buffer.num_lines();
        let mut i: usize = 0;
        while i < n
            invariant
                i <= n,
                n == line_count(t),
                t == self.buffer.text(),
                strictly_sorted(texts(result@)),
                texts(result@).to_set() == words_of_lines(t, i as int),
            decreases n - i,
        {
            let line = self.buffer.line_vec(i);
            let ghost before = texts(result@).to_set();
            let mut word: Vec<char> = Vec::new();
            let mut k: usize = 0;
            while k < line.len()
                invariant
                    k <= line.len(),
                    line@ == line_text(t, i as int),
                    word@ == line@.subrange(extend_left(line@, k as int), k as int),
                    strictly_sorted(texts(result@)),
                    texts(result@).to_set() == before.union(words_ending_before(line@, k as int)),
                decreases line.len() - k,
            {
                proof {
                    lemma_extend_left_run(line@, k as int);
                    lemma_words_step(line@, k as int);
                }
                let ch = line[k];
                if is_word_char_exec(ch) {
                    word.push(ch);
                    proof {
                        assert(word@ =~= line@.subrange(extend_left(line@, k + 1), k + 1));
                    }
                } else {
                    if word.len() >= 2 {
                        insert_sorted_unique(&mut result, chars_string(&word));
                        proof {
                            assert(texts(result@).to_set() =~= before.union(words_ending_before(line@, k + 1)));
                        }
                    } else {
                        proof {
                            assert(texts(result@).to_set() =~= before.union(words_ending_before(line@, k + 1)));
                        }
                    }
                    word = Vec::new();
                    proof {
                        assert(word@ =~= line@.subrange(extend_left(line@, k + 1), k + 1));
                    }
                }
                k += 1;
            }
            proof {
                lemma_words_end(line@);
                lemma_extend_left_run(line@, line@.len() as int);
            }
            if word.len() >= 2 {
                insert_sorted_unique(&mut result, chars_string(&word));
            }
            proof {
                assert(texts(result@).to_set() =~= before.union(words_of_line(line@)));
            }
            i += 1;
        }
        result
    }

    /// Searches the buffer for a definition of `word` (a function, struct,
    /// enum, type alias or `let` binding) and returns its signature line,
    /// trimmed, without a trailing `{` or `;`, or up to the `=` of a binding.
    pub fn lookup_signature_in_buffer(&self, word: &str) -> (r: Option<String>)
        ensures
            opt_string_text(r) == first_signature(lines(self.buffer.text()), word@),
    {
        let content = self.buffer.to_string();
        let all = split_lines(&str_chars(content.as_str()));
        let w = str_chars(word);
        let mut i: usize = 0;
        proof {
            assert(seqs_of(all@).skip(0) =~= seqs_of(all@));
        }
        while i < all.len()
            invariant
                i <= all.len(),
                w@ == word@,
                seqs_of(all@) == lines(self.buffer.text()),
                first_signature(seqs_of(all@), word@) == first_signature(seqs_of(all@).skip(i as int), word@),
            decreases all.len() - i,
        {
            let trimmed = trim_exec(&all[i]);
            proof {
                let rest = seqs_of(all@).skip(i as int);
                assert(rest[0] == all@[i as int]@);
                assert(rest.drop_first() =~= seqs_of(all@).skip(i + 1));
            }
            if let Some(sig) = line_signature_exec(&trimmed, &w) {
                return Some(chars_string(&sig));
            }
            i += 1;
        }
        proof {
            assert(seqs_of(all@).skip(i as int) =~= seq![]);
        }
        None
    }
}

} // verus!