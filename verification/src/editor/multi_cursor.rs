//! Cursor bookkeeping: duplicate cursors, the rows cursors are on, completion
//! at the cursor and the comment prefix of the open file.
use vstd::prelude::*;

use super::autocomplete::{is_candidate, Autocomplete};
use super::buffer::{char_index, checkpoint_model, insert_text, line_text, min_int, remove_text};
use super::cursor::{placed, selection_of, Cursor};
use super::highlight::keywords_for_language;
use super::input::bumped;
use super::word_analysis::{buffer_word_set, word_before};
use super::{same_view_state, Editor};
use crate::paths::{extension_of, path_extension};
use crate::text::{starts_with, strictly_sorted, str_chars, texts};

verus! {

/// A cursor's position.
pub open spec fn pos(c: Cursor) -> (usize, usize) {
    (c.row, c.col)
}

/// Whether some cursor among `cs` is at `p`.
pub open spec fn has_pos(cs: Seq<Cursor>, p: (usize, usize)) -> bool {
    exists|k: int| 0 <= k < cs.len() && pos(#[trigger] cs[k]) == p
}

/// The cursors not at the primary position `p`, each position kept only at
/// its first occurrence, in order.
pub open spec fn deduped(cs: Seq<Cursor>, p: (usize, usize)) -> Seq<Cursor>
    decreases cs.len(),
{
    if cs.len() == 0 {
        seq![]
    } else {
        let rest = deduped(cs.drop_last(), p);
        let c = cs.last();
        if pos(c) == p || has_pos(rest, pos(c)) {
            rest
        } else {
            rest.push(c)
        }
    }
}

/// The values of `v` are strictly increasing.
pub open spec fn increasing(v: Seq<usize>) -> bool {
    forall|i: int, j: int| 0 <= i < j < v.len() ==> v[i] < v[j]
}

/// The rows of the primary cursor and the extra cursors.
pub open spec fn cursor_rows(primary: Cursor, extras: Seq<Cursor>) -> Set<usize> {
    Set::new(|r: usize| r == primary.row || exists|k: int| 0 <= k < extras.len() && (#[trigger] extras[k]).row == r)
}

/// The rows `a..=b`.
pub open spec fn rows_between(a: usize, b: usize) -> Seq<usize> {
    Seq::new((b - a + 1) as nat, |k: int| (a + k) as usize)
}

/// The line-comment prefix for a file extension: `# ` for Python, shell,
/// TOML, INI/config, YAML, Ruby, R and Perl files; `-- ` for SQL and Lua;
/// `// ` otherwise.
pub open spec fn comment_prefix_for(ext: Seq<char>) -> Seq<char> {
    if ext == "py"@ || ext == "sh"@ || ext == "bash"@ || ext == "zsh"@ || ext == "fish"@ || ext == "toml"@
        || ext == "ini"@ || ext == "cfg"@ || ext == "conf"@ || ext == "yaml"@ || ext == "yml"@ || ext == "rb"@
        || ext == "r"@ || ext == "pl"@ {
        "# "@
    } else if ext == "sql"@ || ext == "lua"@ {
        "-- "@
    } else {
        "// "@
    }
}

/// The extension of an optional path; empty when there is none.
pub open spec fn path_ext(path: Option<String>) -> Seq<char> {
    match path {
        Some(p) => match extension_of(p@) {
            Some(e) => e,
            None => seq![],
        },
        None => seq![],
    }
}

fn is_lit(v: &Vec<char>, lit: &str) -> (b: bool)
    ensures
        b == (v@ == lit@),
{
    crate::text::chars_eq(v, &str_chars(lit))
}

/// Inserts `x` into the strictly increasing `v` unless it is there.
pub(crate) fn insert_row(v: &mut Vec<usize>, x: usize)
    requires
        increasing(old(v)@),
    ensures
        increasing(final(v)@),
        final(v)@.to_set() == old(v)@.to_set().insert(x),
{
    let mut i: usize = 0;
    while i < v.len() && v[i] < x
        invariant
            i <= v.len(),
            v@ == old(v)@,
            increasing(v@),
            forall|j: int| 0 <= j < i ==> v@[j] < x,
        decreases v.len() - i,
    {
        i += 1;
    }
    if i < v.len() && v[i] == x {
        proof {
            assert(v@.to_set().insert(x) =~= v@.to_set());
        }
        return;
    }
    v.insert(i, x);
    proof {
        assert forall|a: int, b: int| 0 <= a < b < v@.len() implies v@[a] < v@[b] by {
            if b < i {
            } else if a < i && b == i {
            } else if a < i {
                assert(v@[b] == old(v)@[b - 1]);
            } else if a == i {
                assert(v@[b] == old(v)@[b - 1]);
            } else {
                assert(v@[a] == old(v)@[a - 1]);
                assert(v@[b] == old(v)@[b - 1]);
            }
        }
        assert forall|y: usize| #[trigger] v@.to_set().contains(y) <==> old(v)@.to_set().insert(x).contains(y) by {
            if v@.to_set().contains(y) {
                let k = choose|k: int| 0 <= k < v@.len() && v@[k] == y;
                if k < i {
                    assert(old(v)@[k] == y);
                } else if k > i {
                    assert(old(v)@[k - 1] == y);
                }
            }
            if old(v)@.to_set().contains(y) && y != x {
                let k = choose|k: int| 0 <= k < old(v)@.len() && old(v)@[k] == y;
                if k < i {
                    assert(v@[k] == y);
                } else {
                    assert(v@[k + 1] == y);
                }
            }
            if y == x {
                assert(v@[i as int] == x);
            }
        }
        assert(v@.to_set() =~= old(v)@.to_set().insert(x));
    }
}

impl Editor {
    /// Drops the extra cursors at the primary cursor's position, and every
    /// extra cursor at a position an earlier one already has.
    pub fn dedup_cursors(&mut self)
        ensures
            final(self).extra_cursors@ == deduped(old(self).extra_cursors@, pos(old(self).cursor)),
            final(self).cursor == old(self).cursor,
            final(self).buffer@ == old(self).buffer@,
            *final(self) == (Editor { extra_cursors: final(self).extra_cursors, ..*old(self) }),
    {
        let primary = self.cursor.position();
        let mut kept: Vec<Cursor> = Vec::new();
        let mut i: usize = 0;
        while i < self.extra_cursors.len()
            invariant
                i <= self.extra_cursors@.len(),
                primary == pos(self.cursor),
                kept@ == deduped(self.extra_cursors@.take(i as int), primary),
            decreases self.extra_cursors.len() - i,
        {
            let c = self.extra_cursors[i];
            proof {
                assert(self.extra_cursors@.take(i + 1).drop_last() =~= self.extra_cursors@.take(i as int));
            }
            let p = c.position();
            let mut seen = false;
            let mut k: usize = 0;
            while k < kept.len()
                invariant
                    k <= kept.len(),
                    seen == exists|m: int| 0 <= m < k && pos(#[trigger] kept@[m]) == p,
                decreases kept.len() - k,
            {
                if kept[k].row == p.0 && kept[k].col == p.1 {
                    seen = true;
                }
                k += 1;
            }
            if !(p.0 == primary.0 && p.1 == primary.1) && !seen {
                kept.push(c);
            }
            i += 1;
        }
        proof {
            assert(self.extra_cursors@.take(self.extra_cursors@.len() as int) =~= self.extra_cursors@);
        }
        self.extra_cursors = kept;
    }

    /// The rows the primary and extra cursors are on, ascending, each once.
    pub fn all_cursor_rows(&self) -> (rows: Vec<usize>)
        ensures
            increasing(rows@),
            rows@.to_set() == cursor_rows(self.cursor, self.extra_cursors@),
    {
        let mut rows: Vec<usize> = Vec::new();
        rows.push(self.cursor.row);
        proof {
            let t0 = self.extra_cursors@.take(0);
            assert forall|x: usize| #[trigger] rows@.to_set().contains(x) <==> cursor_rows(self.cursor, t0).contains(x) by {
                if rows@.to_set().contains(x) {
                    assert(rows@.contains(x));
                    let k = choose|k: int| 0 <= k < rows@.len() && rows@[k] == x;
                }
                if x == self.cursor.row {
                    assert(rows@[0] == x);
                    assert(rows@.contains(x));
                }
            }
            assert(rows@.to_set() =~= cursor_rows(self.cursor, t0));
        }
        let mut i: usize = 0;
        while i < self.extra_cursors.len()
            invariant
                i <= self.extra_cursors@.len(),
                increasing(rows@),
                rows@.to_set() == cursor_rows(self.cursor, self.extra_cursors@.take(i as int)),
            decreases self.extra_cursors.len() - i,
        {
            let r = self.extra_cursors[i].row;
            insert_row(&mut rows, r);
            proof {
                let t = self.extra_cursors@.take(i as int);
                let t1 = self.extra_cursors@.take(i + 1);
                assert forall|x: usize| #[trigger] cursor_rows(self.cursor, t1).contains(x) <==> cursor_rows(self.cursor, t).insert(r).contains(x) by {
                    if cursor_rows(self.cursor, t1).contains(x) && x != self.cursor.row {
                        let k = choose|k: int| 0 <= k < t1.len() && (#[trigger] t1[k]).row == x;
                        if k < i {
                            assert(t[k] == t1[k]);
                        }
                    }
                    if cursor_rows(self.cursor, t).contains(x) && x != self.cursor.row {
                        let k = choose|k: int| 0 <= k < t.len() && (#[trigger] t[k]).row == x;
                        assert(t1[k] == t[k]);
                    }
                    if x == r {
                        assert(t1[i as int].row == r);
                    }
                }
                assert(cursor_rows(self.cursor, t1) =~= cursor_rows(self.cursor, t).insert(r));
            }
            i += 1;
        }
        proof {
            assert(self.extra_cursors@.take(self.extra_cursors@.len() as int) =~= self.extra_cursors@);
        }
        rows
    }

    /// The rows the primary selection covers, or else the rows of all cursors.
    pub fn selected_line_rows(&self) -> (rows: Vec<usize>)
        ensures
            match selection_of(self.cursor) {
                Some((st, en)) => rows@ == rows_between(st.0, en.0),
                None => increasing(rows@) && rows@.to_set() == cursor_rows(self.cursor, self.extra_cursors@),
            },
    {
        if let Some(((sr, _), (er, _))) = self.cursor.selection_range() {
            proof {
                super::cursor::lemma_selection_ordered(self.cursor);
            }
            let mut rows: Vec<usize> = Vec::new();
            let mut r = sr;
            while r < er
                invariant
                    sr <= r <= er,
                    rows@ == rows_between(sr, er).take(r - sr),
                decreases er - r,
            {
                rows.push(r);
                proof {
                    assert(rows@ =~= rows_between(sr, er).take(r + 1 - sr));
                }
                r += 1;
            }
            rows.push(er);
            proof {
                assert(rows@ =~= rows_between(sr, er));
            }
            rows
        } else {
            self.all_cursor_rows()
        }
    }

    /// The line-comment prefix for the open file, by its extension.
    pub fn comment_prefix(&self) -> (r: &'static str)
        ensures
            r@ == comment_prefix_for(path_ext(self.current_path)),
    {
        let ext: Vec<char> = match &self.current_path {
            Some(p) => match path_extension(p.as_str()) {
                Some(e) => str_chars(e.as_str()),
                None => Vec::new(),
            },
            None => Vec::new(),
        };
        proof {
            assert(ext@ =~= path_ext(self.current_path));
        }
        if is_lit(&ext, "py") || is_lit(&ext, "sh") || is_lit(&ext, "bash") || is_lit(&ext, "zsh") || is_lit(&ext, "fish")
            || is_lit(&ext, "toml") || is_lit(&ext, "ini") || is_lit(&ext, "cfg") || is_lit(&ext, "conf")
            || is_lit(&ext, "yaml") || is_lit(&ext, "yml") || is_lit(&ext, "rb") || is_lit(&ext, "r")
            || is_lit(&ext, "pl") {
            "# "
        } else if is_lit(&ext, "sql") || is_lit(&ext, "lua") {
            "-- "
        } else {
            "// "
        }
    }

    /// Replaces the partial word before the cursor with the chosen completion
    /// (when the popup shows one) and hides the popup.
    pub fn confirm_autocomplete(&mut self)
        requires
            old(self).cursor_fits(),
            old(self).autocomplete.wf(),
            forall|i: int| 0 <= i < old(self).autocomplete.suggestions@.len() ==> old(self).cursor.col
                + (#[trigger] old(self).autocomplete.suggestions@[i])@.len() + old(self).buffer.text().len() <= usize::MAX,
        ensures
            !final(self).autocomplete.visible,
            final(self).autocomplete.suggestions == old(self).autocomplete.suggestions,
            final(self).autocomplete.query == old(self).autocomplete.query,
            final(self).autocomplete.selected == old(self).autocomplete.selected,
            final(self).extra_cursors == old(self).extra_cursors,
            same_view_state(*old(self), *final(self)),
            old(self).autocomplete.visible && old(self).autocomplete.suggestions@.len() > 0 ==> {
                let sug = old(self).autocomplete.suggestions@[old(self).autocomplete.selected as int]@;
                let t = old(self).buffer.text();
                let row = old(self).cursor.row;
                let ws = word_before(line_text(t, row as int), old(self).cursor.col as int).0;
                let a = char_index(t, row as int, ws);
                let b = min_int(char_index(t, row as int, old(self).cursor.col as int), t.len() as int);
                let t1 = if a < b { remove_text(t, a, b) } else { t };
                &&& final(self).buffer.text() == insert_text(t1, min_int(char_index(t1, row as int, ws), t1.len() as int), sug)
                &&& final(self).buffer@.history == checkpoint_model(old(self).buffer@).history
                &&& final(self).buffer@.future.len() == 0
                &&& final(self).cursor == placed(old(self).cursor, row, (ws + sug.len()) as usize)
                &&& final(self).is_modified
                &&& final(self).content_version == old(self).content_version.wrapping_add(1)
            },
            !(old(self).autocomplete.visible && old(self).autocomplete.suggestions@.len() > 0) ==> {
                &&& final(self).buffer@ == old(self).buffer@
                &&& final(self).cursor == old(self).cursor
                &&& final(self).is_modified == old(self).is_modified
                &&& final(self).content_version == old(self).content_version
            },
    {
        let confirmed: Option<String> = match self.autocomplete.confirm() {
            Some(s) => Some(crate::text::owned(s)),
            None => None,
        };
        if let Some(suggestion) = confirmed {
            let (word_start, _) = self.current_word_at_cursor();
            let (row, col) = self.cursor.position();
            proof {
                let line = line_text(self.buffer.text(), row as int);
                super::utils::lemma_extend_left(line, if col < line.len() { col as int } else { line.len() as int });
            }
            let start_idx = self.buffer.char_index(row, word_start);
            let end_idx = self.buffer.char_index(row, col);
            self.buffer.checkpoint();
            let ghost t0 = self.buffer.text();
            let len = self.buffer.rope_len();
            let e = if end_idx < len {
                end_idx
            } else {
                len
            };
            self.buffer.delete_range(start_idx, e);
            proof {
                if start_idx < e {
                    super::editing::lemma_char_index_nonneg(t0, row as int, word_start as int);
                }
            }
            self.buffer.insert_str(row, word_start, suggestion.as_str());
            let n = str_chars(suggestion.as_str()).len();
            self.cursor.set_position(row, word_start + n);
            self.is_modified = true;
            self.content_version = self.content_version.wrapping_add(1);
        }
        self.autocomplete.visible = false;
    }

    /// Recomputes completion suggestions for the partial word before the
    /// cursor, from the words in the buffer.
    pub fn trigger_autocomplete_update(&mut self)
        ensures
            ({
                let w = word_before(line_text(old(self).buffer.text(), old(self).cursor.row as int), old(self).cursor.col as int).1;
                let a = final(self).autocomplete;
                &&& w.len() < 2 ==> !a.visible && a.query == old(self).autocomplete.query
                    && a.suggestions == old(self).autocomplete.suggestions && a.selected == old(self).autocomplete.selected
                &&& w.len() >= 2 ==> a.query@ == w && strictly_sorted(texts(a.suggestions@))
                    && texts(a.suggestions@).to_set() == Set::new(|c: Seq<char>| buffer_word_set(old(self).buffer.text()).contains(c) && is_candidate(c, w))
                    && a.selected == 0 && a.visible == (a.suggestions@.len() > 0)
            }),
            final(self).autocomplete.wf(),
            final(self).buffer@ == old(self).buffer@,
            final(self).cursor == old(self).cursor,
            final(self).extra_cursors == old(self).extra_cursors,
            final(self).is_modified == old(self).is_modified,
            final(self).content_version == old(self).content_version,
            same_view_state(*old(self), *final(self)),
    {
        let (_, word) = self.current_word_at_cursor();
        let buffer_words = self.buffer_words();
        let keywords = keywords_for_language(self.highlighter.language.as_str());
        self.autocomplete.update(word.as_str(), buffer_words.as_slice(), keywords);
        proof {
            let w = word@;
            let bws = texts(buffer_words@);
            let kws = super::autocomplete::strs_view(keywords@);
            if w.len() >= 2 {
                assert forall|c: Seq<char>| #[trigger] super::autocomplete::candidate_set(w, kws, bws).contains(c) <==> (buffer_word_set(self.buffer.text()).contains(c) && is_candidate(c, w)) by {
                    assert(bws.to_set().contains(c) <==> bws.contains(c));
                    assert(!kws.contains(c));
                }
                assert(super::autocomplete::candidate_set(w, kws, bws) =~= Set::new(|c: Seq<char>| buffer_word_set(self.buffer.text()).contains(c) && is_candidate(c, w)));
            }
        }
    }
}

} // verus!