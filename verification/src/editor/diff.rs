//! Per-line change markers against the last committed version of a file.
use vstd::prelude::*;

use crate::text::{chars_eq, lines, seqs_of, split_lines, str_chars};

verus! {

pub const DIFF_UNCHANGED: u8 = 0;
pub const DIFF_ADDED: u8 = 1;
pub const DIFF_MODIFIED: u8 = 2;
pub const DIFF_DELETED_ABOVE: u8 = 3;

/// The marker of line `i`: unchanged when the committed version has the same
/// line at the same index; modified when it has that line elsewhere; added
/// otherwise; unchanged past the end of the current text.
pub open spec fn diff_marker(old: Seq<Seq<char>>, new: Seq<Seq<char>>, i: int) -> u8 {
    if i < new.len() {
        if i < old.len() && old[i] == new[i] {
            DIFF_UNCHANGED
        } else if old.contains(new[i]) {
            DIFF_MODIFIED
        } else {
            DIFF_ADDED
        }
    } else {
        DIFF_UNCHANGED
    }
}

fn contains_line(ls: &Vec<Vec<char>>, l: &Vec<char>) -> (b: bool)
    ensures
        b == seqs_of(ls@).contains(l@),
{
    let mut i: usize = 0;
    while i < ls.len()
        invariant
            i <= ls.len(),
            forall|j: int| 0 <= j < i ==> seqs_of(ls@)[j] != l@,
        decreases ls.len() - i,
    {
        if chars_eq(&ls[i], l) {
            assert(seqs_of(ls@)[i as int] == l@);
            return true;
        }
        i += 1;
    }
    false
}

/// The markers of the first `num_lines` lines of `current` against `old_content`.
pub fn classify_line_diff(old_content: &str, current: &str, num_lines: usize) -> (r: Vec<u8>)
    ensures
        r@ == Seq::new(num_lines as nat, |i: int| diff_marker(lines(old_content@), lines(current@), i)),
{
    let old = split_lines(&str_chars(old_content));
    let new = split_lines(&str_chars(current));
    let ghost o = lines(old_content@);
    let ghost n = lines(current@);
    let mut r: Vec<u8> = Vec::new();
    let mut i: usize = 0;
    while i < num_lines
        invariant
            i <= num_lines,
            seqs_of(old@) == o,
            seqs_of(new@) == n,
            r@ == Seq::new(i as nat, |k: int| diff_marker(o, n, k)),
        decreases num_lines - i,
    {
        let m: u8 = if i < new.len() {
            if i < old.len() && chars_eq(&old[i], &new[i]) {
                DIFF_UNCHANGED
            } else if contains_line(&old, &new[i]) {
                DIFF_MODIFIED
            } else {
                DIFF_ADDED
            }
        } else {
            DIFF_UNCHANGED
        };
        proof {
            if i < new.len() {
                assert(n[i as int] == new@[i as int]@);
                if i < old.len() {
                    assert(o[i as int] == old@[i as int]@);
                }
            }
        }
        r.push(m);
        proof {
            assert(r@ =~= Seq::new((i + 1) as nat, |k: int| diff_marker(o, n, k)));
        }
        i += 1;
    }
    r
}

/// What looking a file up in the repository gave.
pub enum HeadLookup {
    /// The committed text and the text on disk.
    Texts { committed: String, current: String },
    /// The repository has no HEAD commit yet.
    NoHead,
    /// HEAD's tree does not hold the file.
    NotTracked,
    /// Any other failure (no repository, outside its work tree, unreadable).
    Failed,
}

/// The markers of the first `num_lines` lines of a file: every line added
/// when nothing is committed yet or the file is untracked, every line
/// unchanged when the lookup failed, else line by line (see `diff_marker`).
pub open spec fn line_diff(head: HeadLookup, num_lines: nat) -> Seq<u8> {
    match head {
        HeadLookup::Texts { committed, current } => Seq::new(
            num_lines,
            |i: int| diff_marker(lines(committed@), lines(current@), i),
        ),
        HeadLookup::NoHead => Seq::new(num_lines, |i: int| DIFF_ADDED),
        HeadLookup::NotTracked => Seq::new(num_lines, |i: int| DIFF_ADDED),
        HeadLookup::Failed => Seq::new(num_lines, |i: int| DIFF_UNCHANGED),
    }
}

fn filled(m: u8, n: usize) -> (r: Vec<u8>)
    ensures
        r@ == Seq::new(n as nat, |i: int| m),
{
    let mut r: Vec<u8> = Vec::new();
    let mut i: usize = 0;
    while i < n
        invariant
            i <= n,
            r@ == Seq::new(i as nat, |k: int| m),
        decreases n - i,
    {
        r.push(m);
        i += 1;
        proof {
            assert(r@ =~= Seq::new(i as nat, |k: int| m));
        }
    }
    r
}

/// The per-line change markers of a file, from what the repository lookup
/// gave (see `line_diff`).
pub fn compute_line_diff(head: &HeadLookup, num_lines: usize) -> (r: Vec<u8>)
    ensures
        r@ == line_diff(*head, num_lines as nat),
{
    match head {
        HeadLookup::Texts { committed, current } => classify_line_diff(committed.as_str(), current.as_str(), num_lines),
        HeadLookup::NoHead => filled(DIFF_ADDED, num_lines),
        HeadLookup::NotTracked => filled(DIFF_ADDED, num_lines),
        HeadLookup::Failed => filled(DIFF_UNCHANGED, num_lines),
    }
}

} // verus!
