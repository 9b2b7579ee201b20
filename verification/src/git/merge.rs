//! Parse a file with git conflict markers into separate ours/theirs/result versions.
use vstd::prelude::*;

use crate::text::{
    copy_chars, extend_seqs, join_lines, join_nl, lines, seqs_of, split_lines, starts_with,
    starts_with_exec, str_chars, texts, to_strings,
};

verus! {

#[derive(Debug, Clone)]
pub struct ConflictHunk {
    pub result_line_start: usize,
    pub result_line_end: usize,
    pub ours: Vec<String>,
    pub theirs: Vec<String>,
    pub resolution: HunkResolution,
}

#[derive(Debug, Clone, PartialEq, Eq, Structural)]
pub enum HunkResolution {
    Unresolved,
    AcceptOurs,
    AcceptTheirs,
}

pub struct ParsedConflict {
    pub ours_content: String,
    pub theirs_content: String,
    pub result_content: String,
    pub hunks: Vec<ConflictHunk>,
}

/// A conflict hunk: where its lines sit in the result, and both sides.
pub type HunkModel = (nat, nat, Seq<Seq<char>>, Seq<Seq<char>>);

/// The lines of the three versions, the hunks, and whether a conflict was seen.
pub struct ConflictModel {
    pub ours: Seq<Seq<char>>,
    pub theirs: Seq<Seq<char>>,
    pub result: Seq<Seq<char>>,
    pub hunks: Seq<HunkModel>,
    pub found: bool,
}

/// First index at or after `i` of a line starting with `marker`; `i` itself
/// when `i` is already past the end, and the number of lines when there is none.
pub open spec fn scan_until(ls: Seq<Seq<char>>, i: nat, marker: Seq<char>) -> nat
    decreases ls.len() - i,
{
    if i >= ls.len() || starts_with(ls[i as int], marker) {
        i
    } else {
        scan_until(ls, i + 1, marker)
    }
}

pub proof fn lemma_scan_until(ls: Seq<Seq<char>>, i: nat, marker: Seq<char>)
    ensures
        i <= scan_until(ls, i, marker),
        i <= ls.len() ==> scan_until(ls, i, marker) <= ls.len(),
    decreases ls.len() - i,
{
    if i < ls.len() && !starts_with(ls[i as int], marker) {
        lemma_scan_until(ls, i + 1, marker);
    }
}

/// The lines `ls[a..b]`, empty when `a` is past `b` or the end.
pub open spec fn span(ls: Seq<Seq<char>>, a: nat, b: nat) -> Seq<Seq<char>> {
    if a < b && b <= ls.len() {
        ls.subrange(a as int, b as int)
    } else {
        seq![]
    }
}

/// Parsing from line `i` with what was gathered so far: a line starting with
/// `<<<<<<<` opens a hunk whose "ours" side runs to a line starting with
/// `=======` and whose "theirs" side runs to a line starting with `>>>>>>>`;
/// the result keeps "ours"; every other line goes to all three versions.
pub open spec fn parse_from(ls: Seq<Seq<char>>, i: nat, acc: ConflictModel) -> ConflictModel
    decreases ls.len() + 3 - i,
{
    if i >= ls.len() {
        acc
    } else if starts_with(ls[i as int], "<<<<<<<"@) {
        let j = scan_until(ls, i + 1, "======="@);
        let k = scan_until(ls, j + 1, ">>>>>>>"@);
        let ours = span(ls, i + 1, j);
        let theirs = span(ls, j + 1, k);
        let hunk: HunkModel = (acc.result.len(), acc.result.len() + ours.len(), ours, theirs);
        let next = ConflictModel {
            ours: acc.ours + ours,
            theirs: acc.theirs + theirs,
            result: acc.result + ours,
            hunks: acc.hunks.push(hunk),
            found: true,
        };
        proof {
            lemma_scan_until(ls, i + 1, "======="@);
            lemma_scan_until(ls, j + 1, ">>>>>>>"@);
        }
        parse_from(ls, k + 1, next)
    } else {
        let l = ls[i as int];
        parse_from(ls, i + 1, ConflictModel {
            ours: acc.ours.push(l),
            theirs: acc.theirs.push(l),
            result: acc.result.push(l),
            hunks: acc.hunks,
            found: acc.found,
        })
    }
}

/// The conflict model of a whole text.
pub open spec fn conflict_model(content: Seq<char>) -> ConflictModel {
    parse_from(
        lines(content),
        0,
        ConflictModel { ours: seq![], theirs: seq![], result: seq![], hunks: seq![], found: false },
    )
}

/// The model of a parsed hunk.
pub open spec fn hunk_model(h: ConflictHunk) -> HunkModel {
    (h.result_line_start as nat, h.result_line_end as nat, texts(h.ours@), texts(h.theirs@))
}

fn scan_until_exec(ls: &Vec<Vec<char>>, i: usize, marker: &Vec<char>) -> (j: usize)
    ensures
        j == scan_until(seqs_of(ls@), i as nat, marker@),
{
    let mut j = i;
    while j < ls.len() && !starts_with_exec(&ls[j], marker)
        invariant
            i <= j,
            scan_until(seqs_of(ls@), i as nat, marker@) == scan_until(seqs_of(ls@), j as nat, marker@),
        decreases ls.len() - j,
    {
        j += 1;
    }
    j
}

fn span_exec(ls: &Vec<Vec<char>>, a: usize, b: usize) -> (r: Vec<Vec<char>>)
    ensures
        seqs_of(r@) == span(seqs_of(ls@), a as nat, b as nat),
{
    let mut r: Vec<Vec<char>> = Vec::new();
    if a < b && b <= ls.len() {
        let mut i = a;
        while i < b
            invariant
                a <= i <= b <= ls.len(),
                seqs_of(r@) == seqs_of(ls@).subrange(a as int, i as int),
            decreases b - i,
        {
            let ghost before = r@;
            r.push(copy_chars(&ls[i]));
            proof {
                assert(seqs_of(r@) =~= seqs_of(before).push(ls@[i as int]@));
                assert(seqs_of(ls@).subrange(a as int, i + 1) =~= seqs_of(ls@).subrange(a as int, i as int).push(ls@[i as int]@));
            }
            i += 1;
        }
    } else {
        proof {
            assert(seqs_of(r@) =~= seq![]);
        }
    }
    r
}

/// Parse a file with conflict markers (<<<<<<<, =======, >>>>>>>) into three versions.
pub fn parse_conflict_file(content: &str) -> (r: Option<ParsedConflict>)
    ensures
        ({
            let m = conflict_model(content@);
            match r {
                None => !m.found,
                Some(p) => m.found && p.ours_content@ == join_nl(m.ours) && p.theirs_content@ == join_nl(m.theirs)
                    && p.result_content@ == join_nl(m.result) && p.hunks@.map_values(|h: ConflictHunk| hunk_model(h)) == m.hunks
                    && forall|i: int| 0 <= i < p.hunks@.len() ==> #[trigger] p.hunks@[i].resolution == HunkResolution::Unresolved,
            }
        }),
{
    let chars = str_chars(content);
    let ls = split_lines(&chars);
    let ghost lv = seqs_of(ls@);
    let open = str_chars("<<<<<<<");
    let mid = str_chars("=======");
    let close = str_chars(">>>>>>>");
    let mut ours_lines: Vec<Vec<char>> = Vec::new();
    let mut theirs_lines: Vec<Vec<char>> = Vec::new();
    let mut result_lines: Vec<Vec<char>> = Vec::new();
    let mut hunks: Vec<ConflictHunk> = Vec::new();
    let mut i: usize = 0;
    let mut found_conflict = false;
    let ghost init = ConflictModel { ours: seq![], theirs: seq![], result: seq![], hunks: seq![], found: false };
    proof {
        assert(seqs_of(ours_lines@) =~= seq![]);
        assert(seqs_of(theirs_lines@) =~= seq![]);
        assert(seqs_of(result_lines@) =~= seq![]);
        assert(hunks@.map_values(|h: ConflictHunk| hunk_model(h)) =~= seq![]);
    }
    while i < ls.len()
        invariant
            lv == seqs_of(ls@),
            lv == lines(content@),
            open@ == "<<<<<<<"@,
            mid@ == "======="@,
            close@ == ">>>>>>>"@,
            parse_from(lv, 0, init) == parse_from(lv, i as nat, ConflictModel {
                ours: seqs_of(ours_lines@),
                theirs: seqs_of(theirs_lines@),
                result: seqs_of(result_lines@),
                hunks: hunks@.map_values(|h: ConflictHunk| hunk_model(h)),
                found: found_conflict,
            }),
            forall|k: int| 0 <= k < hunks@.len() ==> #[trigger] hunks@[k].resolution == HunkResolution::Unresolved,
        decreases ls.len() + 3 - i,
    {
        let ghost acc0 = ConflictModel {
            ours: seqs_of(ours_lines@),
            theirs: seqs_of(theirs_lines@),
            result: seqs_of(result_lines@),
            hunks: hunks@.map_values(|h: ConflictHunk| hunk_model(h)),
            found: found_conflict,
        };
        let ghost i0 = i;
        if starts_with_exec(&ls[i], &open) {
            found_conflict = true;
            let j = scan_until_exec(&ls, i + 1, &mid);
            proof {
                lemma_scan_until(lv, (i + 1) as nat, mid@);
            }
            let ghost kk = scan_until(lv, (j + 1) as nat, close@);
            let (theirs, k) = if j < ls.len() {
                let k = scan_until_exec(&ls, j + 1, &close);
                proof {
                    lemma_scan_until(lv, (j + 1) as nat, close@);
                }
                (span_exec(&ls, j + 1, k), k)
            } else {
                let e: Vec<Vec<char>> = Vec::new();
                proof {
                    assert(seqs_of(e@) =~= seq![]);
                }
                (e, ls.len())
            };
            let ours = span_exec(&ls, i + 1, j);
            let result_start = result_lines.len();
            extend_seqs(&mut result_lines, &ours);
            let result_end = result_lines.len();
            extend_seqs(&mut ours_lines, &ours);
            extend_seqs(&mut theirs_lines, &theirs);
            let ghost before = hunks@;
            hunks.push(ConflictHunk {
                result_line_start: result_start,
                result_line_end: result_end,
                ours: to_strings(&ours),
                theirs: to_strings(&theirs),
                resolution: HunkResolution::Unresolved,
            });
            proof {
                assert(hunks@.map_values(|h: ConflictHunk| hunk_model(h)) =~= before.map_values(|h: ConflictHunk| hunk_model(h)).push(hunk_model(hunks@.last())));
            }
            i = if k < ls.len() {
                k + 1
            } else {
                ls.len()
            };
            proof {
                let jj = scan_until(lv, (i0 + 1) as nat, mid@);
                let ks = scan_until(lv, (jj + 1) as nat, close@);
                let o = span(lv, (i0 + 1) as nat, jj);
                let t = span(lv, (jj + 1) as nat, ks);
                let nxt = ConflictModel {
                    ours: acc0.ours + o,
                    theirs: acc0.theirs + t,
                    result: acc0.result + o,
                    hunks: acc0.hunks.push((acc0.result.len(), acc0.result.len() + o.len(), o, t)),
                    found: true,
                };
                assert(parse_from(lv, i0 as nat, acc0) == parse_from(lv, ks + 1, nxt));
                let cur = ConflictModel {
                    ours: seqs_of(ours_lines@),
                    theirs: seqs_of(theirs_lines@),
                    result: seqs_of(result_lines@),
                    hunks: hunks@.map_values(|h: ConflictHunk| hunk_model(h)),
                    found: found_conflict,
                };
                assert(cur == nxt);
                if ks + 1 != i {
                    assert(parse_from(lv, ks + 1, nxt) == nxt);
                    assert(parse_from(lv, i as nat, nxt) == nxt);
                }
            }
        } else {
            let ghost bo = ours_lines@;
            let ghost bt = theirs_lines@;
            let ghost br = result_lines@;
            ours_lines.push(copy_chars(&ls[i]));
            theirs_lines.push(copy_chars(&ls[i]));
            result_lines.push(copy_chars(&ls[i]));
            proof {
                assert(seqs_of(ours_lines@) =~= seqs_of(bo).push(lv[i as int]));
                assert(seqs_of(theirs_lines@) =~= seqs_of(bt).push(lv[i as int]));
                assert(seqs_of(result_lines@) =~= seqs_of(br).push(lv[i as int]));
            }
            i += 1;
        }
    }
    if !found_conflict {
        return None;
    }
    Some(ParsedConflict {
        ours_content: crate::text::chars_string(&join_lines(&ours_lines)),
        theirs_content: crate::text::chars_string(&join_lines(&theirs_lines)),
        result_content: crate::text::chars_string(&join_lines(&result_lines)),
        hunks,
    })
}

} // verus!
