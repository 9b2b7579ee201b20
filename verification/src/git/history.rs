//! What the blame gutter and the branch view show of a repository's history,
//! and the reference names and decisions of the branch operations.
use vstd::prelude::*;

use crate::git::{BlameEntry, BranchGraphEntry, BranchInfo};
use crate::text::{append_chars, chars_string, owned, slice_chars, str_chars, texts};

verus! {

/// Hex digits of an abbreviated commit id.
pub const SHORT_HASH_LEN: usize = 7;

/// Most commits the branch view lists.
pub const GRAPH_LIMIT: usize = 20;

/// The abbreviated form of a commit id: its first seven characters.
pub open spec fn short_hash(id: Seq<char>) -> Seq<char> {
    if id.len() <= SHORT_HASH_LEN {
        id
    } else {
        id.take(SHORT_HASH_LEN as int)
    }
}

/// The first seven characters of a commit id.
pub fn short_hash_exec(id: &str) -> (r: String)
    ensures
        r@ == short_hash(id@),
{
    let cs = str_chars(id);
    let n = if cs.len() <= SHORT_HASH_LEN { cs.len() } else { SHORT_HASH_LEN };
    let part = slice_chars(&cs, 0, n);
    proof {
        if cs@.len() <= SHORT_HASH_LEN {
            assert(cs@.subrange(0, n as int) =~= cs@);
        }
    }
    chars_string(&part)
}

// ── Blame ────────────────────────────────────────────────────────────────────

/// A run of lines last changed by one commit, as git's blame reports it:
/// `start_line` counts from one.
#[derive(Debug, Clone)]
pub struct BlameHunk {
    pub commit_id: String,
    /// The author's name, when it is valid text.
    pub author: Option<String>,
    pub start_line: usize,
    pub lines: usize,
}

/// The author shown for a hunk: its name, or `?`.
pub open spec fn hunk_author(h: BlameHunk) -> Seq<char> {
    match h.author {
        Some(a) => a@,
        None => seq!['?'],
    }
}

/// A blame entry as plain values: abbreviated commit, author, line from zero.
pub open spec fn blame_row(e: BlameEntry) -> (Seq<char>, Seq<char>, int) {
    (e.commit_short@, e.author@, e.line as int)
}

/// The entries of one hunk: one per line, counted from zero.
pub open spec fn hunk_rows(h: BlameHunk) -> Seq<(Seq<char>, Seq<char>, int)> {
    Seq::new(h.lines as nat, |i: int| (short_hash(h.commit_id@), hunk_author(h), h.start_line - 1 + i))
}

/// The entries of all hunks, in order.
pub open spec fn blame_rows(hunks: Seq<BlameHunk>) -> Seq<(Seq<char>, Seq<char>, int)>
    decreases hunks.len(),
{
    if hunks.len() == 0 {
        seq![]
    } else {
        blame_rows(hunks.drop_last()) + hunk_rows(hunks.last())
    }
}

/// Whether a hunk's lines are numbered from one and fit the index type.
pub open spec fn hunk_in_range(h: BlameHunk) -> bool {
    1 <= h.start_line && h.start_line + h.lines <= usize::MAX + 1
}

/// One blame entry per line of each hunk, in order: the commit abbreviated
/// to seven characters, the author (`?` where git has no valid name), and
/// the line counted from zero.
pub fn blame_entries(hunks: &Vec<BlameHunk>) -> (r: Vec<BlameEntry>)
    requires
        forall|k: int| 0 <= k < hunks@.len() ==> hunk_in_range(#[trigger] hunks@[k]),
    ensures
        r@.map_values(|e: BlameEntry| blame_row(e)) == blame_rows(hunks@),
{
    let mut r: Vec<BlameEntry> = Vec::new();
    let mut k: usize = 0;
    proof {
        assert(r@.map_values(|e: BlameEntry| blame_row(e)) =~= blame_rows(hunks@.take(0)));
    }
    while k < hunks.len()
        invariant
            k <= hunks@.len(),
            forall|m: int| 0 <= m < hunks@.len() ==> hunk_in_range(#[trigger] hunks@[m]),
            r@.map_values(|e: BlameEntry| blame_row(e)) == blame_rows(hunks@.take(k as int)),
        decreases hunks.len() - k,
    {
        let h = &hunks[k];
        let short = short_hash_exec(h.commit_id.as_str());
        let author = match &h.author {
            Some(a) => a.clone(),
            None => owned("?"),
        };
        proof {
            assert(hunk_in_range(hunks@[k as int]));
            reveal_strlit("?");
            assert(author@ == hunk_author(*h));
            assert(hunks@.take(k + 1).drop_last() =~= hunks@.take(k as int));
            assert(hunks@.take(k + 1).last() == *h);
        }
        let ghost base = r@.map_values(|e: BlameEntry| blame_row(e));
        let mut i: usize = 0;
        while i < h.lines
            invariant
                i <= h.lines,
                hunk_in_range(*h),
                short@ == short_hash(h.commit_id@),
                author@ == hunk_author(*h),
                r@.map_values(|e: BlameEntry| blame_row(e)) == base + hunk_rows(*h).take(i as int),
            decreases h.lines - i,
        {
            let ghost before = r@;
            r.push(BlameEntry { commit_short: short.clone(), author: author.clone(), line: h.start_line - 1 + i });
            i += 1;
            proof {
                assert(r@.map_values(|e: BlameEntry| blame_row(e)) =~= before.map_values(|e: BlameEntry| blame_row(e)).push(
                    blame_row(r@[r@.len() - 1]),
                ));
                assert(hunk_rows(*h).take(i as int) =~= hunk_rows(*h).take(i - 1).push(hunk_rows(*h)[i - 1]));
            }
        }
        proof {
            assert(hunk_rows(*h).take(h.lines as int) =~= hunk_rows(*h));
        }
        k += 1;
    }
    proof {
        assert(hunks@.take(hunks@.len() as int) =~= hunks@);
    }
    r
}

// ── Branch graph ─────────────────────────────────────────────────────────────

/// A commit met walking the history: its full id and its summary line, when
/// it has one.
#[derive(Debug, Clone)]
pub struct CommitSummary {
    pub id: String,
    pub summary: Option<String>,
}

/// A branch and the commit its reference points at, when it resolves.
#[derive(Debug, Clone)]
pub struct BranchTip {
    pub name: String,
    pub target: Option<String>,
}

/// Whether a branch points at the commit `id`.
pub open spec fn points_at(t: BranchTip, id: Seq<char>) -> bool {
    t.target is Some && t.target->0@ == id
}

/// The names of the branches that point at `id`, in order.
pub open spec fn pointing_names(tips: Seq<BranchTip>, id: Seq<char>) -> Seq<Seq<char>>
    decreases tips.len(),
{
    if tips.len() == 0 {
        seq![]
    } else {
        let rest = pointing_names(tips.drop_last(), id);
        if points_at(tips.last(), id) {
            rest.push(tips.last().name@)
        } else {
            rest
        }
    }
}

/// The summary shown for a commit (empty where it has none).
pub open spec fn summary_text(c: CommitSummary) -> Seq<char> {
    match c.summary {
        Some(s) => s@,
        None => seq![],
    }
}

/// A graph entry as plain values.
pub open spec fn graph_row(e: BranchGraphEntry) -> (Seq<char>, Seq<char>, Seq<Seq<char>>, bool) {
    (e.short_hash@, e.message@, texts(e.branches@), e.is_head)
}

/// The graph entry of a commit.
pub open spec fn commit_row(c: CommitSummary, tips: Seq<BranchTip>, head: Option<String>) -> (
    Seq<char>,
    Seq<char>,
    Seq<Seq<char>>,
    bool,
) {
    (
        short_hash(c.id@),
        summary_text(c),
        pointing_names(tips, c.id@),
        head is Some && head->0@ == c.id@,
    )
}

/// The number of commits the branch view lists.
pub open spec fn graph_len(n: nat) -> nat {
    if n <= GRAPH_LIMIT {
        n
    } else {
        GRAPH_LIMIT as nat
    }
}

/// The names of the branches that point at `id`.
pub fn branches_at(tips: &Vec<BranchTip>, id: &String) -> (r: Vec<String>)
    ensures
        texts(r@) == pointing_names(tips@, id@),
{
    let mut r: Vec<String> = Vec::new();
    let mut j: usize = 0;
    while j < tips.len()
        invariant
            j <= tips@.len(),
            texts(r@) == pointing_names(tips@.take(j as int), id@),
        decreases tips.len() - j,
    {
        proof {
            assert(tips@.take(j + 1).drop_last() =~= tips@.take(j as int));
        }
        let t = &tips[j];
        let hit = match &t.target {
            Some(target) => *target == *id,
            None => false,
        };
        if hit {
            let ghost before = r@;
            r.push(t.name.clone());
            proof {
                assert(texts(r@) =~= texts(before).push(t.name@));
            }
        }
        j += 1;
    }
    proof {
        assert(tips@.take(tips@.len() as int) =~= tips@);
    }
    r
}

/// The branch view: the first twenty commits of the walk, each abbreviated,
/// with its summary, the branches that point at it, and whether HEAD does.
pub fn graph_entries(commits: &Vec<CommitSummary>, tips: &Vec<BranchTip>, head: &Option<String>) -> (r: Vec<
    BranchGraphEntry,
>)
    ensures
        r@.len() == graph_len(commits@.len()),
        forall|i: int| 0 <= i < r@.len() ==> graph_row(#[trigger] r@[i]) == commit_row(commits@[i], tips@, *head),
{
    let mut r: Vec<BranchGraphEntry> = Vec::new();
    let mut i: usize = 0;
    while i < commits.len() && i < GRAPH_LIMIT
        invariant
            i <= commits@.len(),
            i <= GRAPH_LIMIT,
            r@.len() == i,
            forall|m: int| 0 <= m < i ==> graph_row(#[trigger] r@[m]) == commit_row(commits@[m], tips@, *head),
        decreases commits.len() - i,
    {
        let c = &commits[i];
        let short_hash = short_hash_exec(c.id.as_str());
        let message = match &c.summary {
            Some(s) => s.clone(),
            None => String::new(),
        };
        let branches = branches_at(tips, &c.id);
        let is_head = match head {
            Some(h) => *h == c.id,
            None => false,
        };
        proof {
            assert(message@ == summary_text(*c));
        }
        r.push(BranchGraphEntry { short_hash, message, branches, is_head });
        i += 1;
    }
    r
}

// ── Reference names ──────────────────────────────────────────────────────────

/// The full reference name of a branch: under `refs/remotes/` for a remote
/// branch, under `refs/heads/` for a local one.
pub open spec fn branch_ref(b: BranchInfo) -> Seq<char> {
    if b.is_remote {
        "refs/remotes/"@ + b.name@
    } else {
        "refs/heads/"@ + b.name@
    }
}

pub fn branch_ref_name(b: &BranchInfo) -> (r: String)
    ensures
        r@ == branch_ref(*b),
{
    let mut cs = if b.is_remote { str_chars("refs/remotes/") } else { str_chars("refs/heads/") };
    append_chars(&mut cs, &str_chars(b.name.as_str()));
    chars_string(&cs)
}

/// The local reference of a branch name.
pub fn local_ref_name(branch: &str) -> (r: String)
    ensures
        r@ == "refs/heads/"@ + branch@,
{
    let mut cs = str_chars("refs/heads/");
    append_chars(&mut cs, &str_chars(branch));
    chars_string(&cs)
}

/// The reference that tracks a branch on `origin`.
pub fn upstream_ref_name(branch: &str) -> (r: String)
    ensures
        r@ == "refs/remotes/origin/"@ + branch@,
{
    let mut cs = str_chars("refs/remotes/origin/");
    append_chars(&mut cs, &str_chars(branch));
    chars_string(&cs)
}

/// The refspec that pushes a branch to the branch of the same name.
pub fn push_refspec(branch: &str) -> (r: String)
    ensures
        r@ == "refs/heads/"@ + branch@ + ":refs/heads/"@ + branch@,
{
    let mut cs = str_chars("refs/heads/");
    let b = str_chars(branch);
    append_chars(&mut cs, &b);
    append_chars(&mut cs, &str_chars(":refs/heads/"));
    append_chars(&mut cs, &b);
    chars_string(&cs)
}

// ── Merge and pull decisions ─────────────────────────────────────────────────

/// How a branch is brought into the current one.
#[derive(Debug, Clone, Copy, PartialEq, Eq, Structural)]
pub enum MergeStep {
    /// Move the current branch to the other one's commit.
    FastForward,
    /// Merge the histories.
    Merge,
}

/// What merging a branch does, from git's merge analysis: fast-forward where
/// it can, else a normal merge, else nothing to merge.
pub fn merge_step(fast_forward: bool, normal: bool) -> (r: Result<MergeStep, String>)
    ensures
        fast_forward ==> r == Ok::<MergeStep, String>(MergeStep::FastForward),
        !fast_forward && normal ==> r == Ok::<MergeStep, String>(MergeStep::Merge),
        !fast_forward && !normal ==> r is Err && r->Err_0@ == "Nothing to merge (already up to date)"@,
{
    if fast_forward {
        Ok(MergeStep::FastForward)
    } else if normal {
        Ok(MergeStep::Merge)
    } else {
        Err(owned("Nothing to merge (already up to date)"))
    }
}

/// What pulling does with the fetched branch.
#[derive(Debug, Clone, Copy, PartialEq, Eq, Structural)]
pub enum PullStep {
    FastForward,
    /// Nothing to do.
    UpToDate,
}

/// What pulling does, from git's merge analysis: fast-forward where it can,
/// nothing when up to date, else it refuses a diverged history.
pub fn pull_step(fast_forward: bool, up_to_date: bool) -> (r: Result<PullStep, String>)
    ensures
        fast_forward ==> r == Ok::<PullStep, String>(PullStep::FastForward),
        !fast_forward && up_to_date ==> r == Ok::<PullStep, String>(PullStep::UpToDate),
        !fast_forward && !up_to_date ==> r is Err && r->Err_0@
            == "Cannot fast-forward: diverged history. Please merge manually."@,
{
    if fast_forward {
        Ok(PullStep::FastForward)
    } else if up_to_date {
        Ok(PullStep::UpToDate)
    } else {
        Err(owned("Cannot fast-forward: diverged history. Please merge manually."))
    }
}

} // verus!
