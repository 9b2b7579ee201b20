//! Git working-tree state as the editor shows it, and conflict parsing.
pub mod history;
pub mod merge;

use vstd::prelude::*;

verus! {

/// One changed file: its path, its change in the index, and in the working tree.
#[derive(Debug, Clone)]
pub struct FileStatus {
    pub path: String,
    pub index_status: FileChangeKind,
    pub wt_status: FileChangeKind,
}

#[derive(Debug, Clone, Copy, PartialEq, Eq, Structural)]
pub enum FileChangeKind {
    Unchanged,
    Modified,
    Added,
    Deleted,
    Renamed,
    Untracked,
}

/// Who last changed a line.
#[derive(Debug, Clone)]
pub struct BlameEntry {
    pub commit_short: String,
    pub author: String,
    pub line: usize,
}

#[derive(Debug, Clone)]
pub struct BranchInfo {
    pub name: String,
    pub is_remote: bool,
    pub is_current: bool,
}

/// One commit of the branch graph.
#[derive(Debug, Clone)]
pub struct BranchGraphEntry {
    pub short_hash: String,
    pub message: String,
    pub branches: Vec<String>,
    pub is_head: bool,
}

/// The status flags git reports for a path.
#[derive(Debug, Clone, Copy)]
pub struct StatusFlags {
    pub ignored: bool,
    pub index_modified: bool,
    pub index_new: bool,
    pub index_deleted: bool,
    pub index_renamed: bool,
    pub wt_modified: bool,
    pub wt_new: bool,
    pub wt_deleted: bool,
    pub wt_renamed: bool,
}

pub struct GitStatus {
    pub branch: String,
    pub files: Vec<FileStatus>,
    pub branches: Vec<BranchInfo>,
    pub graph_entries: Vec<BranchGraphEntry>,
    pub repo_path: Option<String>,
    pub ahead: usize,
    pub behind: usize,
    pub last_error: Option<String>,
}

/// The index change the flags show (modified, else added, else deleted,
/// else renamed, else none).
pub open spec fn index_change(f: StatusFlags) -> FileChangeKind {
    if f.index_modified {
        FileChangeKind::Modified
    } else if f.index_new {
        FileChangeKind::Added
    } else if f.index_deleted {
        FileChangeKind::Deleted
    } else if f.index_renamed {
        FileChangeKind::Renamed
    } else {
        FileChangeKind::Unchanged
    }
}

/// The working-tree change the flags show (modified, else untracked, else
/// deleted, else renamed, else none).
pub open spec fn worktree_change(f: StatusFlags) -> FileChangeKind {
    if f.wt_modified {
        FileChangeKind::Modified
    } else if f.wt_new {
        FileChangeKind::Untracked
    } else if f.wt_deleted {
        FileChangeKind::Deleted
    } else if f.wt_renamed {
        FileChangeKind::Renamed
    } else {
        FileChangeKind::Unchanged
    }
}

/// The status entry of a path with the given flags: none for an ignored path
/// or one without any change.
pub fn file_status_from(path: String, flags: StatusFlags) -> (r: Option<FileStatus>)
    ensures
        match r {
            Some(s) => !flags.ignored && s.path == path && s.index_status == index_change(flags)
                && s.wt_status == worktree_change(flags)
                && !(index_change(flags) == FileChangeKind::Unchanged && worktree_change(flags) == FileChangeKind::Unchanged),
            None => flags.ignored || (index_change(flags) == FileChangeKind::Unchanged && worktree_change(flags) == FileChangeKind::Unchanged),
        },
{
    if flags.ignored {
        return None;
    }
    let index_status = if flags.index_modified {
        FileChangeKind::Modified
    } else if flags.index_new {
        FileChangeKind::Added
    } else if flags.index_deleted {
        FileChangeKind::Deleted
    } else if flags.index_renamed {
        FileChangeKind::Renamed
    } else {
        FileChangeKind::Unchanged
    };
    let wt_status = if flags.wt_modified {
        FileChangeKind::Modified
    } else if flags.wt_new {
        FileChangeKind::Untracked
    } else if flags.wt_deleted {
        FileChangeKind::Deleted
    } else if flags.wt_renamed {
        FileChangeKind::Renamed
    } else {
        FileChangeKind::Unchanged
    };
    if index_status == FileChangeKind::Unchanged && wt_status == FileChangeKind::Unchanged {
        return None;
    }
    Some(FileStatus { path, index_status, wt_status })
}

/// The paths with a working-tree change, each with whether it was deleted
/// (deleted paths leave the index, the others are added to it).
pub open spec fn stage_all_paths(files: Seq<FileStatus>) -> Seq<(Seq<char>, bool)>
    decreases files.len(),
{
    if files.len() == 0 {
        seq![]
    } else {
        let rest = stage_all_paths(files.drop_last());
        let f = files.last();
        if f.wt_status != FileChangeKind::Unchanged {
            rest.push((f.path@, f.wt_status == FileChangeKind::Deleted))
        } else {
            rest
        }
    }
}

/// The paths with an index change.
pub open spec fn unstage_all_paths(files: Seq<FileStatus>) -> Seq<Seq<char>>
    decreases files.len(),
{
    if files.len() == 0 {
        seq![]
    } else {
        let rest = unstage_all_paths(files.drop_last());
        let f = files.last();
        if f.index_status != FileChangeKind::Unchanged {
            rest.push(f.path@)
        } else {
            rest
        }
    }
}

/// The texts of pairs of a string and a flag.
pub open spec fn flagged_texts(v: Seq<(String, bool)>) -> Seq<(Seq<char>, bool)> {
    v.map_values(|p: (String, bool)| (p.0@, p.1))
}

impl GitStatus {
    pub fn new() -> (g: Self)
        ensures
            g.branch@ == "—"@,
            g.files@.len() == 0 && g.branches@.len() == 0 && g.graph_entries@.len() == 0,
            g.repo_path is None,
            g.ahead == 0 && g.behind == 0,
            g.last_error is None,
    {
        GitStatus {
            branch: crate::text::owned("—"),
            files: Vec::new(),
            branches: Vec::new(),
            graph_entries: Vec::new(),
            repo_path: None,
            ahead: 0,
            behind: 0,
            last_error: None,
        }
    }

    /// Whether some file has a change in the index.
    pub fn has_staged_files(&self) -> (b: bool)
        ensures
            b == exists|i: int| 0 <= i < self.files@.len() && (#[trigger] self.files@[i]).index_status != FileChangeKind::Unchanged,
    {
        let mut i: usize = 0;
        while i < self.files.len()
            invariant
                i <= self.files@.len(),
                forall|j: int| 0 <= j < i ==> (#[trigger] self.files@[j]).index_status == FileChangeKind::Unchanged,
            decreases self.files.len() - i,
        {
            if self.files[i].index_status != FileChangeKind::Unchanged {
                return true;
            }
            i += 1;
        }
        false
    }

    /// The repository to load again, when one is open.
    pub fn refresh(&self) -> (r: Option<String>)
        ensures
            crate::paths::opt_string_text(r) == crate::paths::opt_string_text(self.repo_path),
    {
        match &self.repo_path {
            Some(p) => Some(crate::text::copy_string(p)),
            None => None,
        }
    }

    /// What staging everything does: each path with a working-tree change,
    /// and whether it is removed from the index (deleted) or added to it.
    fn stage_plan(&self) -> (r: Vec<(String, bool)>)
        ensures
            flagged_texts(r@) == stage_all_paths(self.files@),
    {
        let mut r: Vec<(String, bool)> = Vec::new();
        let mut i: usize = 0;
        while i < self.files.len()
            invariant
                i <= self.files@.len(),
                flagged_texts(r@) == stage_all_paths(self.files@.take(i as int)),
            decreases self.files.len() - i,
        {
            proof {
                assert(self.files@.take(i + 1).drop_last() =~= self.files@.take(i as int));
            }
            let f = &self.files[i];
            if f.wt_status != FileChangeKind::Unchanged {
                let ghost before = r@;
                let p = crate::text::copy_string(&f.path);
                let d = f.wt_status == FileChangeKind::Deleted;
                r.push((p, d));
                proof {
                    assert(flagged_texts(r@) =~= flagged_texts(before).push((p@, d)));
                }
            }
            i += 1;
        }
        proof {
            assert(self.files@.take(self.files@.len() as int) =~= self.files@);
        }
        r
    }

    /// What unstaging everything does: each path with an index change.
    fn unstage_plan(&self) -> (r: Vec<String>)
        ensures
            crate::text::texts(r@) == unstage_all_paths(self.files@),
    {
        let mut r: Vec<String> = Vec::new();
        let mut i: usize = 0;
        while i < self.files.len()
            invariant
                i <= self.files@.len(),
                crate::text::texts(r@) == unstage_all_paths(self.files@.take(i as int)),
            decreases self.files.len() - i,
        {
            proof {
                assert(self.files@.take(i + 1).drop_last() =~= self.files@.take(i as int));
            }
            let f = &self.files[i];
            if f.index_status != FileChangeKind::Unchanged {
                let ghost before = r@;
                let p = crate::text::copy_string(&f.path);
                r.push(p);
                proof {
                    assert(crate::text::texts(r@) =~= crate::text::texts(before).push(p@));
                }
            }
            i += 1;
        }
        proof {
            assert(self.files@.take(self.files@.len() as int) =~= self.files@);
        }
        r
    }
}

impl GitStatus {
    /// Stages everything: without an open repository, records the error
    /// `No repository path` and does nothing else; otherwise returns each
    /// path with a working-tree change, and whether it leaves the index
    /// (deleted) or is added to it.
    pub fn stage_all(&mut self) -> (r: Option<Vec<(String, bool)>>)
        ensures
            match old(self).repo_path {
                None => {
                    &&& r is None
                    &&& *final(self) == (GitStatus { last_error: final(self).last_error, ..*old(self) })
                    &&& final(self).last_error matches Some(e) && e@ == "No repository path"@
                },
                Some(_) => r matches Some(v) && flagged_texts(v@) == stage_all_paths(old(self).files@) && *final(self)
                    == *old(self),
            },
    {
        if self.repo_path.is_none() {
            self.last_error = Some(crate::text::owned("No repository path"));
            return None;
        }
        Some(self.stage_plan())
    }

    /// Unstages everything: without an open repository, records the error
    /// `No repository path` and does nothing else; otherwise returns each
    /// path with a change in the index.
    pub fn unstage_all(&mut self) -> (r: Option<Vec<String>>)
        ensures
            match old(self).repo_path {
                None => {
                    &&& r is None
                    &&& *final(self) == (GitStatus { last_error: final(self).last_error, ..*old(self) })
                    &&& final(self).last_error matches Some(e) && e@ == "No repository path"@
                },
                Some(_) => r matches Some(v) && crate::text::texts(v@) == unstage_all_paths(old(self).files@)
                    && *final(self) == *old(self),
            },
    {
        if self.repo_path.is_none() {
            self.last_error = Some(crate::text::owned("No repository path"));
            return None;
        }
        Some(self.unstage_plan())
    }
}

} // verus!
