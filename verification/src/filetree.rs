//! The workspace file tree: entries, what a directory listing shows, and
//! the actions asked for from the tree's context menu.
use vstd::prelude::*;

use crate::paths::{file_name_of, opt_string_text, path_file_name};
use crate::text::{insert_sorted_unique, starts_with, starts_with_exec, str_chars, strictly_sorted, texts};

verus! {

pub struct FileEntry {
    pub name: String,
    pub path: String,
    pub is_dir: bool,
    pub is_expanded: bool,
    pub children: Vec<FileEntry>,
    pub depth: usize,
}

/// What the tree's context menu asks for; paths are of the entry acted on
/// (the parent folder for the new-file and new-folder actions).
#[derive(Debug, Clone)]
pub enum FileTreeAction {
    OpenFile(String),
    NewFile(String),
    NewFolder(String),
    Rename(String, String),
    Delete(String),
    RevealInExplorer(String),
    CopyPath(String),
}

/// One entry of a directory listing: its path, whether it is a directory,
/// and whether the repository ignores it.
pub struct DirItem {
    pub path: String,
    pub is_dir: bool,
    pub ignored: bool,
}

/// The name an entry shows: the path's file name, or nothing.
pub open spec fn entry_name(path: Seq<char>) -> Seq<char> {
    match file_name_of(path) {
        Some(n) => n,
        None => seq![],
    }
}

/// Directory names skipped outside a repository.
pub open spec fn is_ignored_dir_name(name: Seq<char>) -> bool {
    name == "target"@ || name == "node_modules"@ || name == "dist"@ || name == "build"@ || name == "__pycache__"@
        || name == ".cache"@
}

/// Whether a listing entry appears: hidden names (starting with `.`) never
/// do, ignored entries only when ignored files are shown.
pub open spec fn is_shown(item: DirItem, show_ignored: bool) -> bool {
    !starts_with(entry_name(item.path@), "."@) && (show_ignored || !item.ignored)
}

/// The paths of the shown directories (or files) of a listing.
pub open spec fn shown_paths(items: Seq<DirItem>, dirs: bool, show_ignored: bool) -> Set<Seq<char>> {
    Set::new(
        |p: Seq<char>|
            exists|i: int| 0 <= i < items.len() && items[i].path@ == p && items[i].is_dir == dirs && #[trigger] is_shown(items[i], show_ignored),
    )
}

/// `e` is the entry made for `path` at `depth`.
pub open spec fn is_entry_for(e: FileEntry, path: Seq<char>, depth: int, is_dir: bool) -> bool {
    &&& e.path@ == path
    &&& e.name@ == entry_name(path)
    &&& e.is_dir == is_dir
    &&& e.is_expanded == (depth == 0)
    &&& e.children@.len() == 0
    &&& e.depth == depth
}

/// The paths of some entries.
pub open spec fn entry_paths(v: Seq<FileEntry>) -> Seq<Seq<char>> {
    v.map_values(|e: FileEntry| e.path@)
}

/// The first `d` of `children` are the shown directories of `items`, the
/// rest the shown files, each group in path order, each a fresh entry one
/// level below `depth`.
pub open spec fn splits_listing(children: Seq<FileEntry>, d: int, items: Seq<DirItem>, depth: int, show_ignored: bool) -> bool {
    let dirs = entry_paths(children.take(d));
    let files = entry_paths(children.skip(d));
    &&& 0 <= d <= children.len()
    &&& strictly_sorted(dirs) && dirs.to_set() == shown_paths(items, true, show_ignored)
    &&& strictly_sorted(files) && files.to_set() == shown_paths(items, false, show_ignored)
    &&& forall|k: int| 0 <= k < children.len() ==> is_entry_for(#[trigger] children[k], children[k].path@, depth + 1, k < d)
}

/// `children` lists the shown directories of `items`, then the shown
/// files, each group in path order, each as a fresh entry one level deeper.
pub open spec fn lists_listing(children: Seq<FileEntry>, items: Seq<DirItem>, depth: int, show_ignored: bool) -> bool {
    exists|d: int| #[trigger] splits_listing(children, d, items, depth, show_ignored)
}

impl FileEntry {
    /// An entry for `path` at `depth`, named after its file name; only the
    /// root (depth 0) starts expanded.
    pub fn new(path: String, depth: usize, is_dir: bool) -> (e: Self)
        ensures
            is_entry_for(e, path@, depth as int, is_dir),
    {
        let name = match path_file_name(path.as_str()) {
            Some(n) => n,
            None => String::new(),
        };
        FileEntry { name, path, is_dir, is_expanded: depth == 0, children: Vec::new(), depth }
    }

    /// Replaces a directory's children by what its listing shows; a file is
    /// left as it is.
    pub fn load_children(&mut self, items: &Vec<DirItem>, show_ignored: bool)
        requires
            old(self).depth < usize::MAX,
        ensures
            !old(self).is_dir ==> *final(self) == *old(self),
            old(self).is_dir ==> {
                &&& lists_listing(final(self).children@, items@, old(self).depth as int, show_ignored)
                &&& final(self).name == old(self).name && final(self).path == old(self).path
                &&& final(self).is_dir && final(self).is_expanded == old(self).is_expanded
                &&& final(self).depth == old(self).depth
            },
    {
        if !self.is_dir {
            return;
        }
        self.children = children_of_listing(items, self.depth + 1, show_ignored);
    }

    /// A click on the entry's row. A folder opens or closes; when it opens
    /// with no children yet, its listing is to be loaded. A file is selected
    /// and opened.
    pub fn click(&mut self) -> (r: ClickOutcome)
        ensures
            old(self).is_dir ==> {
                &&& *final(self) == (FileEntry { is_expanded: !old(self).is_expanded, ..*old(self) })
                &&& r == (if !old(self).is_expanded && old(self).children@.len() == 0 {
                    ClickOutcome::LoadChildren
                } else {
                    ClickOutcome::Toggled
                })
            },
            !old(self).is_dir ==> *final(self) == *old(self) && (r matches ClickOutcome::Open(p) && p@ == old(self).path@),
    {
        if self.is_dir {
            self.is_expanded = !self.is_expanded;
            if self.is_expanded && self.children.len() == 0 {
                ClickOutcome::LoadChildren
            } else {
                ClickOutcome::Toggled
            }
        } else {
            ClickOutcome::Open(crate::text::copy_string(&self.path))
        }
    }
}

/// What a click on a tree row leads to.
pub enum ClickOutcome {
    /// The folder opened without children yet: its listing is to be loaded.
    LoadChildren,
    /// The folder opened or closed.
    Toggled,
    /// The file with this path is selected and opened.
    Open(String),
}

/// How an inline rename of `path` to `new_name` goes on: once committed
/// (focus lost or Enter) the rename is asked for; committed or cancelled
/// (Escape), the rename ends. Returns the action, and whether the rename
/// goes on.
pub fn rename_outcome(path: &str, new_name: &str, committed: bool, escaped: bool) -> (r: (Option<FileTreeAction>, bool))
    ensures
        committed ==> (r.0 matches Some(FileTreeAction::Rename(p, n)) && p@ == path@ && n@ == new_name@),
        !committed ==> r.0 is None,
        r.1 == (!committed && !escaped),
{
    let action = if committed {
        Some(FileTreeAction::Rename(crate::text::owned(path), crate::text::owned(new_name)))
    } else {
        None
    };
    (action, !committed && !escaped)
}

/// Whether a directory name is one skipped outside a repository.
pub fn fallback_ignored(name: &str, is_dir: bool) -> (b: bool)
    ensures
        b == (is_dir && is_ignored_dir_name(name@)),
{
    if !is_dir {
        return false;
    }
    let n = str_chars(name);
    crate::text::chars_eq(&n, &str_chars("target")) || crate::text::chars_eq(&n, &str_chars("node_modules"))
        || crate::text::chars_eq(&n, &str_chars("dist")) || crate::text::chars_eq(&n, &str_chars("build"))
        || crate::text::chars_eq(&n, &str_chars("__pycache__")) || crate::text::chars_eq(&n, &str_chars(".cache"))
}

fn is_shown_exec(item: &DirItem, show_ignored: bool) -> (b: bool)
    ensures
        b == is_shown(*item, show_ignored),
{
    let name = match path_file_name(item.path.as_str()) {
        Some(n) => str_chars(n.as_str()),
        None => Vec::new(),
    };
    let hidden = starts_with_exec(&name, &str_chars("."));
    !hidden && (show_ignored || !item.ignored)
}

fn entries_for(paths: &Vec<String>, depth: usize, is_dir: bool, out: &mut Vec<FileEntry>)
    ensures
        final(out)@.len() == old(out)@.len() + paths@.len(),
        final(out)@.take(old(out)@.len() as int) == old(out)@,
        entry_paths(final(out)@.skip(old(out)@.len() as int)) == texts(paths@),
        forall|k: int|
            old(out)@.len() <= k < final(out)@.len() ==> #[trigger] is_entry_for(
                final(out)@[k],
                final(out)@[k].path@,
                depth as int,
                is_dir,
            ),
{
    let ghost start = out@;
    let mut i: usize = 0;
    while i < paths.len()
        invariant
            i <= paths@.len(),
            out@.len() == start.len() + i,
            out@.take(start.len() as int) == start,
            entry_paths(out@.skip(start.len() as int)) == texts(paths@).take(i as int),
            forall|k: int| start.len() <= k < out@.len() ==> #[trigger] is_entry_for(out@[k], out@[k].path@, depth as int, is_dir),
        decreases paths.len() - i,
    {
        let ghost before = out@;
        let e = FileEntry::new(crate::text::copy_string(&paths[i]), depth, is_dir);
        out.push(e);
        proof {
            assert(out@.take(start.len() as int) =~= before.take(start.len() as int));
            assert(out@.skip(start.len() as int) =~= before.skip(start.len() as int).push(e));
            assert(entry_paths(out@.skip(start.len() as int)) =~= texts(paths@).take(i + 1));
        }
        i += 1;
    }
    proof {
        assert(texts(paths@).take(paths@.len() as int) =~= texts(paths@));
    }
}

/// The entries of a directory listing at `depth`: shown directories, then
/// shown files, each group in path order (each path once).
pub fn children_of_listing(items: &Vec<DirItem>, depth: usize, show_ignored: bool) -> (r: Vec<FileEntry>)
    ensures
        lists_listing(r@, items@, depth - 1, show_ignored),
{
    let mut dirs: Vec<String> = Vec::new();
    let mut files: Vec<String> = Vec::new();
    let mut i: usize = 0;
    proof {
        assert(texts(dirs@).to_set() =~= shown_paths(items@.take(0), true, show_ignored));
        assert(texts(files@).to_set() =~= shown_paths(items@.take(0), false, show_ignored));
    }
    while i < items.len()
        invariant
            i <= items@.len(),
            strictly_sorted(texts(dirs@)),
            strictly_sorted(texts(files@)),
            texts(dirs@).to_set() == shown_paths(items@.take(i as int), true, show_ignored),
            texts(files@).to_set() == shown_paths(items@.take(i as int), false, show_ignored),
        decreases items.len() - i,
    {
        let it = &items[i];
        let shown = is_shown_exec(it, show_ignored);
        let ghost pre = items@.take(i as int);
        let ghost post = items@.take(i + 1);
        proof {
            assert(post =~= pre.push(items@[i as int]));
        }
        if shown {
            if it.is_dir {
                insert_sorted_unique(&mut dirs, crate::text::copy_string(&it.path));
            } else {
                insert_sorted_unique(&mut files, crate::text::copy_string(&it.path));
            }
        }
        proof {
            assert forall|b: bool| #![trigger shown_paths(post, b, show_ignored)]
                shown_paths(post, b, show_ignored) =~= (if shown && it.is_dir == b {
                    shown_paths(pre, b, show_ignored).insert(it.path@)
                } else {
                    shown_paths(pre, b, show_ignored)
                }) by {
                assert forall|p: Seq<char>| shown_paths(post, b, show_ignored).contains(p) == (if shown && it.is_dir == b {
                    shown_paths(pre, b, show_ignored).insert(it.path@)
                } else {
                    shown_paths(pre, b, show_ignored)
                }).contains(p) by {
                    if shown_paths(post, b, show_ignored).contains(p) {
                        let k = choose|k: int|
                            0 <= k < post.len() && post[k].path@ == p && post[k].is_dir == b && #[trigger] is_shown(post[k], show_ignored);
                        if k < pre.len() {
                            assert(pre[k] == post[k]);
                        }
                    }
                    if shown_paths(pre, b, show_ignored).contains(p) {
                        let k = choose|k: int|
                            0 <= k < pre.len() && pre[k].path@ == p && pre[k].is_dir == b && #[trigger] is_shown(pre[k], show_ignored);
                        assert(post[k] == pre[k]);
                    }
                    if shown && it.is_dir == b && p == it.path@ {
                        assert(post[i as int] == *it);
                        assert(is_shown(post[i as int], show_ignored));
                    }
                }
            }
            assert(shown_paths(post, true, show_ignored) == (if shown && it.is_dir == true {
                shown_paths(pre, true, show_ignored).insert(it.path@)
            } else {
                shown_paths(pre, true, show_ignored)
            }));
            assert(shown_paths(post, false, show_ignored) == (if shown && it.is_dir == false {
                shown_paths(pre, false, show_ignored).insert(it.path@)
            } else {
                shown_paths(pre, false, show_ignored)
            }));
        }
        i += 1;
    }
    proof {
        assert(items@.take(items@.len() as int) =~= items@);
    }
    let mut out: Vec<FileEntry> = Vec::new();
    entries_for(&dirs, depth, true, &mut out);
    let ghost nd = out@.len();
    proof {
        assert(out@.skip(0) =~= out@);
    }
    entries_for(&files, depth, false, &mut out);
    proof {
        let d = dirs@.len() as int;
        assert(out@.take(d) == out@.take(d));
        assert(entry_paths(out@.take(d)) == texts(dirs@));
        assert(entry_paths(out@.skip(d)) == texts(files@));
        assert forall|k: int| 0 <= k < out@.len() implies is_entry_for(#[trigger] out@[k], out@[k].path@, depth - 1 + 1, k < d) by {
            if k < d {
                assert(out@[k] == out@.take(d)[k]);
            }
        }
        assert(splits_listing(out@, d, items@, depth - 1, show_ignored));
    }
    out
}

} // verus!
