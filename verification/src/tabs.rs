//! Open editor tabs.
use vstd::prelude::*;

use crate::paths::{file_name_of, path_file_name, paths_equal, same_path};
use crate::text::{append_chars, chars_string, decimal, decimal_exec, str_chars};

verus! {

#[derive(Debug, Clone)]
pub struct Tab {
    pub id: usize,
    pub path: String,
    pub title: String,
    pub is_modified: bool,
}

pub struct TabManager {
    pub tabs: Vec<Tab>,
    pub active_tab: Option<usize>,
    pub next_id: usize,
}

/// The title of a tab on `path`: its file name, or `untitled` when it has none.
pub open spec fn tab_title(path: Seq<char>) -> Seq<char> {
    match file_name_of(path) {
        Some(n) => n,
        None => seq!['u', 'n', 't', 'i', 't', 'l', 'e', 'd'],
    }
}

/// The name `untitled-<n>`.
pub open spec fn untitled_name(n: nat) -> Seq<char> {
    seq!['u', 'n', 't', 'i', 't', 'l', 'e', 'd', '-'] + decimal(n)
}

fn untitled_name_exec(n: usize) -> (s: String)
    ensures
        s@ == untitled_name(n as nat),
{
    let mut v = str_chars("untitled-");
    proof {
        reveal_strlit("untitled-");
    }
    let d = decimal_exec(n);
    append_chars(&mut v, &d);
    proof {
        assert(v@ =~= untitled_name(n as nat));
    }
    chars_string(&v)
}

/// The ids of the tabs, in order.
pub open spec fn tab_ids(tabs: Seq<Tab>) -> Seq<usize> {
    tabs.map_values(|t: Tab| t.id)
}

/// Index of the first tab open on `path` (the same path, as paths compare).
pub open spec fn tab_with_path(tabs: Seq<Tab>, path: Seq<char>) -> Option<int> {
    if exists|i: int| 0 <= i < tabs.len() && same_path(tabs[i].path@, path) {
        Some(
            choose|i: int|
                0 <= i < tabs.len() && same_path(tabs[i].path@, path) && forall|j: int|
                    0 <= j < i ==> !same_path(tabs[j].path@, path),
        )
    } else {
        None
    }
}

/// The tab found for a path is open on that path.
pub proof fn lemma_tab_with_path(tabs: Seq<Tab>, path: Seq<char>)
    ensures
        tab_with_path(tabs, path) matches Some(i) ==> 0 <= i < tabs.len() && same_path(tabs[i].path@, path),
{
    if exists|i: int| 0 <= i < tabs.len() && same_path(tabs[i].path@, path) {
        let k = choose|i: int| 0 <= i < tabs.len() && same_path(tabs[i].path@, path);
        lemma_first_same_path(tabs, path, k);
    }
}

proof fn lemma_first_same_path(tabs: Seq<Tab>, path: Seq<char>, k: int)
    requires
        0 <= k < tabs.len(),
        same_path(tabs[k].path@, path),
    ensures
        exists|i: int|
            0 <= i < tabs.len() && same_path(tabs[i].path@, path) && forall|j: int| 0 <= j < i ==> !same_path(tabs[j].path@, path),
    decreases k,
{
    if exists|j: int| 0 <= j < k && same_path(tabs[j].path@, path) {
        let j = choose|j: int| 0 <= j < k && same_path(tabs[j].path@, path);
        lemma_first_same_path(tabs, path, j);
    } else {
        assert(forall|j: int| 0 <= j < k ==> !same_path(tabs[j].path@, path));
    }
}

impl TabManager {
    /// Every tab has an id below `next_id`, and no two tabs share an id.
    pub open spec fn wf(&self) -> bool {
        &&& forall|i: int| 0 <= i < self.tabs.len() ==> #[trigger] self.tabs[i].id < self.next_id_spec()
        &&& forall|i: int, j: int| 0 <= i < j < self.tabs.len() ==> self.tabs[i].id != self.tabs[j].id
    }

    /// The id the next new tab gets.
    pub open spec fn next_id_spec(&self) -> usize {
        self.next_id
    }

    pub fn new() -> (m: Self)
        ensures
            m.wf(),
            m.tabs@.len() == 0,
            m.active_tab is None,
            m.next_id_spec() == 0,
    {
        TabManager { tabs: Vec::new(), active_tab: None, next_id: 0 }
    }

    /// Activates the tab on `path`, opening a new one (titled after the file
    /// name, or `untitled`) when there is none; returns its id.
    pub fn open(&mut self, path: String, _content: String) -> (id: usize)
        requires
            old(self).wf(),
            old(self).next_id_spec() < usize::MAX,
        ensures
            final(self).wf(),
            final(self).active_tab == Some(id),
            match tab_with_path(old(self).tabs@, path@) {
                Some(i) => id == old(self).tabs@[i].id && final(self).tabs@ == old(self).tabs@
                    && final(self).next_id_spec() == old(self).next_id_spec(),
                None => id == old(self).next_id_spec() && final(self).next_id_spec() == id + 1
                    && final(self).tabs@.len() == old(self).tabs@.len() + 1
                    && final(self).tabs@.drop_last() == old(self).tabs@
                    && final(self).tabs@.last().id == id
                    && final(self).tabs@.last().path@ == path@
                    && final(self).tabs@.last().title@ == tab_title(path@)
                    && !final(self).tabs@.last().is_modified,
            },
    {
        let mut i: usize = 0;
        while i < self.tabs.len()
            invariant
                i <= self.tabs.len(),
                self.tabs@ == old(self).tabs@,
                self.next_id == old(self).next_id,
                self.active_tab == old(self).active_tab,
                old(self).wf(),
                old(self).next_id < usize::MAX,
                forall|j: int| 0 <= j < i ==> !same_path(self.tabs@[j].path@, path@),
            decreases self.tabs.len() - i,
        {
            if paths_equal(self.tabs[i].path.as_str(), path.as_str()) {
                let id = self.tabs[i].id;
                self.active_tab = Some(id);
                proof {
                    let k = choose|k: int|
                        0 <= k < self.tabs@.len() && same_path(self.tabs@[k].path@, path@) && forall|j: int|
                            0 <= j < k ==> !same_path(self.tabs@[j].path@, path@);
                    if k < i {
                    } else if k > i {
                    }
                    assert(k == i);
                }
                return id;
            }
            i += 1;
        }
        let title = match path_file_name(path.as_str()) {
            Some(n) => n,
            None => {
                proof {
                    reveal_strlit("untitled");
                }
                chars_string(&str_chars("untitled"))
            },
        };
        let id = self.next_id;
        self.next_id += 1;
        self.tabs.push(Tab { id, path, title, is_modified: false });
        self.active_tab = Some(id);
        proof {
            assert(self.tabs@.drop_last() =~= old(self).tabs@);
        }
        id
    }

    /// Opens a new modified tab named `untitled-<id + 1>` and returns its id.
    pub fn open_untitled(&mut self) -> (id: usize)
        requires
            old(self).wf(),
            old(self).next_id_spec() < usize::MAX - 1,
        ensures
            final(self).wf(),
            id == old(self).next_id_spec(),
            final(self).next_id_spec() == id + 1,
            final(self).active_tab == Some(id),
            final(self).tabs@.drop_last() == old(self).tabs@,
            final(self).tabs@.len() == old(self).tabs@.len() + 1,
            final(self).tabs@.last().id == id,
            final(self).tabs@.last().title@ == untitled_name((id + 1) as nat),
            final(self).tabs@.last().path@ == untitled_name((id + 1) as nat),
            final(self).tabs@.last().is_modified,
    {
        let id = self.next_id;
        self.next_id += 1;
        let title = untitled_name_exec(id + 1);
        let path = untitled_name_exec(id + 1);
        self.tabs.push(Tab { id, path, title, is_modified: true });
        self.active_tab = Some(id);
        proof {
            assert(self.tabs@.drop_last() =~= old(self).tabs@);
        }
        id
    }

    /// Closes the tab with `id`; when it was active, the last remaining tab becomes active.
    pub fn close(&mut self, id: usize)
        requires
            old(self).wf(),
        ensures
            final(self).wf(),
            final(self).next_id_spec() == old(self).next_id_spec(),
            final(self).tabs@ == old(self).tabs@.filter(|t: Tab| t.id != id),
            final(self).active_tab == (if old(self).active_tab == Some(id) {
                if final(self).tabs@.len() > 0 {
                    Some(final(self).tabs@.last().id)
                } else {
                    None
                }
            } else {
                old(self).active_tab
            }),
    {
        let ghost old_tabs = self.tabs@;
        let mut kept: Vec<Tab> = Vec::new();
        let ghost mut src: Seq<int> = seq![];
        let mut i: usize = 0;
        let n = self.tabs.len();
        let mut tabs = Vec::new();
        std::mem::swap(&mut tabs, &mut self.tabs);
        while i < n
            invariant
                n == tabs.len(),
                tabs@ == old_tabs,
                old_tabs == old(self).tabs@,
                old(self).wf(),
                self.next_id == old(self).next_id,
                self.active_tab == old(self).active_tab,
                i <= n,
                kept@ == old_tabs.take(i as int).filter(|t: Tab| t.id != id),
                src.len() == kept.len(),
                forall|a: int| 0 <= a < src.len() ==> 0 <= #[trigger] src[a] < i && kept@[a] == old_tabs[src[a]],
                forall|a: int, c: int| 0 <= a < c < src.len() ==> src[a] < src[c],
            decreases n - i,
        {
            proof {
                assert(old_tabs.take(i + 1).drop_last() =~= old_tabs.take(i as int));
                reveal(Seq::filter);
                assert(old_tabs.take(i + 1).last() == old_tabs[i as int]);
            }
            if tabs[i].id != id {
                let t = &tabs[i];
                kept.push(Tab { id: t.id, path: t.path.clone(), title: t.title.clone(), is_modified: t.is_modified });
                proof {
                    src = src.push(i as int);
                }
            }
            i += 1;
        }
        proof {
            assert(old_tabs.take(n as int) =~= old_tabs);
            assert forall|a: int, c: int| 0 <= a < c < kept@.len() implies kept@[a].id != kept@[c].id by {
                assert(src[a] < src[c]);
            }
            assert forall|a: int| 0 <= a < kept@.len() implies #[trigger] kept@[a].id < self.next_id by {
                assert(kept@[a] == old_tabs[src[a]]);
            }
        }
        self.tabs = kept;
        if self.active_tab == Some(id) {
            let len = self.tabs.len();
            self.active_tab = if len > 0 {
                Some(self.tabs[len - 1].id)
            } else {
                None
            };
        }
    }
}

} // verus!
