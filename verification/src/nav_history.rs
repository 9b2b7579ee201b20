//! Back/forward navigation history of cursor locations.
use vstd::prelude::*;

use crate::paths::{paths_equal, same_path};

verus! {

#[derive(Debug, Clone)]
pub struct NavigationEntry {
    pub path: String,
    pub row: usize,
    pub col: usize,
}

/// Entries kept at most.
pub const MAX_NAV_ENTRIES: usize = 50;

pub struct NavigationHistory {
    stack: Vec<NavigationEntry>,
    index: usize,
    max_size: usize,
}

/// A location: path text, row and column.
pub type NavModelEntry = (Seq<char>, usize, usize);

/// The history as a sequence of locations and a position in it.
pub struct NavModel {
    pub stack: Seq<NavModelEntry>,
    pub index: nat,
}

/// The location an entry records.
pub open spec fn entry_model(e: NavigationEntry) -> NavModelEntry {
    (e.path@, e.row, e.col)
}

/// The model after `push(path, row, col)`: entries after the current position
/// are dropped; a location on the same path (as paths compare) and row as
/// the last entry is not recorded again; the oldest entry goes beyond `MAX_NAV_ENTRIES`; the position
/// moves past the end.
pub open spec fn push_model(m: NavModel, e: NavModelEntry) -> NavModel {
    let s = if m.index < m.stack.len() { m.stack.take(m.index as int) } else { m.stack };
    if s.len() > 0 && same_path(s.last().0, e.0) && s.last().1 == e.1 {
        NavModel { stack: s, index: m.index }
    } else {
        let s2 = s.push(e);
        let s3 = if s2.len() > MAX_NAV_ENTRIES { s2.drop_first() } else { s2 };
        NavModel { stack: s3, index: s3.len() }
    }
}

impl NavigationHistory {
    pub closed spec fn model(&self) -> NavModel {
        NavModel { stack: self.stack@.map_values(|e: NavigationEntry| entry_model(e)), index: self.index as nat }
    }

    /// The position never passes the end, and at most `MAX_NAV_ENTRIES` are kept.
    pub closed spec fn wf(&self) -> bool {
        &&& self.index <= self.stack.len()
        &&& self.stack.len() <= MAX_NAV_ENTRIES
        &&& self.max_size == MAX_NAV_ENTRIES
    }

    /// An empty history.
    pub fn new() -> (h: Self)
        ensures
            h.wf(),
            h.model().stack.len() == 0,
            h.model().index == 0,
    {
        NavigationHistory { stack: Vec::new(), index: 0, max_size: MAX_NAV_ENTRIES }
    }

    /// Records a location.
    pub fn push(&mut self, path: String, row: usize, col: usize)
        requires
            old(self).wf(),
        ensures
            final(self).wf(),
            final(self).model() == push_model(old(self).model(), (path@, row, col)),
    {
        let ghost m = self.model();
        if self.index < self.stack.len() {
            self.stack.truncate(self.index);
        }
        proof {
            let s = if m.index < m.stack.len() { m.stack.take(m.index as int) } else { m.stack };
            assert(self.stack@.map_values(|e: NavigationEntry| entry_model(e)) =~= s);
        }
        let n = self.stack.len();
        if n > 0 {
            let last = &self.stack[n - 1];
            if paths_equal(last.path.as_str(), path.as_str()) && last.row == row {
                proof {
                    if m.index >= m.stack.len() {
                        assert(self.index == n);
                    }
                }
                return;
            }
        }
        let ghost before = self.stack@;
        self.stack.push(NavigationEntry { path, row, col });
        proof {
            assert(self.stack@.map_values(|e: NavigationEntry| entry_model(e)) =~= before.map_values(|e: NavigationEntry| entry_model(e)).push((path@, row, col)));
        }
        if self.stack.len() > self.max_size {
            let ghost before2 = self.stack@;
            self.stack.remove(0);
            proof {
                assert(self.stack@ =~= before2.drop_first());
                assert(self.stack@.map_values(|e: NavigationEntry| entry_model(e)) =~= before2.map_values(|e: NavigationEntry| entry_model(e)).drop_first());
            }
        }
        self.index = self.stack.len();
    }

    /// Steps back, returning the entry stepped onto.
    pub fn go_back(&mut self) -> (r: Option<NavigationEntry>)
        requires
            old(self).wf(),
        ensures
            final(self).wf(),
            final(self).model().stack == old(self).model().stack,
            old(self).model().index > 0 ==> final(self).model().index == old(self).model().index - 1
                && (r matches Some(e) && entry_model(e) == old(self).model().stack[old(self).model().index - 1]),
            old(self).model().index == 0 ==> final(self).model() == old(self).model() && r is None,
    {
        if self.index > 0 {
            self.index -= 1;
            let e = &self.stack[self.index];
            Some(NavigationEntry { path: e.path.clone(), row: e.row, col: e.col })
        } else {
            None
        }
    }

    /// Steps forward, returning the entry stepped onto.
    pub fn go_forward(&mut self) -> (r: Option<NavigationEntry>)
        requires
            old(self).wf(),
        ensures
            final(self).wf(),
            final(self).model().stack == old(self).model().stack,
            old(self).model().index + 1 < old(self).model().stack.len() ==> final(self).model().index
                == old(self).model().index + 1 && (r matches Some(e) && entry_model(e) == old(
                self,
            ).model().stack[old(self).model().index + 1 as int]),
            old(self).model().index + 1 >= old(self).model().stack.len() ==> final(self).model()
                == old(self).model() && r is None,
    {
        if self.index + 1 < self.stack.len() {
            self.index += 1;
            let e = &self.stack[self.index];
            Some(NavigationEntry { path: e.path.clone(), row: e.row, col: e.col })
        } else {
            None
        }
    }
}

/// After recording a location that differs from the last one, stepping back
/// lands on the entry before it, and the new location is the last entry.
pub proof fn lemma_push_records_last(m: NavModel, e: NavModelEntry)
    requires
        m.index <= m.stack.len() <= MAX_NAV_ENTRIES,
        !(m.index > 0 && same_path(m.stack[m.index - 1].0, e.0) && m.stack[m.index - 1].1 == e.1),
    ensures
        push_model(m, e).stack.last() == e,
        push_model(m, e).index == push_model(m, e).stack.len(),
        push_model(m, e).stack.len() <= MAX_NAV_ENTRIES,
{
}

/// Recording never grows the history beyond `MAX_NAV_ENTRIES` nor moves the
/// position past its end.
pub proof fn lemma_push_bounded(m: NavModel, e: NavModelEntry)
    requires
        m.index <= m.stack.len() <= MAX_NAV_ENTRIES,
    ensures
        push_model(m, e).index <= push_model(m, e).stack.len() <= MAX_NAV_ENTRIES,
{
}

} // verus!
