//! The debug session of the workbench, and the breakpoints kept per file.
use vstd::prelude::*;

use crate::paths::same_file;
use crate::text::texts;

use super::client::{
    is_set_breakpoints, log_after, pending_view, queue_one, requests_view, session_after, state_after, DapMessage,
    DapRequest, DapSession, SessionView,
};
use super::types::{DebugSessionState, StackFrame, Variable};

verus! {

/// The active debug session, if any, and breakpoint storage: for each file,
/// its 1-based breakpoint lines.
pub struct DapManager {
    pub session: Option<DapSession>,
    /// Files with their breakpoint lines (each file once, lines ascending).
    pub breakpoints: Vec<(String, Vec<usize>)>,
    /// Set when a pause just happened.
    pub just_paused: bool,
}

/// The lines are strictly increasing.
pub open spec fn ascending(v: Seq<usize>) -> bool {
    forall|i: int, j: int| 0 <= i < j < v.len() ==> v[i] < v[j]
}

/// The files of the entries, in order.
pub open spec fn file_keys(v: Seq<(String, Vec<usize>)>) -> Seq<Seq<char>> {
    v.map_values(|e: (String, Vec<usize>)| e.0@)
}

/// Index of the first key that names `file`.
pub open spec fn entry_for(keys: Seq<Seq<char>>, file: Seq<char>) -> Option<int> {
    if exists|i: int| 0 <= i < keys.len() && same_file(keys[i], file) {
        Some(
            choose|i: int|
                0 <= i < keys.len() && same_file(keys[i], file) && forall|j: int| 0 <= j < i ==> !same_file(keys[j], file),
        )
    } else {
        None
    }
}

/// The breakpoint lines of `file`: those of the first entry that names it,
/// none without one.
pub open spec fn lines_of(v: Seq<(String, Vec<usize>)>, file: Seq<char>) -> Set<usize> {
    match entry_for(file_keys(v), file) {
        Some(i) => v[i].1@.to_set(),
        None => Set::empty(),
    }
}

proof fn lemma_first_key(keys: Seq<Seq<char>>, file: Seq<char>, k: int)
    requires
        0 <= k < keys.len(),
        same_file(keys[k], file),
    ensures
        exists|i: int| 0 <= i < keys.len() && same_file(keys[i], file) && forall|j: int| 0 <= j < i ==> !same_file(keys[j], file),
    decreases k,
{
    if exists|j: int| 0 <= j < k && same_file(keys[j], file) {
        let j = choose|j: int| 0 <= j < k && same_file(keys[j], file);
        lemma_first_key(keys, file, j);
    } else {
        assert(forall|j: int| 0 <= j < k ==> !same_file(keys[j], file));
    }
}

/// The entry found for a file is the first that names it; none is found
/// exactly when no entry names it.
pub proof fn lemma_entry_for(keys: Seq<Seq<char>>, file: Seq<char>)
    ensures
        match entry_for(keys, file) {
            Some(i) => 0 <= i < keys.len() && same_file(keys[i], file) && forall|j: int| 0 <= j < i ==> !same_file(keys[j], file),
            None => forall|j: int| 0 <= j < keys.len() ==> !same_file(keys[j], file),
        },
        forall|i: int| 0 <= i < keys.len() && same_file(keys[i], file) && (forall|j: int| 0 <= j < i ==> !same_file(keys[j], file))
            ==> entry_for(keys, file) == Some(i),
{
    if exists|i: int| 0 <= i < keys.len() && same_file(keys[i], file) {
        let k = choose|i: int| 0 <= i < keys.len() && same_file(keys[i], file);
        lemma_first_key(keys, file, k);
        let c = entry_for(keys, file)->0;
        assert forall|i: int| 0 <= i < keys.len() && same_file(keys[i], file) && (forall|j: int| 0 <= j < i ==> !same_file(keys[j], file))
            implies entry_for(keys, file) == Some(i) by {
            if c < i {
                assert(!same_file(keys[c], file));
            } else if i < c {
                assert(!same_file(keys[i], file));
            }
        }
    }
}

/// Adding a key at the end finds what was found before, and the new key
/// for a file nothing named yet.
proof fn lemma_entry_for_push(keys: Seq<Seq<char>>, k: Seq<char>, f: Seq<char>)
    ensures
        entry_for(keys.push(k), f) == (match entry_for(keys, f) {
            Some(i) => Some(i),
            None => if same_file(k, f) { Some(keys.len() as int) } else { None },
        }),
{
    let w = keys.push(k);
    lemma_entry_for(keys, f);
    lemma_entry_for(w, f);
    match entry_for(keys, f) {
        Some(i) => {
            assert(w[i] == keys[i]);
            assert forall|j: int| 0 <= j < i implies !same_file(w[j], f) by {
                assert(w[j] == keys[j]);
            }
        },
        None => {
            assert forall|j: int| 0 <= j < keys.len() implies !same_file(w[j], f) by {
                assert(w[j] == keys[j]);
            }
            if same_file(k, f) {
                assert(w[keys.len() as int] == k);
            }
        },
    }
}

/// `s` with `x` toggled: removed when present, added when absent.
pub open spec fn toggled(s: Set<usize>, x: usize) -> Set<usize> {
    if s.contains(x) {
        s.remove(x)
    } else {
        s.insert(x)
    }
}

impl DapManager {
    /// Each entry's lines are ascending.
    pub open spec fn wf(&self) -> bool {
        &&& forall|i: int| 0 <= i < self.breakpoints@.len() ==> ascending((#[trigger] self.breakpoints@[i]).1@)
    }

    /// The breakpoint lines of `file`.
    pub open spec fn lines(&self, file: Seq<char>) -> Set<usize> {
        lines_of(self.breakpoints@, file)
    }

    pub fn new() -> (m: Self)
        ensures
            m.wf(),
            forall|f: Seq<char>| #[trigger] m.lines(f) == Set::<usize>::empty(),
            !m.just_paused,
            m.session is None,
    {
        DapManager { session: None, breakpoints: Vec::new(), just_paused: false }
    }

    fn find_entry(&self, file: &str) -> (r: Option<usize>)
        ensures
            match r {
                Some(i) => i < self.breakpoints@.len() && entry_for(file_keys(self.breakpoints@), file@) == Some(i as int),
                None => entry_for(file_keys(self.breakpoints@), file@) is None,
            },
    {
        let ghost keys = file_keys(self.breakpoints@);
        let mut i: usize = 0;
        while i < self.breakpoints.len()
            invariant
                i <= self.breakpoints@.len(),
                keys == file_keys(self.breakpoints@),
                forall|j: int| 0 <= j < i ==> !same_file(#[trigger] keys[j], file@),
            decreases self.breakpoints.len() - i,
        {
            if crate::paths::paths_equal(self.breakpoints[i].0.as_str(), file) {
                proof {
                    assert(keys[i as int] == self.breakpoints@[i as int].0@);
                    lemma_entry_for(keys, file@);
                }
                return Some(i);
            }
            proof {
                assert(keys[i as int] == self.breakpoints@[i as int].0@);
            }
            i += 1;
        }
        proof {
            lemma_entry_for(keys, file@);
        }
        None
    }

    /// Toggles the breakpoint on `line` of `file`; returns the file's lines,
    /// ascending. An active session gets the new lines: queued for when the
    /// adapter is ready, and, once it is, with the request that sets them now.
    pub fn toggle_breakpoint(&mut self, file: &str, line: usize) -> (r: (Vec<usize>, Option<DapRequest>))
        requires
            old(self).wf(),
            old(self).session matches Some(s) ==> s.next_seq < u64::MAX,
        ensures
            final(self).wf(),
            final(self).lines(file@) == toggled(old(self).lines(file@), line),
            forall|f: Seq<char>|
                entry_for(file_keys(old(self).breakpoints@), f) != entry_for(file_keys(old(self).breakpoints@), file@)
                    ==> #[trigger] final(self).lines(f) == old(self).lines(f),
            ascending(r.0@),
            r.0@.to_set() == final(self).lines(file@),
            final(self).just_paused == old(self).just_paused,
            match old(self).session {
                None => final(self).session is None && r.1 is None,
                Some(s) => final(self).session matches Some(t) && {
                    &&& pending_view(t.pending_breakpoints@) == queue_one(pending_view(s.pending_breakpoints@), file@, r.0@)
                    &&& s.initialized ==> (r.1 matches Some(q) && is_set_breakpoints(q, s.next_seq as int, file@, r.0@))
                        && t == (DapSession {
                        pending_breakpoints: t.pending_breakpoints,
                        next_seq: (s.next_seq + 1) as u64,
                        ..s
                    })
                    &&& !s.initialized ==> r.1 is None && t == (DapSession { pending_breakpoints: t.pending_breakpoints, ..s })
                },
            },
    {
        let lines = self.store_toggle(file, line);
        let ghost mid = *self;
        let mut req: Option<DapRequest> = None;
        match self.session.take() {
            Some(mut sess) => {
                let ls = lines.as_slice();
                assert(ls@ == lines@);
                let send_now = sess.set_breakpoints(file, ls);
                if send_now {
                    req = Some(sess.set_breakpoints_request(file, ls));
                }
                self.session = Some(sess);
            },
            None => {},
        }
        proof {
            assert(self.breakpoints == mid.breakpoints);
            let keys = file_keys(old(self).breakpoints@);
            assert forall|f: Seq<char>| entry_for(keys, f) != entry_for(keys, file@)
                implies #[trigger] self.lines(f) == old(self).lines(f) by {
                assert(mid.lines(f) == old(self).lines(f));
            }
        }
        (lines, req)
    }

    fn store_toggle(&mut self, file: &str, line: usize) -> (r: Vec<usize>)
        requires
            old(self).wf(),
        ensures
            final(self).wf(),
            final(self).lines(file@) == toggled(old(self).lines(file@), line),
            forall|f: Seq<char>|
                entry_for(file_keys(old(self).breakpoints@), f) != entry_for(file_keys(old(self).breakpoints@), file@)
                    ==> #[trigger] final(self).lines(f) == old(self).lines(f),
            ascending(r@),
            r@.to_set() == final(self).lines(file@),
            final(self).just_paused == old(self).just_paused,
            final(self).session == old(self).session,
    {
        let ghost keys = file_keys(self.breakpoints@);
        let ghost old_v = self.breakpoints@;
        match self.find_entry(file) {
            Some(i) => {
                let lines = toggled_lines(copy_usizes(&self.breakpoints[i].1), line);
                let out = copy_usizes(&lines);
                let name = crate::text::copy_string(&self.breakpoints[i].0);
                let ghost e = (name, lines);
                proof {
                    lemma_update_entry(old_v, i as int, e);
                }
                self.breakpoints.set(i, (name, lines));
                out
            },
            None => {
                let mut lines: Vec<usize> = Vec::new();
                lines.push(line);
                proof {
                    assert(lines@.to_set() =~= Set::<usize>::empty().insert(line)) by {
                        assert(lines@[0] == line);
                    }
                }
                let out = copy_usizes(&lines);
                let entry = (crate::text::owned(file), lines);
                proof {
                    lemma_push_entry(old_v, entry);
                }
                self.breakpoints.push(entry);
                out
            },
        }
    }

    /// The breakpoint lines of `file`, ascending.
    pub fn breakpoint_lines_for(&self, file: &str) -> (r: Vec<usize>)
        requires
            self.wf(),
        ensures
            ascending(r@),
            r@.to_set() == self.lines(file@),
    {
        match self.find_entry(file) {
            Some(i) => {
                let mut out: Vec<usize> = Vec::new();
                let mut k: usize = 0;
                while k < self.breakpoints[i].1.len()
                    invariant
                        i < self.breakpoints@.len(),
                        k <= self.breakpoints@[i as int].1@.len(),
                        out@ == self.breakpoints@[i as int].1@.take(k as int),
                    decreases self.breakpoints@[i as int].1@.len() - k,
                {
                    out.push(self.breakpoints[i].1[k]);
                    proof {
                        assert(out@ =~= self.breakpoints@[i as int].1@.take(k + 1));
                    }
                    k += 1;
                }
                proof {
                    assert(out@ =~= self.breakpoints@[i as int].1@);
                }
                out
            },
            None => {
                let out: Vec<usize> = Vec::new();
                proof {
                    assert(out@.to_set() =~= Set::empty());
                }
                out
            },
        }
    }
}

/// Replacing the lines of an entry changes the lines of the files it is the
/// first entry for, and only theirs.
proof fn lemma_update_entry(v: Seq<(String, Vec<usize>)>, i: int, e: (String, Vec<usize>))
    requires
        0 <= i < v.len(),
        e.0@ == v[i].0@,
    ensures
        file_keys(v.update(i, e)) == file_keys(v),
        forall|f: Seq<char>| entry_for(file_keys(v), f) == Some(i) ==> #[trigger] lines_of(v.update(i, e), f) == e.1@.to_set(),
        forall|f: Seq<char>| entry_for(file_keys(v), f) != Some(i) ==> #[trigger] lines_of(v.update(i, e), f) == lines_of(v, f),
{
    let w = v.update(i, e);
    assert(file_keys(w) =~= file_keys(v));
    assert forall|f: Seq<char>| entry_for(file_keys(v), f) != Some(i) implies #[trigger] lines_of(w, f) == lines_of(v, f) by {
        lemma_entry_for(file_keys(v), f);
        if let Some(j) = entry_for(file_keys(v), f) {
            assert(w[j] == v[j]);
        }
    }
}

/// A new entry for a file that no entry names gives that file its lines,
/// and leaves the files that have an entry as they were.
proof fn lemma_push_entry(v: Seq<(String, Vec<usize>)>, e: (String, Vec<usize>))
    requires
        entry_for(file_keys(v), e.0@) is None,
    ensures
        lines_of(v.push(e), e.0@) == e.1@.to_set(),
        forall|f: Seq<char>| entry_for(file_keys(v), f) is Some ==> #[trigger] lines_of(v.push(e), f) == lines_of(v, f),
{
    let w = v.push(e);
    let keys = file_keys(v);
    assert(file_keys(w) =~= keys.push(e.0@));
    lemma_entry_for_push(keys, e.0@, e.0@);
    assert(w[v.len() as int] == e);
    assert forall|f: Seq<char>| entry_for(keys, f) is Some implies #[trigger] lines_of(w, f) == lines_of(v, f) by {
        lemma_entry_for_push(keys, e.0@, f);
        lemma_entry_for(keys, f);
        let j = entry_for(keys, f)->0;
        assert(w[j] == v[j]);
    }
}

fn copy_usizes(v: &Vec<usize>) -> (r: Vec<usize>)
    ensures
        r@ == v@,
{
    let mut out: Vec<usize> = Vec::new();
    let mut k: usize = 0;
    while k < v.len()
        invariant
            k <= v@.len(),
            out@ == v@.take(k as int),
        decreases v.len() - k,
    {
        out.push(v[k]);
        proof {
            assert(out@ =~= v@.take(k + 1));
        }
        k += 1;
    }
    proof {
        assert(out@ =~= v@);
    }
    out
}

/// The ascending lines with `line` toggled.
fn toggled_lines(lines: Vec<usize>, line: usize) -> (r: Vec<usize>)
    requires
        ascending(lines@),
    ensures
        ascending(r@),
        r@.to_set() == toggled(lines@.to_set(), line),
{
    let mut lines = lines;
    let ghost before = lines@;
    let mut pos: usize = 0;
    while pos < lines.len() && lines[pos] != line
        invariant
            pos <= lines@.len(),
            lines@ == before,
            forall|j: int| 0 <= j < pos ==> lines@[j] != line,
        decreases lines.len() - pos,
    {
        pos += 1;
    }
    if pos < lines.len() {
        assert(before.to_set().contains(line)) by {
            assert(before[pos as int] == line);
        }
        lines.remove(pos);
        proof {
            assert forall|a: int, b: int| 0 <= a < b < lines@.len() implies lines@[a] < lines@[b] by {
                if a < pos && b >= pos {
                    assert(lines@[b] == before[b + 1]);
                } else if a >= pos {
                    assert(lines@[a] == before[a + 1]);
                    assert(lines@[b] == before[b + 1]);
                }
            }
            assert forall|x: usize| #[trigger] lines@.to_set().contains(x) <==> before.to_set().remove(line).contains(x) by {
                if lines@.to_set().contains(x) {
                    let m = choose|m: int| 0 <= m < lines@.len() && lines@[m] == x;
                    if m < pos {
                        assert(before[m] == x);
                        assert(before[m] < before[pos as int]);
                    } else {
                        assert(before[m + 1] == x);
                        assert(before[pos as int] < before[m + 1]);
                    }
                }
                if before.to_set().remove(line).contains(x) {
                    let m = choose|m: int| 0 <= m < before.len() && before[m] == x;
                    if m < pos {
                        assert(lines@[m] == x);
                    } else if m > pos {
                        assert(lines@[m - 1] == x);
                    }
                }
            }
            assert(lines@.to_set() =~= before.to_set().remove(line));
        }
        lines
    } else {
        assert(!before.to_set().contains(line)) by {
            if before.to_set().contains(line) {
                let m = choose|m: int| 0 <= m < before.len() && before[m] == line;
            }
        }
        crate::editor::multi_cursor::insert_row(&mut lines, line);
        lines
    }
}

/// Toggling a breakpoint twice on the same line leaves a file's breakpoints
/// as they were; toggling adds the line exactly when it was not there.
pub proof fn lemma_toggle_twice(s: Set<usize>, line: usize)
    ensures
        toggled(toggled(s, line), line) == s,
        toggled(s, line).contains(line) == !s.contains(line),
{
    assert(toggled(toggled(s, line), line) =~= s);
}

/// The queue after every file of `bps` has its lines set, in order.
pub open spec fn queue_all(p: Seq<(Seq<char>, Seq<usize>)>, bps: Seq<(Seq<char>, Seq<usize>)>) -> Seq<(Seq<char>, Seq<usize>)>
    decreases bps.len(),
{
    if bps.len() == 0 {
        p
    } else {
        queue_one(queue_all(p, bps.drop_last()), bps.last().0, bps.last().1)
    }
}

impl DapManager {
    /// Queues every stored breakpoint list into a new debug session, file by
    /// file (each list replacing what the session had for that file).
    pub fn queue_breakpoints(&self, session: &mut DapSession)
        ensures
            pending_view(final(session).pending_breakpoints@) == queue_all(
                pending_view(old(session).pending_breakpoints@),
                pending_view(self.breakpoints@),
            ),
            final(session).state == old(session).state,
            final(session).next_seq == old(session).next_seq,
            final(session).initialized == old(session).initialized,
            *final(session) == (DapSession { pending_breakpoints: final(session).pending_breakpoints, ..*old(session) }),
    {
        let mut i: usize = 0;
        proof {
            assert(pending_view(self.breakpoints@).take(0) =~= seq![]);
        }
        while i < self.breakpoints.len()
            invariant
                i <= self.breakpoints@.len(),
                pending_view(session.pending_breakpoints@) == queue_all(
                    pending_view(old(session).pending_breakpoints@),
                    pending_view(self.breakpoints@).take(i as int),
                ),
                session.state == old(session).state,
                session.next_seq == old(session).next_seq,
                session.initialized == old(session).initialized,
                *session == (DapSession { pending_breakpoints: session.pending_breakpoints, ..*old(session) }),
            decreases self.breakpoints.len() - i,
        {
            let f = &self.breakpoints[i].0;
            let l = &self.breakpoints[i].1;
            let ls = l.as_slice();
            assert(ls@ == l@);
            let fs = f.as_str();
            assert(fs@ == f@);
            let _ = session.set_breakpoints(fs, ls);
            proof {
                let bv = pending_view(self.breakpoints@);
                assert(bv.take(i + 1).drop_last() =~= bv.take(i as int));
                assert(bv.take(i + 1).last() == (f@, l@));
            }
            i += 1;
        }
        proof {
            assert(pending_view(self.breakpoints@).take(self.breakpoints@.len() as int) =~= pending_view(self.breakpoints@));
        }
    }
}

impl DapManager {
    /// Makes `session` the active one, with every stored breakpoint list
    /// queued into it; a session already active is replaced.
    pub fn start_session(&mut self, session: DapSession)
        ensures
            final(self).session matches Some(t) && {
                &&& pending_view(t.pending_breakpoints@) == queue_all(
                    pending_view(session.pending_breakpoints@),
                    pending_view(old(self).breakpoints@),
                )
                &&& t == (DapSession { pending_breakpoints: t.pending_breakpoints, ..session })
            },
            final(self).breakpoints == old(self).breakpoints,
            final(self).just_paused == old(self).just_paused,
    {
        let mut session = session;
        self.queue_breakpoints(&mut session);
        self.session = Some(session);
    }

    /// Ends the active session: returns the request that disconnects the
    /// adapter, when there was a session.
    pub fn stop_session(&mut self) -> (r: Option<DapRequest>)
        requires
            old(self).session matches Some(s) ==> s.next_seq < u64::MAX,
        ensures
            final(self).session is None,
            final(self).breakpoints == old(self).breakpoints,
            final(self).just_paused == old(self).just_paused,
            match old(self).session {
                Some(s) => r == Some(DapRequest::Disconnect { seq: s.next_seq }),
                None => r is None,
            },
    {
        match self.session.take() {
            Some(mut sess) => Some(sess.disconnect()),
            None => None,
        }
    }

    /// Follows what the adapter sent since the last poll; returns the
    /// requests to send. `just_paused` tells whether the session paused
    /// meanwhile.
    pub fn poll(&mut self, msgs: Vec<DapMessage>, alive: bool) -> (r: Vec<DapRequest>)
        requires
            old(self).session matches Some(s) ==> s.next_seq + msgs@.len() * (s.pending_breakpoints@.len() + 3)
                <= u64::MAX,
        ensures
            final(self).breakpoints == old(self).breakpoints,
            final(self).session is Some == old(self).session is Some,
            old(self).session is None ==> !final(self).just_paused && r@.len() == 0,
            old(self).session is Some ==> (final(self).just_paused == exists|i: int|
                0 <= i < msgs@.len() && #[trigger] msgs@[i] is Stopped),
            old(self).session matches Some(s) ==> final(self).session matches Some(t) && t.state == (if alive {
                state_after(s.state, msgs@)
            } else {
                DebugSessionState::Terminated
            }) && texts(t.output_log@) == log_after(texts(s.output_log@), msgs@),
            old(self).session matches Some(s) ==> final(self).session matches Some(t) && {
                let after = session_after(s@, pending_view(s.pending_breakpoints@), msgs@);
                &&& requests_view(r@) == after.1
                &&& t@ == (if alive { after.0 } else { SessionView { state: DebugSessionState::Terminated, ..after.0 } })
                &&& t.pending_breakpoints == s.pending_breakpoints
            },
    {
        self.just_paused = false;
        match self.session.take() {
            Some(mut sess) => {
                let (paused, reqs) = sess.poll(msgs, alive);
                self.just_paused = paused;
                self.session = Some(sess);
                reqs
            },
            None => Vec::new(),
        }
    }

    /// Whether the session is launching or running.
    pub fn is_running(&self) -> (b: bool)
        ensures
            b == (self.session matches Some(s) && (s.state == DebugSessionState::Running || s.state
                == DebugSessionState::Launching)),
    {
        match &self.session {
            Some(s) => match s.state {
                DebugSessionState::Running | DebugSessionState::Launching => true,
                _ => false,
            },
            None => false,
        }
    }

    /// Whether the session is paused.
    pub fn is_paused(&self) -> (b: bool)
        ensures
            b == (self.session matches Some(s) && s.state is Paused),
    {
        match &self.session {
            Some(s) => match s.state {
                DebugSessionState::Paused { .. } => true,
                _ => false,
            },
            None => false,
        }
    }

    /// Whether there is a session.
    pub fn is_active(&self) -> (b: bool)
        ensures
            b == self.session is Some,
    {
        self.session.is_some()
    }

    /// The thread the session is paused on.
    pub fn paused_thread_id(&self) -> (r: Option<i64>)
        ensures
            r == (match self.session {
                Some(s) => match s.state {
                    DebugSessionState::Paused { thread_id } => Some(thread_id),
                    _ => None,
                },
                None => None,
            }),
    {
        match &self.session {
            Some(s) => match s.state {
                DebugSessionState::Paused { thread_id } => Some(thread_id),
                _ => None,
            },
            None => None,
        }
    }

    /// The session's state; idle without a session.
    pub fn session_state(&self) -> (r: DebugSessionState)
        ensures
            r == (match self.session {
                Some(s) => s.state,
                None => DebugSessionState::Idle,
            }),
    {
        match &self.session {
            Some(s) => s.state,
            None => DebugSessionState::Idle,
        }
    }

    /// The call stack of the session (empty without one).
    pub fn call_stack(&self) -> (r: &[StackFrame])
        ensures
            r@ == (match self.session {
                Some(s) => s.call_stack@,
                None => Seq::<StackFrame>::empty(),
            }),
    {
        match &self.session {
            Some(s) => s.call_stack.as_slice(),
            None => &[],
        }
    }

    /// The variables of the session's top frame (empty without a session).
    pub fn variables(&self) -> (r: &[Variable])
        ensures
            r@ == (match self.session {
                Some(s) => s.variables@,
                None => Seq::<Variable>::empty(),
            }),
    {
        match &self.session {
            Some(s) => s.variables.as_slice(),
            None => &[],
        }
    }

    /// The session's output log (empty without a session).
    pub fn output_log(&self) -> (r: &[String])
        ensures
            r@ == (match self.session {
                Some(s) => s.output_log@,
                None => Seq::<String>::empty(),
            }),
    {
        match &self.session {
            Some(s) => s.output_log.as_slice(),
            None => &[],
        }
    }
}

} // verus!
