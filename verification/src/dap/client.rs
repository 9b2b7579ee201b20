//! The debug session as it follows the debug adapter: which requests to send,
//! and what the adapter's events and responses change.
use vstd::prelude::*;

use super::types::{Breakpoint, DebugSessionState, StackFrame, Variable};
use crate::paths::{paths_equal, same_file};
use crate::text::{lines, seqs_of, split_lines, str_chars, texts, to_strings};

verus! {

/// Breakpoints on `lines` of `file`, not yet verified and without ids.
pub fn make_breakpoints(file: &str, lines: &[usize]) -> (r: Vec<Breakpoint>)
    ensures
        r@.len() == lines@.len(),
        forall|i: int| 0 <= i < r@.len() ==> {
            &&& (#[trigger] r@[i]).file@ == file@
            &&& r@[i].line == lines@[i]
            &&& !r@[i].verified
            &&& r@[i].id is None
        },
{
    let mut r: Vec<Breakpoint> = Vec::new();
    let mut i: usize = 0;
    while i < lines.len()
        invariant
            i <= lines@.len(),
            r@.len() == i,
            forall|k: int| 0 <= k < i ==> {
                &&& (#[trigger] r@[k]).file@ == file@
                &&& r@[k].line == lines@[k]
                &&& !r@[k].verified
                &&& r@[k].id is None
            },
        decreases lines.len() - i,
    {
        r.push(Breakpoint { file: crate::text::owned(file), line: lines[i], verified: false, id: None });
        i += 1;
    }
    r
}

/// A stack frame as the adapter reports it; absent fields default.
pub struct RawFrame {
    pub id: Option<i64>,
    pub name: Option<String>,
    pub path: Option<String>,
    pub line: Option<u64>,
}

/// A variable as the adapter reports it; absent fields default.
pub struct RawVariable {
    pub name: Option<String>,
    pub value: Option<String>,
    pub var_type: Option<String>,
    pub variables_reference: Option<i64>,
}

/// A message from the debug adapter, with the fields the session reads.
pub enum DapMessage {
    /// The `initialized` event.
    Initialized,
    /// The `stopped` event, with its thread id if given.
    Stopped { thread_id: Option<i64> },
    /// The `continued` event.
    Continued,
    /// The `terminated` or `exited` event.
    Terminated,
    /// The `output` event, with its text if given.
    Output { text: Option<String> },
    /// A response to `stackTrace`.
    StackTrace { request_seq: Option<u64>, frames: Option<Vec<RawFrame>> },
    /// A response to `scopes`, with the variables reference of its first
    /// scope when there is one (`Some(None)`: a first scope without one).
    Scopes { request_seq: Option<u64>, first_scope_ref: Option<Option<i64>> },
    /// A response to `variables`.
    Variables { request_seq: Option<u64>, variables: Option<Vec<RawVariable>> },
    /// Any other event or response.
    Other,
}

/// A request the session asks to be sent, with its sequence number.
pub enum DapRequest {
    SetBreakpoints { seq: u64, file: String, lines: Vec<usize> },
    ConfigurationDone { seq: u64 },
    Launch { seq: u64 },
    StackTrace { seq: u64, thread_id: i64 },
    Scopes { seq: u64, frame_id: i64 },
    Variables { seq: u64, variables_reference: i64 },
    Continue { seq: u64, thread_id: i64 },
    Next { seq: u64, thread_id: i64 },
    StepIn { seq: u64, thread_id: i64 },
    StepOut { seq: u64, thread_id: i64 },
    Pause { seq: u64, thread_id: i64 },
    Disconnect { seq: u64 },
}

/// `r` asks to set the breakpoints `lines` of `file`, with sequence number `seq`.
pub open spec fn is_set_breakpoints(r: DapRequest, seq: int, file: Seq<char>, lines: Seq<usize>) -> bool {
    match r {
        DapRequest::SetBreakpoints { seq: q, file: f, lines: l } => q == seq && f@ == file && l@ == lines,
        _ => false,
    }
}

/// The state of a debug session, without its connection to the adapter.
pub struct DapSession {
    pub state: DebugSessionState,
    pub call_stack: Vec<StackFrame>,
    pub variables: Vec<Variable>,
    pub output_log: Vec<String>,
    /// The sequence number the next request gets.
    pub next_seq: u64,
    /// Sequence number of the pending stack-trace request.
    pub pending_stack_seq: Option<u64>,
    /// Sequence number of the pending scopes request.
    pub pending_scopes_seq: Option<u64>,
    /// Sequence number of the pending variables request.
    pub pending_vars_seq: Option<u64>,
    /// Whether the adapter sent its `initialized` event.
    pub initialized: bool,
    /// Breakpoints to send once the adapter is initialized.
    pub pending_breakpoints: Vec<(String, Vec<usize>)>,
}

/// The most lines the output log keeps before it drops its oldest.
pub const OUTPUT_LOG_LIMIT: usize = 500;

/// The most variables taken from one response.
pub const VARIABLES_LIMIT: usize = 100;

/// The output log after `text` arrives: each line of `text` is appended,
/// and only the last five hundred lines are kept.
pub open spec fn log_after_output(log: Seq<Seq<char>>, text: Seq<char>) -> Seq<Seq<char>> {
    let all = log + lines(text);
    if all.len() > OUTPUT_LOG_LIMIT {
        all.skip(all.len() - OUTPUT_LOG_LIMIT)
    } else {
        all
    }
}

/// A reported frame with its defaults: id 0, name `<unknown>`, line 1.
pub open spec fn frame_of(f: RawFrame) -> (i64, Seq<char>, Option<Seq<char>>, usize) {
    (
        match f.id { Some(i) => i, None => 0 },
        match f.name { Some(n) => n@, None => "<unknown>"@ },
        match f.path { Some(p) => Some(p@), None => None },
        match f.line { Some(l) => l as usize, None => 1 },
    )
}

/// A stack frame's fields.
pub open spec fn frame_view(f: StackFrame) -> (i64, Seq<char>, Option<Seq<char>>, usize) {
    (f.id, f.name@, match f.file { Some(p) => Some(p@), None => None }, f.line)
}

/// A reported variable with its defaults: empty name and value, reference 0.
pub open spec fn variable_of(v: RawVariable) -> (Seq<char>, Seq<char>, Option<Seq<char>>, i64) {
    (
        match v.name { Some(n) => n@, None => seq![] },
        match v.value { Some(n) => n@, None => seq![] },
        match v.var_type { Some(t) => Some(t@), None => None },
        match v.variables_reference { Some(r) => r, None => 0 },
    )
}

/// A variable's fields.
pub open spec fn variable_view(v: Variable) -> (Seq<char>, Seq<char>, Option<Seq<char>>, i64) {
    (v.name@, v.value@, match v.var_type { Some(t) => Some(t@), None => None }, v.variables_reference)
}

fn opt_copy(o: &Option<String>) -> (r: Option<String>)
    ensures
        match (o, r) {
            (Some(a), Some(b)) => a@ == b@,
            (None, None) => true,
            _ => false,
        },
{
    match o {
        Some(s) => Some(crate::text::copy_string(s)),
        None => None,
    }
}

/// The queued breakpoints as plain values: each file with its lines.
pub open spec fn pending_view(p: Seq<(String, Vec<usize>)>) -> Seq<(Seq<char>, Seq<usize>)> {
    p.map_values(|e: (String, Vec<usize>)| (e.0@, e.1@))
}

/// The queue after the lines of file `f` are set to `l`: the entries that
/// name the same file go, and a non-empty list joins at the end.
pub open spec fn queue_one(p: Seq<(Seq<char>, Seq<usize>)>, f: Seq<char>, l: Seq<usize>) -> Seq<(Seq<char>, Seq<usize>)> {
    p.filter(|e: (Seq<char>, Seq<usize>)| !same_file(e.0, f)) + (if l.len() > 0 { seq![(f, l)] } else { seq![] })
}

proof fn lemma_filter_view(
    p: Seq<(String, Vec<usize>)>,
    pred: spec_fn((String, Vec<usize>)) -> bool,
    vpred: spec_fn((Seq<char>, Seq<usize>)) -> bool,
)
    requires
        forall|e: (String, Vec<usize>)| #[trigger] pred(e) == vpred((e.0@, e.1@)),
    ensures
        pending_view(p.filter(pred)) == pending_view(p).filter(vpred),
    decreases p.len(),
{
    reveal(Seq::filter);
    if p.len() > 0 {
        lemma_filter_view(p.drop_last(), pred, vpred);
        assert(pending_view(p).drop_last() =~= pending_view(p.drop_last()));
        let fe = p.filter(pred);
        let fd = p.drop_last().filter(pred);
        assert(pred(p.last()) == vpred((p.last().0@, p.last().1@)));
        if pred(p.last()) {
            assert(fe == fd.push(p.last()));
            assert(pending_view(fe) =~= pending_view(fd).push((p.last().0@, p.last().1@)));
        } else {
            assert(fe == fd);
        }
    } else {
        assert(pending_view(p.filter(pred)) =~= seq![]);
        assert(pending_view(p).filter(vpred) =~= seq![]);
    }
}

/// The session's state after one message: paused on the reported thread
/// (1 when none is given), running, terminated, or as it was.
pub open spec fn state_step(s: DebugSessionState, m: DapMessage) -> DebugSessionState {
    match m {
        DapMessage::Stopped { thread_id } => DebugSessionState::Paused {
            thread_id: match thread_id {
                Some(t) => t,
                None => 1,
            },
        },
        DapMessage::Continued => DebugSessionState::Running,
        DapMessage::Terminated => DebugSessionState::Terminated,
        _ => s,
    }
}

/// The state after the messages, in order: what the last stopped,
/// continued or terminated event says, else as it was.
pub open spec fn state_after(s: DebugSessionState, msgs: Seq<DapMessage>) -> DebugSessionState
    decreases msgs.len(),
{
    if msgs.len() == 0 {
        s
    } else {
        state_step(state_after(s, msgs.drop_last()), msgs.last())
    }
}

/// The output log after the messages, in order.
pub open spec fn log_after(log: Seq<Seq<char>>, msgs: Seq<DapMessage>) -> Seq<Seq<char>>
    decreases msgs.len(),
{
    if msgs.len() == 0 {
        log
    } else {
        let before = log_after(log, msgs.drop_last());
        match msgs.last() {
            DapMessage::Output { text: Some(t) } => log_after_output(before, t@),
            _ => before,
        }
    }
}

/// However much output arrives, the log keeps at most five hundred lines,
/// and never fewer than the new output's last lines.
pub proof fn lemma_log_bounded(log: Seq<Seq<char>>, text: Seq<char>)
    ensures
        log_after_output(log, text).len() <= OUTPUT_LOG_LIMIT || log_after_output(log, text) == log + lines(text)
            && log.len() + lines(text).len() <= OUTPUT_LOG_LIMIT,
        log_after_output(log, text).len() <= OUTPUT_LOG_LIMIT,
        lines(text).len() <= OUTPUT_LOG_LIMIT ==> log_after_output(log, text).skip(
            log_after_output(log, text).len() - lines(text).len(),
        ) == lines(text),
{
    let all = log + lines(text);
    let r = log_after_output(log, text);
    if lines(text).len() <= OUTPUT_LOG_LIMIT {
        assert(r.skip(r.len() - lines(text).len()) =~= lines(text));
    }
}

/// What a request asks, as plain values, with its sequence number first.
pub enum RequestView {
    SetBreakpoints(int, Seq<char>, Seq<usize>),
    ConfigurationDone(int),
    Launch(int),
    StackTrace(int, i64),
    Scopes(int, i64),
    Variables(int, i64),
    Continue(int, i64),
    Next(int, i64),
    StepIn(int, i64),
    StepOut(int, i64),
    Pause(int, i64),
    Disconnect(int),
}

/// A request as plain values.
pub open spec fn request_view(r: DapRequest) -> RequestView {
    match r {
        DapRequest::SetBreakpoints { seq, file, lines } => RequestView::SetBreakpoints(seq as int, file@, lines@),
        DapRequest::ConfigurationDone { seq } => RequestView::ConfigurationDone(seq as int),
        DapRequest::Launch { seq } => RequestView::Launch(seq as int),
        DapRequest::StackTrace { seq, thread_id } => RequestView::StackTrace(seq as int, thread_id),
        DapRequest::Scopes { seq, frame_id } => RequestView::Scopes(seq as int, frame_id),
        DapRequest::Variables { seq, variables_reference } => RequestView::Variables(seq as int, variables_reference),
        DapRequest::Continue { seq, thread_id } => RequestView::Continue(seq as int, thread_id),
        DapRequest::Next { seq, thread_id } => RequestView::Next(seq as int, thread_id),
        DapRequest::StepIn { seq, thread_id } => RequestView::StepIn(seq as int, thread_id),
        DapRequest::StepOut { seq, thread_id } => RequestView::StepOut(seq as int, thread_id),
        DapRequest::Pause { seq, thread_id } => RequestView::Pause(seq as int, thread_id),
        DapRequest::Disconnect { seq } => RequestView::Disconnect(seq as int),
    }
}

/// A list of requests as plain values.
pub open spec fn requests_view(rs: Seq<DapRequest>) -> Seq<RequestView> {
    rs.map_values(|r: DapRequest| request_view(r))
}

/// A debug session as plain values (its queued breakpoints aside).
#[verifier::ext_equal]
pub struct SessionView {
    pub state: DebugSessionState,
    pub call_stack: Seq<(i64, Seq<char>, Option<Seq<char>>, usize)>,
    pub variables: Seq<(Seq<char>, Seq<char>, Option<Seq<char>>, i64)>,
    pub log: Seq<Seq<char>>,
    pub next_seq: int,
    pub pending_stack_seq: Option<u64>,
    pub pending_scopes_seq: Option<u64>,
    pub pending_vars_seq: Option<u64>,
    pub initialized: bool,
}

impl View for DapSession {
    type V = SessionView;

    open spec fn view(&self) -> SessionView {
        SessionView {
            state: self.state,
            call_stack: self.call_stack@.map_values(|f: StackFrame| frame_view(f)),
            variables: self.variables@.map_values(|v: Variable| variable_view(v)),
            log: texts(self.output_log@),
            next_seq: self.next_seq as int,
            pending_stack_seq: self.pending_stack_seq,
            pending_scopes_seq: self.pending_scopes_seq,
            pending_vars_seq: self.pending_vars_seq,
            initialized: self.initialized,
        }
    }
}

/// The frames a stack-trace response reports, with their defaults.
pub open spec fn reported_frames(frames: Option<Vec<RawFrame>>) -> Seq<(i64, Seq<char>, Option<Seq<char>>, usize)> {
    match frames {
        Some(f) => f@.map_values(|x: RawFrame| frame_of(x)),
        None => seq![],
    }
}

/// The variables a variables response reports, at most the first hundred,
/// with their defaults.
pub open spec fn reported_variables(vars: Option<Vec<RawVariable>>) -> Seq<(Seq<char>, Seq<char>, Option<Seq<char>>, i64)> {
    match vars {
        Some(v) => {
            let m = if v@.len() < VARIABLES_LIMIT { v@.len() as int } else { VARIABLES_LIMIT as int };
            v@.take(m).map_values(|x: RawVariable| variable_of(x))
        },
        None => seq![],
    }
}

/// One message's effect on the session `s`, whose queued breakpoints are
/// `pb`: the session after it, and the requests to send, in order.
pub open spec fn session_step(s: SessionView, pb: Seq<(Seq<char>, Seq<usize>)>, m: DapMessage) -> (SessionView, Seq<RequestView>) {
    let q = s.next_seq;
    match m {
        DapMessage::Initialized => (
            SessionView { initialized: true, next_seq: q + pb.len() + 2, ..s },
            pb.map(|k: int, e: (Seq<char>, Seq<usize>)| RequestView::SetBreakpoints(q + k, e.0, e.1))
                + seq![RequestView::ConfigurationDone(q + pb.len()), RequestView::Launch(q + pb.len() + 1)],
        ),
        DapMessage::Stopped { thread_id } => {
            let t = match thread_id { Some(t) => t, None => 1 };
            (
                SessionView {
                    state: DebugSessionState::Paused { thread_id: t },
                    pending_stack_seq: Some(q as u64),
                    next_seq: q + 1,
                    ..s
                },
                seq![RequestView::StackTrace(q, t)],
            )
        },
        DapMessage::Continued => (SessionView { state: DebugSessionState::Running, ..s }, seq![]),
        DapMessage::Terminated => (SessionView { state: DebugSessionState::Terminated, ..s }, seq![]),
        DapMessage::Output { text } => match text {
            Some(t) => (SessionView { log: log_after_output(s.log, t@), ..s }, seq![]),
            None => (s, seq![]),
        },
        DapMessage::StackTrace { request_seq, frames } => {
            let rq = match request_seq { Some(x) => x, None => 0 };
            let fs = reported_frames(frames);
            if Some(rq) != s.pending_stack_seq {
                (s, seq![])
            } else if fs.len() > 0 {
                (
                    SessionView {
                        call_stack: fs,
                        pending_stack_seq: None,
                        pending_scopes_seq: Some(q as u64),
                        next_seq: q + 1,
                        ..s
                    },
                    seq![RequestView::Scopes(q, fs[0].0)],
                )
            } else {
                (SessionView { call_stack: fs, pending_stack_seq: None, ..s }, seq![])
            }
        },
        DapMessage::Scopes { request_seq, first_scope_ref } => {
            let rq = match request_seq { Some(x) => x, None => 0 };
            let vr = match first_scope_ref { Some(Some(v)) => v, _ => 0 };
            if Some(rq) != s.pending_scopes_seq {
                (s, seq![])
            } else if vr > 0 {
                (
                    SessionView {
                        pending_scopes_seq: None,
                        pending_vars_seq: Some(q as u64),
                        next_seq: q + 1,
                        ..s
                    },
                    seq![RequestView::Variables(q, vr)],
                )
            } else {
                (SessionView { pending_scopes_seq: None, ..s }, seq![])
            }
        },
        DapMessage::Variables { request_seq, variables } => {
            let rq = match request_seq { Some(x) => x, None => 0 };
            if Some(rq) != s.pending_vars_seq {
                (s, seq![])
            } else {
                (SessionView { variables: reported_variables(variables), pending_vars_seq: None, ..s }, seq![])
            }
        },
        DapMessage::Other => (s, seq![]),
    }
}

/// The messages' effect on the session, one after another: the session
/// after the last, and all the requests to send, in order.
pub open spec fn session_after(s: SessionView, pb: Seq<(Seq<char>, Seq<usize>)>, msgs: Seq<DapMessage>) -> (SessionView, Seq<RequestView>)
    decreases msgs.len(),
{
    if msgs.len() == 0 {
        (s, seq![])
    } else {
        let before = session_after(s, pb, msgs.drop_last());
        let last = session_step(before.0, pb, msgs.last());
        (last.0, before.1 + last.1)
    }
}

impl DapSession {
    /// A session right after the `initialize` request (sequence number 1)
    /// was sent: launching, nothing else known yet.
    pub fn new() -> (s: Self)
        ensures
            s.state == DebugSessionState::Launching,
            s.call_stack@.len() == 0 && s.variables@.len() == 0 && s.output_log@.len() == 0,
            s.next_seq == 2,
            s.pending_stack_seq is None && s.pending_scopes_seq is None && s.pending_vars_seq is None,
            !s.initialized,
            s.pending_breakpoints@.len() == 0,
    {
        DapSession {
            state: DebugSessionState::Launching,
            call_stack: Vec::new(),
            variables: Vec::new(),
            output_log: Vec::new(),
            next_seq: 2,
            pending_stack_seq: None,
            pending_scopes_seq: None,
            pending_vars_seq: None,
            initialized: false,
            pending_breakpoints: Vec::new(),
        }
    }

    /// Takes the next request sequence number.
    pub fn take_seq(&mut self) -> (s: u64)
        requires
            old(self).next_seq < u64::MAX,
        ensures
            s == old(self).next_seq,
            final(self).next_seq == s + 1,
            *final(self) == (DapSession { next_seq: (s + 1) as u64, ..*old(self) }),
    {
        let s = self.next_seq;
        self.next_seq = self.next_seq + 1;
        s
    }

    /// Queues the breakpoints of `file` (replacing its earlier ones; an empty
    /// list only removes them); true when the adapter is initialized and they
    /// are to be sent right away.
    pub fn set_breakpoints(&mut self, file: &str, lines: &[usize]) -> (send_now: bool)
        ensures
            send_now == old(self).initialized,
            ({
                let kept = old(self).pending_breakpoints@.filter(|e: (String, Vec<usize>)| !same_file(e.0@, file@));
                &&& lines@.len() == 0 ==> final(self).pending_breakpoints@ == kept
                &&& lines@.len() > 0 ==> final(self).pending_breakpoints@.len() == kept.len() + 1
                    && final(self).pending_breakpoints@.drop_last() == kept
                    && final(self).pending_breakpoints@.last().0@ == file@
                    && final(self).pending_breakpoints@.last().1@ == lines@
            }),
            pending_view(final(self).pending_breakpoints@) == queue_one(pending_view(old(self).pending_breakpoints@), file@, lines@),
            final(self).state == old(self).state,
            final(self).next_seq == old(self).next_seq,
            final(self).initialized == old(self).initialized,
            *final(self) == (DapSession { pending_breakpoints: final(self).pending_breakpoints, ..*old(self) }),
    {
        let mut kept: Vec<(String, Vec<usize>)> = Vec::new();
        let ghost old_v = self.pending_breakpoints@;
        let ghost pred = |e: (String, Vec<usize>)| !same_file(e.0@, file@);
        let n = self.pending_breakpoints.len();
        let mut i: usize = 0;
        let mut v: Vec<(String, Vec<usize>)> = Vec::new();
        std::mem::swap(&mut v, &mut self.pending_breakpoints);
        proof {
            assert(v@ == old_v);
        }
        while v.len() > 0
            invariant
                v@.len() + i == n,
                n == old_v.len(),
                v@ == old_v.skip(i as int),
                pred == (|e: (String, Vec<usize>)| !same_file(e.0@, file@)),
                kept@ == old_v.take(i as int).filter(pred),
            decreases v.len(),
        {
            let e = v.remove(0);
            proof {
                assert(old_v.take(i + 1).drop_last() =~= old_v.take(i as int));
                assert(old_v.take(i + 1).last() == e);
                reveal(Seq::filter);
                assert(v@ =~= old_v.skip(i + 1));
            }
            let keep = !paths_equal(e.0.as_str(), file);
            let ghost before = kept@;
            if keep {
                kept.push(e);
            }
            proof {
                reveal(Seq::filter);
                let t = old_v.take(i + 1);
                assert(t.drop_last() =~= old_v.take(i as int));
                assert(t.last() == e);
                assert(pred(e) == keep);
                if keep {
                    assert(kept@ == before.push(e));
                }
                assert(kept@ == t.filter(pred));
            }
            i += 1;
        }
        proof {
            assert(old_v.take(n as int) =~= old_v);
        }
        if lines.len() > 0 {
            let mut lv: Vec<usize> = Vec::new();
            let mut k: usize = 0;
            while k < lines.len()
                invariant
                    k <= lines@.len(),
                    lv@ == lines@.take(k as int),
                decreases lines.len() - k,
            {
                lv.push(lines[k]);
                proof {
                    assert(lv@ =~= lines@.take(k + 1));
                }
                k += 1;
            }
            proof {
                assert(lv@ =~= lines@);
            }
            let ghost before = kept@;
            kept.push((crate::text::owned(file), lv));
            proof {
                assert(kept@.drop_last() =~= before);
            }
        }
        proof {
            let vpred = |e: (Seq<char>, Seq<usize>)| !same_file(e.0, file@);
            lemma_filter_view(old_v, pred, vpred);
            let now = kept@;
            if lines@.len() > 0 {
                assert(pending_view(now) =~= pending_view(now.drop_last()).push((now.last().0@, now.last().1@)));
            }
            assert(pending_view(now) =~= queue_one(pending_view(old_v), file@, lines@));
        }
        self.pending_breakpoints = kept;
        self.initialized
    }

    /// Follows one message from the adapter; returns whether the session just
    /// paused, and the requests to send, in order:
    /// - `initialized`: the queued breakpoints, then `configurationDone` and `launch`;
    /// - `stopped`: paused on the thread (1 when not given), and the stack trace is asked for;
    /// - `continued`: running; `terminated`/`exited`: terminated;
    /// - `output`: its lines join the log (the oldest dropped when the log is full);
    /// - the awaited stack trace becomes the call stack, and the top frame's scopes are asked for;
    /// - the awaited scopes: the first scope's variables are asked for, when it has any;
    /// - the awaited variables (at most the first hundred) become the variables.
    #[verifier::rlimit(40)]
    pub fn handle_message(&mut self, msg: DapMessage) -> (r: (bool, Vec<DapRequest>))
        requires
            old(self).next_seq + old(self).pending_breakpoints@.len() + 3 <= u64::MAX,
        ensures
            r.0 == (msg is Stopped),
            final(self)@ == session_step(old(self)@, pending_view(old(self).pending_breakpoints@), msg).0,
            requests_view(r.1@) == session_step(old(self)@, pending_view(old(self).pending_breakpoints@), msg).1,
            final(self).pending_breakpoints == old(self).pending_breakpoints,
            old(self).next_seq <= final(self).next_seq <= old(self).next_seq + old(self).pending_breakpoints@.len() + 2,
            !(msg is Output) ==> final(self).output_log == old(self).output_log,
            final(self).initialized == (old(self).initialized || msg is Initialized),
            match msg {
                DapMessage::Initialized => {
                    let n = old(self).pending_breakpoints@.len() as int;
                    &&& final(self).initialized
                    &&& !r.0
                    &&& r.1@.len() == n + 2
                    &&& forall|k: int| 0 <= k < n ==> is_set_breakpoints(#[trigger] r.1@[k], old(self).next_seq + k,
                        old(self).pending_breakpoints@[k].0@, old(self).pending_breakpoints@[k].1@)
                    &&& r.1@[n] matches DapRequest::ConfigurationDone { seq } && seq == old(self).next_seq + n
                    &&& r.1@[n + 1] matches DapRequest::Launch { seq } && seq == old(self).next_seq + n + 1
                    &&& final(self).next_seq == old(self).next_seq + n + 2
                    &&& final(self).state == old(self).state
                },
                DapMessage::Stopped { thread_id } => {
                    let t = match thread_id { Some(t) => t, None => 1 };
                    &&& final(self).state == DebugSessionState::Paused { thread_id: t }
                    &&& r.0
                    &&& r.1@.len() == 1
                    &&& r.1@[0] matches DapRequest::StackTrace { seq, thread_id } && seq == old(self).next_seq && thread_id == t
                    &&& final(self).pending_stack_seq == Some(old(self).next_seq)
                    &&& final(self).next_seq == old(self).next_seq + 1
                },
                DapMessage::Continued => final(self).state == DebugSessionState::Running && !r.0 && r.1@.len() == 0,
                DapMessage::Terminated => final(self).state == DebugSessionState::Terminated && !r.0 && r.1@.len() == 0,
                DapMessage::Output { text } => {
                    &&& !r.0 && r.1@.len() == 0
                    &&& final(self).state == old(self).state
                    &&& match text {
                        Some(t) => texts(final(self).output_log@) == log_after_output(texts(old(self).output_log@), t@),
                        None => final(self).output_log == old(self).output_log,
                    }
                },
                DapMessage::StackTrace { request_seq, frames } => {
                    let seq = match request_seq { Some(q) => q, None => 0 };
                    &&& !r.0
                    &&& final(self).state == old(self).state
                    &&& Some(seq) == old(self).pending_stack_seq ==> {
                        let fs = match frames { Some(f) => f@, None => seq![] };
                        &&& final(self).call_stack@.len() == fs.len()
                        &&& forall|k: int| 0 <= k < fs.len() ==> frame_view(#[trigger] final(self).call_stack@[k]) == frame_of(fs[k])
                        &&& final(self).pending_stack_seq is None
                        &&& fs.len() > 0 ==> r.1@.len() == 1 && (r.1@[0] matches DapRequest::Scopes { seq: q, frame_id }
                            && q == old(self).next_seq && frame_id == frame_of(fs[0]).0)
                            && final(self).pending_scopes_seq == Some(old(self).next_seq)
                            && final(self).next_seq == old(self).next_seq + 1
                        &&& fs.len() == 0 ==> r.1@.len() == 0 && final(self).next_seq == old(self).next_seq
                    }
                    &&& Some(seq) != old(self).pending_stack_seq ==> r.1@.len() == 0 && final(self).next_seq == old(self).next_seq
                        && final(self).pending_stack_seq == old(self).pending_stack_seq
                },
                DapMessage::Scopes { request_seq, first_scope_ref } => {
                    let seq = match request_seq { Some(q) => q, None => 0 };
                    &&& !r.0
                    &&& final(self).state == old(self).state
                    &&& Some(seq) == old(self).pending_scopes_seq ==> {
                        let vr = match first_scope_ref { Some(Some(v)) => v, _ => 0 };
                        &&& final(self).pending_scopes_seq is None
                        &&& vr > 0 ==> r.1@.len() == 1 && (r.1@[0] matches DapRequest::Variables { seq: q, variables_reference }
                            && q == old(self).next_seq && variables_reference == vr)
                            && final(self).pending_vars_seq == Some(old(self).next_seq)
                            && final(self).next_seq == old(self).next_seq + 1
                        &&& vr <= 0 ==> r.1@.len() == 0 && final(self).next_seq == old(self).next_seq
                    }
                    &&& Some(seq) != old(self).pending_scopes_seq ==> r.1@.len() == 0
                        && final(self).pending_scopes_seq == old(self).pending_scopes_seq
                },
                DapMessage::Variables { request_seq, variables } => {
                    let seq = match request_seq { Some(q) => q, None => 0 };
                    &&& !r.0 && r.1@.len() == 0
                    &&& final(self).state == old(self).state
                    &&& Some(seq) == old(self).pending_vars_seq ==> {
                        let vs = match variables { Some(v) => v@, None => seq![] };
                        let m = if vs.len() < VARIABLES_LIMIT { vs.len() as int } else { VARIABLES_LIMIT as int };
                        &&& final(self).pending_vars_seq is None
                        &&& final(self).variables@.len() == m
                        &&& forall|k: int| 0 <= k < m ==> variable_view(#[trigger] final(self).variables@[k]) == variable_of(vs[k])
                    }
                    &&& Some(seq) != old(self).pending_vars_seq ==> final(self).variables == old(self).variables
                        && final(self).pending_vars_seq == old(self).pending_vars_seq
                },
                DapMessage::Other => !r.0 && r.1@.len() == 0 && final(self).state == old(self).state
                    && final(self).next_seq == old(self).next_seq,
            },
    {
        let mut reqs: Vec<DapRequest> = Vec::new();
        match msg {
            DapMessage::Initialized => {
                self.initialized = true;
                let n = self.pending_breakpoints.len();
                let mut k: usize = 0;
                while k < n
                    invariant
                        k <= n,
                        n == self.pending_breakpoints@.len(),
                        self.pending_breakpoints == old(self).pending_breakpoints,
                        self.next_seq == old(self).next_seq + k,
                        old(self).next_seq + n + 3 <= u64::MAX,
                        self.state == old(self).state,
                        self.initialized,
                        self.output_log == old(self).output_log,
                        self.call_stack == old(self).call_stack,
                        self.variables == old(self).variables,
                        self.pending_stack_seq == old(self).pending_stack_seq,
                        self.pending_scopes_seq == old(self).pending_scopes_seq,
                        self.pending_vars_seq == old(self).pending_vars_seq,
                        reqs@.len() == k,
                        forall|j: int| 0 <= j < k ==> is_set_breakpoints(#[trigger] reqs@[j], old(self).next_seq + j,
                            old(self).pending_breakpoints@[j].0@, old(self).pending_breakpoints@[j].1@),
                    decreases n - k,
                {
                    let seq = self.take_seq();
                    let file = crate::text::copy_string(&self.pending_breakpoints[k].0);
                    let mut lines: Vec<usize> = Vec::new();
                    let mut m: usize = 0;
                    while m < self.pending_breakpoints[k].1.len()
                        invariant
                            k < self.pending_breakpoints@.len(),
                            m <= self.pending_breakpoints@[k as int].1@.len(),
                            lines@ == self.pending_breakpoints@[k as int].1@.take(m as int),
                        decreases self.pending_breakpoints@[k as int].1@.len() - m,
                    {
                        lines.push(self.pending_breakpoints[k].1[m]);
                        proof {
                            assert(lines@ =~= self.pending_breakpoints@[k as int].1@.take(m + 1));
                        }
                        m += 1;
                    }
                    proof {
                        assert(lines@ =~= self.pending_breakpoints@[k as int].1@);
                    }
                    reqs.push(DapRequest::SetBreakpoints { seq, file, lines });
                    k += 1;
                }
                let s1 = self.take_seq();
                let ghost r0 = reqs@;
                reqs.push(DapRequest::ConfigurationDone { seq: s1 });
                let s2 = self.take_seq();
                reqs.push(DapRequest::Launch { seq: s2 });
                proof {
                    assert forall|j: int| 0 <= j < n implies is_set_breakpoints(#[trigger] reqs@[j], old(self).next_seq + j,
                        old(self).pending_breakpoints@[j].0@, old(self).pending_breakpoints@[j].1@) by {
                        assert(reqs@[j] == r0[j]);
                    }
                    let pb = pending_view(old(self).pending_breakpoints@);
                    let q = old(self).next_seq as int;
                    assert(requests_view(reqs@) =~= pb.map(
                        |k: int, e: (Seq<char>, Seq<usize>)| RequestView::SetBreakpoints(q + k, e.0, e.1),
                    ) + seq![RequestView::ConfigurationDone(q + n), RequestView::Launch(q + n + 1)]);
                    assert(pb.len() == n);
                    assert(self@ =~= SessionView { initialized: true, next_seq: q + pb.len() + 2, ..old(self)@ });
                }
                (false, reqs)
            },
            DapMessage::Stopped { thread_id } => {
                let t = match thread_id {
                    Some(t) => t,
                    None => 1,
                };
                self.state = DebugSessionState::Paused { thread_id: t };
                let seq = self.take_seq();
                self.pending_stack_seq = Some(seq);
                reqs.push(DapRequest::StackTrace { seq, thread_id: t });
                (true, reqs)
            },
            DapMessage::Continued => {
                self.state = DebugSessionState::Running;
                (false, reqs)
            },
            DapMessage::Terminated => {
                self.state = DebugSessionState::Terminated;
                (false, reqs)
            },
            DapMessage::Output { text } => {
                if let Some(t) = text {
                    self.append_output(t.as_str());
                }
                (false, reqs)
            },
            DapMessage::StackTrace { request_seq, frames } => {
                let seq = match request_seq {
                    Some(q) => q,
                    None => 0,
                };
                if self.pending_stack_seq == Some(seq) {
                    let fs: Vec<RawFrame> = match frames {
                        Some(f) => f,
                        None => Vec::new(),
                    };
                    self.call_stack = frames_from(&fs);
                    proof {
                        assert(self.call_stack@.map_values(|f: StackFrame| frame_view(f)) =~= reported_frames(frames));
                    }
                    self.pending_stack_seq = None;
                    if self.call_stack.len() > 0 {
                        let frame_id = self.call_stack[0].id;
                        let s = self.take_seq();
                        self.pending_scopes_seq = Some(s);
                        reqs.push(DapRequest::Scopes { seq: s, frame_id });
                    }
                }
                (false, reqs)
            },
            DapMessage::Scopes { request_seq, first_scope_ref } => {
                let seq = match request_seq {
                    Some(q) => q,
                    None => 0,
                };
                if self.pending_scopes_seq == Some(seq) {
                    self.pending_scopes_seq = None;
                    if let Some(r0) = first_scope_ref {
                        let vr = match r0 {
                            Some(v) => v,
                            None => 0,
                        };
                        if vr > 0 {
                            let s = self.take_seq();
                            self.pending_vars_seq = Some(s);
                            reqs.push(DapRequest::Variables { seq: s, variables_reference: vr });
                        }
                    }
                }
                (false, reqs)
            },
            DapMessage::Variables { request_seq, variables } => {
                let seq = match request_seq {
                    Some(q) => q,
                    None => 0,
                };
                if self.pending_vars_seq == Some(seq) {
                    self.pending_vars_seq = None;
                    let vs: Vec<RawVariable> = match variables {
                        Some(v) => v,
                        None => Vec::new(),
                    };
                    self.variables = variables_from(&vs);
                    proof {
                        assert(self.variables@.map_values(|v: Variable| variable_view(v)) =~= reported_variables(variables));
                    }
                }
                (false, reqs)
            },
            DapMessage::Other => (false, reqs),
        }
    }

    /// Appends the lines of `text` to the output log, first dropping its
    /// oldest lines when it is full.
    fn append_output(&mut self, text: &str)
        ensures
            texts(final(self).output_log@) == log_after_output(texts(old(self).output_log@), text@),
            final(self).state == old(self).state,
            final(self).next_seq == old(self).next_seq,
            final(self).pending_breakpoints == old(self).pending_breakpoints,
            final(self).initialized == old(self).initialized,
            final(self).pending_stack_seq == old(self).pending_stack_seq,
            final(self).pending_scopes_seq == old(self).pending_scopes_seq,
            final(self).pending_vars_seq == old(self).pending_vars_seq,
            final(self).call_stack == old(self).call_stack,
            final(self).variables == old(self).variables,
    {
        let ghost old_log = texts(self.output_log@);
        let ls = to_strings(&split_lines(&str_chars(text)));
        let ghost all = old_log + texts(ls@);
        let n = self.output_log.len();
        let m = ls.len();
        // Old lines dropped, then new lines dropped, so that at most the
        // limit remains.
        let (i0, j0): (usize, usize) = if m >= OUTPUT_LOG_LIMIT {
            (n, m - OUTPUT_LOG_LIMIT)
        } else if n > OUTPUT_LOG_LIMIT - m {
            (n - (OUTPUT_LOG_LIMIT - m), 0)
        } else {
            (0, 0)
        };
        let ghost start = i0 + j0;
        let mut kept: Vec<String> = Vec::new();
        let mut i = i0;
        while i < n
            invariant
                i0 <= i <= n,
                n == self.output_log@.len(),
                old_log == texts(self.output_log@),
                all == old_log + texts(ls@),
                texts(kept@) == all.subrange(i0 as int, i as int),
            decreases n - i,
        {
            let ghost before = texts(kept@);
            let c = crate::text::copy_string(&self.output_log[i]);
            kept.push(c);
            proof {
                assert(texts(kept@) =~= before.push(c@));
                assert(all.subrange(i0 as int, i + 1) =~= all.subrange(i0 as int, i as int).push(all[i as int]));
            }
            i += 1;
        }
        let mut j: usize = j0;
        proof {
            assert(texts(kept@) =~= all.subrange(start, n + j0));
        }
        while j < m
            invariant
                j0 <= j <= m,
                m == ls@.len(),
                n == old_log.len(),
                all == old_log + texts(ls@),
                start == i0 + j0,
                i0 <= n,
                start <= n + j,
                texts(kept@) == all.subrange(start, n + j),
            decreases m - j,
        {
            let ghost before = texts(kept@);
            let c = crate::text::copy_string(&ls[j]);
            kept.push(c);
            proof {
                assert(texts(kept@) =~= before.push(c@));
                assert(all.subrange(start, n + j + 1) =~= all.subrange(start, n + j).push(all[n + j]));
            }
            j += 1;
        }
        proof {
            assert(texts(ls@) == lines(text@));
            let total = all.len();
            if total > OUTPUT_LOG_LIMIT {
                assert(all.subrange(start, total as int) =~= all.skip(total - OUTPUT_LOG_LIMIT));
            } else {
                assert(all.subrange(start, total as int) =~= all);
            }
        }
        self.output_log = kept;
    }

    /// Marks the session terminated when the adapter is gone.
    pub fn mark_adapter_gone(&mut self)
        ensures
            *final(self) == (DapSession { state: DebugSessionState::Terminated, ..*old(self) }),
    {
        self.state = DebugSessionState::Terminated;
    }

    /// The request that sets the breakpoints `lines` of `file` at once.
    pub fn set_breakpoints_request(&mut self, file: &str, lines: &[usize]) -> (r: DapRequest)
        requires
            old(self).next_seq < u64::MAX,
        ensures
            is_set_breakpoints(r, old(self).next_seq as int, file@, lines@),
            *final(self) == (DapSession { next_seq: (old(self).next_seq + 1) as u64, ..*old(self) }),
    {
        let seq = self.take_seq();
        let mut lv: Vec<usize> = Vec::new();
        let mut k: usize = 0;
        while k < lines.len()
            invariant
                k <= lines@.len(),
                lv@ == lines@.take(k as int),
            decreases lines.len() - k,
        {
            lv.push(lines[k]);
            proof {
                assert(lv@ =~= lines@.take(k + 1));
            }
            k += 1;
        }
        proof {
            assert(lv@ =~= lines@);
        }
        DapRequest::SetBreakpoints { seq, file: crate::text::owned(file), lines: lv }
    }

    /// Asks the adapter to resume the thread.
    pub fn continue_execution(&mut self, thread_id: i64) -> (r: DapRequest)
        requires
            old(self).next_seq < u64::MAX,
        ensures
            r == (DapRequest::Continue { seq: old(self).next_seq, thread_id }),
            *final(self) == (DapSession { next_seq: (old(self).next_seq + 1) as u64, ..*old(self) }),
    {
        let seq = self.take_seq();
        DapRequest::Continue { seq, thread_id }
    }

    /// Asks the adapter to step over the current line of the thread.
    pub fn next_step(&mut self, thread_id: i64) -> (r: DapRequest)
        requires
            old(self).next_seq < u64::MAX,
        ensures
            r == (DapRequest::Next { seq: old(self).next_seq, thread_id }),
            *final(self) == (DapSession { next_seq: (old(self).next_seq + 1) as u64, ..*old(self) }),
    {
        let seq = self.take_seq();
        DapRequest::Next { seq, thread_id }
    }

    /// Asks the adapter to step into the call on the current line.
    pub fn step_in(&mut self, thread_id: i64) -> (r: DapRequest)
        requires
            old(self).next_seq < u64::MAX,
        ensures
            r == (DapRequest::StepIn { seq: old(self).next_seq, thread_id }),
            *final(self) == (DapSession { next_seq: (old(self).next_seq + 1) as u64, ..*old(self) }),
    {
        let seq = self.take_seq();
        DapRequest::StepIn { seq, thread_id }
    }

    /// Asks the adapter to run the thread until the current function returns.
    pub fn step_out(&mut self, thread_id: i64) -> (r: DapRequest)
        requires
            old(self).next_seq < u64::MAX,
        ensures
            r == (DapRequest::StepOut { seq: old(self).next_seq, thread_id }),
            *final(self) == (DapSession { next_seq: (old(self).next_seq + 1) as u64, ..*old(self) }),
    {
        let seq = self.take_seq();
        DapRequest::StepOut { seq, thread_id }
    }

    /// Asks the adapter to pause the thread.
    pub fn pause(&mut self, thread_id: i64) -> (r: DapRequest)
        requires
            old(self).next_seq < u64::MAX,
        ensures
            r == (DapRequest::Pause { seq: old(self).next_seq, thread_id }),
            *final(self) == (DapSession { next_seq: (old(self).next_seq + 1) as u64, ..*old(self) }),
    {
        let seq = self.take_seq();
        DapRequest::Pause { seq, thread_id }
    }

    /// Ends the session: asks the adapter to disconnect (terminating the
    /// program), and the session is terminated.
    pub fn disconnect(&mut self) -> (r: DapRequest)
        requires
            old(self).next_seq < u64::MAX,
        ensures
            r == (DapRequest::Disconnect { seq: old(self).next_seq }),
            *final(self) == (DapSession {
                next_seq: (old(self).next_seq + 1) as u64,
                state: DebugSessionState::Terminated,
                ..*old(self)
            }),
    {
        let seq = self.take_seq();
        self.state = DebugSessionState::Terminated;
        DapRequest::Disconnect { seq }
    }

    /// Follows the messages received since the last poll, in order (each as
    /// `handle_message` does); returns whether the session paused meanwhile,
    /// and the requests to send. When the adapter is gone, the session ends
    /// terminated.
    pub fn poll(&mut self, msgs: Vec<DapMessage>, alive: bool) -> (r: (bool, Vec<DapRequest>))
        requires
            old(self).next_seq + msgs@.len() * (old(self).pending_breakpoints@.len() + 3) <= u64::MAX,
        ensures
            r.0 == exists|i: int| 0 <= i < msgs@.len() && #[trigger] msgs@[i] is Stopped,
            final(self).state == (if alive {
                state_after(old(self).state, msgs@)
            } else {
                DebugSessionState::Terminated
            }),
            texts(final(self).output_log@) == log_after(texts(old(self).output_log@), msgs@),
            final(self).initialized == (old(self).initialized || exists|i: int|
                0 <= i < msgs@.len() && #[trigger] msgs@[i] is Initialized),
            final(self).pending_breakpoints == old(self).pending_breakpoints,
            old(self).next_seq <= final(self).next_seq,
            msgs@.len() == 0 && alive ==> *final(self) == *old(self) && r.1@.len() == 0,
            ({
                let after = session_after(old(self)@, pending_view(old(self).pending_breakpoints@), msgs@);
                &&& requests_view(r.1@) == after.1
                &&& final(self)@ == (if alive { after.0 } else { SessionView { state: DebugSessionState::Terminated, ..after.0 } })
            }),
    {
        let mut msgs = msgs;
        let total = msgs.len();
        let ghost all = msgs@;
        let ghost p = self.pending_breakpoints@.len();
        let mut paused = false;
        let mut reqs: Vec<DapRequest> = Vec::new();
        let mut i: usize = 0;
        proof {
            assert(all.skip(0) =~= all);
            assert(all.take(0) =~= Seq::<DapMessage>::empty());
        }
        while msgs.len() > 0
            invariant
                all.len() == total,
                msgs@ == all.skip(i as int),
                i <= all.len(),
                p == self.pending_breakpoints@.len(),
                self.pending_breakpoints == old(self).pending_breakpoints,
                old(self).next_seq <= self.next_seq,
                self.next_seq + (all.len() - i) * (p + 3) <= u64::MAX,
                paused == exists|j: int| 0 <= j < i && #[trigger] all[j] is Stopped,
                self.state == state_after(old(self).state, all.take(i as int)),
                texts(self.output_log@) == log_after(texts(old(self).output_log@), all.take(i as int)),
                self.initialized == (old(self).initialized || exists|j: int| 0 <= j < i && #[trigger] all[j] is Initialized),
                i == 0 ==> *self == *old(self) && reqs@.len() == 0,
                self@ == session_after(old(self)@, pending_view(old(self).pending_breakpoints@), all.take(i as int)).0,
                requests_view(reqs@) == session_after(old(self)@, pending_view(old(self).pending_breakpoints@), all.take(i as int)).1,
            decreases msgs.len(),
        {
            let msg = msgs.remove(0);
            proof {
                assert(i < all.len());
                assert(msg == all[i as int]);
                assert(msgs@ =~= all.skip(i + 1));
                assert(all.take(i + 1).drop_last() =~= all.take(i as int));
                assert(all.take(i + 1).last() == msg);
                assert((all.len() - i) * (p + 3) == (all.len() - i - 1) * (p + 3) + (p + 3)) by (nonlinear_arith);
                assert((all.len() - i - 1) * (p + 3) >= 0) by (nonlinear_arith)
                    requires
                        i < all.len();
            }
            let ghost stopped = msg is Stopped;
            let (stop, mut out) = self.handle_message(msg);
            let ghost out_before = out@;
            proof {
                assert(stop == stopped);
            }
            paused = paused || stop;
            let ghost before = reqs@;
            reqs.append(&mut out);
            proof {
                assert(requests_view(reqs@) =~= requests_view(before) + requests_view(out_before));
            }
            i += 1;
        }
        proof {
            assert(all.take(all.len() as int) =~= all);
        }
        if !alive {
            self.mark_adapter_gone();
        }
        (paused, reqs)
    }
}

fn frames_from(fs: &Vec<RawFrame>) -> (r: Vec<StackFrame>)
    ensures
        r@.len() == fs@.len(),
        forall|k: int| 0 <= k < fs@.len() ==> frame_view(#[trigger] r@[k]) == frame_of(fs@[k]),
{
    let mut r: Vec<StackFrame> = Vec::new();
    let mut i: usize = 0;
    while i < fs.len()
        invariant
            i <= fs@.len(),
            r@.len() == i,
            forall|k: int| 0 <= k < i ==> frame_view(#[trigger] r@[k]) == frame_of(fs@[k]),
        decreases fs.len() - i,
    {
        let f = &fs[i];
        let id = match f.id {
            Some(x) => x,
            None => 0,
        };
        let name = match &f.name {
            Some(n) => crate::text::copy_string(n),
            None => crate::text::owned("<unknown>"),
        };
        let file = opt_copy(&f.path);
        let line: usize = match f.line {
            Some(l) => l as usize,
            None => 1,
        };
        r.push(StackFrame { id, name, file, line });
        i += 1;
    }
    r
}

fn variables_from(vs: &Vec<RawVariable>) -> (r: Vec<Variable>)
    ensures
        r@.len() == (if vs@.len() < VARIABLES_LIMIT { vs@.len() as int } else { VARIABLES_LIMIT as int }),
        forall|k: int| 0 <= k < r@.len() ==> variable_view(#[trigger] r@[k]) == variable_of(vs@[k]),
{
    let mut r: Vec<Variable> = Vec::new();
    let mut i: usize = 0;
    while i < vs.len() && i < VARIABLES_LIMIT
        invariant
            i <= vs@.len(),
            i <= VARIABLES_LIMIT,
            r@.len() == i,
            forall|k: int| 0 <= k < i ==> variable_view(#[trigger] r@[k]) == variable_of(vs@[k]),
        decreases vs.len() - i,
    {
        let v = &vs[i];
        let name = match &v.name {
            Some(n) => crate::text::copy_string(n),
            None => String::new(),
        };
        let value = match &v.value {
            Some(n) => crate::text::copy_string(n),
            None => String::new(),
        };
        let var_type = opt_copy(&v.var_type);
        let variables_reference = match v.variables_reference {
            Some(x) => x,
            None => 0,
        };
        r.push(Variable { name, value, var_type, variables_reference });
        i += 1;
    }
    r
}

} // verus!