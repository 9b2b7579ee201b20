//! Diagnostics, symbols, code actions and completions from a language server,
//! and the state a client keeps of its server: request ids, published
//! diagnostics, and when to restart a crashed server.
use vstd::prelude::*;

use super::json::{fld, str_of, text_or_empty, JsonValue};
use super::response::{
    classify_message, diagnostic_of, diagnostic_view, diagnostics_from_msg, message_kind, published_entries,
    ServerMessage,
};
use crate::text::{chars_eq, str_chars};

verus! {

/// A problem a language server reports at a place in the file.
#[derive(Debug, Clone)]
pub struct Diagnostic {
    pub message: String,
    pub line: u32,
    pub col: u32,
    pub end_col: u32,
    pub severity: DiagSeverity,
}

#[derive(Debug, Clone)]
pub struct DocumentSymbol {
    pub name: String,
    pub kind: String,
    pub line: u32,
}

#[derive(Debug, Clone)]
pub struct CodeAction {
    pub title: String,
    pub kind: Option<String>,
    pub command: Option<String>,
}

#[derive(Debug, Clone, Copy, PartialEq, Eq, Structural)]
pub enum DiagSeverity {
    Error,
    Warning,
    Info,
    Hint,
}

#[derive(Debug, Clone)]
pub struct CompletionItem {
    pub label: String,
    pub detail: Option<String>,
    pub kind: String,
    pub insert_text: Option<String>,
}

} // verus!

verus! {

/// A document's diagnostics as plain values.
pub open spec fn diag_views(d: Seq<Diagnostic>) -> Seq<(Seq<char>, u32, u32, u32, DiagSeverity)> {
    d.map_values(|x: Diagnostic| diagnostic_view(x))
}

/// The kept diagnostics as plain values: each document with its list.
pub open spec fn store_view(v: Seq<(String, Vec<Diagnostic>)>) -> Seq<
    (Seq<char>, Seq<(Seq<char>, u32, u32, u32, DiagSeverity)>),
> {
    v.map_values(|e: (String, Vec<Diagnostic>)| (e.0@, diag_views(e.1@)))
}

/// Keeps the entries of documents other than `uri`.
pub open spec fn other_doc(uri: Seq<char>) -> spec_fn((Seq<char>, Seq<(Seq<char>, u32, u32, u32, DiagSeverity)>)) -> bool {
    |e: (Seq<char>, Seq<(Seq<char>, u32, u32, u32, DiagSeverity)>)| e.0 != uri
}

/// Keeps the stored entries of documents other than `uri`.
pub open spec fn other_entry(uri: Seq<char>) -> spec_fn((String, Vec<Diagnostic>)) -> bool {
    |e: (String, Vec<Diagnostic>)| e.0@ != uri
}

/// The store after `ds` is published for `uri`: the list kept before for
/// that document goes, and the new one is kept last.
pub open spec fn publish(
    st: Seq<(Seq<char>, Seq<(Seq<char>, u32, u32, u32, DiagSeverity)>)>,
    uri: Seq<char>,
    ds: Seq<(Seq<char>, u32, u32, u32, DiagSeverity)>,
) -> Seq<(Seq<char>, Seq<(Seq<char>, u32, u32, u32, DiagSeverity)>)> {
    st.filter(other_doc(uri)).push((uri, ds))
}

/// The diagnostics kept for `uri`: the last list published for it.
pub open spec fn lookup_diags(
    st: Seq<(Seq<char>, Seq<(Seq<char>, u32, u32, u32, DiagSeverity)>)>,
    uri: Seq<char>,
) -> Option<Seq<(Seq<char>, u32, u32, u32, DiagSeverity)>>
    decreases st.len(),
{
    if st.len() == 0 {
        None
    } else if st.last().0 == uri {
        Some(st.last().1)
    } else {
        lookup_diags(st.drop_last(), uri)
    }
}

/// The document a diagnostics notification is for.
pub open spec fn published_uri(msg: JsonValue) -> Seq<char> {
    text_or_empty(str_of(fld(fld(Some(msg), "params"@), "uri"@)))
}

/// The diagnostics a notification publishes, as plain values.
pub open spec fn published_diags(msg: JsonValue) -> Seq<(Seq<char>, u32, u32, u32, DiagSeverity)> {
    published_entries(msg).map_values(|j: JsonValue| diagnostic_of(j))
}

/// The responses among the messages, in order, each with its request id.
pub open spec fn responses_of(msgs: Seq<JsonValue>) -> Seq<(u64, JsonValue)>
    decreases msgs.len(),
{
    if msgs.len() == 0 {
        seq![]
    } else {
        let r = responses_of(msgs.drop_last());
        match message_kind(msgs.last()) {
            ServerMessage::Response(id) => r.push((id, msgs.last())),
            _ => r,
        }
    }
}

/// The kept diagnostics after the messages, in order, are followed.
pub open spec fn diags_after(
    st: Seq<(Seq<char>, Seq<(Seq<char>, u32, u32, u32, DiagSeverity)>)>,
    msgs: Seq<JsonValue>,
) -> Seq<(Seq<char>, Seq<(Seq<char>, u32, u32, u32, DiagSeverity)>)>
    decreases msgs.len(),
{
    if msgs.len() == 0 {
        st
    } else {
        let before = diags_after(st, msgs.drop_last());
        match message_kind(msgs.last()) {
            ServerMessage::Diagnostics => publish(before, published_uri(msgs.last()), published_diags(msgs.last())),
            _ => before,
        }
    }
}

/// Seconds to wait before restarting a crashed server: two, doubled for
/// each earlier attempt up to four times, and at most thirty.
pub open spec fn restart_delay(attempts: u32) -> u64 {
    if attempts == 0 {
        2
    } else if attempts == 1 {
        4
    } else if attempts == 2 {
        8
    } else if attempts == 3 {
        16
    } else {
        30
    }
}

proof fn lemma_lookup_filter(
    st: Seq<(Seq<char>, Seq<(Seq<char>, u32, u32, u32, DiagSeverity)>)>,
    u: Seq<char>,
    w: Seq<char>,
)
    requires
        w != u,
    ensures
        lookup_diags(st.filter(other_doc(u)), w) == lookup_diags(st, w),
    decreases st.len(),
{
    reveal(Seq::filter);
    let pred = other_doc(u);
    if st.len() > 0 {
        lemma_lookup_filter(st.drop_last(), u, w);
        let f = st.filter(pred);
        let fd = st.drop_last().filter(pred);
        if pred(st.last()) {
            assert(f == fd.push(st.last()));
            assert(f.drop_last() =~= fd);
        } else {
            assert(f == fd);
        }
    }
}

/// Reading back a document's diagnostics gives the list last published for
/// it; publishing for one document leaves every other document's as it was.
pub proof fn lemma_publish_then_lookup(
    st: Seq<(Seq<char>, Seq<(Seq<char>, u32, u32, u32, DiagSeverity)>)>,
    uri: Seq<char>,
    ds: Seq<(Seq<char>, u32, u32, u32, DiagSeverity)>,
    other: Seq<char>,
)
    ensures
        lookup_diags(publish(st, uri, ds), uri) == Some(ds),
        other != uri ==> lookup_diags(publish(st, uri, ds), other) == lookup_diags(st, other),
{
    let p = publish(st, uri, ds);
    assert(p.drop_last() =~= st.filter(other_doc(uri)));
    if other != uri {
        lemma_lookup_filter(st, uri, other);
    }
}

proof fn lemma_store_filter(
    v: Seq<(String, Vec<Diagnostic>)>,
    u: Seq<char>,
)
    ensures
        store_view(v.filter(other_entry(u))) == store_view(v).filter(other_doc(u)),
    decreases v.len(),
{
    reveal(Seq::filter);
    let pred = other_entry(u);
    let vpred = other_doc(u);
    if v.len() > 0 {
        lemma_store_filter(v.drop_last(), u);
        assert(store_view(v).drop_last() =~= store_view(v.drop_last()));
        let fe = v.filter(pred);
        let fd = v.drop_last().filter(pred);
        if pred(v.last()) {
            assert(fe == fd.push(v.last()));
            assert(store_view(fe) =~= store_view(fd).push((v.last().0@, diag_views(v.last().1@))));
        } else {
            assert(fe == fd);
        }
    } else {
        assert(store_view(v.filter(pred)) =~= seq![]);
        assert(store_view(v).filter(vpred) =~= seq![]);
    }
}

/// What a client keeps of its language server, without the connection: the
/// diagnostics published per document, the last completions, whether the
/// server is up, the next request id (while a server runs), how it was
/// started, and when it crashed (in seconds of the caller's clock).
pub struct LspClient {
    pub diagnostics: Vec<(String, Vec<Diagnostic>)>,
    pub completions: Vec<CompletionItem>,
    pub is_connected: bool,
    pub next_id: Option<u64>,
    /// Command, arguments and workspace the server was started with.
    pub restart_cmd: Option<(String, Vec<String>, String)>,
    pub crashed_at: Option<u64>,
    pub restart_attempts: u32,
    /// Whether a restart is under way.
    pub reconnecting: bool,
}

fn copy_diagnostic(d: &Diagnostic) -> (r: Diagnostic)
    ensures
        diagnostic_view(r) == diagnostic_view(*d),
{
    Diagnostic { message: d.message.clone(), line: d.line, col: d.col, end_col: d.end_col, severity: d.severity }
}

impl LspClient {
    /// A client without a server.
    pub fn new() -> (c: Self)
        ensures
            c.diagnostics@.len() == 0 && c.completions@.len() == 0,
            !c.is_connected && c.next_id is None && c.restart_cmd is None,
            c.crashed_at is None && c.restart_attempts == 0 && !c.reconnecting,
    {
        LspClient {
            diagnostics: Vec::new(),
            completions: Vec::new(),
            is_connected: false,
            next_id: None,
            restart_cmd: None,
            crashed_at: None,
            restart_attempts: 0,
            reconnecting: false,
        }
    }

    /// Records how the server is started, for restarts.
    pub fn set_restart_command(&mut self, command: &str, args: &Vec<String>, workspace: &str)
        ensures
            final(self).restart_cmd matches Some(c) && c.0@ == command@ && crate::text::texts(c.1@)
                == crate::text::texts(args@) && c.2@ == workspace@,
            *final(self) == (LspClient { restart_cmd: final(self).restart_cmd, ..*old(self) }),
    {
        let mut a: Vec<String> = Vec::new();
        let mut i: usize = 0;
        while i < args.len()
            invariant
                i <= args@.len(),
                crate::text::texts(a@) == crate::text::texts(args@).take(i as int),
            decreases args.len() - i,
        {
            let ghost before = a@;
            a.push(args[i].clone());
            i += 1;
            proof {
                assert(crate::text::texts(a@) =~= crate::text::texts(before).push(args@[i - 1]@));
                assert(crate::text::texts(args@).take(i as int) =~= crate::text::texts(args@).take(i - 1).push(args@[i - 1]@));
            }
        }
        proof {
            assert(crate::text::texts(args@).take(args@.len() as int) =~= crate::text::texts(args@));
        }
        self.restart_cmd = Some((crate::text::owned(command), a, crate::text::owned(workspace)));
    }

    /// The server was started, its `initialize` request taking id 1; it is
    /// connected when it answered that request.
    pub fn server_started(&mut self, initialized: bool)
        ensures
            final(self).next_id == Some(2u64),
            final(self).is_connected == (old(self).is_connected || initialized),
            *final(self) == (LspClient { next_id: final(self).next_id, is_connected: final(self).is_connected, ..*old(self) }),
    {
        self.next_id = Some(2);
        if initialized {
            self.is_connected = true;
        }
    }

    /// Whether a server runs (notifications are sent only then).
    pub fn has_server(&self) -> (b: bool)
        ensures
            b == self.next_id is Some,
    {
        self.next_id.is_some()
    }

    /// The id of a new request: the next one while a server runs, else 0
    /// (and nothing is to be sent).
    pub fn next_request_id(&mut self) -> (id: u64)
        requires
            old(self).next_id matches Some(n) ==> n < u64::MAX,
        ensures
            match old(self).next_id {
                Some(n) => id == n && final(self).next_id == Some((n + 1) as u64),
                None => id == 0 && final(self).next_id is None,
            },
            *final(self) == (LspClient { next_id: final(self).next_id, ..*old(self) }),
    {
        match self.next_id {
            Some(n) => {
                self.next_id = Some(n + 1);
                n
            },
            None => 0,
        }
    }

    /// Keeps `diags` as the diagnostics of `uri`, in place of any before.
    pub fn store_diagnostics(&mut self, uri: String, diags: Vec<Diagnostic>)
        ensures
            store_view(final(self).diagnostics@) == publish(store_view(old(self).diagnostics@), uri@, diag_views(diags@)),
            *final(self) == (LspClient { diagnostics: final(self).diagnostics, ..*old(self) }),
    {
        let want = str_chars(uri.as_str());
        let ghost old_v = self.diagnostics@;
        let ghost pred = other_entry(uri@);
        let n = self.diagnostics.len();
        let mut v: Vec<(String, Vec<Diagnostic>)> = Vec::new();
        std::mem::swap(&mut v, &mut self.diagnostics);
        let mut kept: Vec<(String, Vec<Diagnostic>)> = Vec::new();
        let mut i: usize = 0;
        proof {
            assert(old_v.skip(0) =~= old_v);
        }
        while v.len() > 0
            invariant
                v@.len() + i == n,
                n == old_v.len(),
                want@ == uri@,
                v@ == old_v.skip(i as int),
                pred == other_entry(uri@),
                kept@ == old_v.take(i as int).filter(pred),
            decreases v.len(),
        {
            let e = v.remove(0);
            let keep = !chars_eq(&str_chars(e.0.as_str()), &want);
            let ghost before = kept@;
            if keep {
                kept.push(e);
            }
            proof {
                reveal(Seq::filter);
                let t = old_v.take(i + 1);
                assert(t.drop_last() =~= old_v.take(i as int));
                assert(t.last() == e);
                assert(v@ =~= old_v.skip(i + 1));
                assert(pred(e) == keep);
                if keep {
                    assert(kept@ == before.push(e));
                }
                assert(kept@ == t.filter(pred));
            }
            i += 1;
        }
        proof {
            assert(old_v.take(n as int) =~= old_v);
            lemma_store_filter(old_v, uri@);
        }
        let ghost kept_v = kept@;
        let ghost entry = (uri, diags);
        kept.push((uri, diags));
        proof {
            assert(store_view(kept@) =~= store_view(kept_v).push((entry.0@, diag_views(entry.1@))));
        }
        self.diagnostics = kept;
    }

    /// The diagnostics last published for `path` (none when nothing was).
    pub fn get_diagnostics(&self, path: &str) -> (r: Vec<Diagnostic>)
        ensures
            diag_views(r@) == (match lookup_diags(store_view(self.diagnostics@), path@) {
                Some(d) => d,
                None => seq![],
            }),
    {
        let want = str_chars(path);
        let mut j: usize = self.diagnostics.len();
        proof {
            assert(store_view(self.diagnostics@).take(self.diagnostics@.len() as int) =~= store_view(self.diagnostics@));
        }
        while j > 0
            invariant
                j <= self.diagnostics@.len(),
                want@ == path@,
                lookup_diags(store_view(self.diagnostics@), path@) == lookup_diags(
                    store_view(self.diagnostics@).take(j as int),
                    path@,
                ),
            decreases j,
        {
            let ghost t = store_view(self.diagnostics@).take(j as int);
            proof {
                assert(t.drop_last() =~= store_view(self.diagnostics@).take(j - 1));
                assert(t.last() == (self.diagnostics@[j - 1].0@, diag_views(self.diagnostics@[j - 1].1@)));
            }
            if chars_eq(&str_chars(self.diagnostics[j - 1].0.as_str()), &want) {
                let src = &self.diagnostics[j - 1].1;
                let mut out: Vec<Diagnostic> = Vec::new();
                let mut k: usize = 0;
                while k < src.len()
                    invariant
                        k <= src@.len(),
                        diag_views(out@) == diag_views(src@).take(k as int),
                    decreases src.len() - k,
                {
                    let ghost before = out@;
                    out.push(copy_diagnostic(&src[k]));
                    k += 1;
                    proof {
                        assert(diag_views(out@) =~= diag_views(before).push(diagnostic_view(src@[k - 1])));
                        assert(diag_views(src@).take(k as int) =~= diag_views(src@).take(k - 1).push(
                            diagnostic_view(src@[k - 1]),
                        ));
                    }
                }
                proof {
                    assert(diag_views(src@).take(src@.len() as int) =~= diag_views(src@));
                }
                return out;
            }
            j -= 1;
        }
        Vec::new()
    }

    /// Follows the messages the server sent since the last poll, in order:
    /// responses are handed back with their request ids, published
    /// diagnostics are kept, other messages are dropped. When the server is
    /// found gone while connected, the client is disconnected and the crash
    /// time recorded. Without a server nothing happens.
    pub fn poll(&mut self, msgs: Vec<JsonValue>, alive: bool, now: u64) -> (r: Vec<(u64, JsonValue)>)
        ensures
            old(self).next_id is None ==> r@.len() == 0 && *final(self) == *old(self),
            old(self).next_id is Some ==> {
                &&& r@ == responses_of(msgs@)
                &&& store_view(final(self).diagnostics@) == diags_after(store_view(old(self).diagnostics@), msgs@)
                &&& (old(self).is_connected && !alive) ==> !final(self).is_connected && final(self).crashed_at == Some(
                    now,
                )
                &&& !(old(self).is_connected && !alive) ==> final(self).is_connected == old(self).is_connected
                    && final(self).crashed_at == old(self).crashed_at
                &&& *final(self) == (LspClient {
                    diagnostics: final(self).diagnostics,
                    is_connected: final(self).is_connected,
                    crashed_at: final(self).crashed_at,
                    ..*old(self)
                })
            },
    {
        let mut out: Vec<(u64, JsonValue)> = Vec::new();
        if self.next_id.is_none() {
            return out;
        }
        let mut msgs = msgs;
        let total = msgs.len();
        let ghost all = msgs@;
        let ghost st0 = store_view(self.diagnostics@);
        let ghost start = *self;
        let mut i: usize = 0;
        proof {
            assert(all.skip(0) =~= all);
            assert(all.take(0) =~= Seq::<JsonValue>::empty());
        }
        while msgs.len() > 0
            invariant
                all.len() == total,
                msgs@ == all.skip(i as int),
                i <= all.len(),
                out@ == responses_of(all.take(i as int)),
                store_view(self.diagnostics@) == diags_after(st0, all.take(i as int)),
                *self == (LspClient { diagnostics: self.diagnostics, ..start }),
            decreases msgs.len(),
        {
            let msg = msgs.remove(0);
            proof {
                assert(i < all.len());
                assert(msg == all[i as int]);
                assert(msgs@ =~= all.skip(i + 1));
                assert(all.take(i + 1).drop_last() =~= all.take(i as int));
                assert(all.take(i + 1).last() == msg);
            }
            match classify_message(&msg) {
                ServerMessage::Response(id) => {
                    out.push((id, msg));
                },
                ServerMessage::Diagnostics => {
                    let (uri, diags) = diagnostics_from_msg(&msg);
                    proof {
                        assert(diag_views(diags@) =~= published_diags(msg));
                    }
                    self.store_diagnostics(uri, diags);
                },
                ServerMessage::Other => {},
            }
            i += 1;
        }
        proof {
            assert(all.take(all.len() as int) =~= all);
        }
        if self.is_connected && !alive {
            self.is_connected = false;
            self.crashed_at = Some(now);
        }
        out
    }

    /// A restarted server is ready: it is connected with fresh request ids,
    /// and the crash is forgotten.
    pub fn reconnected(&mut self)
        ensures
            *final(self) == (LspClient {
                next_id: Some(2u64),
                is_connected: true,
                restart_attempts: 0,
                reconnecting: false,
                crashed_at: None,
                ..*old(self)
            }),
    {
        self.next_id = Some(2);
        self.is_connected = true;
        self.restart_attempts = 0;
        self.reconnecting = false;
        self.crashed_at = None;
    }

    /// Whether to start restarting a crashed server at time `now`: not while
    /// connected or already restarting, only after a crash, once the
    /// back-off delay has passed since it, and when the start command is
    /// known. A restart that starts counts as an attempt.
    pub fn restart_due(&mut self, now: u64) -> (start: bool)
        requires
            old(self).restart_attempts < u32::MAX,
        ensures
            start == (!old(self).is_connected && !old(self).reconnecting && old(self).restart_cmd is Some && (
            old(self).crashed_at matches Some(t) && now >= t && now - t >= restart_delay(old(self).restart_attempts))),
            start ==> *final(self) == (LspClient {
                restart_attempts: (old(self).restart_attempts + 1) as u32,
                reconnecting: true,
                ..*old(self)
            }),
            !start ==> *final(self) == *old(self),
    {
        if self.is_connected || self.reconnecting {
            return false;
        }
        let crash = match self.crashed_at {
            Some(t) => t,
            None => return false,
        };
        let a = self.restart_attempts;
        let delay: u64 = if a == 0 {
            2
        } else if a == 1 {
            4
        } else if a == 2 {
            8
        } else if a == 3 {
            16
        } else {
            30
        };
        if now < crash || now - crash < delay {
            return false;
        }
        if self.restart_cmd.is_none() {
            return false;
        }
        self.restart_attempts = self.restart_attempts + 1;
        self.reconnecting = true;
        true
    }
}

} // verus!
