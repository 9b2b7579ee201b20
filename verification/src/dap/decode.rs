//! Reading a debug adapter's JSON message as the session's `DapMessage`.
use vstd::prelude::*;

use super::client::{DapMessage, RawFrame, RawVariable};
use crate::lsp::json::{
    deref_opt, fld, fld_exec, i64_exec, i64_of, items_exec, items_of, opt_text, str_exec, str_of, u64_exec, u64_of,
    JsonValue,
};
use crate::text::{chars_eq, str_chars};

verus! {

/// Which message a JSON value is, by its `type` and its `event` or `command`.
pub enum MessageKind {
    Initialized,
    Stopped,
    Continued,
    Terminated,
    Output,
    StackTrace,
    Scopes,
    Variables,
    Other,
}

/// The string member `key` of `v` is `t`.
pub open spec fn text_is(v: Option<JsonValue>, key: Seq<char>, t: Seq<char>) -> bool {
    str_of(fld(v, key)) == Some(t)
}

/// The kind of an adapter message: an event named by `event`, or a response
/// to the request named by `command`; anything else is `Other`.
pub open spec fn message_kind(v: JsonValue) -> MessageKind {
    let m = Some(v);
    if text_is(m, "type"@, "event"@) {
        if text_is(m, "event"@, "initialized"@) {
            MessageKind::Initialized
        } else if text_is(m, "event"@, "stopped"@) {
            MessageKind::Stopped
        } else if text_is(m, "event"@, "continued"@) {
            MessageKind::Continued
        } else if text_is(m, "event"@, "terminated"@) || text_is(m, "event"@, "exited"@) {
            MessageKind::Terminated
        } else if text_is(m, "event"@, "output"@) {
            MessageKind::Output
        } else {
            MessageKind::Other
        }
    } else if text_is(m, "type"@, "response"@) {
        if text_is(m, "command"@, "stackTrace"@) {
            MessageKind::StackTrace
        } else if text_is(m, "command"@, "scopes"@) {
            MessageKind::Scopes
        } else if text_is(m, "command"@, "variables"@) {
            MessageKind::Variables
        } else {
            MessageKind::Other
        }
    } else {
        MessageKind::Other
    }
}

/// The kind of a decoded message.
pub open spec fn kind_of(m: DapMessage) -> MessageKind {
    match m {
        DapMessage::Initialized => MessageKind::Initialized,
        DapMessage::Stopped { .. } => MessageKind::Stopped,
        DapMessage::Continued => MessageKind::Continued,
        DapMessage::Terminated => MessageKind::Terminated,
        DapMessage::Output { .. } => MessageKind::Output,
        DapMessage::StackTrace { .. } => MessageKind::StackTrace,
        DapMessage::Scopes { .. } => MessageKind::Scopes,
        DapMessage::Variables { .. } => MessageKind::Variables,
        DapMessage::Other => MessageKind::Other,
    }
}

/// `f` holds what the JSON frame `j` reports: `id`, `name`, `source.path`, `line`.
pub open spec fn frame_read(f: RawFrame, j: JsonValue) -> bool {
    &&& f.id == i64_of(fld(Some(j), "id"@))
    &&& opt_text(f.name) == str_of(fld(Some(j), "name"@))
    &&& opt_text(f.path) == str_of(fld(fld(Some(j), "source"@), "path"@))
    &&& f.line == u64_of(fld(Some(j), "line"@))
}

/// `v` holds what the JSON variable `j` reports: `name`, `value`, `type`,
/// `variablesReference`.
pub open spec fn variable_read(v: RawVariable, j: JsonValue) -> bool {
    &&& opt_text(v.name) == str_of(fld(Some(j), "name"@))
    &&& opt_text(v.value) == str_of(fld(Some(j), "value"@))
    &&& opt_text(v.var_type) == str_of(fld(Some(j), "type"@))
    &&& v.variables_reference == i64_of(fld(Some(j), "variablesReference"@))
}

/// The `body` member of a message.
pub open spec fn body_of(v: JsonValue) -> Option<JsonValue> {
    fld(Some(v), "body"@)
}

/// What a decoded message carries, read from the JSON message `v`.
pub open spec fn fields_read(m: DapMessage, v: JsonValue) -> bool {
    match m {
        DapMessage::Stopped { thread_id } => thread_id == i64_of(fld(body_of(v), "threadId"@)),
        DapMessage::Output { text } => opt_text(text) == str_of(fld(body_of(v), "output"@)),
        DapMessage::StackTrace { request_seq, frames } => {
            &&& request_seq == u64_of(fld(Some(v), "request_seq"@))
            &&& match (frames, items_of(fld(body_of(v), "stackFrames"@))) {
                (Some(fs), Some(js)) => fs@.len() == js.len() && forall|k: int|
                    0 <= k < js.len() ==> frame_read(#[trigger] fs@[k], js[k]),
                (None, None) => true,
                _ => false,
            }
        },
        DapMessage::Scopes { request_seq, first_scope_ref } => {
            &&& request_seq == u64_of(fld(Some(v), "request_seq"@))
            &&& first_scope_ref == match items_of(fld(body_of(v), "scopes"@)) {
                Some(js) => if js.len() > 0 {
                    Some(i64_of(fld(Some(js[0]), "variablesReference"@)))
                } else {
                    None
                },
                None => None,
            }
        },
        DapMessage::Variables { request_seq, variables } => {
            &&& request_seq == u64_of(fld(Some(v), "request_seq"@))
            &&& match (variables, items_of(fld(body_of(v), "variables"@))) {
                (Some(vs), Some(js)) => vs@.len() == js.len() && forall|k: int|
                    0 <= k < js.len() ==> variable_read(#[trigger] vs@[k], js[k]),
                (None, None) => true,
                _ => false,
            }
        },
        _ => true,
    }
}

fn member_is(v: Option<&JsonValue>, key: &str, t: &str) -> (b: bool)
    ensures
        b == text_is(deref_opt(v), key@, t@),
{
    match str_exec(fld_exec(v, key)) {
        Some(s) => chars_eq(&str_chars(s.as_str()), &str_chars(t)),
        None => false,
    }
}

fn frames_read(js: &Vec<JsonValue>) -> (r: Vec<RawFrame>)
    ensures
        r@.len() == js@.len(),
        forall|k: int| 0 <= k < js@.len() ==> frame_read(#[trigger] r@[k], js@[k]),
{
    let mut r: Vec<RawFrame> = Vec::new();
    let mut i: usize = 0;
    while i < js.len()
        invariant
            i <= js@.len(),
            r@.len() == i,
            forall|k: int| 0 <= k < i ==> frame_read(#[trigger] r@[k], js@[k]),
        decreases js.len() - i,
    {
        let j = Some(&js[i]);
        let f = RawFrame {
            id: i64_exec(fld_exec(j, "id")),
            name: str_exec(fld_exec(j, "name")),
            path: str_exec(fld_exec(fld_exec(j, "source"), "path")),
            line: u64_exec(fld_exec(j, "line")),
        };
        r.push(f);
        i += 1;
    }
    r
}

fn variables_read(js: &Vec<JsonValue>) -> (r: Vec<RawVariable>)
    ensures
        r@.len() == js@.len(),
        forall|k: int| 0 <= k < js@.len() ==> variable_read(#[trigger] r@[k], js@[k]),
{
    let mut r: Vec<RawVariable> = Vec::new();
    let mut i: usize = 0;
    while i < js.len()
        invariant
            i <= js@.len(),
            r@.len() == i,
            forall|k: int| 0 <= k < i ==> variable_read(#[trigger] r@[k], js@[k]),
        decreases js.len() - i,
    {
        let j = Some(&js[i]);
        let x = RawVariable {
            name: str_exec(fld_exec(j, "name")),
            value: str_exec(fld_exec(j, "value")),
            var_type: str_exec(fld_exec(j, "type")),
            variables_reference: i64_exec(fld_exec(j, "variablesReference")),
        };
        r.push(x);
        i += 1;
    }
    r
}

/// Reads a message of the debug adapter: its kind (see `message_kind`) and
/// the fields the session follows (see `fields_read`).
pub fn decode_dap_message(v: &JsonValue) -> (r: DapMessage)
    ensures
        kind_of(r) == message_kind(*v),
        fields_read(r, *v),
{
    let m = Some(v);
    let body = fld_exec(m, "body");
    if member_is(m, "type", "event") {
        if member_is(m, "event", "initialized") {
            DapMessage::Initialized
        } else if member_is(m, "event", "stopped") {
            DapMessage::Stopped { thread_id: i64_exec(fld_exec(body, "threadId")) }
        } else if member_is(m, "event", "continued") {
            DapMessage::Continued
        } else if member_is(m, "event", "terminated") || member_is(m, "event", "exited") {
            DapMessage::Terminated
        } else if member_is(m, "event", "output") {
            DapMessage::Output { text: str_exec(fld_exec(body, "output")) }
        } else {
            DapMessage::Other
        }
    } else if member_is(m, "type", "response") {
        let request_seq = u64_exec(fld_exec(m, "request_seq"));
        if member_is(m, "command", "stackTrace") {
            let frames = match items_exec(fld_exec(body, "stackFrames")) {
                Some(js) => Some(frames_read(js)),
                None => None,
            };
            DapMessage::StackTrace { request_seq, frames }
        } else if member_is(m, "command", "scopes") {
            let first_scope_ref = match items_exec(fld_exec(body, "scopes")) {
                Some(js) => if js.len() > 0 {
                    Some(i64_exec(fld_exec(Some(&js[0]), "variablesReference")))
                } else {
                    None
                },
                None => None,
            };
            DapMessage::Scopes { request_seq, first_scope_ref }
        } else if member_is(m, "command", "variables") {
            let variables = match items_exec(fld_exec(body, "variables")) {
                Some(js) => Some(variables_read(js)),
                None => None,
            };
            DapMessage::Variables { request_seq, variables }
        } else {
            DapMessage::Other
        }
    } else {
        DapMessage::Other
    }
}

} // verus!
