//! Debug adapter configurations, breakpoints, stack frames, variables and
//! the session's lifecycle.
use vstd::prelude::*;

use crate::text::{chars_string, replace_all, replace_all_exec, str_chars};

verus! {

/// How to start and launch a debug adapter for a language.
#[derive(Debug, Clone)]
pub struct DapConfig {
    /// The debug adapter program.
    pub adapter_cmd: String,
    pub adapter_args: Vec<String>,
    /// The body of the `launch` request, as JSON text; `${file}` and
    /// `${workspaceFolder}` stand for the debugged file and the workspace.
    pub launch_config: String,
}

/// Whether `text` is valid JSON, as serde_json parses it.
pub uninterp spec fn json_valid(text: Seq<char>) -> bool;

/// Whether `text` parses as JSON (`serde_json::from_str::<serde_json::Value>`
/// succeeds on it). Its result is named, not described: it depends on the
/// text alone.
#[verifier::external_body]
fn json_parses(text: &str) -> (b: bool)
    ensures
        b == json_valid(text@),
{
    serde_json::from_str::<serde_json::Value>(text).is_ok()
}

/// A launch configuration with every `placeholder` replaced by `value`; it
/// stays as it was when that would not be valid JSON.
pub open spec fn substituted(config: Seq<char>, placeholder: Seq<char>, value: Seq<char>) -> Seq<char> {
    let t = replace_all(config, placeholder, value);
    if json_valid(t) {
        t
    } else {
        config
    }
}

/// Replaces a placeholder of a launch configuration (see `substituted`).
pub fn substitute_launch_variable(config: &str, placeholder: &str, value: &str) -> (r: String)
    requires
        placeholder@.len() > 0,
    ensures
        r@ == substituted(config@, placeholder@, value@),
{
    let c = str_chars(config);
    let t = chars_string(&replace_all_exec(&c, &str_chars(placeholder), &str_chars(value)));
    if json_parses(t.as_str()) {
        t
    } else {
        chars_string(&c)
    }
}

/// A source breakpoint.
#[derive(Debug, Clone)]
pub struct Breakpoint {
    pub file: String,
    /// 1-based line number.
    pub line: usize,
    /// Whether the debug adapter acknowledged it.
    pub verified: bool,
    pub id: Option<i64>,
}

/// One frame of the call stack.
#[derive(Debug, Clone)]
pub struct StackFrame {
    pub id: i64,
    pub name: String,
    pub file: Option<String>,
    /// 1-based line number.
    pub line: usize,
}

/// A debug variable (or scope entry).
#[derive(Debug, Clone)]
pub struct Variable {
    pub name: String,
    pub value: String,
    pub var_type: Option<String>,
    /// Non-zero when the variable has children.
    pub variables_reference: i64,
}

/// Lifecycle of the debug session.
#[derive(Debug, Clone, Copy, PartialEq, Eq, Structural)]
pub enum DebugSessionState {
    Idle,
    Launching,
    Running,
    Paused { thread_id: i64 },
    Terminated,
}

impl Default for DebugSessionState {
    fn default() -> (s: Self)
        ensures
            s == DebugSessionState::Idle,
    {
        DebugSessionState::Idle
    }
}

} // verus!
