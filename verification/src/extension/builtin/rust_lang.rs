//! The built-in extension for Rust source files, and its hover text.
use vstd::prelude::*;

use super::{builtin, builtin_manifest, fenced_hover, hover_scan, hover_scan_exec, strs};
use crate::editor::word_analysis::{around, around_exec};
use crate::dap::types::DapConfig;
use crate::extension::manifest::ExtensionManifest;
use crate::text::{lines, seqs_of};

verus! {

pub struct RustLangExtension;

impl RustLangExtension {
    pub fn manifest() -> (m: ExtensionManifest)
        ensures
            builtin_manifest(
                m,
                "builtin.rust-lang"@,
                "Rust Language Support"@,
                "Syntax highlighting for Rust source files."@,
                seq!["rs"@],
            ),
    {
        let langs: &[&str] = &["rs"];
        let m = builtin("builtin.rust-lang", "Rust Language Support", "Syntax highlighting for Rust source files.", langs);
        proof {
            assert(strs(langs@) =~= seq!["rs"@]);
        }
        m
    }

    /// The debugger for Rust: codelldb, launching the workspace's debug build.
    pub fn dap_config(&self) -> (r: Option<DapConfig>)
        ensures
            r matches Some(c) && c.adapter_cmd@ == "codelldb"@ && c.adapter_args@.len() == 0 && c.launch_config@
                == "{\"type\":\"lldb\",\"request\":\"launch\",\"name\":\"Debug Rust\",\"program\":\"${workspaceFolder}/target/debug/app\",\"args\":[],\"cwd\":\"${workspaceFolder}\",\"env\":{}}"@,
    {
        Some(DapConfig {
            adapter_cmd: crate::text::owned("codelldb"),
            adapter_args: Vec::new(),
            launch_config: crate::text::owned(
                "{\"type\":\"lldb\",\"request\":\"launch\",\"name\":\"Debug Rust\",\"program\":\"${workspaceFolder}/target/debug/app\",\"args\":[],\"cwd\":\"${workspaceFolder}\",\"env\":{}}",
            ),
        })
    }
}

/// Function declarations of `w`.
pub open spec fn rust_fn_patterns(w: Seq<char>) -> Seq<Seq<char>> {
    seq![
        around("fn "@, w, "("@),
        around("fn "@, w, " ("@),
        around("pub fn "@, w, "("@),
        around("pub(crate) fn "@, w, "("@),
        around("async fn "@, w, "("@),
        around("pub async fn "@, w, "("@),
        around("unsafe fn "@, w, "("@),
        around("pub unsafe fn "@, w, "("@),
    ]
}

/// Type declarations of `w`.
pub open spec fn rust_type_patterns(w: Seq<char>) -> Seq<Seq<char>> {
    seq![
        around("struct "@, w, " "@),
        around("struct "@, w, "{"@),
        around("pub struct "@, w, ""@),
        around("enum "@, w, " "@),
        around("pub enum "@, w, ""@),
        around("trait "@, w, " "@),
        around("pub trait "@, w, ""@),
        around("type "@, w, " ="@),
        around("pub type "@, w, " ="@),
    ]
}

/// Bindings of `w`.
pub open spec fn rust_let_patterns(w: Seq<char>) -> Seq<Seq<char>> {
    seq![
        around("let "@, w, ": "@),
        around("let mut "@, w, ": "@),
        around("let "@, w, " ="@),
        around("let mut "@, w, " ="@),
        around("const "@, w, ": "@),
        around("static "@, w, ": "@),
    ]
}

/// The signature of the first definition of `word` in Rust source text: a
/// line holding a function or type declaration (without its trailing `{`),
/// or a line starting with a binding (up to its `=` or `;`), in a `rust`
/// code fence.
pub fn rust_hover_info(word: &str, file_content: &str) -> (r: Option<String>)
    ensures
        crate::paths::opt_string_text(r) == fenced_hover(
            "rust"@,
            hover_scan(
                lines(file_content@),
                rust_fn_patterns(word@) + rust_type_patterns(word@),
                rust_type_patterns(word@),
                rust_let_patterns(word@),
            ),
        ),
{
    let w = crate::text::str_chars(word);
    let mut fns: Vec<Vec<char>> = Vec::new();
    fns.push(around_exec("fn ", &w, "("));
    fns.push(around_exec("fn ", &w, " ("));
    fns.push(around_exec("pub fn ", &w, "("));
    fns.push(around_exec("pub(crate) fn ", &w, "("));
    fns.push(around_exec("async fn ", &w, "("));
    fns.push(around_exec("pub async fn ", &w, "("));
    fns.push(around_exec("unsafe fn ", &w, "("));
    fns.push(around_exec("pub unsafe fn ", &w, "("));
    let mut types: Vec<Vec<char>> = Vec::new();
    types.push(around_exec("struct ", &w, " "));
    types.push(around_exec("struct ", &w, "{"));
    types.push(around_exec("pub struct ", &w, ""));
    types.push(around_exec("enum ", &w, " "));
    types.push(around_exec("pub enum ", &w, ""));
    types.push(around_exec("trait ", &w, " "));
    types.push(around_exec("pub trait ", &w, ""));
    types.push(around_exec("type ", &w, " ="));
    types.push(around_exec("pub type ", &w, " ="));
    let mut lets: Vec<Vec<char>> = Vec::new();
    lets.push(around_exec("let ", &w, ": "));
    lets.push(around_exec("let mut ", &w, ": "));
    lets.push(around_exec("let ", &w, " ="));
    lets.push(around_exec("let mut ", &w, " ="));
    lets.push(around_exec("const ", &w, ": "));
    lets.push(around_exec("static ", &w, ": "));
    let mut inner: Vec<Vec<char>> = Vec::new();
    inner.push(around_exec("fn ", &w, "("));
    inner.push(around_exec("fn ", &w, " ("));
    inner.push(around_exec("pub fn ", &w, "("));
    inner.push(around_exec("pub(crate) fn ", &w, "("));
    inner.push(around_exec("async fn ", &w, "("));
    inner.push(around_exec("pub async fn ", &w, "("));
    inner.push(around_exec("unsafe fn ", &w, "("));
    inner.push(around_exec("pub unsafe fn ", &w, "("));
    inner.push(around_exec("struct ", &w, " "));
    inner.push(around_exec("struct ", &w, "{"));
    inner.push(around_exec("pub struct ", &w, ""));
    inner.push(around_exec("enum ", &w, " "));
    inner.push(around_exec("pub enum ", &w, ""));
    inner.push(around_exec("trait ", &w, " "));
    inner.push(around_exec("pub trait ", &w, ""));
    inner.push(around_exec("type ", &w, " ="));
    inner.push(around_exec("pub type ", &w, " ="));
    proof {
        assert(seqs_of(fns@) =~= rust_fn_patterns(word@));
        assert(seqs_of(types@) =~= rust_type_patterns(word@));
        assert(seqs_of(lets@) =~= rust_let_patterns(word@));
        assert(seqs_of(inner@) =~= rust_fn_patterns(word@) + rust_type_patterns(word@));
    }
    hover_scan_exec("rust", file_content, &inner, &types, &lets)
}

} // verus!
