//! The built-in extension for JavaScript and TypeScript, and their hover texts.
use vstd::prelude::*;

use super::{builtin, builtin_manifest, fenced_hover, hover_scan, hover_scan_exec, strs};
use crate::editor::word_analysis::{around, around_exec};
use crate::dap::types::DapConfig;
use crate::extension::manifest::ExtensionManifest;
use crate::text::{lines, seqs_of};

verus! {

pub struct WebLangExtension;

impl WebLangExtension {
    pub fn manifest() -> (m: ExtensionManifest)
        ensures
            builtin_manifest(
                m,
                "builtin.web-lang"@,
                "Web Language Support"@,
                "Syntax highlighting for JavaScript, TypeScript, JSX, and TSX."@,
                seq!["js"@, "ts"@, "jsx"@, "tsx"@, "mjs"@],
            ),
    {
        let langs: &[&str] = &["js", "ts", "jsx", "tsx", "mjs"];
        let m = builtin("builtin.web-lang", "Web Language Support", "Syntax highlighting for JavaScript, TypeScript, JSX, and TSX.", langs);
        proof {
            assert(strs(langs@) =~= seq!["js"@, "ts"@, "jsx"@, "tsx"@, "mjs"@]);
        }
        m
    }

    /// The debugger for JavaScript and TypeScript: node, with ts-node
    /// loaded, launching the open file.
    pub fn dap_config(&self) -> (r: Option<DapConfig>)
        ensures
            r matches Some(c) && c.adapter_cmd@ == "node"@ && c.adapter_args@.len() == 2 && c.adapter_args@[0]@
                == "--require"@ && c.adapter_args@[1]@ == "ts-node/register"@ && c.launch_config@
                == "{\"type\":\"node\",\"request\":\"launch\",\"name\":\"Debug Node.js\",\"program\":\"${file}\",\"cwd\":\"${workspaceFolder}\",\"console\":\"integratedTerminal\",\"runtimeExecutable\":\"node\"}"@,
    {
        let args = vec![crate::text::owned("--require"), crate::text::owned("ts-node/register")];
        Some(DapConfig {
            adapter_cmd: crate::text::owned("node"),
            adapter_args: args,
            launch_config: crate::text::owned(
                "{\"type\":\"node\",\"request\":\"launch\",\"name\":\"Debug Node.js\",\"program\":\"${file}\",\"cwd\":\"${workspaceFolder}\",\"console\":\"integratedTerminal\",\"runtimeExecutable\":\"node\"}",
            ),
        })
    }
}

/// Function declarations of `w`.
pub open spec fn function_patterns(w: Seq<char>) -> Seq<Seq<char>> {
    seq![
        around("function "@, w, "("@),
        around("function "@, w, " ("@),
        around("async function "@, w, "("@),
        around("async function "@, w, " ("@),
    ]
}

/// Arrow-function bindings of `w`.
pub open spec fn arrow_patterns(w: Seq<char>) -> Seq<Seq<char>> {
    seq![
        around("const "@, w, " = ("@),
        around("const "@, w, " = async ("@),
        around("let "@, w, " = ("@),
        around("var "@, w, " = ("@),
    ]
}

/// JavaScript declarations of `w`.
pub open spec fn js_decl_patterns(w: Seq<char>) -> Seq<Seq<char>> {
    seq![
        around("class "@, w, " "@),
        around("class "@, w, "{"@),
        around("const "@, w, ""@),
        around("let "@, w, ""@),
        around("var "@, w, ""@),
    ]
}

/// TypeScript declarations of `w`.
pub open spec fn ts_decl_patterns(w: Seq<char>) -> Seq<Seq<char>> {
    seq![
        around("class "@, w, " "@),
        around("class "@, w, "{"@),
        around("interface "@, w, " "@),
        around("interface "@, w, "{"@),
        around("type "@, w, " ="@),
        around("const "@, w, ""@),
        around("let "@, w, ""@),
        around("var "@, w, ""@),
    ]
}

/// The signature of the first definition of `word` in JavaScript source text, in a `js` code fence: a function declaration or arrow-function binding (without a trailing `{`), or a class or variable declaration (up to its `=` or `;`).
pub fn js_hover_info(word: &str, file_content: &str) -> (r: Option<String>)
    ensures
        crate::paths::opt_string_text(r) == fenced_hover(
            "js"@,
            hover_scan(lines(file_content@), function_patterns(word@), arrow_patterns(word@), js_decl_patterns(word@)),
        ),
{
    let w = crate::text::str_chars(word);
    let mut fns: Vec<Vec<char>> = Vec::new();
    fns.push(around_exec("function ", &w, "("));
    fns.push(around_exec("function ", &w, " ("));
    fns.push(around_exec("async function ", &w, "("));
    fns.push(around_exec("async function ", &w, " ("));
    let mut arrows: Vec<Vec<char>> = Vec::new();
    arrows.push(around_exec("const ", &w, " = ("));
    arrows.push(around_exec("const ", &w, " = async ("));
    arrows.push(around_exec("let ", &w, " = ("));
    arrows.push(around_exec("var ", &w, " = ("));
    let mut decls: Vec<Vec<char>> = Vec::new();
    decls.push(around_exec("class ", &w, " "));
    decls.push(around_exec("class ", &w, "{"));
    decls.push(around_exec("const ", &w, ""));
    decls.push(around_exec("let ", &w, ""));
    decls.push(around_exec("var ", &w, ""));
    proof {
        assert(seqs_of(fns@) =~= function_patterns(word@));
        assert(seqs_of(arrows@) =~= arrow_patterns(word@));
        assert(seqs_of(decls@) =~= js_decl_patterns(word@));
    }
    hover_scan_exec("js", file_content, &fns, &arrows, &decls)
}

/// The signature of the first definition of `word` in TypeScript source text, in a `ts` code fence: as for JavaScript, with interfaces and type aliases among the declarations.
pub fn ts_hover_info(word: &str, file_content: &str) -> (r: Option<String>)
    ensures
        crate::paths::opt_string_text(r) == fenced_hover(
            "ts"@,
            hover_scan(lines(file_content@), function_patterns(word@), arrow_patterns(word@), ts_decl_patterns(word@)),
        ),
{
    let w = crate::text::str_chars(word);
    let mut fns: Vec<Vec<char>> = Vec::new();
    fns.push(around_exec("function ", &w, "("));
    fns.push(around_exec("function ", &w, " ("));
    fns.push(around_exec("async function ", &w, "("));
    fns.push(around_exec("async function ", &w, " ("));
    let mut arrows: Vec<Vec<char>> = Vec::new();
    arrows.push(around_exec("const ", &w, " = ("));
    arrows.push(around_exec("const ", &w, " = async ("));
    arrows.push(around_exec("let ", &w, " = ("));
    arrows.push(around_exec("var ", &w, " = ("));
    let mut decls: Vec<Vec<char>> = Vec::new();
    decls.push(around_exec("class ", &w, " "));
    decls.push(around_exec("class ", &w, "{"));
    decls.push(around_exec("interface ", &w, " "));
    decls.push(around_exec("interface ", &w, "{"));
    decls.push(around_exec("type ", &w, " ="));
    decls.push(around_exec("const ", &w, ""));
    decls.push(around_exec("let ", &w, ""));
    decls.push(around_exec("var ", &w, ""));
    proof {
        assert(seqs_of(fns@) =~= function_patterns(word@));
        assert(seqs_of(arrows@) =~= arrow_patterns(word@));
        assert(seqs_of(decls@) =~= ts_decl_patterns(word@));
    }
    hover_scan_exec("ts", file_content, &fns, &arrows, &decls)
}

} // verus!
