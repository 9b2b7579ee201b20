//! The built-in language extensions, and the definition scan their hover
//! texts come from.
pub mod data_lang;
pub mod docker_lang;
pub mod python_lang;
pub mod rust_lang;
pub mod shell_lang;
pub mod web_lang;

use vstd::prelude::*;

use super::manifest::{Capabilities, Dependencies, ExtensionInfo, ExtensionManifest};
use crate::editor::word_analysis::let_end;
use crate::text::{
    append_chars, chars_string, contains, contains_exec, find_char_exec, lines, seqs_of,
    slice_chars, split_lines, starts_with, starts_with_exec, str_chars, texts, trim, trim_end,
    trim_end_char, trim_end_char_exec, trim_end_exec, trim_exec,
};

verus! {

/// `m` is the manifest of a built-in extension: the given id, name,
/// description and languages, version `0.1.0`, author `Writing Unicorns`, no
/// repository, and no commands, themes, language server or dependencies.
pub open spec fn builtin_manifest(m: ExtensionManifest, id: Seq<char>, name: Seq<char>, description: Seq<char>, langs: Seq<Seq<char>>) -> bool {
    &&& m.extension.id@ == id
    &&& m.extension.name@ == name
    &&& m.extension.version@ == "0.1.0"@
    &&& m.extension.description@ == description
    &&& m.extension.author@ == "Writing Unicorns"@
    &&& m.extension.repository@.len() == 0
    &&& texts(m.capabilities.languages@) == langs
    &&& m.capabilities.commands@.len() == 0
    &&& m.capabilities.themes@.len() == 0
    &&& m.capabilities.lsp_server is None
    &&& m.capabilities.lsp_args@.len() == 0
    &&& m.dependencies.npm@.len() == 0 && m.dependencies.pip@.len() == 0
    &&& m.dependencies.cargo@.len() == 0 && m.dependencies.go@.len() == 0
}

/// The texts of string slices.
pub open spec fn strs(v: Seq<&str>) -> Seq<Seq<char>> {
    v.map_values(|s: &str| s@)
}

fn owned_strings(v: &[&str]) -> (r: Vec<String>)
    ensures
        texts(r@) == strs(v@),
{
    let mut r: Vec<String> = Vec::new();
    let mut i: usize = 0;
    while i < v.len()
        invariant
            i <= v.len(),
            texts(r@) == strs(v@).take(i as int),
        decreases v.len() - i,
    {
        let o = crate::text::owned(v[i]);
        let ghost before = r@;
        r.push(o);
        proof {
            assert(texts(r@) =~= texts(before).push(o@));
            assert(strs(v@).take(i + 1) =~= strs(v@).take(i as int).push(v@[i as int]@));
        }
        i += 1;
    }
    proof {
        assert(strs(v@).take(v@.len() as int) =~= strs(v@));
    }
    r
}

/// Builds a built-in extension's manifest.
pub(crate) fn builtin(id: &str, name: &str, description: &str, langs: &[&str]) -> (m: ExtensionManifest)
    ensures
        builtin_manifest(m, id@, name@, description@, strs(langs@)),
{
    proof {
        reveal_strlit("");
    }
    ExtensionManifest {
        extension: ExtensionInfo {
            id: crate::text::owned(id),
            name: crate::text::owned(name),
            version: crate::text::owned("0.1.0"),
            description: crate::text::owned(description),
            author: crate::text::owned("Writing Unicorns"),
            repository: String::new(),
        },
        capabilities: Capabilities {
            languages: owned_strings(langs),
            commands: Vec::new(),
            themes: Vec::new(),
            lsp_server: None,
            lsp_args: Vec::new(),
        },
        dependencies: Dependencies { npm: Vec::new(), pip: Vec::new(), cargo: Vec::new(), go: Vec::new() },
    }
}

// ── Definition scan for hover texts ─────────────────────────────────────────

/// Some pattern of `pats` occurs in `l`.
pub open spec fn any_contains(l: Seq<char>, pats: Seq<Seq<char>>) -> bool {
    exists|i: int| 0 <= i < pats.len() && contains(l, #[trigger] pats[i])
}

/// `l` starts with some pattern of `pats`.
pub open spec fn any_prefix(l: Seq<char>, pats: Seq<Seq<char>>) -> bool {
    exists|i: int| 0 <= i < pats.len() && starts_with(l, #[trigger] pats[i])
}

/// The signature a trimmed line gives: the line without a trailing `{` when
/// it holds a pattern of `inner` or starts with one of `leading`; the line up
/// to its first `=` (else `;`) when it starts with one of `decls`.
pub open spec fn hover_line(l: Seq<char>, inner: Seq<Seq<char>>, leading: Seq<Seq<char>>, decls: Seq<Seq<char>>) -> Option<Seq<char>> {
    if any_contains(l, inner) || any_prefix(l, leading) {
        Some(trim_end(trim_end_char(l, '{')))
    } else if any_prefix(l, decls) {
        Some(trim_end(l.take(let_end(l))))
    } else {
        None
    }
}

/// The signature from the first of `ls` (trimmed) that gives one.
pub open spec fn hover_scan(ls: Seq<Seq<char>>, inner: Seq<Seq<char>>, leading: Seq<Seq<char>>, decls: Seq<Seq<char>>) -> Option<Seq<char>>
    decreases ls.len(),
{
    if ls.len() == 0 {
        None
    } else {
        match hover_line(trim(ls[0]), inner, leading, decls) {
            Some(sig) => Some(sig),
            None => hover_scan(ls.drop_first(), inner, leading, decls),
        }
    }
}

/// `sig` in a fenced code block for `lang`.
pub open spec fn fenced(lang: Seq<char>, sig: Seq<char>) -> Seq<char> {
    "```"@ + lang + "\n"@ + sig + "\n```"@
}

/// The fenced signature of a scan result.
pub open spec fn fenced_hover(lang: Seq<char>, r: Option<Seq<char>>) -> Option<Seq<char>> {
    match r {
        Some(sig) => Some(fenced(lang, sig)),
        None => None,
    }
}

fn any_contains_exec(l: &Vec<char>, pats: &Vec<Vec<char>>) -> (b: bool)
    ensures
        b == any_contains(l@, seqs_of(pats@)),
{
    let mut i: usize = 0;
    while i < pats.len()
        invariant
            i <= pats.len(),
            forall|j: int| 0 <= j < i ==> !contains(l@, #[trigger] seqs_of(pats@)[j]),
        decreases pats.len() - i,
    {
        if contains_exec(l, &pats[i]) {
            assert(contains(l@, seqs_of(pats@)[i as int]));
            return true;
        }
        i += 1;
    }
    false
}

fn any_prefix_exec(l: &Vec<char>, pats: &Vec<Vec<char>>) -> (b: bool)
    ensures
        b == any_prefix(l@, seqs_of(pats@)),
{
    let mut i: usize = 0;
    while i < pats.len()
        invariant
            i <= pats.len(),
            forall|j: int| 0 <= j < i ==> !starts_with(l@, #[trigger] seqs_of(pats@)[j]),
        decreases pats.len() - i,
    {
        if starts_with_exec(l, &pats[i]) {
            assert(starts_with(l@, seqs_of(pats@)[i as int]));
            return true;
        }
        i += 1;
    }
    false
}

fn hover_line_exec(l: &Vec<char>, inner: &Vec<Vec<char>>, leading: &Vec<Vec<char>>, decls: &Vec<Vec<char>>) -> (r: Option<Vec<char>>)
    ensures
        match r {
            Some(v) => hover_line(l@, seqs_of(inner@), seqs_of(leading@), seqs_of(decls@)) == Some(v@),
            None => hover_line(l@, seqs_of(inner@), seqs_of(leading@), seqs_of(decls@)) is None,
        },
{
    if any_contains_exec(l, inner) || any_prefix_exec(l, leading) {
        return Some(trim_end_exec(&trim_end_char_exec(l, '{')));
    }
    if any_prefix_exec(l, decls) {
        let end = match find_char_exec(l, '=') {
            Some(i) => i,
            None => match find_char_exec(l, ';') {
                Some(i) => i,
                None => l.len(),
            },
        };
        return Some(trim_end_exec(&slice_chars(l, 0, end)));
    }
    None
}

/// Scans `content` for a definition (`hover_scan`) and fences what it finds.
pub(crate) fn hover_scan_exec(lang: &str, content: &str, inner: &Vec<Vec<char>>, leading: &Vec<Vec<char>>, decls: &Vec<Vec<char>>) -> (r: Option<String>)
    ensures
        crate::paths::opt_string_text(r) == fenced_hover(lang@, hover_scan(lines(content@), seqs_of(inner@), seqs_of(leading@), seqs_of(decls@))),
{
    let all = split_lines(&str_chars(content));
    let mut i: usize = 0;
    proof {
        assert(seqs_of(all@).skip(0) =~= seqs_of(all@));
    }
    while i < all.len()
        invariant
            i <= all.len(),
            seqs_of(all@) == lines(content@),
            hover_scan(seqs_of(all@), seqs_of(inner@), seqs_of(leading@), seqs_of(decls@))
                == hover_scan(seqs_of(all@).skip(i as int), seqs_of(inner@), seqs_of(leading@), seqs_of(decls@)),
        decreases all.len() - i,
    {
        let trimmed = trim_exec(&all[i]);
        proof {
            let rest = seqs_of(all@).skip(i as int);
            assert(rest[0] == all@[i as int]@);
            assert(rest.drop_first() =~= seqs_of(all@).skip(i + 1));
        }
        if let Some(sig) = hover_line_exec(&trimmed, inner, leading, decls) {
            let mut out = str_chars("```");
            append_chars(&mut out, &str_chars(lang));
            append_chars(&mut out, &str_chars("\n"));
            append_chars(&mut out, &sig);
            append_chars(&mut out, &str_chars("\n```"));
            return Some(chars_string(&out));
        }
        i += 1;
    }
    proof {
        assert(seqs_of(all@).skip(i as int) =~= seq![]);
    }
    None
}

} // verus!
