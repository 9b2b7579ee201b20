//! Reading language-server responses: hover text, definitions, completions,
//! symbols, references, rename edits, code actions, formatting edits,
//! signature help and published diagnostics.
use vstd::prelude::*;

use super::client::{CodeAction, CompletionItem, DiagSeverity, Diagnostic, DocumentSymbol};
use super::json::{
    deref_opt, entries_exec, nonempty, entries_of, fld, fld_exec, items_exec, items_of, opt_text, str_exec, str_of,
    string_or_empty, text_or_empty, u64_exec, u64_of, u64_or, JsonValue,
};
use crate::text::{append_chars, chars_string, owned, slice_chars, starts_with_exec, str_chars};

verus! {

/// `v[k1][k2]...` for a path of keys.
pub open spec fn at_path(v: Option<JsonValue>, keys: Seq<Seq<char>>) -> Option<JsonValue>
    decreases keys.len(),
{
    if keys.len() == 0 {
        v
    } else {
        at_path(fld(v, keys[0]), keys.drop_first())
    }
}

/// `x["range"]["start"]["line"]` and its kin.
pub open spec fn range_field(x: Option<JsonValue>, end: Seq<char>, field: Seq<char>) -> Option<u64> {
    u64_of(fld(fld(fld(x, "range"@), end), field))
}

/// A URI with a leading `file://` taken off.
pub open spec fn strip_file_scheme(uri: Seq<char>) -> Seq<char> {
    if uri.len() >= 7 && uri.take(7) == "file://"@ {
        uri.skip(7)
    } else {
        uri
    }
}

fn strip_file_scheme_exec(uri: &Vec<char>) -> (r: Vec<char>)
    ensures
        r@ == strip_file_scheme(uri@),
{
    let p = str_chars("file://");
    proof {
        reveal_strlit("file://");
    }
    if starts_with_exec(uri, &p) {
        proof {
            assert(uri@.subrange(0, 7) =~= uri@.take(7));
        }
        let r = slice_chars(uri, 7, uri.len());
        proof {
            assert(r@ =~= uri@.skip(7));
        }
        r
    } else {
        proof {
            if uri@.len() >= 7 && uri@.take(7) == "file://"@ {
                assert(uri@.subrange(0, 7) =~= uri@.take(7));
            }
        }
        crate::text::copy_chars(uri)
    }
}

fn strip_file_string(uri: String) -> (r: String)
    ensures
        r@ == strip_file_scheme(uri@),
{
    chars_string(&strip_file_scheme_exec(&str_chars(uri.as_str())))
}

// ---- hover ----

/// The first item of a hover's content list with a non-empty text, either
/// the item itself or its `value`.
pub open spec fn first_hover_item(items: Seq<JsonValue>) -> Option<Seq<char>>
    decreases items.len(),
{
    if items.len() == 0 {
        None
    } else {
        let it = Some(items[0]);
        if str_of(it) is Some && str_of(it)->0.len() > 0 {
            str_of(it)
        } else if str_of(fld(it, "value"@)) is Some && str_of(fld(it, "value"@))->0.len() > 0 {
            str_of(fld(it, "value"@))
        } else {
            first_hover_item(items.drop_first())
        }
    }
}

/// The text of a hover response: `result.contents` when a string, its
/// `value` when that is a string, else the first non-empty entry of a list.
pub open spec fn hover_text(response: JsonValue) -> Option<Seq<char>> {
    let c = fld(fld(Some(response), "result"@), "contents"@);
    if str_of(c) is Some {
        str_of(c)
    } else if str_of(fld(c, "value"@)) is Some {
        str_of(fld(c, "value"@))
    } else {
        match items_of(c) {
            Some(items) => first_hover_item(items),
            None => None,
        }
    }
}

/// Parses a hover response into a display string.
pub fn parse_hover(response: &JsonValue) -> (r: Option<String>)
    ensures
        opt_text(r) == hover_text(*response),
{
    let c = fld_exec(fld_exec(Some(response), "result"), "contents");
    let s = str_exec(c);
    if s.is_some() {
        return s;
    }
    let v = str_exec(fld_exec(c, "value"));
    if v.is_some() {
        return v;
    }
    match items_exec(c) {
        Some(items) => {
            let mut i: usize = 0;
            proof {
                assert(items@.skip(0) =~= items@);
            }
            while i < items.len()
                invariant
                    i <= items@.len(),
                    hover_text(*response) == first_hover_item(items@.skip(i as int)),
                decreases items.len() - i,
            {
                proof {
                    assert(items@.skip(i as int).drop_first() =~= items@.skip(i + 1));
                    assert(items@.skip(i as int)[0] == items@[i as int]);
                }
                let it = Some(&items[i]);
                let s = str_exec(it);
                match s {
                    Some(t) => {
                        if nonempty(&t) {
                            return Some(t);
                        }
                    },
                    None => {},
                }
                let v = str_exec(fld_exec(it, "value"));
                match v {
                    Some(t) => {
                        if nonempty(&t) {
                            return Some(t);
                        }
                    },
                    None => {},
                }
                i += 1;
            }
            None
        },
        None => None,
    }
}

// ---- definition ----

/// The location a definition response points at: the first of a list, or
/// the result itself; its path (without `file://`) and start line.
pub open spec fn definition_of(response: JsonValue) -> Option<(Seq<char>, u32)> {
    let result = fld(Some(response), "result"@);
    let loc = match items_of(result) {
        Some(items) => if items.len() > 0 { Some(items[0]) } else { None },
        None => result,
    };
    match (str_of(fld(loc, "uri"@)), range_field(loc, "start"@, "line"@)) {
        (Some(uri), Some(line)) => Some((strip_file_scheme(uri), line as u32)),
        _ => None,
    }
}

/// Parses a definition response into a file path and line.
pub fn parse_definition(response: &JsonValue) -> (r: Option<(String, u32)>)
    ensures
        match r {
            Some((p, l)) => definition_of(*response) == Some((p@, l)),
            None => definition_of(*response) is None,
        },
{
    let result = fld_exec(Some(response), "result");
    let loc = match items_exec(result) {
        Some(items) => {
            if items.len() > 0 {
                Some(&items[0])
            } else {
                None
            }
        },
        None => result,
    };
    let uri = match str_exec(fld_exec(loc, "uri")) {
        Some(u) => u,
        None => return None,
    };
    let line = match u64_exec(fld_exec(fld_exec(fld_exec(loc, "range"), "start"), "line")) {
        Some(n) => n,
        None => return None,
    };
    Some((strip_file_string(uri), line as u32))
}

// ---- completions ----

/// The name of a completion item kind.
pub open spec fn completion_kind_name(k: u64) -> Seq<char> {
    if k == 1 {
        "Text"@
    } else if k == 2 {
        "Method"@
    } else if k == 3 {
        "Function"@
    } else if k == 4 {
        "Constructor"@
    } else if k == 5 {
        "Field"@
    } else if k == 6 {
        "Variable"@
    } else if k == 7 {
        "Class"@
    } else if k == 8 {
        "Interface"@
    } else if k == 9 {
        "Module"@
    } else if k == 10 {
        "Property"@
    } else if k == 14 {
        "Keyword"@
    } else if k == 15 {
        "Snippet"@
    } else {
        "Value"@
    }
}

fn completion_kind_str(k: u64) -> (s: &'static str)
    ensures
        s@ == completion_kind_name(k),
{
    if k == 1 {
        "Text"
    } else if k == 2 {
        "Method"
    } else if k == 3 {
        "Function"
    } else if k == 4 {
        "Constructor"
    } else if k == 5 {
        "Field"
    } else if k == 6 {
        "Variable"
    } else if k == 7 {
        "Class"
    } else if k == 8 {
        "Interface"
    } else if k == 9 {
        "Module"
    } else if k == 10 {
        "Property"
    } else if k == 14 {
        "Keyword"
    } else if k == 15 {
        "Snippet"
    } else {
        "Value"
    }
}

/// A completion item as texts: label, detail, kind, text to insert.
pub open spec fn completion_view(c: CompletionItem) -> (Seq<char>, Option<Seq<char>>, Seq<char>, Option<Seq<char>>) {
    (c.label@, opt_text(c.detail), c.kind@, opt_text(c.insert_text))
}

/// What a completion entry becomes: missing labels are empty, an unknown or
/// missing kind is `Value`.
pub open spec fn completion_of(item: JsonValue) -> (Seq<char>, Option<Seq<char>>, Seq<char>, Option<Seq<char>>) {
    let it = Some(item);
    (
        text_or_empty(str_of(fld(it, "label"@))),
        str_of(fld(it, "detail"@)),
        completion_kind_name(u64_or(u64_of(fld(it, "kind"@)), 0)),
        str_of(fld(it, "insertText"@)),
    )
}

/// The completion entries of a response: `result.items`, or `result` itself
/// when it has no `items` member.
pub open spec fn completion_entries(response: JsonValue) -> Seq<JsonValue> {
    let result = fld(Some(response), "result"@);
    let list = match fld(result, "items"@) {
        Some(x) => Some(x),
        None => result,
    };
    match items_of(list) {
        Some(items) => items,
        None => seq![],
    }
}

/// Completions are capped at this many.
pub const MAX_COMPLETIONS: usize = 50;

fn completion_exec(item: &JsonValue) -> (c: CompletionItem)
    ensures
        completion_view(c) == completion_of(*item),
{
    let it = Some(item);
    let label = string_or_empty(str_exec(fld_exec(it, "label")));
    let detail = str_exec(fld_exec(it, "detail"));
    let k = match u64_exec(fld_exec(it, "kind")) {
        Some(n) => n,
        None => 0,
    };
    let kind = owned(completion_kind_str(k));
    let insert_text = str_exec(fld_exec(it, "insertText"));
    CompletionItem { label, detail, kind, insert_text }
}

/// Parses a completion response into at most `MAX_COMPLETIONS` items, in order.
pub fn parse_completions(response: &JsonValue) -> (r: Vec<CompletionItem>)
    ensures
        r@.len() == (if completion_entries(*response).len() < MAX_COMPLETIONS {
            completion_entries(*response).len()
        } else {
            MAX_COMPLETIONS as nat
        }),
        forall|i: int| 0 <= i < r@.len() ==> completion_view(#[trigger] r@[i]) == completion_of(completion_entries(*response)[i]),
{
    let result = fld_exec(Some(response), "result");
    let list = match fld_exec(result, "items") {
        Some(x) => Some(x),
        None => result,
    };
    let mut out: Vec<CompletionItem> = Vec::new();
    match items_exec(list) {
        Some(items) => {
            let n = if items.len() < MAX_COMPLETIONS {
                items.len()
            } else {
                MAX_COMPLETIONS
            };
            let mut i: usize = 0;
            while i < n
                invariant
                    n <= items@.len(),
                    i <= n,
                    items@ == completion_entries(*response),
                    out@.len() == i,
                    forall|j: int| 0 <= j < i ==> completion_view(#[trigger] out@[j]) == completion_of(items@[j]),
                decreases n - i,
            {
                let c = completion_exec(&items[i]);
                out.push(c);
                i += 1;
            }
        },
        None => {},
    }
    out
}

// ---- document symbols ----

/// The name of a symbol kind.
pub open spec fn symbol_kind_name(k: u64) -> Seq<char> {
    if k == 1 {
        "File"@
    } else if k == 2 {
        "Module"@
    } else if k == 5 {
        "Class"@
    } else if k == 6 {
        "Method"@
    } else if k == 7 {
        "Property"@
    } else if k == 8 {
        "Field"@
    } else if k == 9 {
        "Constructor"@
    } else if k == 10 {
        "Enum"@
    } else if k == 11 {
        "Interface"@
    } else if k == 12 {
        "Function"@
    } else if k == 13 {
        "Variable"@
    } else if k == 14 {
        "Constant"@
    } else if k == 23 {
        "Struct"@
    } else if k == 26 {
        "TypeParameter"@
    } else {
        "Symbol"@
    }
}

fn symbol_kind_str(k: u64) -> (s: &'static str)
    ensures
        s@ == symbol_kind_name(k),
{
    if k == 1 {
        "File"
    } else if k == 2 {
        "Module"
    } else if k == 5 {
        "Class"
    } else if k == 6 {
        "Method"
    } else if k == 7 {
        "Property"
    } else if k == 8 {
        "Field"
    } else if k == 9 {
        "Constructor"
    } else if k == 10 {
        "Enum"
    } else if k == 11 {
        "Interface"
    } else if k == 12 {
        "Function"
    } else if k == 13 {
        "Variable"
    } else if k == 14 {
        "Constant"
    } else if k == 23 {
        "Struct"
    } else if k == 26 {
        "TypeParameter"
    } else {
        "Symbol"
    }
}

/// A document symbol as name, kind and line.
pub open spec fn symbol_view(s: DocumentSymbol) -> (Seq<char>, Seq<char>, u32) {
    (s.name@, s.kind@, s.line)
}

/// What a symbol entry becomes; its line is read from `range` (the
/// DocumentSymbol form) or else from `location.range` (SymbolInformation).
pub open spec fn symbol_of(item: JsonValue) -> (Seq<char>, Seq<char>, u32) {
    let it = Some(item);
    let line = match range_field(it, "start"@, "line"@) {
        Some(n) => n,
        None => u64_or(range_field(fld(it, "location"@), "start"@, "line"@), 0),
    };
    (text_or_empty(str_of(fld(it, "name"@))), symbol_kind_name(u64_or(u64_of(fld(it, "kind"@)), 0)), line as u32)
}

/// The symbols of entries, skipping those without a name.
pub open spec fn symbols_of(items: Seq<JsonValue>) -> Seq<(Seq<char>, Seq<char>, u32)>
    decreases items.len(),
{
    if items.len() == 0 {
        seq![]
    } else {
        let rest = symbols_of(items.drop_last());
        let s = symbol_of(items.last());
        if s.0.len() > 0 {
            rest.push(s)
        } else {
            rest
        }
    }
}

/// The entries of an array `result`, or none.
pub open spec fn result_items(response: JsonValue) -> Seq<JsonValue> {
    match items_of(fld(Some(response), "result"@)) {
        Some(items) => items,
        None => seq![],
    }
}

fn symbol_exec(item: &JsonValue) -> (s: DocumentSymbol)
    ensures
        symbol_view(s) == symbol_of(*item),
{
    let it = Some(item);
    let name = string_or_empty(str_exec(fld_exec(it, "name")));
    let k = match u64_exec(fld_exec(it, "kind")) {
        Some(n) => n,
        None => 0,
    };
    let kind = owned(symbol_kind_str(k));
    let line = match u64_exec(fld_exec(fld_exec(fld_exec(it, "range"), "start"), "line")) {
        Some(n) => n,
        None => match u64_exec(fld_exec(fld_exec(fld_exec(fld_exec(it, "location"), "range"), "start"), "line")) {
            Some(n) => n,
            None => 0,
        },
    };
    DocumentSymbol { name, kind, line: line as u32 }
}

/// Parses a documentSymbol response; entries without a name are skipped.
pub fn parse_document_symbols(response: &JsonValue) -> (r: Vec<DocumentSymbol>)
    ensures
        r@.map_values(|s: DocumentSymbol| symbol_view(s)) == symbols_of(result_items(*response)),
{
    let mut out: Vec<DocumentSymbol> = Vec::new();
    match items_exec(fld_exec(Some(response), "result")) {
        Some(items) => {
            let mut i: usize = 0;
            while i < items.len()
                invariant
                    i <= items@.len(),
                    items@ == result_items(*response),
                    out@.map_values(|s: DocumentSymbol| symbol_view(s)) == symbols_of(items@.take(i as int)),
                decreases items.len() - i,
            {
                proof {
                    assert(items@.take(i + 1).drop_last() =~= items@.take(i as int));
                    assert(items@.take(i + 1).last() == items@[i as int]);
                }
                let s = symbol_exec(&items[i]);
                if nonempty(&s.name) {
                    let ghost before = out@;
                    out.push(s);
                    proof {
                        assert(out@.map_values(|s: DocumentSymbol| symbol_view(s)) =~= before.map_values(
                            |s: DocumentSymbol| symbol_view(s),
                        ).push(symbol_view(s)));
                    }
                }
                i += 1;
            }
            proof {
                assert(items@.take(items@.len() as int) =~= items@);
            }
        },
        None => {},
    }
    out
}

// ---- references ----

/// What a reference entry becomes: its path (without `file://`) and line.
pub open spec fn reference_of(item: JsonValue) -> (Seq<char>, u32) {
    let it = Some(item);
    (strip_file_scheme(text_or_empty(str_of(fld(it, "uri"@)))), u64_or(range_field(it, "start"@, "line"@), 0) as u32)
}

/// Parses a references response into paths and lines, one per entry.
pub fn parse_references(response: &JsonValue) -> (r: Vec<(String, u32)>)
    ensures
        r@.len() == result_items(*response).len(),
        forall|i: int| 0 <= i < r@.len() ==> (r@[i].0@, r@[i].1) == reference_of(#[trigger] result_items(*response)[i]),
{
    let mut out: Vec<(String, u32)> = Vec::new();
    match items_exec(fld_exec(Some(response), "result")) {
        Some(items) => {
            let mut i: usize = 0;
            while i < items.len()
                invariant
                    i <= items@.len(),
                    items@ == result_items(*response),
                    out@.len() == i,
                    forall|j: int| 0 <= j < i ==> (out@[j].0@, out@[j].1) == reference_of(#[trigger] items@[j]),
                decreases items.len() - i,
            {
                let it = Some(&items[i]);
                let uri = string_or_empty(str_exec(fld_exec(it, "uri")));
                let line = match u64_exec(fld_exec(fld_exec(fld_exec(it, "range"), "start"), "line")) {
                    Some(n) => n,
                    None => 0,
                };
                out.push((strip_file_string(uri), line as u32));
                i += 1;
            }
        },
        None => {},
    }
    out
}

// ---- rename ----

/// What one text edit of a rename becomes: line, start and end columns, new text.
pub open spec fn rename_edit_of(edit: JsonValue) -> (u32, u32, u32, Seq<char>) {
    let e = Some(edit);
    (
        u64_or(range_field(e, "start"@, "line"@), 0) as u32,
        u64_or(range_field(e, "start"@, "character"@), 0) as u32,
        u64_or(range_field(e, "end"@, "character"@), 0) as u32,
        text_or_empty(str_of(fld(e, "newText"@))),
    )
}

/// The edits of a file's entry: those of an array, or none.
pub open spec fn rename_edits_of(v: JsonValue) -> Seq<(u32, u32, u32, Seq<char>)> {
    match items_of(Some(v)) {
        Some(items) => items.map_values(|e: JsonValue| rename_edit_of(e)),
        None => seq![],
    }
}

/// The `result.changes` object of a rename response, when it is one.
pub open spec fn rename_changes(response: JsonValue) -> Seq<(String, JsonValue)> {
    match entries_of(fld(fld(Some(response), "result"@), "changes"@)) {
        Some(es) => es,
        None => seq![],
    }
}

/// An edit as plain values.
pub open spec fn edit_view(e: (u32, u32, u32, String)) -> (u32, u32, u32, Seq<char>) {
    (e.0, e.1, e.2, e.3@)
}

fn rename_edits_exec(v: &JsonValue) -> (r: Vec<(u32, u32, u32, String)>)
    ensures
        r@.map_values(|e: (u32, u32, u32, String)| edit_view(e)) == rename_edits_of(*v),
{
    let mut out: Vec<(u32, u32, u32, String)> = Vec::new();
    match items_exec(Some(v)) {
        Some(items) => {
            let mut i: usize = 0;
            while i < items.len()
                invariant
                    i <= items@.len(),
                    items_of(Some(*v)) == Some(items@),
                    out@.map_values(|e: (u32, u32, u32, String)| edit_view(e)) == items@.take(i as int).map_values(
                        |e: JsonValue| rename_edit_of(e),
                    ),
                decreases items.len() - i,
            {
                let e = Some(&items[i]);
                let line = match u64_exec(fld_exec(fld_exec(fld_exec(e, "range"), "start"), "line")) {
                    Some(n) => n,
                    None => 0,
                };
                let start_col = match u64_exec(fld_exec(fld_exec(fld_exec(e, "range"), "start"), "character")) {
                    Some(n) => n,
                    None => 0,
                };
                let end_col = match u64_exec(fld_exec(fld_exec(fld_exec(e, "range"), "end"), "character")) {
                    Some(n) => n,
                    None => 0,
                };
                let new_text = string_or_empty(str_exec(fld_exec(e, "newText")));
                let ghost before = out@;
                let x = (line as u32, start_col as u32, end_col as u32, new_text);
                out.push(x);
                proof {
                    assert(out@.map_values(|e: (u32, u32, u32, String)| edit_view(e)) =~= before.map_values(
                        |e: (u32, u32, u32, String)| edit_view(e),
                    ).push(edit_view(x)));
                    assert(items@.take(i + 1).map_values(|e: JsonValue| rename_edit_of(e)) =~= items@.take(
                        i as int,
                    ).map_values(|e: JsonValue| rename_edit_of(e)).push(rename_edit_of(items@[i as int])));
                }
                i += 1;
            }
            proof {
                assert(items@.take(items@.len() as int) =~= items@);
            }
        },
        None => {},
    }
    out
}

/// Parses a rename response into, per changed file (in the order of the
/// `changes` object), its path without `file://` and its edits.
pub fn apply_rename(response: &JsonValue) -> (r: Vec<(String, Vec<(u32, u32, u32, String)>)>)
    ensures
        r@.len() == rename_changes(*response).len(),
        forall|i: int|
            0 <= i < r@.len() ==> {
                &&& (#[trigger] r@[i]).0@ == strip_file_scheme(rename_changes(*response)[i].0@)
                &&& r@[i].1@.map_values(|e: (u32, u32, u32, String)| edit_view(e)) == rename_edits_of(
                    rename_changes(*response)[i].1,
                )
            },
{
    let mut out: Vec<(String, Vec<(u32, u32, u32, String)>)> = Vec::new();
    match entries_exec(fld_exec(fld_exec(Some(response), "result"), "changes")) {
        Some(es) => {
            let mut i: usize = 0;
            while i < es.len()
                invariant
                    i <= es@.len(),
                    es@ == rename_changes(*response),
                    out@.len() == i,
                    forall|j: int|
                        0 <= j < i ==> {
                            &&& (#[trigger] out@[j]).0@ == strip_file_scheme(es@[j].0@)
                            &&& out@[j].1@.map_values(|e: (u32, u32, u32, String)| edit_view(e)) == rename_edits_of(
                                es@[j].1,
                            )
                        },
                decreases es.len() - i,
            {
                let path = strip_file_string(crate::text::copy_string(&es[i].0));
                let edits = rename_edits_exec(&es[i].1);
                out.push((path, edits));
                i += 1;
            }
        },
        None => {},
    }
    out
}

// ---- code actions ----

/// A code action as texts: title, kind, command.
pub open spec fn action_view(a: CodeAction) -> (Seq<char>, Option<Seq<char>>, Option<Seq<char>>) {
    (a.title@, opt_text(a.kind), opt_text(a.command))
}

/// What a code action entry becomes; its command is `command.command`, or
/// `command` itself when that is a string.
pub open spec fn action_of(item: JsonValue) -> (Seq<char>, Option<Seq<char>>, Option<Seq<char>>) {
    let it = Some(item);
    let command = match str_of(fld(fld(it, "command"@), "command"@)) {
        Some(c) => Some(c),
        None => str_of(fld(it, "command"@)),
    };
    (text_or_empty(str_of(fld(it, "title"@))), str_of(fld(it, "kind"@)), command)
}

/// The actions of entries, skipping those without a title.
pub open spec fn actions_of(items: Seq<JsonValue>) -> Seq<(Seq<char>, Option<Seq<char>>, Option<Seq<char>>)>
    decreases items.len(),
{
    if items.len() == 0 {
        seq![]
    } else {
        let rest = actions_of(items.drop_last());
        let a = action_of(items.last());
        if a.0.len() > 0 {
            rest.push(a)
        } else {
            rest
        }
    }
}

fn action_exec(item: &JsonValue) -> (a: CodeAction)
    ensures
        action_view(a) == action_of(*item),
{
    let it = Some(item);
    let title = string_or_empty(str_exec(fld_exec(it, "title")));
    let kind = str_exec(fld_exec(it, "kind"));
    let command = match str_exec(fld_exec(fld_exec(it, "command"), "command")) {
        Some(c) => Some(c),
        None => str_exec(fld_exec(it, "command")),
    };
    CodeAction { title, kind, command }
}

/// Parses a codeAction response; entries without a title are skipped.
pub fn parse_code_actions(response: &JsonValue) -> (r: Vec<CodeAction>)
    ensures
        r@.map_values(|a: CodeAction| action_view(a)) == actions_of(result_items(*response)),
{
    let mut out: Vec<CodeAction> = Vec::new();
    match items_exec(fld_exec(Some(response), "result")) {
        Some(items) => {
            let mut i: usize = 0;
            while i < items.len()
                invariant
                    i <= items@.len(),
                    items@ == result_items(*response),
                    out@.map_values(|a: CodeAction| action_view(a)) == actions_of(items@.take(i as int)),
                decreases items.len() - i,
            {
                proof {
                    assert(items@.take(i + 1).drop_last() =~= items@.take(i as int));
                    assert(items@.take(i + 1).last() == items@[i as int]);
                }
                let a = action_exec(&items[i]);
                if nonempty(&a.title) {
                    let ghost before = out@;
                    out.push(a);
                    proof {
                        assert(out@.map_values(|a: CodeAction| action_view(a)) =~= before.map_values(
                            |a: CodeAction| action_view(a),
                        ).push(action_view(a)));
                    }
                }
                i += 1;
            }
            proof {
                assert(items@.take(items@.len() as int) =~= items@);
            }
        },
        None => {},
    }
    out
}

// ---- formatting edits ----

/// What a formatting edit becomes: start line and column, end line and
/// column, new text; nothing when any of them is missing.
pub open spec fn text_edit_of(edit: JsonValue) -> Option<(u32, u32, u32, u32, Seq<char>)> {
    let e = Some(edit);
    let range = fld(e, "range"@);
    let start = fld(range, "start"@);
    let end = fld(range, "end"@);
    if start is None || end is None {
        None
    } else {
        match (
            str_of(fld(e, "newText"@)),
            u64_of(fld(start, "line"@)),
            u64_of(fld(start, "character"@)),
            u64_of(fld(end, "line"@)),
            u64_of(fld(end, "character"@)),
        ) {
            (Some(t), Some(a), Some(b), Some(c), Some(d)) => Some((a as u32, b as u32, c as u32, d as u32, t)),
            _ => None,
        }
    }
}

/// The edits of entries, skipping those that are not complete.
pub open spec fn text_edits_of(items: Seq<JsonValue>) -> Seq<(u32, u32, u32, u32, Seq<char>)>
    decreases items.len(),
{
    if items.len() == 0 {
        seq![]
    } else {
        let rest = text_edits_of(items.drop_last());
        match text_edit_of(items.last()) {
            Some(e) => rest.push(e),
            None => rest,
        }
    }
}

/// A formatting edit as plain values.
pub open spec fn text_edit_view(e: (u32, u32, u32, u32, String)) -> (u32, u32, u32, u32, Seq<char>) {
    (e.0, e.1, e.2, e.3, e.4@)
}

fn text_edit_exec(edit: &JsonValue) -> (r: Option<(u32, u32, u32, u32, String)>)
    ensures
        match r {
            Some(x) => text_edit_of(*edit) == Some(text_edit_view(x)),
            None => text_edit_of(*edit) is None,
        },
{
    let e = Some(edit);
    let range = fld_exec(e, "range");
    let start = fld_exec(range, "start");
    let end = fld_exec(range, "end");
    if start.is_none() || end.is_none() {
        return None;
    }
    let t = match str_exec(fld_exec(e, "newText")) {
        Some(t) => t,
        None => return None,
    };
    let a = match u64_exec(fld_exec(start, "line")) {
        Some(n) => n,
        None => return None,
    };
    let b = match u64_exec(fld_exec(start, "character")) {
        Some(n) => n,
        None => return None,
    };
    let c = match u64_exec(fld_exec(end, "line")) {
        Some(n) => n,
        None => return None,
    };
    let d = match u64_exec(fld_exec(end, "character")) {
        Some(n) => n,
        None => return None,
    };
    Some((a as u32, b as u32, c as u32, d as u32, t))
}

/// Parses a formatting response into edits; incomplete entries are skipped.
pub fn parse_text_edits(response: &JsonValue) -> (r: Vec<(u32, u32, u32, u32, String)>)
    ensures
        r@.map_values(|e: (u32, u32, u32, u32, String)| text_edit_view(e)) == text_edits_of(result_items(*response)),
{
    let mut out: Vec<(u32, u32, u32, u32, String)> = Vec::new();
    match items_exec(fld_exec(Some(response), "result")) {
        Some(items) => {
            let mut i: usize = 0;
            while i < items.len()
                invariant
                    i <= items@.len(),
                    items@ == result_items(*response),
                    out@.map_values(|e: (u32, u32, u32, u32, String)| text_edit_view(e)) == text_edits_of(
                        items@.take(i as int),
                    ),
                decreases items.len() - i,
            {
                proof {
                    assert(items@.take(i + 1).drop_last() =~= items@.take(i as int));
                    assert(items@.take(i + 1).last() == items@[i as int]);
                }
                match text_edit_exec(&items[i]) {
                    Some(x) => {
                        let ghost before = out@;
                        out.push(x);
                        proof {
                            assert(out@.map_values(|e: (u32, u32, u32, u32, String)| text_edit_view(e)) =~= before.map_values(
                                |e: (u32, u32, u32, u32, String)| text_edit_view(e),
                            ).push(text_edit_view(x)));
                        }
                    },
                    None => {},
                }
                i += 1;
            }
            proof {
                assert(items@.take(items@.len() as int) =~= items@);
            }
        },
        None => {},
    }
    out
}

// ---- signature help ----

/// The display text of a signature help response: the first signature's
/// label, followed by ` [active: <parameter>]` when the active parameter
/// (of the response, else of the signature) has a non-empty label.
pub open spec fn signature_text(response: JsonValue) -> Option<Seq<char>> {
    let result = fld(Some(response), "result"@);
    match items_of(fld(result, "signatures"@)) {
        Some(sigs) => if sigs.len() == 0 {
            None
        } else {
            let sig = Some(sigs[0]);
            match str_of(fld(sig, "label"@)) {
                Some(label) => if label.len() == 0 {
                    None
                } else {
                    let active = match u64_of(fld(result, "activeParameter"@)) {
                        Some(n) => Some(n),
                        None => u64_of(fld(sig, "activeParameter"@)),
                    };
                    let param = match (active, items_of(fld(sig, "parameters"@))) {
                        (Some(k), Some(ps)) => if k < ps.len() {
                            text_or_empty(str_of(fld(Some(ps[k as int]), "label"@)))
                        } else {
                            seq![]
                        },
                        _ => seq![],
                    };
                    if param.len() > 0 {
                        Some(label + " [active: "@ + param + "]"@)
                    } else {
                        Some(label)
                    }
                },
                None => None,
            }
        },
        None => None,
    }
}

/// Parses a signatureHelp response into a display string.
pub fn parse_signature_help(response: &JsonValue) -> (r: Option<String>)
    ensures
        opt_text(r) == signature_text(*response),
{
    let result = fld_exec(Some(response), "result");
    let sigs = match items_exec(fld_exec(result, "signatures")) {
        Some(s) => s,
        None => return None,
    };
    if sigs.len() == 0 {
        return None;
    }
    let sig = Some(&sigs[0]);
    let label = match str_exec(fld_exec(sig, "label")) {
        Some(l) => l,
        None => return None,
    };
    if !nonempty(&label) {
        return None;
    }
    let active = match u64_exec(fld_exec(result, "activeParameter")) {
        Some(n) => Some(n),
        None => u64_exec(fld_exec(sig, "activeParameter")),
    };
    let mut param = String::new();
    match (active, items_exec(fld_exec(sig, "parameters"))) {
        (Some(k), Some(ps)) => {
            if k < ps.len() as u64 {
                param = string_or_empty(str_exec(fld_exec(Some(&ps[k as usize]), "label")));
            }
        },
        _ => {},
    }
    if nonempty(&param) {
        let mut v = str_chars(label.as_str());
        append_chars(&mut v, &str_chars(" [active: "));
        append_chars(&mut v, &str_chars(param.as_str()));
        append_chars(&mut v, &str_chars("]"));
        Some(chars_string(&v))
    } else {
        Some(label)
    }
}

// ---- diagnostics ----

/// The severity a diagnostic's number stands for; a missing one is an error.
pub open spec fn severity_of(n: u64) -> DiagSeverity {
    if n == 1 {
        DiagSeverity::Error
    } else if n == 2 {
        DiagSeverity::Warning
    } else if n == 3 {
        DiagSeverity::Info
    } else {
        DiagSeverity::Hint
    }
}

/// A diagnostic as plain values: message, line, column, end column, severity.
pub open spec fn diagnostic_view(d: Diagnostic) -> (Seq<char>, u32, u32, u32, DiagSeverity) {
    (d.message@, d.line, d.col, d.end_col, d.severity)
}

/// What a published diagnostic becomes.
pub open spec fn diagnostic_of(item: JsonValue) -> (Seq<char>, u32, u32, u32, DiagSeverity) {
    let d = Some(item);
    (
        text_or_empty(str_of(fld(d, "message"@))),
        u64_or(range_field(d, "start"@, "line"@), 0) as u32,
        u64_or(range_field(d, "start"@, "character"@), 0) as u32,
        u64_or(range_field(d, "end"@, "character"@), 0) as u32,
        severity_of(u64_or(u64_of(fld(d, "severity"@)), 1)),
    )
}

/// The diagnostics entries of a publishDiagnostics notification.
pub open spec fn published_entries(msg: JsonValue) -> Seq<JsonValue> {
    match items_of(fld(fld(Some(msg), "params"@), "diagnostics"@)) {
        Some(items) => items,
        None => seq![],
    }
}

fn diagnostic_exec(item: &JsonValue) -> (r: Diagnostic)
    ensures
        diagnostic_view(r) == diagnostic_of(*item),
{
    let d = Some(item);
    let message = string_or_empty(str_exec(fld_exec(d, "message")));
    let line = match u64_exec(fld_exec(fld_exec(fld_exec(d, "range"), "start"), "line")) {
        Some(n) => n,
        None => 0,
    };
    let col = match u64_exec(fld_exec(fld_exec(fld_exec(d, "range"), "start"), "character")) {
        Some(n) => n,
        None => 0,
    };
    let end_col = match u64_exec(fld_exec(fld_exec(fld_exec(d, "range"), "end"), "character")) {
        Some(n) => n,
        None => 0,
    };
    let sev = match u64_exec(fld_exec(d, "severity")) {
        Some(n) => n,
        None => 1,
    };
    let severity = if sev == 1 {
        DiagSeverity::Error
    } else if sev == 2 {
        DiagSeverity::Warning
    } else if sev == 3 {
        DiagSeverity::Info
    } else {
        DiagSeverity::Hint
    };
    Diagnostic { message, line: line as u32, col: col as u32, end_col: end_col as u32, severity }
}

/// Reads a publishDiagnostics notification: the document's URI and its
/// diagnostics, which replace what was kept for that URI.
pub fn diagnostics_from_msg(msg: &JsonValue) -> (r: (String, Vec<Diagnostic>))
    ensures
        r.0@ == text_or_empty(str_of(fld(fld(Some(*msg), "params"@), "uri"@))),
        r.1@.len() == published_entries(*msg).len(),
        forall|i: int| 0 <= i < r.1@.len() ==> diagnostic_view(#[trigger] r.1@[i]) == diagnostic_of(published_entries(*msg)[i]),
{
    let params = fld_exec(Some(msg), "params");
    let uri = string_or_empty(str_exec(fld_exec(params, "uri")));
    let mut out: Vec<Diagnostic> = Vec::new();
    match items_exec(fld_exec(params, "diagnostics")) {
        Some(items) => {
            let mut i: usize = 0;
            while i < items.len()
                invariant
                    i <= items@.len(),
                    items@ == published_entries(*msg),
                    out@.len() == i,
                    forall|j: int| 0 <= j < i ==> diagnostic_view(#[trigger] out@[j]) == diagnostic_of(items@[j]),
                decreases items.len() - i,
            {
                let d = diagnostic_exec(&items[i]);
                out.push(d);
                i += 1;
            }
        },
        None => {},
    }
    (uri, out)
}

// ---- incoming messages ----

/// What a message from the server is to the client: the response to request
/// `id`, a diagnostics notification, or something it does not act on.
#[derive(Clone, Copy, Debug, PartialEq, Eq, Structural)]
pub enum ServerMessage {
    Response(u64),
    Diagnostics,
    Other,
}

/// How a message is handled: one with a numeric `id` is a response; else
/// a `textDocument/publishDiagnostics` notification carries diagnostics.
pub open spec fn message_kind(msg: JsonValue) -> ServerMessage {
    match u64_of(fld(Some(msg), "id"@)) {
        Some(id) => ServerMessage::Response(id),
        None => if str_of(fld(Some(msg), "method"@)) == Some("textDocument/publishDiagnostics"@) {
            ServerMessage::Diagnostics
        } else {
            ServerMessage::Other
        },
    }
}

/// Sorts a message from the server (see `message_kind`).
pub fn classify_message(msg: &JsonValue) -> (r: ServerMessage)
    ensures
        r == message_kind(*msg),
{
    match u64_exec(fld_exec(Some(msg), "id")) {
        Some(id) => ServerMessage::Response(id),
        None => match str_exec(fld_exec(Some(msg), "method")) {
            Some(m) => {
                let expected = str_chars("textDocument/publishDiagnostics");
                if crate::text::chars_eq(&str_chars(m.as_str()), &expected) {
                    ServerMessage::Diagnostics
                } else {
                    ServerMessage::Other
                }
            },
            None => ServerMessage::Other,
        },
    }
}

} // verus!
