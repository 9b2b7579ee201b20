use writing_unicorns::lsp::edits::{apply_line_edits, messages_on_line};
use writing_unicorns::lsp::client::Diagnostic;
use writing_unicorns::lsp::client::DiagSeverity;
use writing_unicorns::lsp::json::JsonValue;
use writing_unicorns::lsp::response::{
    apply_rename, classify_message, diagnostics_from_msg, ServerMessage, parse_code_actions, parse_completions, parse_definition,
    parse_document_symbols, parse_hover, parse_references, parse_signature_help, parse_text_edits,
};

fn s(t: &str) -> JsonValue {
    JsonValue::Str(t.to_string())
}

fn n(v: u64) -> JsonValue {
    JsonValue::Number(Some(v), i64::try_from(v).ok())
}

fn obj(entries: Vec<(&str, JsonValue)>) -> JsonValue {
    JsonValue::Object(entries.into_iter().map(|(k, v)| (k.to_string(), v)).collect())
}

fn pos(line: u64, ch: u64) -> JsonValue {
    obj(vec![("line", n(line)), ("character", n(ch))])
}

fn range(l1: u64, c1: u64, l2: u64, c2: u64) -> JsonValue {
    obj(vec![("start", pos(l1, c1)), ("end", pos(l2, c2))])
}

fn response(result: JsonValue) -> JsonValue {
    obj(vec![("id", n(1)), ("result", result)])
}

#[test]
fn hover_plain_string_contents() {
    let r = response(obj(vec![("contents", s("fn main()"))]));
    assert_eq!(parse_hover(&r), Some("fn main()".to_string()));
}

#[test]
fn hover_markup_object_contents() {
    let r = response(obj(vec![("contents", obj(vec![("kind", s("markdown")), ("value", s("**x**"))]))]));
    assert_eq!(parse_hover(&r), Some("**x**".to_string()));
}

#[test]
fn hover_list_skips_empty_entries() {
    let r = response(obj(vec![(
        "contents",
        JsonValue::Array(vec![s(""), obj(vec![("value", s(""))]), obj(vec![("language", s("rust")), ("value", s("i32"))])]),
    )]));
    assert_eq!(parse_hover(&r), Some("i32".to_string()));
}

#[test]
fn hover_missing_result_is_none() {
    let r = obj(vec![("id", n(1)), ("result", JsonValue::Null)]);
    assert_eq!(parse_hover(&r), None);
}

#[test]
fn definition_from_location_list_strips_scheme() {
    let loc = obj(vec![("uri", s("file:///src/main.rs")), ("range", range(41, 3, 41, 9))]);
    let r = response(JsonValue::Array(vec![loc]));
    assert_eq!(parse_definition(&r), Some(("/src/main.rs".to_string(), 41)));
}

#[test]
fn definition_without_line_is_none() {
    let loc = obj(vec![("uri", s("file:///a.rs"))]);
    assert_eq!(parse_definition(&response(loc)), None);
    assert_eq!(parse_definition(&response(JsonValue::Array(vec![]))), None);
}

#[test]
fn completions_read_items_and_kinds() {
    let item1 = obj(vec![("label", s("push")), ("kind", n(2)), ("detail", s("fn push(&mut self)"))]);
    let item2 = obj(vec![("label", s("len")), ("kind", n(99)), ("insertText", s("len()"))]);
    let r = response(obj(vec![("isIncomplete", JsonValue::Bool(false)), ("items", JsonValue::Array(vec![item1, item2]))]));
    let c = parse_completions(&r);
    assert_eq!(c.len(), 2);
    assert_eq!(c[0].label, "push");
    assert_eq!(c[0].kind, "Method");
    assert_eq!(c[0].detail.as_deref(), Some("fn push(&mut self)"));
    assert_eq!(c[1].kind, "Value");
    assert_eq!(c[1].insert_text.as_deref(), Some("len()"));
}

#[test]
fn completions_are_capped_at_fifty() {
    let items: Vec<JsonValue> = (0..60).map(|i| obj(vec![("label", s(&format!("item{i}")))])).collect();
    let c = parse_completions(&response(JsonValue::Array(items)));
    assert_eq!(c.len(), 50);
    assert_eq!(c[49].label, "item49");
    assert_eq!(c[0].kind, "Value");
}

#[test]
fn document_symbols_skip_unnamed_and_read_both_forms() {
    let a = obj(vec![("name", s("main")), ("kind", n(12)), ("range", range(3, 0, 9, 1))]);
    let b = obj(vec![("name", s("")), ("kind", n(5))]);
    let c = obj(vec![("name", s("Point")), ("kind", n(23)), ("location", obj(vec![("range", range(12, 0, 15, 1))]))]);
    let syms = parse_document_symbols(&response(JsonValue::Array(vec![a, b, c])));
    assert_eq!(syms.len(), 2);
    assert_eq!((syms[0].name.as_str(), syms[0].kind.as_str(), syms[0].line), ("main", "Function", 3));
    assert_eq!((syms[1].name.as_str(), syms[1].kind.as_str(), syms[1].line), ("Point", "Struct", 12));
}

#[test]
fn references_map_every_entry() {
    let a = obj(vec![("uri", s("file:///x.rs")), ("range", range(7, 1, 7, 4))]);
    let b = obj(vec![("uri", s("untitled:y")), ("range", range(2, 0, 2, 3))]);
    let refs = parse_references(&response(JsonValue::Array(vec![a, b])));
    assert_eq!(refs, vec![("/x.rs".to_string(), 7), ("untitled:y".to_string(), 2)]);
    assert!(parse_references(&response(JsonValue::Null)).is_empty());
}

#[test]
fn rename_edits_per_file() {
    let edit = obj(vec![("range", range(4, 8, 4, 11)), ("newText", s("total"))]);
    let changes = obj(vec![("file:///lib.rs", JsonValue::Array(vec![edit])), ("file:///main.rs", JsonValue::Null)]);
    let out = apply_rename(&response(obj(vec![("changes", changes)])));
    assert_eq!(out.len(), 2);
    assert_eq!(out[0].0, "/lib.rs");
    assert_eq!(out[0].1, vec![(4, 8, 11, "total".to_string())]);
    assert_eq!(out[1].0, "/main.rs");
    assert!(out[1].1.is_empty());
}

#[test]
fn code_actions_take_nested_or_plain_command() {
    let a = obj(vec![("title", s("Import")), ("kind", s("quickfix")), ("command", obj(vec![("command", s("rust.import"))]))]);
    let b = obj(vec![("title", s("")), ("command", s("ignored"))]);
    let c = obj(vec![("title", s("Run")), ("command", s("run.it"))]);
    let acts = parse_code_actions(&response(JsonValue::Array(vec![a, b, c])));
    assert_eq!(acts.len(), 2);
    assert_eq!(acts[0].title, "Import");
    assert_eq!(acts[0].kind.as_deref(), Some("quickfix"));
    assert_eq!(acts[0].command.as_deref(), Some("rust.import"));
    assert_eq!(acts[1].kind, None);
    assert_eq!(acts[1].command.as_deref(), Some("run.it"));
}

#[test]
fn text_edits_skip_incomplete_entries() {
    let good = obj(vec![("range", range(0, 0, 1, 2)), ("newText", s("  "))]);
    let no_text = obj(vec![("range", range(3, 0, 3, 1))]);
    let edits = parse_text_edits(&response(JsonValue::Array(vec![good, no_text])));
    assert_eq!(edits, vec![(0, 0, 1, 2, "  ".to_string())]);
}

#[test]
fn signature_help_marks_active_parameter() {
    let sig = obj(vec![
        ("label", s("fn add(a: i32, b: i32)")),
        ("parameters", JsonValue::Array(vec![obj(vec![("label", s("a: i32"))]), obj(vec![("label", s("b: i32"))])])),
    ]);
    let r = response(obj(vec![("signatures", JsonValue::Array(vec![sig])), ("activeParameter", n(1))]));
    assert_eq!(parse_signature_help(&r), Some("fn add(a: i32, b: i32) [active: b: i32]".to_string()));
}

#[test]
fn signature_help_without_parameter_is_the_label() {
    let sig = obj(vec![("label", s("fn f()")), ("activeParameter", n(3))]);
    let r = response(obj(vec![("signatures", JsonValue::Array(vec![sig]))]));
    assert_eq!(parse_signature_help(&r), Some("fn f()".to_string()));
    let empty = obj(vec![("label", s(""))]);
    assert_eq!(parse_signature_help(&response(obj(vec![("signatures", JsonValue::Array(vec![empty]))]))), None);
}

#[test]
fn published_diagnostics_with_severities() {
    let d1 = obj(vec![("message", s("unused")), ("severity", n(2)), ("range", range(5, 4, 5, 9))]);
    let d2 = obj(vec![("message", s("boom")), ("range", range(1, 0, 1, 1))]);
    let d3 = obj(vec![("message", s("hint")), ("severity", n(4))]);
    let msg = obj(vec![
        ("method", s("textDocument/publishDiagnostics")),
        ("params", obj(vec![("uri", s("file:///m.rs")), ("diagnostics", JsonValue::Array(vec![d1, d2, d3]))])),
    ]);
    let (uri, diags) = diagnostics_from_msg(&msg);
    assert_eq!(uri, "file:///m.rs");
    assert_eq!(diags.len(), 3);
    assert_eq!((diags[0].line, diags[0].col, diags[0].end_col), (5, 4, 9));
    assert_eq!(diags[0].severity, DiagSeverity::Warning);
    assert_eq!(diags[1].severity, DiagSeverity::Error);
    assert_eq!(diags[2].severity, DiagSeverity::Hint);
    assert_eq!(diags[2].line, 0);
}

#[test]
fn rename_edits_apply_back_to_front() {
    let content = "let total = a + a;\nprint(a)";
    let edits = vec![(0, 12, 13, "bb".to_string()), (0, 16, 17, "bb".to_string()), (1, 6, 7, "bb".to_string())];
    assert_eq!(apply_line_edits(content, &edits), "let total = bb + bb;\nprint(bb)");
    // Columns past the end are kept within the line; edits past the last line do nothing.
    let edits2 = vec![(0, 40, 50, "!".to_string()), (9, 0, 1, "x".to_string())];
    assert_eq!(apply_line_edits("ab\n", &edits2), "ab!");
}

#[test]
fn diagnostic_messages_of_a_line() {
    let d = |line: u32, m: &str| Diagnostic { message: m.to_string(), line, col: 0, end_col: 1, severity: DiagSeverity::Error };
    let diags = vec![d(3, "first"), d(1, "other"), d(3, "second")];
    assert_eq!(messages_on_line(&diags, 3), vec!["first".to_string(), "second".to_string()]);
    assert!(messages_on_line(&diags, 0).is_empty());
}

#[test]
fn server_messages_are_sorted() {
    use_classify();
}

fn use_classify() {
    let resp = obj(vec![("jsonrpc", s("2.0")), ("id", n(7)), ("result", JsonValue::Null)]);
    assert_eq!(classify_message(&resp), ServerMessage::Response(7));
    let diag = obj(vec![("method", s("textDocument/publishDiagnostics")), ("params", obj(vec![]))]);
    assert_eq!(classify_message(&diag), ServerMessage::Diagnostics);
    let log = obj(vec![("method", s("window/logMessage"))]);
    assert_eq!(classify_message(&log), ServerMessage::Other);
    let string_id = obj(vec![("id", s("abc")), ("method", s("textDocument/publishDiagnostics"))]);
    assert_eq!(classify_message(&string_id), ServerMessage::Diagnostics);
}
