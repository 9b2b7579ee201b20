use writing_unicorns::lsp::client::{DiagSeverity, LspClient};
use writing_unicorns::lsp::json::JsonValue;
use writing_unicorns::lsp::manager::LspManager;

fn s(x: &str) -> String {
    x.to_string()
}

fn obj(es: Vec<(&str, JsonValue)>) -> JsonValue {
    JsonValue::Object(es.into_iter().map(|(k, v)| (s(k), v)).collect())
}

fn num(n: u64) -> JsonValue {
    JsonValue::Number(Some(n), i64::try_from(n).ok())
}

fn text(t: &str) -> JsonValue {
    JsonValue::Str(s(t))
}

fn published(uri: &str, diags: Vec<JsonValue>) -> JsonValue {
    obj(vec![
        ("method", text("textDocument/publishDiagnostics")),
        ("params", obj(vec![("uri", text(uri)), ("diagnostics", JsonValue::Array(diags))])),
    ])
}

fn diagnostic(message: &str, severity: u64, line: u64, col: u64, end: u64) -> JsonValue {
    obj(vec![
        ("message", text(message)),
        ("severity", num(severity)),
        (
            "range",
            obj(vec![
                ("start", obj(vec![("line", num(line)), ("character", num(col))])),
                ("end", obj(vec![("line", num(line)), ("character", num(end))])),
            ]),
        ),
    ])
}

fn connected_client() -> LspClient {
    let mut c = LspClient::new();
    c.set_restart_command("rust-analyzer", &vec![], "/w");
    c.server_started(true);
    c
}

#[test]
fn request_ids_count_up_while_a_server_runs() {
    let mut c = LspClient::new();
    assert!(!c.has_server());
    assert_eq!(c.next_request_id(), 0);
    c.server_started(false);
    assert!(c.has_server());
    assert!(!c.is_connected);
    assert_eq!(c.next_request_id(), 2);
    assert_eq!(c.next_request_id(), 3);
    let c = connected_client();
    assert!(c.is_connected);
}

#[test]
fn poll_hands_back_responses_and_keeps_diagnostics() {
    let mut c = connected_client();
    let msgs = vec![
        obj(vec![("id", num(2)), ("result", JsonValue::Null)]),
        published("file:///a.rs", vec![diagnostic("bad", 2, 3, 1, 4), diagnostic("worse", 1, 7, 0, 2)]),
        obj(vec![("method", text("window/logMessage"))]),
        published("file:///b.rs", vec![diagnostic("note", 4, 0, 0, 1)]),
    ];
    let responses = c.poll(msgs, true, 10);
    let ids: Vec<u64> = responses.iter().map(|(id, _)| *id).collect();
    assert_eq!(ids, vec![2]);
    let a = c.get_diagnostics("file:///a.rs");
    assert_eq!(a.len(), 2);
    assert_eq!((a[0].message.as_str(), a[0].line, a[0].col, a[0].end_col), ("bad", 3, 1, 4));
    assert_eq!(a[0].severity, DiagSeverity::Warning);
    assert_eq!(a[1].severity, DiagSeverity::Error);
    assert_eq!(c.get_diagnostics("file:///b.rs")[0].severity, DiagSeverity::Hint);
    assert!(c.get_diagnostics("file:///c.rs").is_empty());

    // A new publication replaces the document's list only.
    c.poll(vec![published("file:///a.rs", vec![])], true, 11);
    assert!(c.get_diagnostics("file:///a.rs").is_empty());
    assert_eq!(c.get_diagnostics("file:///b.rs").len(), 1);
    assert!(c.is_connected);
}

#[test]
fn poll_without_server_does_nothing() {
    let mut c = LspClient::new();
    let r = c.poll(vec![obj(vec![("id", num(1))])], false, 5);
    assert!(r.is_empty());
    assert!(c.crashed_at.is_none());
}

#[test]
fn crashed_server_restarts_after_back_off() {
    let mut c = connected_client();
    c.poll(vec![], false, 100);
    assert!(!c.is_connected);
    assert_eq!(c.crashed_at, Some(100));
    assert!(!c.restart_due(101));
    assert!(c.restart_due(102));
    assert_eq!(c.restart_attempts, 1);
    assert!(c.reconnecting);
    assert!(!c.restart_due(500));
    c.reconnected();
    assert!(c.is_connected);
    assert_eq!(c.restart_attempts, 0);
    assert_eq!(c.crashed_at, None);
    assert_eq!(c.next_request_id(), 2);
}

#[test]
fn back_off_doubles_up_to_thirty_seconds() {
    let mut c = LspClient::new();
    c.set_restart_command("srv", &vec![s("--stdio")], "/w");
    c.crashed_at = Some(0);
    c.restart_attempts = 3;
    assert!(!c.restart_due(15));
    assert!(c.restart_due(16));
    let mut d = LspClient::new();
    d.set_restart_command("srv", &vec![], "/w");
    d.crashed_at = Some(0);
    d.restart_attempts = 9;
    assert!(!d.restart_due(29));
    assert!(d.restart_due(30));
    let mut e = LspClient::new();
    e.crashed_at = Some(0);
    assert!(!e.restart_due(1000));
}

#[test]
fn one_client_per_extension() {
    let mut m = LspManager::new();
    m.ensure_started("rs", "/w");
    assert!(m.clients.is_empty());
    assert!(m.needs_client("rs"));
    m.insert_client(s("rs"), connected_client());
    assert!(!m.needs_client("rs"));
    m.insert_client(s("rs"), LspClient::new());
    assert_eq!(m.clients.len(), 1);
    assert!(m.get("rs").unwrap().is_connected);
    assert!(m.get("py").is_none());
    assert_eq!(m.client_index("rs"), Some(0));
    m.restart_all();
    assert!(m.needs_client("rs"));
}
