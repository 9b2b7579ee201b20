use writing_unicorns::config::KeyBindings;
use writing_unicorns::dap::client::{DapMessage, DapRequest, DapSession, RawFrame};
use writing_unicorns::dap::decode::decode_dap_message;
use writing_unicorns::dap::manager::DapManager;
use writing_unicorns::dap::types::DebugSessionState;
use writing_unicorns::extension::installer::{workspace_members_or_failure, InstallStatus, WorkspaceStatus};
use writing_unicorns::extension::panel::ExtensionsPanel;
use writing_unicorns::lsp::json::JsonValue;
use writing_unicorns::lsp::wire::{content_length, decode_message};

fn json(text: &str) -> JsonValue {
    let header = format!("Content-Length: {}", text.len());
    decode_message(&header, text.as_bytes()).expect("valid JSON")
}

fn member<'a>(v: &'a JsonValue, key: &str) -> Option<&'a JsonValue> {
    match v {
        JsonValue::Object(es) => es.iter().find(|(k, _)| k == key).map(|(_, x)| x),
        _ => None,
    }
}

#[test]
fn content_length_reads_the_header_line() {
    assert_eq!(content_length("Content-Length: 42\r\n"), Some(42));
    assert_eq!(content_length("  Content-Length:  7 "), Some(7));
    assert_eq!(content_length("Content-Length: +5"), Some(5));
    assert_eq!(content_length("Content-Length: abc"), Some(0));
    assert_eq!(content_length("Content-Length: 99999999999999999999999"), Some(0));
    assert_eq!(content_length("Content-Length: "), None);
    assert_eq!(content_length("Content-Length: x7"), Some(0));
    assert_eq!(content_length("Content-Type: application/json"), None);
    assert_eq!(content_length("content-length: 3"), None);
    assert_eq!(content_length(""), None);
}

#[test]
fn decode_message_parses_the_body_of_an_announced_message() {
    let v = decode_message("Content-Length: 24", b"{\"a\": [1, -3, \"x\", null]}").expect("parsed");
    match member(&v, "a") {
        Some(JsonValue::Array(items)) => {
            assert_eq!(items.len(), 4);
            assert!(matches!(items[0], JsonValue::Number(Some(1), Some(1))));
            assert!(matches!(items[1], JsonValue::Number(None, Some(-3))));
            assert!(matches!(&items[2], JsonValue::Str(s) if s == "x"));
            assert!(matches!(items[3], JsonValue::Null));
        }
        _ => panic!("expected an array"),
    }
    assert!(decode_message("Content-Type: x", b"{}").is_none());
    assert!(decode_message("Content-Length: 1", b"{").is_none());
    assert!(matches!(decode_message("Content-Length: 4", b"true"), Some(JsonValue::Bool(true))));
}

#[test]
fn adapter_events_are_read_as_messages() {
    let m = decode_dap_message(&json("{\"type\":\"event\",\"event\":\"stopped\",\"body\":{\"threadId\":7}}"));
    assert!(matches!(m, DapMessage::Stopped { thread_id: Some(7) }));
    let m = decode_dap_message(&json("{\"type\":\"event\",\"event\":\"stopped\"}"));
    assert!(matches!(m, DapMessage::Stopped { thread_id: None }));
    assert!(matches!(decode_dap_message(&json("{\"type\":\"event\",\"event\":\"initialized\"}")), DapMessage::Initialized));
    assert!(matches!(decode_dap_message(&json("{\"type\":\"event\",\"event\":\"continued\"}")), DapMessage::Continued));
    assert!(matches!(decode_dap_message(&json("{\"type\":\"event\",\"event\":\"exited\"}")), DapMessage::Terminated));
    assert!(matches!(decode_dap_message(&json("{\"type\":\"event\",\"event\":\"terminated\"}")), DapMessage::Terminated));
    let m = decode_dap_message(&json("{\"type\":\"event\",\"event\":\"output\",\"body\":{\"output\":\"hi\\n\"}}"));
    assert!(matches!(m, DapMessage::Output { text: Some(ref t) } if t == "hi\n"));
    assert!(matches!(decode_dap_message(&json("{\"type\":\"event\",\"event\":\"module\"}")), DapMessage::Other));
    assert!(matches!(decode_dap_message(&json("{\"type\":\"request\",\"command\":\"scopes\"}")), DapMessage::Other));
    assert!(matches!(decode_dap_message(&json("[1]")), DapMessage::Other));
}

#[test]
fn adapter_responses_are_read_as_messages() {
    let m = decode_dap_message(&json(
        "{\"type\":\"response\",\"command\":\"stackTrace\",\"request_seq\":5,\"body\":{\"stackFrames\":[\
         {\"id\":1000,\"name\":\"main\",\"source\":{\"path\":\"/p/main.rs\"},\"line\":12},{\"id\":1001}]}}",
    ));
    match m {
        DapMessage::StackTrace { request_seq: Some(5), frames: Some(fs) } => {
            assert_eq!(fs.len(), 2);
            assert_eq!(fs[0].id, Some(1000));
            assert_eq!(fs[0].name.as_deref(), Some("main"));
            assert_eq!(fs[0].path.as_deref(), Some("/p/main.rs"));
            assert_eq!(fs[0].line, Some(12));
            assert_eq!(fs[1].id, Some(1001));
            assert!(fs[1].name.is_none() && fs[1].path.is_none() && fs[1].line.is_none());
        }
        _ => panic!("expected a stack trace"),
    }
    let m = decode_dap_message(&json(
        "{\"type\":\"response\",\"command\":\"scopes\",\"request_seq\":6,\"body\":{\"scopes\":[{\"variablesReference\":9},{}]}}",
    ));
    assert!(matches!(m, DapMessage::Scopes { request_seq: Some(6), first_scope_ref: Some(Some(9)) }));
    let m = decode_dap_message(&json("{\"type\":\"response\",\"command\":\"scopes\",\"body\":{\"scopes\":[]}}"));
    assert!(matches!(m, DapMessage::Scopes { request_seq: None, first_scope_ref: None }));
    let m = decode_dap_message(&json(
        "{\"type\":\"response\",\"command\":\"variables\",\"request_seq\":7,\"body\":{\"variables\":[\
         {\"name\":\"x\",\"value\":\"1\",\"type\":\"i32\",\"variablesReference\":0}]}}",
    ));
    match m {
        DapMessage::Variables { request_seq: Some(7), variables: Some(vs) } => {
            assert_eq!(vs.len(), 1);
            assert_eq!(vs[0].name.as_deref(), Some("x"));
            assert_eq!(vs[0].value.as_deref(), Some("1"));
            assert_eq!(vs[0].var_type.as_deref(), Some("i32"));
            assert_eq!(vs[0].variables_reference, Some(0));
        }
        _ => panic!("expected variables"),
    }
    let m = decode_dap_message(&json("{\"type\":\"response\",\"command\":\"setBreakpoints\",\"request_seq\":3}"));
    assert!(matches!(m, DapMessage::Other));
}

#[test]
fn poll_returns_every_request_and_fills_the_call_stack() {
    let mut s = DapSession::new();
    s.set_breakpoints("/p/main.rs", &[3, 9]);
    let frames = vec![
        RawFrame { id: Some(1000), name: Some("main".to_string()), path: Some("/p/main.rs".to_string()), line: Some(3) },
        RawFrame { id: None, name: None, path: None, line: None },
    ];
    let (paused, reqs) = s.poll(
        vec![
            DapMessage::Initialized,
            DapMessage::Stopped { thread_id: Some(1) },
            DapMessage::StackTrace { request_seq: Some(5), frames: Some(frames) },
            DapMessage::Scopes { request_seq: Some(6), first_scope_ref: Some(Some(42)) },
        ],
        true,
    );
    assert!(paused);
    assert_eq!(reqs.len(), 6);
    assert!(matches!(&reqs[0], DapRequest::SetBreakpoints { seq: 2, file, lines } if file == "/p/main.rs" && lines == &vec![3, 9]));
    assert!(matches!(reqs[1], DapRequest::ConfigurationDone { seq: 3 }));
    assert!(matches!(reqs[2], DapRequest::Launch { seq: 4 }));
    assert!(matches!(reqs[3], DapRequest::StackTrace { seq: 5, thread_id: 1 }));
    assert!(matches!(reqs[4], DapRequest::Scopes { seq: 6, frame_id: 1000 }));
    assert!(matches!(reqs[5], DapRequest::Variables { seq: 7, variables_reference: 42 }));
    assert_eq!(s.call_stack.len(), 2);
    assert_eq!(s.call_stack[1].name, "<unknown>");
    assert_eq!(s.call_stack[1].line, 1);
    assert_eq!(s.pending_stack_seq, None);
    assert_eq!(s.pending_scopes_seq, None);
    assert_eq!(s.pending_vars_seq, Some(7));
    assert_eq!(s.next_seq, 8);
    assert_eq!(s.state, DebugSessionState::Paused { thread_id: 1 });

    // A stale response is ignored; a gone adapter ends the session.
    let (_, reqs) = s.poll(vec![DapMessage::StackTrace { request_seq: Some(5), frames: None }], false);
    assert!(reqs.is_empty());
    assert_eq!(s.call_stack.len(), 2);
    assert_eq!(s.state, DebugSessionState::Terminated);
}

#[test]
fn breakpoints_of_one_file_under_two_spellings_are_one_list() {
    let mut m = DapManager::new();
    let (lines, _) = m.toggle_breakpoint("src/a.rs", 3);
    assert_eq!(lines, vec![3]);
    let (lines, _) = m.toggle_breakpoint("src//a.rs", 5);
    assert_eq!(lines, vec![3, 5]);
    let (lines, _) = m.toggle_breakpoint("src/./a.rs", 3);
    assert_eq!(lines, vec![5]);
    assert_eq!(m.breakpoints.len(), 1);
    assert_eq!(m.breakpoint_lines_for("src/a.rs/"), vec![5]);
    let (lines, _) = m.toggle_breakpoint("src/b.rs", 1);
    assert_eq!(lines, vec![1]);
    assert_eq!(m.breakpoint_lines_for("src/a.rs"), vec![5]);

    let mut s = DapSession::new();
    s.set_breakpoints("src/a.rs", &[1]);
    s.set_breakpoints("src//a.rs", &[2]);
    assert_eq!(s.pending_breakpoints.len(), 1);
    assert_eq!(s.pending_breakpoints[0].1, vec![2]);
}

#[test]
fn a_workspace_without_members_fails_the_install() {
    match workspace_members_or_failure("[workspace]\nmembers = [\"a\"]\n") {
        Ok(ms) => assert_eq!(ms, vec!["a".to_string()]),
        Err(_) => panic!("expected members"),
    }
    match workspace_members_or_failure("[package]\nname = \"x\"\n") {
        Err(WorkspaceStatus::Failed(m)) => assert_eq!(m, "Invalid workspace: No [workspace].members found"),
        _ => panic!("expected a failure"),
    }
    match workspace_members_or_failure("not = = toml") {
        Err(WorkspaceStatus::Failed(m)) => {
            assert!(m.starts_with("Invalid workspace: "));
            assert!(m.len() > "Invalid workspace: ".len());
        }
        _ => panic!("expected a failure"),
    }
}

#[test]
fn an_update_status_replaces_only_that_extensions_entry() {
    let mut p = ExtensionsPanel::new(String::new());
    p.on_update_status("a".to_string(), InstallStatus::Building);
    p.on_update_status("b".to_string(), InstallStatus::Cloning);
    let (finished, ok) = p.on_update_status("a".to_string(), InstallStatus::Done);
    assert!(finished && ok);
    assert!(p.plugins_changed);
    assert_eq!(p.update_statuses.len(), 2);
    assert_eq!(p.update_statuses[0].0, "b");
    assert!(matches!(p.update_statuses[0].1, InstallStatus::Cloning));
    assert_eq!(p.update_statuses[1].0, "a");
    assert!(matches!(p.update_statuses[1].1, InstallStatus::Done));
}

#[test]
fn default_key_bindings_are_the_default_map() {
    let kb = KeyBindings::default();
    assert_eq!(kb.save.key, "S");
    assert!(kb.save.ctrl && !kb.save.shift && !kb.save.alt);
    assert_eq!(kb.debug_step_out.key, "F11");
    assert!(!kb.debug_step_out.ctrl && kb.debug_step_out.shift);
    assert_eq!(kb.toggle_blame.key, "B");
    assert!(kb.toggle_blame.ctrl && kb.toggle_blame.alt);
}
