use writing_unicorns::dap::client::{DapMessage, DapRequest, DapSession};
use writing_unicorns::dap::manager::DapManager;
use writing_unicorns::dap::types::DebugSessionState;

fn seq_of(r: &DapRequest) -> u64 {
    match r {
        DapRequest::SetBreakpoints { seq, .. }
        | DapRequest::ConfigurationDone { seq }
        | DapRequest::Launch { seq }
        | DapRequest::StackTrace { seq, .. }
        | DapRequest::Scopes { seq, .. }
        | DapRequest::Variables { seq, .. }
        | DapRequest::Continue { seq, .. }
        | DapRequest::Next { seq, .. }
        | DapRequest::StepIn { seq, .. }
        | DapRequest::StepOut { seq, .. }
        | DapRequest::Pause { seq, .. }
        | DapRequest::Disconnect { seq } => *seq,
    }
}

#[test]
fn stepping_requests_take_consecutive_sequence_numbers() {
    let mut s = DapSession::new();
    let c = s.continue_execution(4);
    let n = s.next_step(4);
    let i = s.step_in(4);
    let o = s.step_out(4);
    let p = s.pause(4);
    assert!(matches!(c, DapRequest::Continue { seq: 2, thread_id: 4 }));
    assert!(matches!(n, DapRequest::Next { seq: 3, thread_id: 4 }));
    assert!(matches!(i, DapRequest::StepIn { seq: 4, thread_id: 4 }));
    assert!(matches!(o, DapRequest::StepOut { seq: 5, thread_id: 4 }));
    assert!(matches!(p, DapRequest::Pause { seq: 6, thread_id: 4 }));
    assert_eq!(s.state, DebugSessionState::Launching);
    let d = s.disconnect();
    assert!(matches!(d, DapRequest::Disconnect { seq: 7 }));
    assert_eq!(s.state, DebugSessionState::Terminated);
    assert_eq!(s.next_seq, 8);
}

#[test]
fn poll_follows_messages_in_order() {
    let mut s = DapSession::new();
    let (paused, reqs) = s.poll(
        vec![
            DapMessage::Initialized,
            DapMessage::Output { text: Some("hello\nworld".to_string()) },
            DapMessage::Stopped { thread_id: Some(7) },
        ],
        true,
    );
    assert!(paused);
    let seqs: Vec<u64> = reqs.iter().map(seq_of).collect();
    assert_eq!(seqs, vec![2, 3, 4]);
    assert!(matches!(reqs[2], DapRequest::StackTrace { seq: 4, thread_id: 7 }));
    assert_eq!(s.state, DebugSessionState::Paused { thread_id: 7 });
    assert_eq!(s.output_log, vec!["hello".to_string(), "world".to_string()]);

    let (paused, reqs) = s.poll(vec![DapMessage::Continued], true);
    assert!(!paused);
    assert!(reqs.is_empty());
    assert_eq!(s.state, DebugSessionState::Running);

    let (paused, _) = s.poll(vec![], false);
    assert!(!paused);
    assert_eq!(s.state, DebugSessionState::Terminated);
}

#[test]
fn manager_without_session_reports_idle() {
    let mut m = DapManager::new();
    assert!(!m.is_active());
    assert!(!m.is_running());
    assert!(!m.is_paused());
    assert_eq!(m.paused_thread_id(), None);
    assert_eq!(m.session_state(), DebugSessionState::Idle);
    assert!(m.call_stack().is_empty());
    assert!(m.variables().is_empty());
    assert!(m.output_log().is_empty());
    assert!(m.poll(vec![DapMessage::Stopped { thread_id: None }], true).is_empty());
    assert!(!m.just_paused);
    assert!(m.stop_session().is_none());
    let (lines, req) = m.toggle_breakpoint("/p/a.rs", 5);
    assert_eq!(lines, vec![5]);
    assert!(req.is_none());
}

#[test]
fn manager_session_gets_breakpoints_and_pauses() {
    let mut m = DapManager::new();
    m.toggle_breakpoint("/p/a.rs", 8);
    m.toggle_breakpoint("/p/a.rs", 3);
    m.start_session(DapSession::new());
    assert!(m.is_active());
    assert!(m.is_running());
    assert_eq!(m.session_state(), DebugSessionState::Launching);

    // Before the adapter is initialized, a toggle is only queued.
    let (lines, req) = m.toggle_breakpoint("/p/b.rs", 1);
    assert_eq!(lines, vec![1]);
    assert!(req.is_none());

    let reqs = m.poll(vec![DapMessage::Initialized], true);
    assert_eq!(reqs.len(), 4);
    match &reqs[0] {
        DapRequest::SetBreakpoints { seq, file, lines } => {
            assert_eq!((*seq, file.as_str(), lines.clone()), (2, "/p/a.rs", vec![3, 8]));
        },
        _ => panic!("expected the stored breakpoints first"),
    }
    assert!(!m.just_paused);

    // Once it is, a toggle is sent right away.
    let (lines, req) = m.toggle_breakpoint("/p/a.rs", 3);
    assert_eq!(lines, vec![8]);
    match req {
        Some(DapRequest::SetBreakpoints { seq, file, lines }) => {
            assert_eq!((seq, file.as_str(), lines), (6, "/p/a.rs", vec![8]));
        },
        _ => panic!("expected a setBreakpoints request"),
    }

    let reqs = m.poll(vec![DapMessage::Stopped { thread_id: None }], true);
    assert_eq!(reqs.len(), 1);
    assert!(m.just_paused);
    assert!(m.is_paused());
    assert_eq!(m.paused_thread_id(), Some(1));

    let stop = m.stop_session();
    assert!(matches!(stop, Some(DapRequest::Disconnect { seq: 8 })));
    assert!(!m.is_active());
    assert_eq!(m.breakpoint_lines_for("/p/a.rs"), vec![8]);
}
