use writing_unicorns::dap::client::{DapMessage, DapRequest, DapSession};
use writing_unicorns::dap::manager::DapManager;
use writing_unicorns::extension::registry::version_gt;
use writing_unicorns::git::{file_status_from, FileChangeKind, GitStatus, StatusFlags};
use writing_unicorns::nav_history::NavigationHistory;
use writing_unicorns::runner::{detect_configs, shell_escape, ProjectMarkers, RunConfig, RunManager};
use writing_unicorns::tabs::TabManager;

fn flags() -> StatusFlags {
    StatusFlags {
        ignored: false,
        index_modified: false,
        index_new: false,
        index_deleted: false,
        index_renamed: false,
        wt_modified: false,
        wt_new: false,
        wt_deleted: false,
        wt_renamed: false,
    }
}

#[test]
fn status_flags_classify_changes() {
    let f = StatusFlags { index_new: true, wt_modified: true, ..flags() };
    let st = file_status_from("src/a.rs".to_string(), f).expect("changed");
    assert!(st.index_status == FileChangeKind::Added);
    assert!(st.wt_status == FileChangeKind::Modified);
    assert!(file_status_from("clean.rs".to_string(), flags()).is_none());
    assert!(file_status_from("ign.rs".to_string(), StatusFlags { ignored: true, wt_new: true, ..flags() }).is_none());
}

#[test]
fn stage_and_unstage_plans() {
    let mut g = GitStatus::new();
    g.files.push(file_status_from("a.rs".to_string(), StatusFlags { wt_modified: true, ..flags() }).unwrap());
    g.files.push(file_status_from("b.rs".to_string(), StatusFlags { wt_deleted: true, ..flags() }).unwrap());
    g.files.push(file_status_from("c.rs".to_string(), StatusFlags { index_modified: true, ..flags() }).unwrap());
    assert_eq!(g.refresh(), None);
    assert_eq!(g.stage_all(), None);
    assert_eq!(g.last_error, Some("No repository path".to_string()));
    assert_eq!(g.files.len(), 3);
    assert_eq!(g.branch, "—");
    g.last_error = None;
    assert_eq!(g.unstage_all(), None);
    assert_eq!(g.last_error, Some("No repository path".to_string()));
    g.repo_path = Some("/repo".to_string());
    assert_eq!(g.stage_all(), Some(vec![("a.rs".to_string(), false), ("b.rs".to_string(), true)]));
    assert_eq!(g.unstage_all(), Some(vec!["c.rs".to_string()]));
    assert!(g.has_staged_files());
}

#[test]
fn versions_compare_numerically() {
    assert!(version_gt("1.10.0", "1.9.9"));
    assert!(!version_gt("1.2.3", "1.2.3"));
    assert!(version_gt(" 2 ", "1.99.99"));
    assert!(!version_gt("x.y", "0.0.1"));
}

#[test]
fn run_config_resolves_placeholders() {
    let c = RunConfig {
        name: "run".to_string(),
        command: "python ${file}".to_string(),
        cwd: "${fileDir}".to_string(),
        env: vec![],
        args: vec!["--name=${fileName}".to_string()],
    };
    let r = c.resolve(Some("/ws"), Some("/ws/pkg/tool.py"));
    assert_eq!(r.command, "python /ws/pkg/tool.py --name=tool");
    assert_eq!(r.cwd, "/ws/pkg");
    let r2 = c.resolve(Some("/ws"), None);
    assert_eq!(r2.cwd, "/ws");
}

#[test]
fn build_command_escapes_cwd() {
    let mut m = RunManager::new();
    assert_eq!(m.build_command(None, None), None);
    m.add_config(RunConfig {
        name: "t".to_string(),
        command: "make".to_string(),
        cwd: "${workspaceRoot}".to_string(),
        env: vec![],
        args: vec![],
    });
    assert_eq!(m.build_command(Some("/my dir"), None), Some("cd \"/my dir\" && make\n".to_string()));
    assert_eq!(m.build_command(Some("/plain"), None), Some("cd /plain && make\n".to_string()));
    assert_eq!(shell_escape("a\"b c"), "\"a\\\"b c\"");
}

#[test]
fn detected_configs_from_markers() {
    let m = ProjectMarkers {
        cargo_toml: true,
        package_json: Some("{\"scripts\": {\"dev\": \"vite\"}}".to_string()),
        manage_py: false,
        main_py: false,
        go_mod: false,
        makefile: false,
        docker_compose: false,
    };
    let names: Vec<String> = detect_configs(&m).into_iter().map(|c| c.name).collect();
    assert_eq!(names, vec!["Cargo Run", "Cargo Test", "Cargo Build", "npm run dev", "Run current file"]);
}

#[test]
fn tabs_open_reuses_and_close_moves_focus() {
    let mut t = TabManager::new();
    let a = t.open("/p/a.rs".to_string(), String::new());
    let b = t.open("/p/b.rs".to_string(), String::new());
    assert_eq!(t.open("/p/a.rs".to_string(), String::new()), a);
    assert_eq!(t.tabs.len(), 2);
    assert_eq!(t.tabs[0].title, "a.rs");
    t.close(a);
    assert_eq!(t.active_tab, Some(b));
    let u = t.open_untitled();
    assert_eq!(t.tabs.last().unwrap().title, format!("untitled-{}", u + 1));
}

#[test]
fn history_back_and_forward() {
    let mut h = NavigationHistory::new();
    h.push("/a".to_string(), 1, 0);
    h.push("/a".to_string(), 1, 5);
    h.push("/b".to_string(), 2, 0);
    let e = h.go_back().unwrap();
    assert_eq!((e.path.as_str(), e.row), ("/b", 2));
    let e = h.go_back().unwrap();
    assert_eq!((e.path.as_str(), e.row, e.col), ("/a", 1, 0));
    assert!(h.go_back().is_none());
    let e = h.go_forward().unwrap();
    assert_eq!(e.path, "/b");
}

#[test]
fn debug_session_flushes_breakpoints_on_initialize() {
    let mut s = DapSession::new();
    assert!(!s.set_breakpoints("/p/a.py", &[3, 7]));
    let (stop, reqs) = s.handle_message(DapMessage::Initialized);
    assert!(!stop);
    assert_eq!(reqs.len(), 3);
    match &reqs[0] {
        DapRequest::SetBreakpoints { seq, file, lines } => {
            assert_eq!((*seq, file.as_str(), lines.clone()), (2, "/p/a.py", vec![3, 7]));
        },
        _ => panic!("expected breakpoints first"),
    }
    assert!(s.set_breakpoints("/p/b.py", &[1]));
}

#[test]
fn stored_breakpoints_queue_into_a_new_session() {
    let mut m = DapManager::new();
    m.toggle_breakpoint("/p/a.py", 9);
    m.toggle_breakpoint("/p/a.py", 2);
    m.toggle_breakpoint("/p/b.py", 4);
    m.toggle_breakpoint("/p/b.py", 4);
    let mut s = DapSession::new();
    s.set_breakpoints("/p/a.py", &[100]);
    m.queue_breakpoints(&mut s);
    let queued: Vec<(String, Vec<usize>)> = s.pending_breakpoints.iter().map(|(f, l)| (f.clone(), l.clone())).collect();
    assert_eq!(queued, vec![("/p/a.py".to_string(), vec![2, 9])]);
}
