use writing_unicorns::dap::manager::DapManager;
use writing_unicorns::editor::Editor;
use writing_unicorns::nav_history::NavigationHistory;
use writing_unicorns::tabs::TabManager;
use writing_unicorns::extension::builtin::rust_lang::RustLangExtension;
use writing_unicorns::plugin::manager::{PluginInfo, PluginManager};
use writing_unicorns::workbench::{CodingUnicorns, SidebarTab};

fn workbench() -> CodingUnicorns {
    CodingUnicorns {
        editor: Editor::new(),
        tab_manager: TabManager::new(),
        nav_history: NavigationHistory::new(),
        dap: DapManager::new(),
        plugin_manager: PluginManager::new(),
        workspace_path: None,
        show_sidebar: false,
        sidebar_tab: SidebarTab::Explorer,
        show_terminal: false,
        confirmed_close: false,
        show_close_warning: false,
        close_tab_id_pending: None,
        pending_hover_id: None,
        pending_definition_id: None,
        pending_completion_id: None,
        lsp_hover_result: None,
        plugin_status: None,
    }
}

fn with_tabs(n: usize) -> CodingUnicorns {
    let mut w = workbench();
    for i in 0..n {
        w.tab_manager.open(format!("/p/f{i}.rs"), String::new());
    }
    w
}

#[test]
fn cycle_next_wraps_around() {
    let mut w = with_tabs(3);
    let ids: Vec<usize> = w.tab_manager.tabs.iter().map(|t| t.id).collect();
    assert_eq!(w.tab_manager.active_tab, Some(ids[2]));
    assert!(w.cycle_tab_next());
    assert_eq!(w.tab_manager.active_tab, Some(ids[0]));
    assert!(w.cycle_tab_next());
    assert_eq!(w.tab_manager.active_tab, Some(ids[1]));
}

#[test]
fn cycle_prev_wraps_around() {
    let mut w = with_tabs(3);
    let ids: Vec<usize> = w.tab_manager.tabs.iter().map(|t| t.id).collect();
    w.tab_manager.active_tab = Some(ids[0]);
    assert!(w.cycle_tab_prev());
    assert_eq!(w.tab_manager.active_tab, Some(ids[2]));
}

#[test]
fn cycle_next_then_prev_returns() {
    let mut w = with_tabs(4);
    let ids: Vec<usize> = w.tab_manager.tabs.iter().map(|t| t.id).collect();
    for &start in &ids {
        w.tab_manager.active_tab = Some(start);
        w.cycle_tab_next();
        w.cycle_tab_prev();
        assert_eq!(w.tab_manager.active_tab, Some(start));
    }
}

#[test]
fn cycle_needs_two_tabs() {
    let mut w = with_tabs(1);
    let before = w.tab_manager.active_tab;
    assert!(!w.cycle_tab_next());
    assert!(!w.cycle_tab_prev());
    assert_eq!(w.tab_manager.active_tab, before);
}

#[test]
fn push_nav_records_current_location() {
    let mut w = workbench();
    w.editor.set_content("a\nb\nc".to_string(), Some("/p/main.rs".to_string()));
    w.editor.cursor.set_position(2, 1);
    let refresh = w.push_nav_and_goto("/p/lib.rs".to_string(), 10, Some("l0\nl1\nl2".to_string()));
    assert_eq!(refresh, Some("/p/lib.rs".to_string()));
    assert_eq!(w.editor.current_path.as_deref(), Some("/p/lib.rs"));
    assert_eq!(w.editor.buffer.to_string(), "l0\nl1\nl2");
    assert_eq!(w.editor.cursor.position(), (2, 0));
    assert!(w.editor.scroll_to_cursor);
    let active = w.tab_manager.active_tab.unwrap();
    assert!(w.tab_manager.tabs.iter().any(|t| t.id == active && t.path == "/p/lib.rs"));
    let back = w.nav_history.go_back().expect("an entry");
    assert_eq!((back.path.as_str(), back.row, back.col), ("/p/main.rs", 2, 1));
}

#[test]
fn push_nav_without_file_records_nothing() {
    let mut w = workbench();
    w.push_nav_and_goto("/p/lib.rs".to_string(), 3, Some("a\nb\nc\nd\ne".to_string()));
    assert!(w.nav_history.go_back().is_none());
    assert_eq!(w.editor.cursor.position(), (3, 0));
}

#[test]
fn breakpoint_toggles_on_one_based_line() {
    let mut w = workbench();
    w.editor.set_content("x\ny\nz".to_string(), Some("/p/a.py".to_string()));
    w.editor.cursor.set_position(1, 0);
    w.toggle_breakpoint_at_cursor();
    assert_eq!(w.dap.breakpoint_lines_for("/p/a.py"), vec![2]);
    w.toggle_breakpoint_at_cursor();
    assert!(w.dap.breakpoint_lines_for("/p/a.py").is_empty());
}

#[test]
fn debug_target_uses_workspace_or_folder() {
    let mut w = workbench();
    assert!(w.start_debug_session().is_none());
    w.plugin_manager.register(PluginInfo {
        name: "Rust".to_string(),
        commands: vec![],
        panels: vec![],
        file_extensions: vec!["rs".to_string()],
        lsp_server: None,
        dap: RustLangExtension.dap_config(),
    });
    w.editor.set_content(String::new(), Some("/home/u/proj/app.py".to_string()));
    assert!(w.start_debug_session().is_none());
    w.editor.set_content(String::new(), Some("/home/u/proj/main.rs".to_string()));
    let t = w.start_debug_session().expect("target");
    assert_eq!((t.path.as_str(), t.extension.as_str(), t.workspace.as_str()), ("/home/u/proj/main.rs", "rs", "/home/u/proj"));
    assert_eq!(t.config.adapter_cmd, "codelldb");
    w.workspace_path = Some("/home/u".to_string());
    let t = w.start_debug_session().expect("target");
    assert_eq!(t.workspace, "/home/u");
    w.show_debug_panel(false);
    assert!(w.show_sidebar && w.sidebar_tab == SidebarTab::Debug && !w.show_terminal);
    w.show_debug_panel(true);
    assert!(w.show_terminal);
}

#[test]
fn go_to_definition_in_open_text() {
    let mut w = workbench();
    let text = "use x;\n\nfn helper() {}\nfn main() { helper(); }";
    w.editor.set_content(text.to_string(), Some("/p/m.rs".to_string()));
    w.editor.cursor.set_position(3, 12);
    assert!(w.go_to_definition_in_buffer("helper"));
    assert_eq!(w.editor.cursor.position(), (2, 0));
    assert!(w.editor.scroll_to_cursor);
    let back = w.nav_history.go_back().expect("entry");
    assert_eq!((back.row, back.col), (3, 12));
    assert!(!w.go_to_definition_in_buffer("missing"));
}

#[test]
fn opening_files_and_images() {
    let mut w = workbench();
    assert_eq!(w.open_file("/p/missing.rs".to_string(), None), None);
    assert!(w.tab_manager.tabs.is_empty());
    assert_eq!(w.open_file("/p/logo.PNG".to_string(), None), None);
    assert_eq!(w.tab_manager.tabs.len(), 1);
    assert_eq!(w.editor.buffer.to_string(), "");
    assert_eq!(w.editor.current_path.as_deref(), Some("/p/logo.PNG"));
    assert_eq!(w.open_file("/p/a.rs".to_string(), Some("x".to_string())), Some("/p/a.rs".to_string()));
    assert_eq!(w.open_file("/p/./a.rs".to_string(), Some("y".to_string())), Some("/p/./a.rs".to_string()));
    assert_eq!(w.tab_manager.tabs.len(), 2);
    assert_eq!(w.editor.buffer.to_string(), "y");
}
