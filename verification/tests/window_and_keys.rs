use writing_unicorns::config::KeyCode;
use writing_unicorns::editor::bracket_match::find_matching_bracket;
use writing_unicorns::editor::buffer::Buffer;
use writing_unicorns::dap::manager::DapManager;
use writing_unicorns::editor::keys::{key_action, requests_after_typing, split_paste, KeyAction};
use writing_unicorns::editor::Editor;
use writing_unicorns::filetree::{rename_outcome, ClickOutcome, DirItem, FileEntry, FileTreeAction};
use writing_unicorns::lsp::json::JsonValue;
use writing_unicorns::lsp::wire::decode_message;
use writing_unicorns::nav_history::NavigationHistory;
use writing_unicorns::plugin::manager::PluginManager;
use writing_unicorns::tabs::TabManager;
use writing_unicorns::workbench::{CodingUnicorns, SidebarTab};

fn window() -> CodingUnicorns {
    CodingUnicorns {
        editor: Editor::new(),
        tab_manager: TabManager::new(),
        nav_history: NavigationHistory::new(),
        dap: DapManager::new(),
        plugin_manager: PluginManager::new(),
        workspace_path: None,
        show_sidebar: false,
        sidebar_tab: SidebarTab::Explorer,
        show_terminal: false,
        confirmed_close: false,
        show_close_warning: false,
        close_tab_id_pending: None,
        pending_hover_id: None,
        pending_definition_id: None,
        pending_completion_id: None,
        lsp_hover_result: None,
        plugin_status: None,
    }
}

fn json(text: &str) -> JsonValue {
    decode_message(&format!("Content-Length: {}", text.len()), text.as_bytes()).expect("valid JSON")
}

#[test]
fn keys_map_to_editing_actions() {
    assert_eq!(key_action(KeyCode::Enter, true, true, false, false), KeyAction::InsertLineAbove);
    assert_eq!(key_action(KeyCode::Enter, true, false, false, false), KeyAction::InsertLineBelow);
    assert_eq!(key_action(KeyCode::Enter, false, false, false, true), KeyAction::ConfirmCompletion);
    assert_eq!(key_action(KeyCode::Enter, false, false, false, false), KeyAction::Newline);
    assert_eq!(key_action(KeyCode::ArrowUp, true, true, true, false), KeyAction::MoveLineUp);
    assert_eq!(key_action(KeyCode::ArrowDown, true, false, true, false), KeyAction::AddCursorBelow);
    assert_eq!(key_action(KeyCode::ArrowUp, false, true, false, true), KeyAction::CompletionUp);
    assert_eq!(key_action(KeyCode::ArrowLeft, false, true, false, false), KeyAction::SelectLeft);
    assert_eq!(key_action(KeyCode::ArrowRight, false, false, false, false), KeyAction::Right);
    assert_eq!(key_action(KeyCode::End, true, true, false, false), KeyAction::SelectToDocEnd);
    assert_eq!(key_action(KeyCode::Home, false, false, false, false), KeyAction::LineStart);
    assert_eq!(key_action(KeyCode::Tab, false, true, false, false), KeyAction::Nothing);
    assert_eq!(key_action(KeyCode::Tab, false, false, false, false), KeyAction::InsertIndent);
    assert_eq!(key_action(KeyCode::Z, true, false, false, false), KeyAction::Undo);
    assert_eq!(key_action(KeyCode::Z, true, true, false, false), KeyAction::Redo);
    assert_eq!(key_action(KeyCode::Y, true, false, false, false), KeyAction::Redo);
    assert_eq!(key_action(KeyCode::D, true, true, false, false), KeyAction::SelectNextOccurrence);
    assert_eq!(key_action(KeyCode::K, true, true, false, false), KeyAction::DeleteLine);
    assert_eq!(key_action(KeyCode::K, true, false, false, false), KeyAction::Nothing);
    assert_eq!(key_action(KeyCode::F, true, true, false, false), KeyAction::FormatDocument);
    assert_eq!(key_action(KeyCode::F, true, false, false, false), KeyAction::Find);
    assert_eq!(key_action(KeyCode::Escape, false, false, false, true), KeyAction::DismissCompletion);
    assert_eq!(key_action(KeyCode::Escape, false, false, false, false), KeyAction::Escape);
    assert_eq!(key_action(KeyCode::F2, false, false, false, false), KeyAction::Rename);
    assert_eq!(key_action(KeyCode::Q, true, false, false, false), KeyAction::Nothing);
}

#[test]
fn typing_raises_language_server_requests() {
    assert_eq!(requests_after_typing('('), (true, false, false));
    assert_eq!(requests_after_typing(','), (true, false, false));
    assert_eq!(requests_after_typing(')'), (false, true, false));
    assert_eq!(requests_after_typing('.'), (false, false, true));
    assert_eq!(requests_after_typing('x'), (false, false, false));
}

#[test]
fn a_paste_with_one_line_per_cursor_is_spread() {
    assert_eq!(split_paste(3, "a\nbb\nc"), Some(vec!["a".to_string(), "bb".to_string(), "c".to_string()]));
    assert_eq!(split_paste(2, "a\nb\n"), Some(vec!["a".to_string(), "b".to_string()]));
    assert_eq!(split_paste(2, "a\nb\nc"), None);
    assert_eq!(split_paste(1, "a"), None);
}

#[test]
fn closing_with_unsaved_tabs_is_cancelled_until_confirmed() {
    let mut w = window();
    w.tab_manager.open("/p/a.rs".to_string(), String::new());
    assert!(!w.on_close_requested(true));
    assert!(!w.show_close_warning);
    w.tab_manager.tabs[0].is_modified = true;
    assert!(!w.on_close_requested(false));
    assert!(w.on_close_requested(true));
    assert!(w.show_close_warning);
    w.confirmed_close = true;
    assert!(!w.on_close_requested(true));
}

#[test]
fn close_tab_shortcut_waits_for_a_modified_tab() {
    let mut w = window();
    let a = w.tab_manager.open("/p/a.rs".to_string(), String::new());
    let b = w.tab_manager.open("/p/b.rs".to_string(), String::new());
    assert_eq!(w.on_close_tab_shortcut(), Some(b));
    assert_eq!(w.tab_manager.tabs.len(), 1);
    assert_eq!(w.tab_manager.active_tab, Some(a));
    w.tab_manager.tabs[0].is_modified = true;
    assert_eq!(w.on_close_tab_shortcut(), None);
    assert_eq!(w.close_tab_id_pending, Some(a));
    assert_eq!(w.tab_manager.tabs.len(), 1);
    // A close already waits: nothing more happens.
    assert_eq!(w.on_close_tab_shortcut(), None);
    assert_eq!(w.close_tab_id_pending, Some(a));
}

#[test]
fn language_server_answers_go_to_the_request_that_awaits_them() {
    let mut w = window();
    w.pending_hover_id = Some(1);
    w.pending_definition_id = Some(2);
    w.pending_completion_id = Some(3);
    assert_eq!(w.on_lsp_response(9, &json("{\"id\":9,\"result\":null}")), None);
    assert_eq!(w.pending_hover_id, Some(1));

    assert_eq!(w.on_lsp_response(1, &json("{\"id\":1,\"result\":{\"contents\":\"fn main()\"}}")), None);
    assert_eq!(w.lsp_hover_result.as_deref(), Some("fn main()"));
    assert_eq!(w.pending_hover_id, None);

    assert_eq!(w.on_lsp_response(2, &json("{\"id\":2,\"result\":[]}")), None);
    assert_eq!(w.pending_definition_id, Some(2));
    let def = w.on_lsp_response(
        2,
        &json("{\"id\":2,\"result\":{\"uri\":\"file:///p/lib.rs\",\"range\":{\"start\":{\"line\":4,\"character\":0}}}}"),
    );
    assert_eq!(def, Some(("/p/lib.rs".to_string(), 4)));
    assert_eq!(w.pending_definition_id, None);

    assert_eq!(w.on_lsp_response(3, &json("{\"id\":3,\"result\":[{\"label\":\"push\"},{\"label\":\"pop\"}]}")), None);
    assert_eq!(w.editor.autocomplete.suggestions, vec!["push".to_string(), "pop".to_string()]);
    assert!(w.editor.autocomplete.visible);
    assert_eq!(w.pending_completion_id, None);
}

#[test]
fn the_last_plugin_status_is_shown() {
    let mut w = window();
    w.set_plugin_status(vec![Some("a".to_string()), None, Some("b".to_string()), None]);
    assert_eq!(w.plugin_status.as_deref(), Some("b"));
    w.set_plugin_status(vec![None, None]);
    assert_eq!(w.plugin_status, None);
}

#[test]
fn clicking_a_folder_opens_it_and_asks_for_its_listing_once() {
    let mut d = FileEntry::new("/p/src".to_string(), 1, true);
    assert!(!d.is_expanded);
    assert!(matches!(d.click(), ClickOutcome::LoadChildren));
    assert!(d.is_expanded);
    d.load_children(&vec![DirItem { path: "/p/src/a.rs".to_string(), is_dir: false, ignored: false }], false);
    assert!(matches!(d.click(), ClickOutcome::Toggled));
    assert!(!d.is_expanded);
    assert!(matches!(d.click(), ClickOutcome::Toggled));
    assert!(d.is_expanded);
    let mut f = FileEntry::new("/p/src/a.rs".to_string(), 2, false);
    assert!(matches!(f.click(), ClickOutcome::Open(ref p) if p == "/p/src/a.rs"));
}

#[test]
fn an_inline_rename_ends_on_enter_or_escape() {
    let (a, going) = rename_outcome("/p/a.rs", "b.rs", true, false);
    assert!(matches!(a, Some(FileTreeAction::Rename(ref p, ref n)) if p == "/p/a.rs" && n == "b.rs"));
    assert!(!going);
    let (a, going) = rename_outcome("/p/a.rs", "b.rs", false, true);
    assert!(a.is_none() && !going);
    let (a, going) = rename_outcome("/p/a.rs", "b.r", false, false);
    assert!(a.is_none() && going);
}

#[test]
fn either_end_of_a_nested_pair_finds_the_same_pair() {
    let b = Buffer::from_str("g(a(b), [c])\n{ (x) }");
    for (r, c) in [(0usize, 1usize), (0, 11)] {
        assert_eq!(find_matching_bracket(&b, r, c), Some((0, 1, 0, 11)));
    }
    for (r, c) in [(0usize, 3usize), (0, 5)] {
        assert_eq!(find_matching_bracket(&b, r, c), Some((0, 3, 0, 5)));
    }
    assert_eq!(find_matching_bracket(&b, 0, 8), Some((0, 8, 0, 10)));
    assert_eq!(find_matching_bracket(&b, 0, 10), Some((0, 8, 0, 10)));
    assert_eq!(find_matching_bracket(&b, 1, 0), Some((1, 0, 1, 6)));
    assert_eq!(find_matching_bracket(&b, 1, 6), Some((1, 0, 1, 6)));
}

#[test]
fn view_shortcuts_toggle_panels_and_open_search() {
    let mut w = window();
    w.on_view_shortcuts(true, true, false);
    assert!(w.show_terminal && w.show_sidebar);
    assert_eq!(w.sidebar_tab, SidebarTab::Explorer);
    w.on_view_shortcuts(false, true, true);
    assert!(w.show_terminal && w.show_sidebar);
    assert_eq!(w.sidebar_tab, SidebarTab::Search);
    w.on_view_shortcuts(true, false, false);
    assert!(!w.show_terminal && w.show_sidebar);
}
