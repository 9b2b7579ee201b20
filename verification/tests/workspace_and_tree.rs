use writing_unicorns::icons::{file_icon, FileIcon};
use writing_unicorns::editor::highlight::TokenKind;
use writing_unicorns::extension::installer::{InstallStatus, WorkspaceStatus};
use writing_unicorns::extension::panel::ExtensionsPanel;
use writing_unicorns::filetree::{children_of_listing, fallback_ignored, DirItem, FileEntry};
use writing_unicorns::workspace_search::{
    contains_as_definition, find_definition_in_buffer, is_image_file, is_searched_source, search_file_for_patterns,
    search_skips_entry, workspace_definition_patterns,
};

fn item(path: &str, is_dir: bool, ignored: bool) -> DirItem {
    DirItem { path: path.to_string(), is_dir, ignored }
}

#[test]
fn listing_puts_sorted_directories_first() {
    let items = vec![
        item("/w/zeta.rs", false, false),
        item("/w/src", true, false),
        item("/w/.git", true, false),
        item("/w/alpha.rs", false, false),
        item("/w/docs", true, false),
        item("/w/target", true, true),
    ];
    let kids = children_of_listing(&items, 1, false);
    let names: Vec<(&str, bool)> = kids.iter().map(|e| (e.name.as_str(), e.is_dir)).collect();
    assert_eq!(names, vec![("docs", true), ("src", true), ("alpha.rs", false), ("zeta.rs", false)]);
    assert!(kids.iter().all(|e| e.depth == 1 && !e.is_expanded && e.children.is_empty()));
    let all = children_of_listing(&items, 1, true);
    assert_eq!(all.len(), 5);
    assert_eq!(all[2].name, "target");
}

#[test]
fn load_children_only_for_directories() {
    let items = vec![item("/w/a.txt", false, false)];
    let mut file = FileEntry::new("/w/readme.md".to_string(), 1, false);
    file.load_children(&items, false);
    assert!(file.children.is_empty());
    let mut root = FileEntry::new("/w".to_string(), 0, true);
    assert!(root.is_expanded);
    assert_eq!(root.name, "w");
    root.load_children(&items, false);
    assert_eq!(root.children.len(), 1);
    assert_eq!(root.children[0].depth, 1);
}

#[test]
fn fallback_ignores_build_directories_only() {
    assert!(fallback_ignored("node_modules", true));
    assert!(!fallback_ignored("node_modules", false));
    assert!(!fallback_ignored("src", true));
}

#[test]
fn definition_word_must_stand_alone() {
    assert!(contains_as_definition("pub fn run(x: u8)", "fn run(", "run"));
    assert!(!contains_as_definition("fn runner(", "fn run", "run"));
    assert!(!contains_as_definition("let y = 1;", "fn run(", "run"));
}

#[test]
fn definition_in_buffer_returns_line_and_number() {
    let text = "import os\n\n    def load(path):\n        pass\n";
    assert_eq!(find_definition_in_buffer(text, "load"), Some(("    def load(path):".to_string(), 2)));
    assert_eq!(find_definition_in_buffer(text, "save"), None);
}

#[test]
fn file_pattern_search_reports_first_line() {
    let pats = workspace_definition_patterns("Widget");
    assert_eq!(pats.len(), 21);
    assert_eq!(pats[0], "fn Widget(");
    assert_eq!(pats[20], "fn Widget");
    let content = "// Widget docs\nuse a;\n  struct Widget {\n}\n";
    assert_eq!(search_file_for_patterns(content, &pats), Some(2));
    assert_eq!(search_file_for_patterns("nothing here", &pats), None);
}

#[test]
fn search_filters_and_image_extensions() {
    assert!(search_skips_entry(".hidden"));
    assert!(search_skips_entry("target"));
    assert!(!search_skips_entry("src"));
    assert!(is_searched_source("rs"));
    assert!(!is_searched_source("md"));
    assert!(is_image_file("/a/b/Logo.PNG"));
    assert!(is_image_file("x.jpeg"));
    assert!(!is_image_file("x.svg"));
    assert!(!is_image_file("png"));
}

#[test]
fn panel_install_success_reloads() {
    let mut p = ExtensionsPanel::new("/home/u/extensions".to_string());
    p.install_url = "https://example.com/ext.git".to_string();
    p.install_running = true;
    assert!(!p.on_install_status(InstallStatus::Cloning));
    assert!(p.install_running);
    assert!(p.on_install_status(InstallStatus::Done));
    assert!(!p.install_running);
    assert!(p.install_url.is_empty());
    assert!(p.plugins_changed);
}

#[test]
fn panel_install_failure_keeps_url() {
    let mut p = ExtensionsPanel::new(String::new());
    p.install_url = "u".to_string();
    p.install_running = true;
    assert!(!p.on_install_status(InstallStatus::Failed("no network".to_string())));
    assert!(!p.install_running);
    assert_eq!(p.install_url, "u");
    assert!(!p.plugins_changed);
}

#[test]
fn panel_workspace_batch_logs_and_finishes() {
    let mut p = ExtensionsPanel::new(String::new());
    p.workspace_running = true;
    let reload = p.on_workspace_statuses(vec![
        WorkspaceStatus::Building,
        WorkspaceStatus::Idle,
        WorkspaceStatus::Done { installed: 2, total: 3 },
    ]);
    assert!(reload);
    assert!(!p.workspace_running);
    assert_eq!(p.workspace_log.len(), 2);
    assert!(matches!(p.workspace_status, WorkspaceStatus::Done { installed: 2, total: 3 }));
    assert!(p.plugins_changed);
    assert!(p.git_group_log.is_empty());
}

#[test]
fn panel_update_status_replaces_entry() {
    let mut p = ExtensionsPanel::new(String::new());
    assert_eq!(p.on_update_status("rust".to_string(), InstallStatus::Building), (false, false));
    assert_eq!(p.on_update_status("rust".to_string(), InstallStatus::Done), (true, true));
    assert_eq!(p.update_statuses.len(), 1);
    assert!(matches!(p.update_statuses[0].1, InstallStatus::Done));
    assert!(p.plugins_changed);
}

#[test]
fn file_icons_by_extension() {
    assert_eq!(file_icon("main.RS"), (FileIcon::Rust, (222, 99, 52)));
    assert_eq!(file_icon("lib.cjs"), (FileIcon::JavaScript, (240, 219, 79)));
    assert_eq!(file_icon("Cargo.lock"), (FileIcon::Lock, (160, 160, 160)));
    assert_eq!(file_icon("Makefile"), (FileIcon::File, (160, 160, 160)));
    assert_eq!(file_icon("archive.tar.zig"), (FileIcon::Code, (247, 175, 48)));
}

#[test]
fn token_kind_colors() {
    assert_eq!(TokenKind::Keyword.color(), (197, 134, 192));
    assert_eq!(TokenKind::Normal.color(), (212, 212, 212));
    assert_eq!(TokenKind::Property.color(), (156, 220, 254));
}
