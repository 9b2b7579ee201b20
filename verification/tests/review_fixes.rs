use writing_unicorns::text::{str_chars, trim_exec};
use writing_unicorns::dap::client::{DapMessage, DapSession};
use writing_unicorns::dap::types::DebugSessionState;
use writing_unicorns::editor::buffer::Buffer;
use writing_unicorns::editor::Editor;
use writing_unicorns::editor::bracket_match::find_matching_bracket;
use writing_unicorns::editor::diff::{compute_line_diff, HeadLookup};
use writing_unicorns::extension::installer::{dep_failures, dependency_steps, StepResult};
use writing_unicorns::extension::manifest::Dependencies;
use writing_unicorns::editor::utils::find_next_occurrence;
use writing_unicorns::extension::installer::{workspace_install_trace, BuildOutcome, ModuleOutcome, WorkspaceStatus};
use writing_unicorns::extension::workspace_toml::{describes_workspace, parse_workspace_members};
use writing_unicorns::workspace_search::contains_as_definition;

fn s(x: &str) -> String {
    x.to_string()
}

#[test]
fn word_search_wraps_to_the_start_of_its_own_row() {
    let b = Buffer::from_str("foo x");
    assert_eq!(find_next_occurrence(&b, "foo", 0, 1), Some((0, 0)));
    let b = Buffer::from_str("a foo\nbar\nfoo b");
    assert_eq!(find_next_occurrence(&b, "foo", 0, 3), Some((2, 0)));
    assert_eq!(find_next_occurrence(&b, "foo", 2, 1), Some((0, 2)));
    assert_eq!(find_next_occurrence(&b, "zzz", 1, 0), None);
}

#[test]
fn line_start_counts_as_a_word_boundary() {
    assert!(contains_as_definition("foo: 1,", "foo:", "foo"));
    assert!(!contains_as_definition("struct FooBar {", "struct Foo", "Foo"));
    assert!(contains_as_definition("struct Foo {", "struct Foo", "Foo"));
}

#[test]
fn poll_state_follows_the_last_state_event() {
    let mut s1 = DapSession::new();
    s1.poll(vec![DapMessage::Stopped { thread_id: None }, DapMessage::Continued], true);
    assert_eq!(s1.state, DebugSessionState::Running);
    s1.poll(vec![DapMessage::Continued, DapMessage::Stopped { thread_id: Some(3) }, DapMessage::Other], true);
    assert_eq!(s1.state, DebugSessionState::Paused { thread_id: 3 });
    s1.poll(vec![DapMessage::Terminated], true);
    assert_eq!(s1.state, DebugSessionState::Terminated);
}

#[test]
fn output_log_keeps_the_last_five_hundred_lines() {
    let mut d = DapSession::new();
    let text: String = (0..520).map(|i| format!("l{}", i)).collect::<Vec<_>>().join("\n");
    d.poll(vec![DapMessage::Output { text: Some(text) }], true);
    assert_eq!(d.output_log.len(), 500);
    assert_eq!(d.output_log[0], "l20");
    assert_eq!(d.output_log[499], "l519");
    d.poll(vec![DapMessage::Output { text: Some(s("x\ny")) }], true);
    assert_eq!(d.output_log.len(), 500);
    assert_eq!(d.output_log[0], "l22");
    assert_eq!(d.output_log[499], "y");
}

fn names(r: &[WorkspaceStatus]) -> Vec<String> {
    r.iter()
        .map(|e| match e {
            WorkspaceStatus::Idle => s("idle"),
            WorkspaceStatus::Cloning => s("cloning"),
            WorkspaceStatus::Building => s("building"),
            WorkspaceStatus::Installing { current, done, total } => format!("installing {} {}/{}", current, done, total),
            WorkspaceStatus::InstallingDep { module, step } => format!("dep {} {}", module, step),
            WorkspaceStatus::ModuleFailed { name, reason } => format!("failed {}: {}", name, reason),
            WorkspaceStatus::Done { installed, total } => format!("done {}/{}", installed, total),
            WorkspaceStatus::Failed(e) => format!("fatal {}", e),
        })
        .collect()
}

#[test]
fn a_failed_module_does_not_stop_the_workspace_install() {
    let modules = vec![s("a"), s("b"), s("c")];
    let outcomes = vec![
        ModuleOutcome::Installed { steps: vec![s("npm install -g x")], dep_errors: vec![] },
        ModuleOutcome::Failed(s("Invalid manifest: bad")),
        ModuleOutcome::Installed { steps: vec![], dep_errors: vec![s("pip3 y: boom")] },
    ];
    let r = workspace_install_trace(&modules, &BuildOutcome::Succeeded, &outcomes);
    assert_eq!(
        names(&r),
        vec![
            s("building"),
            s("installing a 0/3"),
            s("dep a npm install -g x"),
            s("installing b 1/3"),
            s("failed b: Invalid manifest: bad"),
            s("installing c 2/3"),
            s("failed c: dependency error: pip3 y: boom"),
            s("done 2/3"),
        ]
    );
}

#[test]
fn workspace_install_fails_early_without_modules_or_build() {
    let r = workspace_install_trace(&vec![], &BuildOutcome::Succeeded, &vec![]);
    assert_eq!(names(&r), vec![s("fatal No modules with manifest.toml found in this workspace.")]);
    let long = "e".repeat(450);
    let r = workspace_install_trace(
        &vec![s("a")],
        &BuildOutcome::Failed { stderr: long },
        &vec![ModuleOutcome::Failed(s("unused"))],
    );
    assert_eq!(names(&r), vec![s("building"), format!("fatal Build failed:\n{}", "e".repeat(400))]);
    let r = workspace_install_trace(
        &vec![s("a")],
        &BuildOutcome::NotRun { error: s("no cargo") },
        &vec![ModuleOutcome::Failed(s("unused"))],
    );
    assert_eq!(names(&r), vec![s("building"), s("fatal Cannot run cargo: no cargo")]);
}

#[test]
fn workspace_members_are_read_from_cargo_toml() {
    let text = "[workspace]\nmembers = [\"ext-a\", 3, \"ext-b\"]\n\n[profile.release]\nlto = true\n";
    assert_eq!(parse_workspace_members(text), Ok(vec![s("ext-a"), s("ext-b")]));
    assert!(describes_workspace(text));
    assert_eq!(parse_workspace_members("[package]\nname = \"x\"\n"), Err(s("No [workspace].members found")));
    assert!(!describes_workspace("[package]\nname = \"x\"\n"));
    assert!(parse_workspace_members("not = = toml").is_err());
    assert_eq!(parse_workspace_members("[workspace]\n"), Err(s("No [workspace].members found")));
}

fn replaced(text: &str, query: &str, rep: &str) -> (String, bool) {
    let mut e = Editor::new();
    e.set_content(text.to_string(), None);
    e.find_query = query.to_string();
    e.replace_query = rep.to_string();
    e.replace_all_matches();
    (e.buffer.to_string(), e.is_modified)
}

#[test]
fn replace_all_replaces_each_original_occurrence_once() {
    assert_eq!(replaced("a b a", "a", "aa"), (s("aa b aa"), true));
    assert_eq!(replaced("abb", "ab", "a").0, "ab");
    assert_eq!(replaced("Foo foo\nFOO", "foo", "bar").0, "bar bar\nbar");
    assert_eq!(replaced("éa x ÉA", "éa", "y").0, "y x y");
    assert_eq!(replaced("aaa", "a", "").0, "");
    assert_eq!(replaced("none here", "zz", "q"), (s("none here"), true));
}

#[test]
fn replace_current_uses_character_columns() {
    let mut e = Editor::new();
    e.set_content(s("é foo"), None);
    e.find_query = s("foo");
    e.replace_query = s("bar");
    e.update_find_matches();
    e.replace_current();
    assert_eq!(e.buffer.to_string(), "é bar");
}

#[test]
fn bracket_pairs_are_found_from_either_end() {
    let b = Buffer::from_str("f(a[1], {x})");
    assert_eq!(find_matching_bracket(&b, 0, 1), Some((0, 1, 0, 11)));
    assert_eq!(find_matching_bracket(&b, 0, 11), Some((0, 1, 0, 11)));
    assert_eq!(find_matching_bracket(&b, 0, 12), Some((0, 1, 0, 11)));
    assert_eq!(find_matching_bracket(&b, 0, 8), Some((0, 8, 0, 10)));
    assert_eq!(find_matching_bracket(&b, 0, 0), None);
}

#[test]
fn line_diff_without_a_committed_version() {
    assert_eq!(compute_line_diff(&HeadLookup::NoHead, 3), vec![1, 1, 1]);
    assert_eq!(compute_line_diff(&HeadLookup::NotTracked, 2), vec![1, 1]);
    assert_eq!(compute_line_diff(&HeadLookup::Failed, 2), vec![0, 0]);
    let t = HeadLookup::Texts { committed: s("a\nb\nc"), current: s("a\nc\nz\n") };
    assert_eq!(compute_line_diff(&t, 4), vec![0, 2, 1, 0]);
}

#[test]
fn one_failure_report_per_failed_dependency_command() {
    let deps = Dependencies { npm: vec![s("x")], pip: vec![s("p1"), s("p2")], cargo: vec![], go: vec![s("g")] };
    let steps = dependency_steps(&deps);
    let results = vec![
        StepResult::Succeeded,
        StepResult::Failed { stderr: s("no such package") },
        StepResult::Succeeded,
        StepResult::NotFound { error: s("No such file") },
    ];
    assert_eq!(
        dep_failures(&steps, &results),
        vec![s("pip3 p1: no such package"), s("go not found: No such file")]
    );
    let ok: Vec<StepResult> = steps.iter().map(|_| StepResult::Succeeded).collect();
    assert!(dep_failures(&steps, &ok).is_empty());
}

#[test]
fn unicode_white_space_is_trimmed() {
    for t in ["\u{3000}a\u{85}", "\u{2003} b \t", "\u{a0}c\u{202f}"] {
        let got: String = trim_exec(&str_chars(t)).into_iter().collect();
        assert_eq!(got, t.trim());
    }
}
