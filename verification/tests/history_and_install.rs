use writing_unicorns::extension::installer::{
    clone_dir_name, dep_failure_message, dependency_steps, is_library_extension, lib_file_candidates,
    module_lib_name,
};
use writing_unicorns::extension::manifest::Dependencies;
use writing_unicorns::git::history::{
    blame_entries, branch_ref_name, graph_entries, local_ref_name, merge_step, pull_step, push_refspec,
    short_hash_exec, upstream_ref_name, BlameHunk, BranchTip, CommitSummary, MergeStep, PullStep,
};
use writing_unicorns::git::BranchInfo;

fn s(x: &str) -> String {
    x.to_string()
}

#[test]
fn short_hash_keeps_seven_characters() {
    assert_eq!(short_hash_exec("0123456789abcdef"), "0123456");
    assert_eq!(short_hash_exec("abc"), "abc");
}

#[test]
fn blame_expands_hunks_into_zero_based_lines() {
    let hunks = vec![
        BlameHunk { commit_id: s("abcdef1234567"), author: Some(s("Ann")), start_line: 3, lines: 2 },
        BlameHunk { commit_id: s("123"), author: None, start_line: 1, lines: 1 },
        BlameHunk { commit_id: s("fff"), author: Some(s("Bo")), start_line: 9, lines: 0 },
    ];
    let entries = blame_entries(&hunks);
    let got: Vec<(String, String, usize)> =
        entries.iter().map(|e| (e.commit_short.clone(), e.author.clone(), e.line)).collect();
    assert_eq!(
        got,
        vec![
            (s("abcdef1"), s("Ann"), 2),
            (s("abcdef1"), s("Ann"), 3),
            (s("123"), s("?"), 0),
        ]
    );
}

#[test]
fn graph_lists_at_most_twenty_commits_with_their_branches() {
    let commits: Vec<CommitSummary> = (0..25)
        .map(|i| CommitSummary {
            id: format!("{:040}", i),
            summary: if i == 1 { None } else { Some(format!("commit {}", i)) },
        })
        .collect();
    let tips = vec![
        BranchTip { name: s("main"), target: Some(format!("{:040}", 0)) },
        BranchTip { name: s("origin/main"), target: Some(format!("{:040}", 0)) },
        BranchTip { name: s("feature"), target: Some(format!("{:040}", 2)) },
        BranchTip { name: s("broken"), target: None },
    ];
    let head = Some(format!("{:040}", 0));
    let entries = graph_entries(&commits, &tips, &head);
    assert_eq!(entries.len(), 20);
    assert_eq!(entries[0].short_hash, "0000000");
    assert_eq!(entries[0].message, "commit 0");
    assert_eq!(entries[0].branches, vec![s("main"), s("origin/main")]);
    assert!(entries[0].is_head);
    assert_eq!(entries[1].message, "");
    assert!(entries[1].branches.is_empty());
    assert!(!entries[1].is_head);
    assert_eq!(entries[2].branches, vec![s("feature")]);
    let none = graph_entries(&commits, &tips, &None);
    assert!(!none[0].is_head);
}

#[test]
fn reference_names_follow_git_layout() {
    let remote = BranchInfo { name: s("origin/main"), is_remote: true, is_current: false };
    let local = BranchInfo { name: s("dev"), is_remote: false, is_current: true };
    assert_eq!(branch_ref_name(&remote), "refs/remotes/origin/main");
    assert_eq!(branch_ref_name(&local), "refs/heads/dev");
    assert_eq!(local_ref_name("topic"), "refs/heads/topic");
    assert_eq!(upstream_ref_name("main"), "refs/remotes/origin/main");
    assert_eq!(push_refspec("main"), "refs/heads/main:refs/heads/main");
}

#[test]
fn merge_and_pull_follow_the_analysis() {
    assert_eq!(merge_step(true, true), Ok(MergeStep::FastForward));
    assert_eq!(merge_step(false, true), Ok(MergeStep::Merge));
    assert_eq!(merge_step(false, false), Err(s("Nothing to merge (already up to date)")));
    assert_eq!(pull_step(true, false), Ok(PullStep::FastForward));
    assert_eq!(pull_step(false, true), Ok(PullStep::UpToDate));
    assert_eq!(
        pull_step(false, false),
        Err(s("Cannot fast-forward: diverged history. Please merge manually."))
    );
}

#[test]
fn clone_directory_is_named_after_the_repository() {
    assert_eq!(clone_dir_name("https://github.com/user/my-ext.git"), "my-ext");
    assert_eq!(clone_dir_name("https://github.com/user/my-ext/"), "my-ext");
    assert_eq!(clone_dir_name("https://host/x/tool.git.git//"), "tool");
    assert_eq!(clone_dir_name("plain"), "plain");
    assert_eq!(clone_dir_name(""), "");
}

#[test]
fn library_names_and_files() {
    assert_eq!(module_lib_name("my-cool-ext"), "my_cool_ext");
    assert_eq!(
        lib_file_candidates("my_ext"),
        vec![s("libmy_ext.so"), s("libmy_ext.dylib"), s("my_ext.dll")]
    );
    assert!(is_library_extension("so"));
    assert!(is_library_extension("dll"));
    assert!(is_library_extension("dylib"));
    assert!(!is_library_extension("a"));
    assert!(!is_library_extension("SO"));
}

#[test]
fn dependency_commands_in_install_order() {
    let deps = Dependencies {
        npm: vec![s("typescript"), s("prettier")],
        pip: vec![s("pylsp")],
        cargo: vec![],
        go: vec![s("golang.org/x/tools/gopls@latest")],
    };
    let steps = dependency_steps(&deps);
    assert_eq!(steps.len(), 3);
    assert_eq!(steps[0].program, "npm");
    assert_eq!(steps[0].args, vec![s("install"), s("-g"), s("typescript"), s("prettier")]);
    assert_eq!(steps[0].description, "npm install -g typescript prettier");
    assert_eq!(steps[0].failure_label, "npm");
    assert_eq!(steps[1].program, "pip3");
    assert_eq!(steps[1].args, vec![s("install"), s("pylsp")]);
    assert_eq!(steps[1].description, "pip3 install pylsp");
    assert_eq!(steps[1].failure_label, "pip3 pylsp");
    assert_eq!(steps[2].program, "go");
    assert_eq!(steps[2].description, "go install golang.org/x/tools/gopls@latest");
    assert_eq!(steps[2].failure_label, "go install golang.org/x/tools/gopls@latest");

    let none = Dependencies { npm: vec![], pip: vec![], cargo: vec![s("ripgrep")], go: vec![] };
    let steps = dependency_steps(&none);
    assert_eq!(steps.len(), 1);
    assert_eq!(steps[0].description, "cargo install ripgrep");
    assert_eq!(steps[0].failure_label, "cargo install ripgrep");
}

#[test]
fn dependency_failure_keeps_two_hundred_characters() {
    let deps = Dependencies { npm: vec![s("x")], pip: vec![], cargo: vec![], go: vec![] };
    let steps = dependency_steps(&deps);
    let long = "e".repeat(250);
    let msg = dep_failure_message(&steps[0], &long);
    assert_eq!(msg, format!("npm: {}", "e".repeat(200)));
    assert_eq!(dep_failure_message(&steps[0], "boom"), "npm: boom");
}
