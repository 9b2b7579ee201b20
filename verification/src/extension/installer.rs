//! The progress of extension installs, and how it is logged.
use vstd::prelude::*;

use crate::extension::manifest::Dependencies;
use crate::extension::workspace_toml::{members_of, no_members_reason, parse_workspace_members, toml_parsed};
use crate::text::{
    append_chars, chars_eq, chars_string, decimal, decimal_exec, ends_with, ends_with_exec, owned, slice_chars,
    str_chars, texts, trim_end_char, trim_end_char_exec,
};

verus! {

/// Progress of a workspace or git-group install.
#[derive(Debug, Clone)]
pub enum WorkspaceStatus {
    Idle,
    /// Cloning a git repository.
    Cloning,
    /// Building the whole workspace.
    Building,
    /// Copying one module into the extensions directory.
    Installing { current: String, done: usize, total: usize },
    /// Installing an external dependency for a module.
    InstallingDep { module: String, step: String },
    /// One module failed (the install goes on with the rest).
    ModuleFailed { name: String, reason: String },
    /// All done: `installed` out of `total` modules were installed.
    Done { installed: usize, total: usize },
    Failed(String),
}

/// Progress of a single-repository install.
#[derive(Debug, Clone)]
pub enum InstallStatus {
    Idle,
    Cloning,
    Building,
    Installing,
    /// Installing an external dependency.
    InstallingDep(String),
    Done,
    Failed(String),
}

pub struct InstallJob {
    pub repo_url: String,
    pub status: InstallStatus,
    pub log: Vec<String>,
}

impl InstallJob {
    /// A job for `repo_url` that has not started.
    pub fn new(repo_url: String) -> (j: Self)
        ensures
            j.repo_url == repo_url,
            j.status is Idle,
            j.log@.len() == 0,
    {
        InstallJob { repo_url, status: InstallStatus::Idle, log: Vec::new() }
    }
}

/// The log line for a progress event (empty for `Idle`); the module being
/// installed is counted from one.
pub open spec fn status_log_line(s: WorkspaceStatus) -> Seq<char> {
    match s {
        WorkspaceStatus::Idle => seq![],
        WorkspaceStatus::Cloning => "🔄 Cloning repository…"@,
        WorkspaceStatus::Building => "⚙ Building workspace…"@,
        WorkspaceStatus::Installing { current, done, total } => "📦 ["@ + decimal((done + 1) as nat) + "/"@
            + decimal(total as nat) + "] Installing "@ + current@ + "…"@,
        WorkspaceStatus::InstallingDep { module, step } => "  ↳ ["@ + module@ + "] "@ + step@,
        WorkspaceStatus::ModuleFailed { name, reason } => "⚠ "@ + name@ + ": "@ + reason@,
        WorkspaceStatus::Done { installed, total } => "✓ Done — "@ + decimal(installed as nat) + "/"@
            + decimal(total as nat) + " modules installed"@,
        WorkspaceStatus::Failed(e) => "✗ "@ + e@,
    }
}

fn push_str(out: &mut Vec<char>, s: &str)
    ensures
        final(out)@ == old(out)@ + s@,
{
    append_chars(out, &str_chars(s));
}

/// The log line for a progress event.
pub fn workspace_status_to_log(status: &WorkspaceStatus) -> (r: String)
    requires
        status matches WorkspaceStatus::Installing { done, .. } ==> done < usize::MAX,
    ensures
        r@ == status_log_line(*status),
{
    let mut out: Vec<char> = Vec::new();
    match status {
        WorkspaceStatus::Idle => {
            proof {
                assert(out@ =~= seq![]);
            }
        },
        WorkspaceStatus::Cloning => {
            push_str(&mut out, "🔄 Cloning repository…");
            proof {
                assert(out@ =~= "🔄 Cloning repository…"@);
            }
        },
        WorkspaceStatus::Building => {
            push_str(&mut out, "⚙ Building workspace…");
            proof {
                assert(out@ =~= "⚙ Building workspace…"@);
            }
        },
        WorkspaceStatus::Installing { current, done, total } => {
            push_str(&mut out, "📦 [");
            append_chars(&mut out, &decimal_exec(*done + 1));
            push_str(&mut out, "/");
            append_chars(&mut out, &decimal_exec(*total));
            push_str(&mut out, "] Installing ");
            push_str(&mut out, current.as_str());
            push_str(&mut out, "…");
            proof {
                assert(out@ =~= status_log_line(*status));
            }
        },
        WorkspaceStatus::InstallingDep { module, step } => {
            push_str(&mut out, "  ↳ [");
            push_str(&mut out, module.as_str());
            push_str(&mut out, "] ");
            push_str(&mut out, step.as_str());
            proof {
                assert(out@ =~= status_log_line(*status));
            }
        },
        WorkspaceStatus::ModuleFailed { name, reason } => {
            push_str(&mut out, "⚠ ");
            push_str(&mut out, name.as_str());
            push_str(&mut out, ": ");
            push_str(&mut out, reason.as_str());
            proof {
                assert(out@ =~= status_log_line(*status));
            }
        },
        WorkspaceStatus::Done { installed, total } => {
            push_str(&mut out, "✓ Done — ");
            append_chars(&mut out, &decimal_exec(*installed));
            push_str(&mut out, "/");
            append_chars(&mut out, &decimal_exec(*total));
            push_str(&mut out, " modules installed");
            proof {
                assert(out@ =~= status_log_line(*status));
            }
        },
        WorkspaceStatus::Failed(e) => {
            push_str(&mut out, "✗ ");
            push_str(&mut out, e.as_str());
            proof {
                assert(out@ =~= status_log_line(*status));
            }
        },
    }
    chars_string(&out)
}

} // verus!

verus! {

// ── Where things go ──────────────────────────────────────────────────────────

/// The characters after the last `c` in `s` (all of `s` where it has none).
pub open spec fn last_segment(s: Seq<char>, c: char) -> Seq<char>
    decreases s.len(),
{
    if s.len() == 0 {
        s
    } else if s.last() == c {
        seq![]
    } else {
        last_segment(s.drop_last(), c).push(s.last())
    }
}

/// `s` with every trailing repetition of a non-empty `suffix` removed
/// (`str::trim_end_matches`).
pub open spec fn trim_end_seq(s: Seq<char>, suffix: Seq<char>) -> Seq<char>
    decreases s.len(),
{
    if suffix.len() > 0 && ends_with(s, suffix) {
        trim_end_seq(s.take(s.len() - suffix.len()), suffix)
    } else {
        s
    }
}

/// The name a repository is cloned under: the last segment of its URL,
/// trailing slashes ignored, without any `.git` suffix.
pub open spec fn clone_name(url: Seq<char>) -> Seq<char> {
    trim_end_seq(last_segment(trim_end_char(url, '/'), '/'), ".git"@)
}

fn last_segment_exec(s: &Vec<char>, c: char) -> (r: Vec<char>)
    ensures
        r@ == last_segment(s@, c),
{
    let mut j: usize = s.len();
    proof {
        assert(s@.take(s@.len() as int) =~= s@);
        assert(s@.subrange(s@.len() as int, s@.len() as int) =~= Seq::<char>::empty());
    }
    while j > 0 && s[j - 1] != c
        invariant
            j <= s.len(),
            last_segment(s@, c) == last_segment(s@.take(j as int), c) + s@.subrange(j as int, s@.len() as int),
        decreases j,
    {
        proof {
            let t = s@.take(j as int);
            assert(t.drop_last() =~= s@.take(j - 1));
            assert(s@.subrange(j - 1, s@.len() as int) =~= seq![s@[j - 1]] + s@.subrange(j as int, s@.len() as int));
        }
        j -= 1;
    }
    proof {
        if j == 0 {
            assert(s@.take(0) =~= Seq::<char>::empty());
        }
        assert(last_segment(s@.take(j as int), c) =~= Seq::<char>::empty());
        assert(last_segment(s@, c) =~= s@.subrange(j as int, s@.len() as int));
    }
    slice_chars(s, j, s.len())
}

fn trim_end_seq_exec(s: &Vec<char>, suffix: &Vec<char>) -> (r: Vec<char>)
    ensures
        r@ == trim_end_seq(s@, suffix@),
{
    if suffix.len() == 0 {
        return slice_chars(s, 0, s.len());
    }
    let mut j: usize = s.len();
    proof {
        assert(s@.take(s@.len() as int) =~= s@);
    }
    loop
        invariant
            suffix.len() > 0,
            j <= s.len(),
            trim_end_seq(s@, suffix@) == trim_end_seq(s@.take(j as int), suffix@),
        decreases j,
    {
        let head = slice_chars(s, 0, j);
        if !ends_with_exec(&head, suffix) {
            return head;
        }
        proof {
            assert(head@ =~= s@.take(j as int));
            assert(head@.take(head@.len() - suffix@.len()) =~= s@.take(j - suffix@.len()));
        }
        j -= suffix.len();
    }
}

/// The name a repository is cloned under.
pub fn clone_dir_name(repo_url: &str) -> (r: String)
    ensures
        r@ == clone_name(repo_url@),
{
    let trimmed = trim_end_char_exec(&str_chars(repo_url), '/');
    let seg = last_segment_exec(&trimmed, '/');
    let name = trim_end_seq_exec(&seg, &str_chars(".git"));
    chars_string(&name)
}

/// A module's library name: its name with `-` written `_`.
pub open spec fn lib_name(member: Seq<char>) -> Seq<char> {
    member.map_values(|c: char| if c == '-' { '_' } else { c })
}

pub fn module_lib_name(member: &str) -> (r: String)
    ensures
        r@ == lib_name(member@),
{
    let cs = str_chars(member);
    let mut out: Vec<char> = Vec::new();
    let mut i: usize = 0;
    while i < cs.len()
        invariant
            i <= cs@.len(),
            cs@ == member@,
            out@ == lib_name(cs@.take(i as int)),
        decreases cs.len() - i,
    {
        let c = cs[i];
        out.push(if c == '-' { '_' } else { c });
        i += 1;
        proof {
            assert(lib_name(cs@.take(i as int)) =~= lib_name(cs@.take(i - 1)).push(if c == '-' { '_' } else { c }));
        }
    }
    proof {
        assert(cs@.take(cs@.len() as int) =~= cs@);
    }
    chars_string(&out)
}

/// The file names a built library may have, in the order they are looked for:
/// Linux, macOS, Windows.
pub open spec fn lib_files(name: Seq<char>) -> Seq<Seq<char>> {
    seq!["lib"@ + name + ".so"@, "lib"@ + name + ".dylib"@, name + ".dll"@]
}

pub fn lib_file_candidates(lib_name: &str) -> (r: Vec<String>)
    ensures
        texts(r@) == lib_files(lib_name@),
{
    let n = str_chars(lib_name);
    let mut so = str_chars("lib");
    append_chars(&mut so, &n);
    append_chars(&mut so, &str_chars(".so"));
    let mut dylib = str_chars("lib");
    append_chars(&mut dylib, &n);
    append_chars(&mut dylib, &str_chars(".dylib"));
    let mut dll = slice_chars(&n, 0, n.len());
    append_chars(&mut dll, &str_chars(".dll"));
    proof {
        assert(n@.subrange(0, n@.len() as int) =~= n@);
    }
    let r = vec![chars_string(&so), chars_string(&dylib), chars_string(&dll)];
    proof {
        assert(texts(r@) =~= lib_files(lib_name@));
    }
    r
}

/// Whether a file extension is that of a shared library.
pub fn is_library_extension(ext: &str) -> (b: bool)
    ensures
        b == (ext@ == "so"@ || ext@ == "dll"@ || ext@ == "dylib"@),
{
    let e = str_chars(ext);
    chars_eq(&e, &str_chars("so")) || chars_eq(&e, &str_chars("dll")) || chars_eq(&e, &str_chars("dylib"))
}

// ── External dependencies ────────────────────────────────────────────────────

/// One command that installs external dependencies of a module.
#[derive(Debug, Clone)]
pub struct DepStep {
    pub program: String,
    pub args: Vec<String>,
    /// The progress line shown while it runs.
    pub description: String,
    /// What its failure is reported as, before the error output.
    pub failure_label: String,
}

/// A step as plain values: program, arguments, description, failure label.
pub open spec fn step_row(s: DepStep) -> (Seq<char>, Seq<Seq<char>>, Seq<char>, Seq<char>) {
    (s.program@, texts(s.args@), s.description@, s.failure_label@)
}

/// Words separated by single spaces.
pub open spec fn spaced(words: Seq<Seq<char>>) -> Seq<char>
    decreases words.len(),
{
    if words.len() == 0 {
        seq![]
    } else if words.len() == 1 {
        words[0]
    } else {
        spaced(words.drop_last()) + " "@ + words.last()
    }
}

/// The one npm command that installs all npm packages globally.
pub open spec fn npm_row(pkgs: Seq<Seq<char>>) -> (Seq<char>, Seq<Seq<char>>, Seq<char>, Seq<char>) {
    ("npm"@, seq!["install"@, "-g"@] + pkgs, "npm install -g "@ + spaced(pkgs), "npm"@)
}

/// The command that installs one Python package.
pub open spec fn pip_row(p: Seq<char>) -> (Seq<char>, Seq<Seq<char>>, Seq<char>, Seq<char>) {
    ("pip3"@, seq!["install"@, p], "pip3 install "@ + p, "pip3 "@ + p)
}

/// The command that installs one crate.
pub open spec fn cargo_row(p: Seq<char>) -> (Seq<char>, Seq<Seq<char>>, Seq<char>, Seq<char>) {
    ("cargo"@, seq!["install"@, p], "cargo install "@ + p, "cargo install "@ + p)
}

/// The command that installs one Go tool.
pub open spec fn go_row(p: Seq<char>) -> (Seq<char>, Seq<Seq<char>>, Seq<char>, Seq<char>) {
    ("go"@, seq!["install"@, p], "go install "@ + p, "go install "@ + p)
}

/// The commands that install a module's dependencies, in order: npm (one
/// command for all packages, when there are any), then pip, cargo and go,
/// one command per package.
pub open spec fn dep_steps(d: Dependencies) -> Seq<(Seq<char>, Seq<Seq<char>>, Seq<char>, Seq<char>)> {
    (if d.npm@.len() == 0 {
        seq![]
    } else {
        seq![npm_row(texts(d.npm@))]
    }) + texts(d.pip@).map_values(|p: Seq<char>| pip_row(p)) + texts(d.cargo@).map_values(|p: Seq<char>| cargo_row(p))
        + texts(d.go@).map_values(|p: Seq<char>| go_row(p))
}

fn word_list(v: &Vec<String>) -> (r: Vec<char>)
    ensures
        r@ == spaced(texts(v@)),
{
    let mut r: Vec<char> = Vec::new();
    let mut i: usize = 0;
    while i < v.len()
        invariant
            i <= v@.len(),
            r@ == spaced(texts(v@).take(i as int)),
        decreases v.len() - i,
    {
        proof {
            assert(texts(v@).take(i + 1).drop_last() =~= texts(v@).take(i as int));
        }
        if i > 0 {
            append_chars(&mut r, &str_chars(" "));
        }
        append_chars(&mut r, &str_chars(v[i].as_str()));
        i += 1;
        proof {
            if i == 1 {
                assert(texts(v@).take(0) =~= Seq::<Seq<char>>::empty());
            }
        }
    }
    proof {
        assert(texts(v@).take(v@.len() as int) =~= texts(v@));
    }
    r
}

fn copy_strings(v: &Vec<String>) -> (r: Vec<String>)
    ensures
        texts(r@) == texts(v@),
{
    let mut r: Vec<String> = Vec::new();
    let mut i: usize = 0;
    while i < v.len()
        invariant
            i <= v@.len(),
            texts(r@) == texts(v@).take(i as int),
        decreases v.len() - i,
    {
        let ghost before = r@;
        r.push(v[i].clone());
        i += 1;
        proof {
            assert(texts(r@) =~= texts(before).push(v@[i - 1]@));
            assert(texts(v@).take(i as int) =~= texts(v@).take(i - 1).push(v@[i - 1]@));
        }
    }
    proof {
        assert(texts(v@).take(v@.len() as int) =~= texts(v@));
    }
    r
}

fn joined(a: &str, b: &str) -> (r: String)
    ensures
        r@ == a@ + b@,
{
    let mut cs = str_chars(a);
    append_chars(&mut cs, &str_chars(b));
    chars_string(&cs)
}

/// One step per package of a list: `program install <pkg>`, described by
/// `description_prefix` and the package, labelled by `label_prefix` and it.
fn per_package_steps(
    out: &mut Vec<DepStep>,
    pkgs: &Vec<String>,
    program: &str,
    description_prefix: &str,
    label_prefix: &str,
    Ghost(row): Ghost<spec_fn(Seq<char>) -> (Seq<char>, Seq<Seq<char>>, Seq<char>, Seq<char>)>,
)
    requires
        forall|p: Seq<char>| #[trigger] row(p) == (program@, seq!["install"@, p], description_prefix@ + p, label_prefix@ + p),
    ensures
        final(out)@.map_values(|s: DepStep| step_row(s)) == old(out)@.map_values(|s: DepStep| step_row(s)) + texts(pkgs@).map_values(row),
{
    let ghost base = out@.map_values(|s: DepStep| step_row(s));
    let mut i: usize = 0;
    while i < pkgs.len()
        invariant
            i <= pkgs@.len(),
            forall|p: Seq<char>| #[trigger] row(p) == (program@, seq!["install"@, p], description_prefix@ + p, label_prefix@ + p),
            out@.map_values(|s: DepStep| step_row(s)) == base + texts(pkgs@).take(i as int).map_values(row),
        decreases pkgs.len() - i,
    {
        let p = &pkgs[i];
        let args = vec![owned("install"), p.clone()];
        let step = DepStep {
            program: owned(program),
            args,
            description: joined(description_prefix, p.as_str()),
            failure_label: joined(label_prefix, p.as_str()),
        };
        let ghost before = out@;
        proof {
            assert(texts(step.args@) =~= seq!["install"@, p@]);
            assert(step_row(step) == row(p@));
        }
        out.push(step);
        i += 1;
        proof {
            assert(out@.map_values(|s: DepStep| step_row(s)) =~= before.map_values(|s: DepStep| step_row(s)).push(row(p@)));
            assert(texts(pkgs@).take(i as int).map_values(row) =~= texts(pkgs@).take(i - 1).map_values(row).push(row(p@)));
        }
    }
    proof {
        assert(texts(pkgs@).take(pkgs@.len() as int) =~= texts(pkgs@));
    }
}

/// The commands that install a module's external dependencies.
pub fn dependency_steps(deps: &Dependencies) -> (r: Vec<DepStep>)
    ensures
        r@.map_values(|s: DepStep| step_row(s)) == dep_steps(*deps),
{
    let mut r: Vec<DepStep> = Vec::new();
    if deps.npm.len() > 0 {
        let mut args = vec![owned("install"), owned("-g")];
        let pkgs = copy_strings(&deps.npm);
        let ghost a0 = args@;
        let mut k: usize = 0;
        while k < pkgs.len()
            invariant
                k <= pkgs@.len(),
                texts(args@) == texts(a0) + texts(pkgs@).take(k as int),
            decreases pkgs.len() - k,
        {
            let ghost before = args@;
            args.push(pkgs[k].clone());
            k += 1;
            proof {
                assert(texts(args@) =~= texts(before).push(pkgs@[k - 1]@));
                assert(texts(pkgs@).take(k as int) =~= texts(pkgs@).take(k - 1).push(pkgs@[k - 1]@));
            }
        }
        let mut desc = str_chars("npm install -g ");
        append_chars(&mut desc, &word_list(&deps.npm));
        let step = DepStep {
            program: owned("npm"),
            args,
            description: chars_string(&desc),
            failure_label: owned("npm"),
        };
        proof {
            assert(texts(pkgs@).take(pkgs@.len() as int) =~= texts(pkgs@));
            assert(texts(a0) =~= seq!["install"@, "-g"@]);
            assert(step_row(step) == npm_row(texts(deps.npm@)));
        }
        r.push(step);
    }
    let ghost first = r@.map_values(|s: DepStep| step_row(s));
    proof {
        assert(first =~= (if deps.npm@.len() == 0 {
            seq![]
        } else {
            seq![npm_row(texts(deps.npm@))]
        }));
    }
    per_package_steps(&mut r, &deps.pip, "pip3", "pip3 install ", "pip3 ", Ghost(|p: Seq<char>| pip_row(p)));
    per_package_steps(&mut r, &deps.cargo, "cargo", "cargo install ", "cargo install ", Ghost(|p: Seq<char>| cargo_row(p)));
    per_package_steps(&mut r, &deps.go, "go", "go install ", "go install ", Ghost(|p: Seq<char>| go_row(p)));
    r
}

/// Characters of error output kept in a dependency failure report.
pub const DEP_ERROR_EXCERPT: usize = 200;

/// The report of a failed step: its label, `: `, and the first two hundred
/// characters of its error output.
pub fn dep_failure_message(step: &DepStep, stderr: &str) -> (r: String)
    ensures
        r@ == step.failure_label@ + ": "@ + (if stderr@.len() <= DEP_ERROR_EXCERPT {
            stderr@
        } else {
            stderr@.take(DEP_ERROR_EXCERPT as int)
        }),
{
    let mut cs = str_chars(step.failure_label.as_str());
    append_chars(&mut cs, &str_chars(": "));
    let e = str_chars(stderr);
    let n = if e.len() <= DEP_ERROR_EXCERPT { e.len() } else { DEP_ERROR_EXCERPT };
    append_chars(&mut cs, &slice_chars(&e, 0, n));
    proof {
        if e@.len() <= DEP_ERROR_EXCERPT {
            assert(e@.subrange(0, n as int) =~= e@);
        }
    }
    chars_string(&cs)
}

/// Characters of the build's error output kept in a workspace failure.
pub const BUILD_ERROR_EXCERPT: usize = 400;

/// How building the whole workspace went.
pub enum BuildOutcome {
    Succeeded,
    /// The build ran and failed, with this error output.
    Failed { stderr: String },
    /// The build tool could not be run, for this reason.
    NotRun { error: String },
}

/// How installing one module went.
pub enum ModuleOutcome {
    /// It could not be installed, for this reason.
    Failed(String),
    /// It was installed; the dependency steps that ran, and the failures of
    /// those that failed.
    Installed { steps: Vec<String>, dep_errors: Vec<String> },
}

/// A progress event as plain values: its kind (in declaration order), two
/// texts and two numbers, each where the kind has it.
pub open spec fn status_view(s: WorkspaceStatus) -> (int, Seq<char>, Seq<char>, int, int) {
    match s {
        WorkspaceStatus::Idle => (0, seq![], seq![], 0, 0),
        WorkspaceStatus::Cloning => (1, seq![], seq![], 0, 0),
        WorkspaceStatus::Building => (2, seq![], seq![], 0, 0),
        WorkspaceStatus::Installing { current, done, total } => (3, current@, seq![], done as int, total as int),
        WorkspaceStatus::InstallingDep { module, step } => (4, module@, step@, 0, 0),
        WorkspaceStatus::ModuleFailed { name, reason } => (5, name@, reason@, 0, 0),
        WorkspaceStatus::Done { installed, total } => (6, seq![], seq![], installed as int, total as int),
        WorkspaceStatus::Failed(e) => (7, e@, seq![], 0, 0),
    }
}

/// The events of one module, the `i`-th of `n`: it is being installed; then
/// either its failure, or each dependency step that ran and each dependency
/// failure (which does not undo the install).
pub open spec fn module_events(m: Seq<char>, i: int, n: int, o: ModuleOutcome) -> Seq<(int, Seq<char>, Seq<char>, int, int)> {
    seq![(3, m, seq![], i, n)] + match o {
        ModuleOutcome::Failed(reason) => seq![(5, m, reason@, 0, 0)],
        ModuleOutcome::Installed { steps, dep_errors } => texts(steps@).map_values(
            |st: Seq<char>| (4, m, st, 0, 0),
        ) + texts(dep_errors@).map_values(|e: Seq<char>| (5, m, "dependency error: "@ + e, 0, 0)),
    }
}

/// The events of the first `k` modules, in order.
pub open spec fn modules_events(ms: Seq<Seq<char>>, os: Seq<ModuleOutcome>, k: int, n: int) -> Seq<
    (int, Seq<char>, Seq<char>, int, int),
>
    decreases k,
{
    if k <= 0 {
        seq![]
    } else {
        modules_events(ms, os, k - 1, n) + module_events(ms[k - 1], k - 1, n, os[k - 1])
    }
}

/// How many of the first `k` modules were installed.
pub open spec fn installed_count(os: Seq<ModuleOutcome>, k: int) -> nat
    decreases k,
{
    if k <= 0 {
        0
    } else {
        installed_count(os, k - 1) + if os[k - 1] is Installed { 1nat } else { 0nat }
    }
}

/// The first characters of `s`, at most `n`.
pub open spec fn excerpt(s: Seq<char>, n: nat) -> Seq<char> {
    if s.len() <= n { s } else { s.take(n as int) }
}

/// The events of a workspace install: a workspace without modules fails at
/// once; otherwise the build is announced, and a failed build ends it; after a
/// build, each module is installed in turn (a module's failure does not stop
/// the others) and the install ends with how many of all were installed.
pub open spec fn install_trace(ms: Seq<Seq<char>>, build: BuildOutcome, os: Seq<ModuleOutcome>) -> Seq<
    (int, Seq<char>, Seq<char>, int, int),
> {
    if ms.len() == 0 {
        seq![(7, "No modules with manifest.toml found in this workspace."@, seq![], 0, 0)]
    } else {
        seq![(2, seq![], seq![], 0, 0)] + match build {
            BuildOutcome::Succeeded => modules_events(ms, os, ms.len() as int, ms.len() as int) + seq![
                (6, seq![], seq![], installed_count(os, ms.len() as int) as int, ms.len() as int),
            ],
            BuildOutcome::Failed { stderr } => seq![
                (7, "Build failed:\n"@ + excerpt(stderr@, BUILD_ERROR_EXCERPT as nat), seq![], 0, 0),
            ],
            BuildOutcome::NotRun { error } => seq![(7, "Cannot run cargo: "@ + error@, seq![], 0, 0)],
        }
    }
}

fn push_module_events(
    out: &mut Vec<WorkspaceStatus>,
    m: &String,
    i: usize,
    n: usize,
    o: &ModuleOutcome,
)
    ensures
        final(out)@.map_values(|x: WorkspaceStatus| status_view(x)) == old(out)@.map_values(
            |x: WorkspaceStatus| status_view(x),
        ) + module_events(m@, i as int, n as int, *o),
{
    let ghost base = out@.map_values(|x: WorkspaceStatus| status_view(x));
    out.push(WorkspaceStatus::Installing { current: m.clone(), done: i, total: n });
    proof {
        assert(out@.map_values(|x: WorkspaceStatus| status_view(x)) =~= base + seq![(3, m@, seq![], i as int, n as int)]);
    }
    match o {
        ModuleOutcome::Failed(reason) => {
            let ghost b = out@.map_values(|x: WorkspaceStatus| status_view(x));
            out.push(WorkspaceStatus::ModuleFailed { name: m.clone(), reason: reason.clone() });
            proof {
                assert(out@.map_values(|x: WorkspaceStatus| status_view(x)) =~= b.push((5, m@, reason@, 0, 0)));
                assert(module_events(m@, i as int, n as int, *o) =~= seq![(3, m@, seq![], i as int, n as int)] + seq![
                    (5, m@, reason@, 0, 0),
                ]);
            }
        },
        ModuleOutcome::Installed { steps, dep_errors } => {
            let ghost b = out@.map_values(|x: WorkspaceStatus| status_view(x));
            let ghost f = |st: Seq<char>| (4int, m@, st, 0int, 0int);
            let mut k: usize = 0;
            while k < steps.len()
                invariant
                    k <= steps@.len(),
                    f == (|st: Seq<char>| (4int, m@, st, 0int, 0int)),
                    out@.map_values(|x: WorkspaceStatus| status_view(x)) == b + texts(steps@).take(k as int).map_values(f),
                decreases steps.len() - k,
            {
                let ghost before = out@;
                out.push(WorkspaceStatus::InstallingDep { module: m.clone(), step: steps[k].clone() });
                k += 1;
                proof {
                    assert(out@.map_values(|x: WorkspaceStatus| status_view(x)) =~= before.map_values(
                        |x: WorkspaceStatus| status_view(x),
                    ).push(f(steps@[k - 1]@)));
                    assert(texts(steps@).take(k as int).map_values(f) =~= texts(steps@).take(k - 1).map_values(f).push(
                        f(steps@[k - 1]@),
                    ));
                }
            }
            proof {
                assert(texts(steps@).take(steps@.len() as int) =~= texts(steps@));
            }
            let ghost b2 = out@.map_values(|x: WorkspaceStatus| status_view(x));
            let ghost g = |e: Seq<char>| (5int, m@, "dependency error: "@ + e, 0int, 0int);
            let mut k: usize = 0;
            while k < dep_errors.len()
                invariant
                    k <= dep_errors@.len(),
                    g == (|e: Seq<char>| (5int, m@, "dependency error: "@ + e, 0int, 0int)),
                    out@.map_values(|x: WorkspaceStatus| status_view(x)) == b2 + texts(dep_errors@).take(k as int).map_values(g),
                decreases dep_errors.len() - k,
            {
                let ghost before = out@;
                out.push(WorkspaceStatus::ModuleFailed { name: m.clone(), reason: joined("dependency error: ", dep_errors[k].as_str()) });
                k += 1;
                proof {
                    assert(out@.map_values(|x: WorkspaceStatus| status_view(x)) =~= before.map_values(
                        |x: WorkspaceStatus| status_view(x),
                    ).push(g(dep_errors@[k - 1]@)));
                    assert(texts(dep_errors@).take(k as int).map_values(g) =~= texts(dep_errors@).take(k - 1).map_values(
                        g,
                    ).push(g(dep_errors@[k - 1]@)));
                }
            }
            proof {
                assert(texts(dep_errors@).take(dep_errors@.len() as int) =~= texts(dep_errors@));
                assert(module_events(m@, i as int, n as int, *o) =~= seq![(3, m@, seq![], i as int, n as int)]
                    + texts(steps@).map_values(f) + texts(dep_errors@).map_values(g));
            }
        },
    }
}

/// The members a workspace's Cargo.toml text lists; when it lists none, or is
/// no TOML document, the status the install ends with instead:
/// `Invalid workspace: ` and the reason.
pub fn workspace_members_or_failure(cargo_toml: &str) -> (r: Result<Vec<String>, WorkspaceStatus>)
    ensures
        match toml_parsed(cargo_toml@) {
            Some(v) => match members_of(v) {
                Some(ms) => r matches Ok(x) && texts(x@) == ms,
                None => r matches Err(WorkspaceStatus::Failed(m)) && m@ == "Invalid workspace: "@ + no_members_reason(),
            },
            None => r matches Err(WorkspaceStatus::Failed(m)) && m@.len() >= "Invalid workspace: "@.len()
                && m@.take("Invalid workspace: "@.len() as int) == "Invalid workspace: "@,
        },
{
    match parse_workspace_members(cargo_toml) {
        Ok(ms) => Ok(ms),
        Err(e) => {
            let m = joined("Invalid workspace: ", e.as_str());
            proof {
                assert(m@.take("Invalid workspace: "@.len() as int) =~= "Invalid workspace: "@);
            }
            Err(WorkspaceStatus::Failed(m))
        },
    }
}

/// The progress events of installing a workspace, from what each step
/// brought (see `install_trace`): `modules` are the members that have a
/// manifest, `outcomes` how installing each went.
pub fn workspace_install_trace(modules: &Vec<String>, build: &BuildOutcome, outcomes: &Vec<ModuleOutcome>) -> (r: Vec<
    WorkspaceStatus,
>)
    requires
        outcomes@.len() == modules@.len(),
    ensures
        r@.map_values(|x: WorkspaceStatus| status_view(x)) == install_trace(texts(modules@), *build, outcomes@),
{
    let mut out: Vec<WorkspaceStatus> = Vec::new();
    let n = modules.len();
    if n == 0 {
        out.push(WorkspaceStatus::Failed(owned("No modules with manifest.toml found in this workspace.")));
        proof {
            assert(out@.map_values(|x: WorkspaceStatus| status_view(x)) =~= install_trace(texts(modules@), *build, outcomes@));
        }
        return out;
    }
    out.push(WorkspaceStatus::Building);
    match build {
        BuildOutcome::Failed { stderr } => {
            let e = str_chars(stderr.as_str());
            let k = if e.len() <= BUILD_ERROR_EXCERPT { e.len() } else { BUILD_ERROR_EXCERPT };
            let mut msg = str_chars("Build failed:\n");
            append_chars(&mut msg, &slice_chars(&e, 0, k));
            proof {
                if e@.len() <= BUILD_ERROR_EXCERPT {
                    assert(e@.subrange(0, k as int) =~= e@);
                }
            }
            out.push(WorkspaceStatus::Failed(chars_string(&msg)));
            proof {
                assert(out@.map_values(|x: WorkspaceStatus| status_view(x)) =~= install_trace(texts(modules@), *build, outcomes@));
            }
            return out;
        },
        BuildOutcome::NotRun { error } => {
            out.push(WorkspaceStatus::Failed(joined("Cannot run cargo: ", error.as_str())));
            proof {
                assert(out@.map_values(|x: WorkspaceStatus| status_view(x)) =~= install_trace(texts(modules@), *build, outcomes@));
            }
            return out;
        },
        BuildOutcome::Succeeded => {},
    }
    let ghost ms = texts(modules@);
    let mut installed: usize = 0;
    let mut i: usize = 0;
    proof {
        assert(out@.map_values(|x: WorkspaceStatus| status_view(x)) =~= seq![(2, seq![], seq![], 0int, 0int)] + modules_events(
            ms,
            outcomes@,
            0,
            n as int,
        ));
    }
    while i < n
        invariant
            i <= n,
            n == modules@.len(),
            outcomes@.len() == n,
            ms == texts(modules@),
            installed as nat == installed_count(outcomes@, i as int),
            installed <= i,
            out@.map_values(|x: WorkspaceStatus| status_view(x)) == seq![(2, seq![], seq![], 0int, 0int)] + modules_events(
                ms,
                outcomes@,
                i as int,
                n as int,
            ),
        decreases n - i,
    {
        let ghost before = out@.map_values(|x: WorkspaceStatus| status_view(x));
        push_module_events(&mut out, &modules[i], i, n, &outcomes[i]);
        match &outcomes[i] {
            ModuleOutcome::Installed { .. } => {
                installed += 1;
            },
            ModuleOutcome::Failed(_) => {},
        }
        i += 1;
        proof {
            assert(ms[i - 1] == modules@[i - 1]@);
            assert(out@.map_values(|x: WorkspaceStatus| status_view(x)) =~= seq![(2, seq![], seq![], 0int, 0int)]
                + modules_events(ms, outcomes@, i as int, n as int));
        }
    }
    let ghost before = out@.map_values(|x: WorkspaceStatus| status_view(x));
    out.push(WorkspaceStatus::Done { installed, total: n });
    proof {
        assert(out@.map_values(|x: WorkspaceStatus| status_view(x)) =~= before.push(
            (6, seq![], seq![], installed as int, n as int),
        ));
        assert(out@.map_values(|x: WorkspaceStatus| status_view(x)) =~= install_trace(texts(modules@), *build, outcomes@));
    }
    out
}

/// How running one dependency step went.
pub enum StepResult {
    Succeeded,
    /// The command ran and failed, with this error output.
    Failed { stderr: String },
    /// The program could not be run, for this reason.
    NotFound { error: String },
}

/// The failure report of a step, if it failed: its label and the start of
/// its error output, or that its program was not found.
pub open spec fn failure_text(st: DepStep, r: StepResult) -> Option<Seq<char>> {
    match r {
        StepResult::Succeeded => None,
        StepResult::Failed { stderr } => Some(
            st.failure_label@ + ": "@ + excerpt(stderr@, DEP_ERROR_EXCERPT as nat),
        ),
        StepResult::NotFound { error } => Some(st.program@ + " not found: "@ + error@),
    }
}

/// The failure reports of the first `k` steps, in order: one per failed step.
pub open spec fn failures(steps: Seq<DepStep>, results: Seq<StepResult>, k: int) -> Seq<Seq<char>>
    decreases k,
{
    if k <= 0 {
        seq![]
    } else {
        failures(steps, results, k - 1) + match failure_text(steps[k - 1], results[k - 1]) {
            Some(t) => seq![t],
            None => seq![],
        }
    }
}

/// What installing the dependencies reports: one failure report per step
/// that failed, in order; none when every step ran and succeeded.
pub fn dep_failures(steps: &Vec<DepStep>, results: &Vec<StepResult>) -> (r: Vec<String>)
    requires
        results@.len() == steps@.len(),
    ensures
        texts(r@) == failures(steps@, results@, steps@.len() as int),
{
    let mut r: Vec<String> = Vec::new();
    let mut i: usize = 0;
    while i < steps.len()
        invariant
            i <= steps@.len(),
            results@.len() == steps@.len(),
            texts(r@) == failures(steps@, results@, i as int),
        decreases steps.len() - i,
    {
        let ghost before = texts(r@);
        match &results[i] {
            StepResult::Succeeded => {},
            StepResult::Failed { stderr } => {
                let m = dep_failure_message(&steps[i], stderr.as_str());
                r.push(m);
                proof {
                    assert(texts(r@) =~= before.push(m@));
                }
            },
            StepResult::NotFound { error } => {
                let mut cs = str_chars(steps[i].program.as_str());
                append_chars(&mut cs, &str_chars(" not found: "));
                append_chars(&mut cs, &str_chars(error.as_str()));
                let m = chars_string(&cs);
                r.push(m);
                proof {
                    assert(texts(r@) =~= before.push(m@));
                }
            },
        }
        i += 1;
        proof {
            assert(failures(steps@, results@, i as int) =~= before + match failure_text(steps@[i - 1], results@[i - 1]) {
                Some(t) => seq![t],
                None => seq![],
            });
        }
    }
    r
}

} // verus!
