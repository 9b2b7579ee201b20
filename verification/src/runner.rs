//! Run configurations: variable substitution, the shell command line and the
//! configurations detected from a workspace's contents.
use vstd::prelude::*;

use crate::paths::{file_stem_of, parent_of, path_file_stem, path_parent};
use crate::text::{
    append_chars, chars_string, contains, contains_exec, copy_string, owned, replace_all,
    replace_all_exec, str_chars,
};

verus! {

/// A single run configuration (like VSCode's launch.json entry)
#[derive(Debug, Clone)]
pub struct RunConfig {
    pub name: String,
    pub command: String,
    pub cwd: String,
    pub env: Vec<(String, String)>,
    pub args: Vec<String>,
}

#[derive(Debug, Clone)]
pub struct ResolvedRun {
    pub command: String,
    pub cwd: String,
    pub env: Vec<(String, String)>,
}

/// The texts of a list of strings.
pub open spec fn strings_view(v: Seq<String>) -> Seq<Seq<char>> {
    v.map_values(|s: String| s@)
}

/// The texts of a list of string pairs.
pub open spec fn pairs_view(v: Seq<(String, String)>) -> Seq<(Seq<char>, Seq<char>)> {
    v.map_values(|p: (String, String)| (p.0@, p.1@))
}

fn copy_strings(v: &Vec<String>) -> (r: Vec<String>)
    ensures
        strings_view(r@) == strings_view(v@),
{
    let mut r: Vec<String> = Vec::new();
    let mut i: usize = 0;
    while i < v.len()
        invariant
            i <= v.len(),
            strings_view(r@) == strings_view(v@.take(i as int)),
        decreases v.len() - i,
    {
        let ghost before = r@;
        r.push(copy_string(&v[i]));
        proof {
            assert(strings_view(r@) =~= strings_view(before).push(v@[i as int]@));
            assert(strings_view(v@.take(i + 1)) =~= strings_view(v@.take(i as int)).push(v@[i as int]@));
        }
        i += 1;
    }
    proof {
        assert(v@.take(v@.len() as int) =~= v@);
    }
    r
}

fn copy_pairs(v: &Vec<(String, String)>) -> (r: Vec<(String, String)>)
    ensures
        pairs_view(r@) == pairs_view(v@),
{
    let mut r: Vec<(String, String)> = Vec::new();
    let mut i: usize = 0;
    while i < v.len()
        invariant
            i <= v.len(),
            pairs_view(r@) == pairs_view(v@.take(i as int)),
        decreases v.len() - i,
    {
        let ghost before = r@;
        r.push((copy_string(&v[i].0), copy_string(&v[i].1)));
        proof {
            assert(pairs_view(r@) =~= pairs_view(before).push((v@[i as int].0@, v@[i as int].1@)));
            assert(pairs_view(v@.take(i + 1)) =~= pairs_view(v@.take(i as int)).push((v@[i as int].0@, v@[i as int].1@)));
        }
        i += 1;
    }
    proof {
        assert(v@.take(v@.len() as int) =~= v@);
    }
    r
}

/// The values the four variables stand for.
pub struct RunVars {
    pub workspace: Seq<char>,
    pub file: Seq<char>,
    pub file_dir: Seq<char>,
    pub file_name: Seq<char>,
}

/// `s` with `${workspaceRoot}`, `${file}`, `${fileDir}` and `${fileName}`
/// replaced, in that order.
pub open spec fn substitute(s: Seq<char>, v: RunVars) -> Seq<char> {
    replace_all(
        replace_all(
            replace_all(replace_all(s, "${workspaceRoot}"@, v.workspace), "${file}"@, v.file),
            "${fileDir}"@,
            v.file_dir,
        ),
        "${fileName}"@,
        v.file_name,
    )
}

/// The substituted command followed by each substituted argument after a space.
pub open spec fn command_line(command: Seq<char>, args: Seq<Seq<char>>, v: RunVars) -> Seq<char>
    decreases args.len(),
{
    if args.len() == 0 {
        substitute(command, v)
    } else {
        command_line(command, args.drop_last(), v) + seq![' '] + substitute(args.last(), v)
    }
}

fn lit(s: &str) -> (v: Vec<char>)
    ensures
        v@ == s@,
{
    str_chars(s)
}

fn substitute_exec(s: &Vec<char>, ws: &Vec<char>, file: &Vec<char>, dir: &Vec<char>, name: &Vec<char>) -> (r: Vec<char>)
    ensures
        r@ == substitute(s@, RunVars { workspace: ws@, file: file@, file_dir: dir@, file_name: name@ }),
{
    let p1 = lit("${workspaceRoot}");
    let p2 = lit("${file}");
    let p3 = lit("${fileDir}");
    let p4 = lit("${fileName}");
    proof {
        reveal_strlit("${workspaceRoot}");
        reveal_strlit("${file}");
        reveal_strlit("${fileDir}");
        reveal_strlit("${fileName}");
    }
    let a = replace_all_exec(s, &p1, ws);
    let b = replace_all_exec(&a, &p2, file);
    let c = replace_all_exec(&b, &p3, dir);
    replace_all_exec(&c, &p4, name)
}

impl RunConfig {
    /// The command line and working directory with the variables replaced by
    /// the given values; the environment is copied.
    pub fn resolve_with(&self, ws: &str, file: &str, file_dir: &str, file_name: &str) -> (r: ResolvedRun)
        ensures
            ({
                let v = RunVars { workspace: ws@, file: file@, file_dir: file_dir@, file_name: file_name@ };
                &&& r.command@ == command_line(self.command@, strings_view(self.args@), v)
                &&& r.cwd@ == substitute(self.cwd@, v)
                &&& pairs_view(r.env@) == pairs_view(self.env@)
            }),
    {
        let ws = str_chars(ws);
        let file = str_chars(file);
        let dir = str_chars(file_dir);
        let name = str_chars(file_name);
        let ghost v = RunVars { workspace: ws@, file: file@, file_dir: dir@, file_name: name@ };
        let cmd = str_chars(self.command.as_str());
        let mut full = substitute_exec(&cmd, &ws, &file, &dir, &name);
        let mut i: usize = 0;
        while i < self.args.len()
            invariant
                i <= self.args.len(),
                v == (RunVars { workspace: ws@, file: file@, file_dir: dir@, file_name: name@ }),
                full@ == command_line(self.command@, strings_view(self.args@).take(i as int), v),
            decreases self.args.len() - i,
        {
            full.push(' ');
            let a = str_chars(self.args[i].as_str());
            let sa = substitute_exec(&a, &ws, &file, &dir, &name);
            append_chars(&mut full, &sa);
            proof {
                let t = strings_view(self.args@).take(i + 1);
                assert(t.drop_last() =~= strings_view(self.args@).take(i as int));
            }
            i += 1;
        }
        proof {
            assert(strings_view(self.args@).take(self.args@.len() as int) =~= strings_view(self.args@));
        }
        let cwd = str_chars(self.cwd.as_str());
        let cwd = substitute_exec(&cwd, &ws, &file, &dir, &name);
        ResolvedRun { command: chars_string(&full), cwd: chars_string(&cwd), env: copy_pairs(&self.env) }
    }

    /// Resolve variables in command/cwd: `${workspaceRoot}` → workspace path,
    /// `${file}` → current file path, `${fileDir}` → current file's directory
    /// (the workspace when there is none), `${fileName}` → current file name
    /// without extension.
    pub fn resolve(&self, workspace: Option<&str>, current_file: Option<&str>) -> (r: ResolvedRun)
        ensures
            resolved_with(*self, run_vars(workspace, current_file), r),
    {
        proof {
            reveal_strlit("");
        }
        let ws: String = match workspace {
            Some(w) => owned(w),
            None => String::new(),
        };
        let file: String = match current_file {
            Some(f) => owned(f),
            None => String::new(),
        };
        let file_dir: String = match current_file {
            Some(f) => match path_parent(f) {
                Some(p) => p,
                None => copy_string(&ws),
            },
            None => copy_string(&ws),
        };
        let file_name: String = match current_file {
            Some(f) => match path_file_stem(f) {
                Some(s) => s,
                None => String::new(),
            },
            None => String::new(),
        };
        let r = self.resolve_with(ws.as_str(), file.as_str(), file_dir.as_str(), file_name.as_str());
        proof {
            assert(ws@ =~= opt_text(workspace));
            assert(file@ =~= opt_text(current_file));
            assert(run_vars(workspace, current_file) == (RunVars { workspace: ws@, file: file@, file_dir: file_dir@, file_name: file_name@ }));
        }
        r
    }
}

/// The text of an optional string; empty when absent.
pub open spec fn opt_text(o: Option<&str>) -> Seq<char> {
    match o {
        Some(s) => s@,
        None => seq![],
    }
}

/// The variable values `resolve` substitutes: the workspace (empty when
/// absent); the current file (empty when absent); its parent directory, or the
/// workspace when there is no file or no parent; its file stem, or empty.
pub open spec fn run_vars(workspace: Option<&str>, current_file: Option<&str>) -> RunVars {
    let ws = opt_text(workspace);
    RunVars {
        workspace: ws,
        file: opt_text(current_file),
        file_dir: match current_file {
            Some(f) => match parent_of(f@) {
                Some(p) => p,
                None => ws,
            },
            None => ws,
        },
        file_name: match current_file {
            Some(f) => match file_stem_of(f@) {
                Some(n) => n,
                None => seq![],
            },
            None => seq![],
        },
    }
}

/// `r` is configuration `c` with the variables replaced by the values `v`.
pub open spec fn resolved_with(c: RunConfig, v: RunVars, r: ResolvedRun) -> bool {
    &&& r.command@ == command_line(c.command@, strings_view(c.args@), v)
    &&& r.cwd@ == substitute(c.cwd@, v)
    &&& pairs_view(r.env@) == pairs_view(c.env@)
}

/// `s` wrapped in double quotes, with `"` escaped, when it holds a space or a
/// parenthesis; otherwise unchanged.
pub open spec fn shell_escaped(s: Seq<char>) -> Seq<char> {
    if s.contains(' ') || s.contains('(') || s.contains(')') {
        seq!['"'] + replace_all(s, seq!['"'], seq!['\\', '"']) + seq!['"']
    } else {
        s
    }
}

/// Quotes a working directory for the shell.
pub fn shell_escape(s: &str) -> (r: String)
    ensures
        r@ == shell_escaped(s@),
{
    let v = str_chars(s);
    if crate::text::has_char(&v, ' ') || crate::text::has_char(&v, '(') || crate::text::has_char(&v, ')') {
        let mut from: Vec<char> = Vec::new();
        from.push('"');
        let mut to: Vec<char> = Vec::new();
        to.push('\\');
        to.push('"');
        proof {
            assert(from@ =~= seq!['"']);
            assert(to@ =~= seq!['\\', '"']);
        }
        let inner = replace_all_exec(&v, &from, &to);
        let mut out: Vec<char> = Vec::new();
        out.push('"');
        append_chars(&mut out, &inner);
        out.push('"');
        proof {
            assert(out@ =~= seq!['"'] + inner@ + seq!['"']);
        }
        chars_string(&out)
    } else {
        chars_string(&v)
    }
}

/// The contents of a workspace's launch file: its run configurations.
pub struct LaunchFile {
    pub configurations: Vec<RunConfig>,
}

impl Default for LaunchFile {
    fn default() -> (r: Self)
        ensures
            r.configurations@.len() == 0,
    {
        LaunchFile { configurations: Vec::new() }
    }
}

pub struct RunManager {
    pub configs: Vec<RunConfig>,
    pub active_config: usize,
    pub is_running: bool,
    pub workspace: Option<String>,
}

/// The text `cd <escaped cwd> && <command>\n`, or just `<command>\n` for an empty cwd.
pub open spec fn shell_line(r_command: Seq<char>, r_cwd: Seq<char>) -> Seq<char> {
    if r_cwd.len() == 0 {
        r_command + seq!['\n']
    } else {
        seq!['c', 'd', ' '] + shell_escaped(r_cwd) + seq![' ', '&', '&', ' '] + r_command + seq!['\n']
    }
}

impl RunManager {
    pub fn new() -> (m: Self)
        ensures
            m.configs@.len() == 0,
            m.active_config == 0,
            !m.is_running,
            m.workspace is None,
    {
        RunManager { configs: Vec::new(), active_config: 0, is_running: false, workspace: None }
    }

    /// Takes the configurations loaded (or detected) for `workspace`; the first becomes active.
    pub fn apply_loaded(&mut self, workspace: String, configs: Vec<RunConfig>)
        ensures
            final(self).configs@ == configs@,
            final(self).active_config == 0,
            final(self).workspace == Some(workspace),
            final(self).is_running == old(self).is_running,
    {
        self.workspace = Some(workspace);
        self.configs = configs;
        self.active_config = 0;
    }

    /// Takes the configurations of `workspace`'s launch file; the first becomes active.
    pub fn apply_launch_file(&mut self, workspace: String, file: LaunchFile)
        ensures
            final(self).configs@ == file.configurations@,
            final(self).active_config == 0,
            final(self).workspace == Some(workspace),
            final(self).is_running == old(self).is_running,
    {
        self.apply_loaded(workspace, file.configurations);
    }

    /// The selected configuration, if its index is valid.
    pub fn active_config(&self) -> (r: Option<&RunConfig>)
        ensures
            r matches Some(c) ==> self.active_config < self.configs@.len() && *c == self.configs@[self.active_config as int],
            r is None <==> self.active_config >= self.configs@.len(),
    {
        if self.active_config < self.configs.len() {
            Some(&self.configs[self.active_config])
        } else {
            None
        }
    }

    /// Build the shell command string to send to the terminal.
    pub fn build_command(&self, workspace: Option<&str>, current_file: Option<&str>) -> (r: Option<String>)
        ensures
            r is None <==> self.active_config >= self.configs@.len(),
            r matches Some(s) ==> {
                let c = self.configs@[self.active_config as int];
                let v = run_vars(workspace, current_file);
                s@ == shell_line(command_line(c.command@, strings_view(c.args@), v), substitute(c.cwd@, v))
            },
    {
        let config = self.active_config()?;
        let resolved = config.resolve(workspace, current_file);
        let mut out: Vec<char> = Vec::new();
        let cmd = str_chars(resolved.command.as_str());
        if resolved.cwd.as_str().is_empty() {
            append_chars(&mut out, &cmd);
            out.push('\n');
            proof {
                assert(out@ =~= shell_line(resolved.command@, resolved.cwd@));
            }
        } else {
            let esc = shell_escape(resolved.cwd.as_str());
            out.push('c');
            out.push('d');
            out.push(' ');
            append_chars(&mut out, &str_chars(esc.as_str()));
            out.push(' ');
            out.push('&');
            out.push('&');
            out.push(' ');
            append_chars(&mut out, &cmd);
            out.push('\n');
            proof {
                assert(out@ =~= shell_line(resolved.command@, resolved.cwd@));
            }
        }
        Some(chars_string(&out))
    }

    /// Appends a configuration.
    pub fn add_config(&mut self, config: RunConfig)
        ensures
            final(self).configs@ == old(self).configs@.push(config),
            final(self).active_config == old(self).active_config,
    {
        self.configs.push(config);
    }

    /// Removes configuration `idx` (if it exists); the selection is pulled back
    /// onto the last configuration when it falls off the end.
    pub fn remove_config(&mut self, idx: usize)
        ensures
            idx < old(self).configs@.len() ==> final(self).configs@ == old(self).configs@.remove(idx as int)
                && final(self).active_config == (if old(self).active_config >= final(self).configs@.len()
                && final(self).configs@.len() > 0 {
                    (final(self).configs@.len() - 1) as usize
                } else {
                    old(self).active_config
                }),
            idx >= old(self).configs@.len() ==> final(self).configs@ == old(self).configs@
                && final(self).active_config == old(self).active_config,
    {
        if idx < self.configs.len() {
            self.configs.remove(idx);
            if self.active_config >= self.configs.len() && self.configs.len() > 0 {
                self.active_config = self.configs.len() - 1;
            }
        }
    }
}

// ── Detection ────────────────────────────────────────────────────────────────

/// What the workspace holds that run configurations are detected from.
pub struct ProjectMarkers {
    pub cargo_toml: bool,
    /// The text of `package.json`, when it exists and could be read.
    pub package_json: Option<String>,
    pub manage_py: bool,
    pub main_py: bool,
    pub go_mod: bool,
    pub makefile: bool,
    pub docker_compose: bool,
}

/// A detected configuration: its name and command, run in the workspace root.
pub open spec fn detected(name: Seq<char>, command: Seq<char>) -> (Seq<char>, Seq<char>, Seq<char>) {
    (name, command, "${workspaceRoot}"@)
}

/// Name, command and working directory of a configuration.
pub open spec fn config_triple(c: RunConfig) -> (Seq<char>, Seq<char>, Seq<char>) {
    (c.name@, c.command@, c.cwd@)
}

/// Detected when `Cargo.toml` exists.
pub open spec fn cargo_part(on: bool) -> Seq<(Seq<char>, Seq<char>, Seq<char>)> {
    if on {
        seq![
            detected("Cargo Run"@, "cargo run"@),
            detected("Cargo Test"@, "cargo test"@),
            detected("Cargo Build"@, "cargo build"@),
        ]
    } else {
        seq![]
    }
}

/// Detected from the scripts named in `package.json`.
pub open spec fn npm_part(p: Option<String>) -> Seq<(Seq<char>, Seq<char>, Seq<char>)> {
    match p {
        Some(p) => (if contains(p@, "\"start\""@) { seq![detected("npm start"@, "npm start"@)] } else { seq![] })
        + (if contains(p@, "\"dev\""@) { seq![detected("npm run dev"@, "npm run dev"@)] } else { seq![] })
        + (if contains(p@, "\"test\""@) { seq![detected("npm test"@, "npm test"@)] } else { seq![] })
        + (if contains(p@, "\"build\""@) { seq![detected("npm run build"@, "npm run build"@)] } else { seq![] }),
        None => seq![],
    }
}

/// One configuration when `on`.
pub open spec fn one_part(on: bool, name: Seq<char>, command: Seq<char>) -> Seq<(Seq<char>, Seq<char>, Seq<char>)> {
    if on { seq![detected(name, command)] } else { seq![] }
}

/// Detected when `go.mod` exists.
pub open spec fn go_part(on: bool) -> Seq<(Seq<char>, Seq<char>, Seq<char>)> {
    if on {
        seq![detected("Go run"@, "go run ."@), detected("Go test"@, "go test ./..."@)]
    } else {
        seq![]
    }
}

/// The configurations detected from the markers, in order; running the current
/// file in its directory always comes last.
pub open spec fn detected_configs(m: ProjectMarkers) -> Seq<(Seq<char>, Seq<char>, Seq<char>)> {
    cargo_part(m.cargo_toml) + npm_part(m.package_json)
        + one_part(m.manage_py, "Django run"@, "python3 manage.py runserver"@)
        + one_part(m.main_py, "Run main.py"@, "python3 main.py"@)
        + go_part(m.go_mod)
        + one_part(m.makefile, "make"@, "make"@)
        + one_part(m.docker_compose, "Docker Compose Up"@, "docker-compose up"@)
        + seq![("Run current file"@, "${file}"@, "${fileDir}"@)]
}

/// Name, command and working directory of each configuration.
pub open spec fn triples(v: Seq<RunConfig>) -> Seq<(Seq<char>, Seq<char>, Seq<char>)> {
    v.map_values(|c: RunConfig| config_triple(c))
}

/// No configuration sets environment variables or arguments.
pub open spec fn plain_configs(v: Seq<RunConfig>) -> bool {
    forall|i: int| 0 <= i < v.len() ==> #[trigger] v[i].env@.len() == 0 && v[i].args@.len() == 0
}

fn push_config(v: &mut Vec<RunConfig>, name: &str, command: &str, cwd: &str)
    requires
        plain_configs(old(v)@),
    ensures
        triples(final(v)@) == triples(old(v)@).push((name@, command@, cwd@)),
        plain_configs(final(v)@),
{
    let ghost before = v@;
    v.push(RunConfig { name: owned(name), command: owned(command), cwd: owned(cwd), env: Vec::new(), args: Vec::new() });
    proof {
        assert(triples(v@) =~= triples(before).push((name@, command@, cwd@)));
    }
}

fn extend_configs(v: &mut Vec<RunConfig>, w: Vec<RunConfig>)
    requires
        plain_configs(old(v)@),
        plain_configs(w@),
    ensures
        triples(final(v)@) == triples(old(v)@) + triples(w@),
        plain_configs(final(v)@),
{
    let mut w = w;
    let ghost ws = w@;
    let ghost base = v@;
    v.append(&mut w);
    proof {
        assert(v@ =~= base + ws);
        assert(triples(v@) =~= triples(base) + triples(ws));
    }
}

fn cargo_configs(on: bool) -> (v: Vec<RunConfig>)
    ensures
        plain_configs(v@),
        triples(v@) == cargo_part(on),
{
    let mut v: Vec<RunConfig> = Vec::new();
    proof {
        assert(triples(v@) =~= seq![]);
    }
    if on {
        push_config(&mut v, "Cargo Run", "cargo run", "${workspaceRoot}");
        push_config(&mut v, "Cargo Test", "cargo test", "${workspaceRoot}");
        push_config(&mut v, "Cargo Build", "cargo build", "${workspaceRoot}");
    }
    v
}

fn npm_config(v: &mut Vec<RunConfig>, pc: &Vec<char>, key: &str, name: &str)
    requires
        plain_configs(old(v)@),
    ensures
        plain_configs(final(v)@),
        triples(final(v)@) == triples(old(v)@) + (if contains(pc@, key@) {
            seq![detected(name@, name@)]
        } else {
            seq![]
        }),
{
    if contains_exec(pc, &str_chars(key)) {
        push_config(v, name, name, "${workspaceRoot}");
    } else {
        proof {
            assert(triples(v@) + seq![] =~= triples(v@));
        }
    }
}

fn npm_configs(p: &Option<String>) -> (v: Vec<RunConfig>)
    ensures
        plain_configs(v@),
        triples(v@) == npm_part(*p),
{
    let mut v: Vec<RunConfig> = Vec::new();
    proof {
        assert(triples(v@) =~= seq![]);
    }
    match p {
        Some(p) => {
            let pc = str_chars(p.as_str());
            npm_config(&mut v, &pc, "\"start\"", "npm start");
            npm_config(&mut v, &pc, "\"dev\"", "npm run dev");
            npm_config(&mut v, &pc, "\"test\"", "npm test");
            npm_config(&mut v, &pc, "\"build\"", "npm run build");
            proof {
                let e = (if contains(p@, "\"start\""@) { seq![detected("npm start"@, "npm start"@)] } else { seq![] })
                    + (if contains(p@, "\"dev\""@) { seq![detected("npm run dev"@, "npm run dev"@)] } else { seq![] })
                    + (if contains(p@, "\"test\""@) { seq![detected("npm test"@, "npm test"@)] } else { seq![] })
                    + (if contains(p@, "\"build\""@) { seq![detected("npm run build"@, "npm run build"@)] } else { seq![] });
                assert(triples(v@) =~= e);
            }
        },
        None => {},
    }
    v
}

fn one_config(on: bool, name: &str, command: &str) -> (v: Vec<RunConfig>)
    ensures
        plain_configs(v@),
        triples(v@) == one_part(on, name@, command@),
{
    let mut v: Vec<RunConfig> = Vec::new();
    proof {
        assert(triples(v@) =~= seq![]);
    }
    if on {
        push_config(&mut v, name, command, "${workspaceRoot}");
    }
    v
}

/// The run configurations detected from a workspace's contents.
pub fn detect_configs(m: &ProjectMarkers) -> (configs: Vec<RunConfig>)
    ensures
        triples(configs@) == detected_configs(*m),
        plain_configs(configs@),
{
    let mut configs = cargo_configs(m.cargo_toml);
    extend_configs(&mut configs, npm_configs(&m.package_json));
    extend_configs(&mut configs, one_config(m.manage_py, "Django run", "python3 manage.py runserver"));
    extend_configs(&mut configs, one_config(m.main_py, "Run main.py", "python3 main.py"));
    let mut go = one_config(m.go_mod, "Go run", "go run .");
    if m.go_mod {
        push_config(&mut go, "Go test", "go test ./...", "${workspaceRoot}");
        proof {
            assert(triples(go@) =~= go_part(true));
        }
    }
    extend_configs(&mut configs, go);
    extend_configs(&mut configs, one_config(m.makefile, "make", "make"));
    extend_configs(&mut configs, one_config(m.docker_compose, "Docker Compose Up", "docker-compose up"));
    push_config(&mut configs, "Run current file", "${file}", "${fileDir}");
    configs
}

} // verus!
