//! The registered plugins, in registration order, and which of them answers
//! for a command, a panel or a file extension.
use vstd::prelude::*;

use super::types::{PluginCommand, SidebarPanel};
use crate::dap::types::DapConfig;
use crate::text::{chars_eq, str_chars, texts};

verus! {

/// What a registered plugin declares: its name, commands, sidebar panels,
/// the file extensions it handles, and its language server and debugger.
pub struct PluginInfo {
    pub name: String,
    pub commands: Vec<PluginCommand>,
    pub panels: Vec<SidebarPanel>,
    pub file_extensions: Vec<String>,
    /// Language server program and arguments.
    pub lsp_server: Option<(String, Vec<String>)>,
    pub dap: Option<DapConfig>,
}

/// The registered plugins; the editor keeps the plugins themselves in the
/// same order.
pub struct PluginManager {
    pub plugins: Vec<PluginInfo>,
}

/// The plugin declares the command `id`.
pub open spec fn owns_command(p: PluginInfo, id: Seq<char>) -> bool {
    exists|k: int| 0 <= k < p.commands@.len() && (#[trigger] p.commands@[k]).id@ == id
}

/// The plugin declares the panel `id`.
pub open spec fn owns_panel(p: PluginInfo, id: Seq<char>) -> bool {
    exists|k: int| 0 <= k < p.panels@.len() && (#[trigger] p.panels@[k]).id@ == id
}

/// The plugin handles files with extension `ext`.
pub open spec fn handles(p: PluginInfo, ext: Seq<char>) -> bool {
    exists|k: int| 0 <= k < p.file_extensions@.len() && (#[trigger] p.file_extensions@[k])@ == ext
}

/// The plugin handles `ext` and names a language server.
pub open spec fn serves_lsp(p: PluginInfo, ext: Seq<char>) -> bool {
    handles(p, ext) && p.lsp_server is Some
}

/// The plugin handles `ext` and names a debugger.
pub open spec fn serves_dap(p: PluginInfo, ext: Seq<char>) -> bool {
    handles(p, ext) && p.dap is Some
}

/// A command as plain values: id, title, key binding.
pub open spec fn command_view(c: PluginCommand) -> (Seq<char>, Seq<char>, Option<Seq<char>>) {
    (c.id@, c.title@, match c.keybinding {
        Some(k) => Some(k@),
        None => None,
    })
}

/// Every command of every plugin, in order, with its plugin's name.
pub open spec fn command_rows(v: Seq<PluginInfo>) -> Seq<(Seq<char>, (Seq<char>, Seq<char>, Option<Seq<char>>))>
    decreases v.len(),
{
    if v.len() == 0 {
        seq![]
    } else {
        let p = v.last();
        command_rows(v.drop_last()) + p.commands@.map_values(|c: PluginCommand| (p.name@, command_view(c)))
    }
}

/// A panel as plain values: id, title, icon.
pub open spec fn panel_view(p: SidebarPanel) -> (Seq<char>, Seq<char>, Seq<char>) {
    (p.id@, p.title@, p.icon@)
}

/// Every panel of every plugin, in order, with its plugin's name.
pub open spec fn panel_rows(v: Seq<PluginInfo>) -> Seq<(Seq<char>, (Seq<char>, Seq<char>, Seq<char>))>
    decreases v.len(),
{
    if v.len() == 0 {
        seq![]
    } else {
        let p = v.last();
        panel_rows(v.drop_last()) + p.panels@.map_values(|q: SidebarPanel| (p.name@, panel_view(q)))
    }
}

/// The plugin handles one of the extensions `exts`.
pub open spec fn handles_any(p: PluginInfo, exts: Seq<Seq<char>>) -> bool {
    exists|k: int| 0 <= k < exts.len() && handles(p, #[trigger] exts[k])
}

/// The plugins kept when those handling one of `exts` are unloaded.
pub open spec fn kept_plugins(v: Seq<PluginInfo>, exts: Seq<Seq<char>>) -> Seq<PluginInfo>
    decreases v.len(),
{
    if v.len() == 0 {
        seq![]
    } else {
        let rest = kept_plugins(v.drop_last(), exts);
        if handles_any(v.last(), exts) {
            rest
        } else {
            rest.push(v.last())
        }
    }
}

fn copy_command(c: &PluginCommand) -> (r: PluginCommand)
    ensures
        command_view(r) == command_view(*c),
{
    PluginCommand {
        id: c.id.clone(),
        title: c.title.clone(),
        keybinding: match &c.keybinding {
            Some(k) => Some(k.clone()),
            None => None,
        },
    }
}

fn copy_panel(p: &SidebarPanel) -> (r: SidebarPanel)
    ensures
        panel_view(r) == panel_view(*p),
{
    SidebarPanel { id: p.id.clone(), title: p.title.clone(), icon: p.icon }
}

fn copy_strings(v: &Vec<String>) -> (r: Vec<String>)
    ensures
        texts(r@) == texts(v@),
{
    let mut r: Vec<String> = Vec::new();
    let mut i: usize = 0;
    while i < v.len()
        invariant
            i <= v@.len(),
            texts(r@) == texts(v@).take(i as int),
        decreases v.len() - i,
    {
        let ghost before = r@;
        r.push(v[i].clone());
        i += 1;
        proof {
            assert(texts(r@) =~= texts(before).push(v@[i - 1]@));
            assert(texts(v@).take(i as int) =~= texts(v@).take(i - 1).push(v@[i - 1]@));
        }
    }
    proof {
        assert(texts(v@).take(v@.len() as int) =~= texts(v@));
    }
    r
}

/// Whether `p` handles the extension `ext`.
fn handles_exec(p: &PluginInfo, ext: &str) -> (b: bool)
    ensures
        b == handles(*p, ext@),
{
    let want = str_chars(ext);
    let mut k: usize = 0;
    while k < p.file_extensions.len()
        invariant
            k <= p.file_extensions@.len(),
            want@ == ext@,
            forall|j: int| 0 <= j < k ==> (#[trigger] p.file_extensions@[j])@ != ext@,
        decreases p.file_extensions.len() - k,
    {
        if chars_eq(&str_chars(p.file_extensions[k].as_str()), &want) {
            return true;
        }
        k += 1;
    }
    false
}

impl PluginManager {
    pub fn new() -> (m: Self)
        ensures
            m.plugins@.len() == 0,
    {
        PluginManager { plugins: Vec::new() }
    }

    /// Adds a plugin after those registered before it.
    pub fn register(&mut self, plugin: PluginInfo)
        ensures
            final(self).plugins@ == old(self).plugins@.push(plugin),
    {
        self.plugins.push(plugin);
    }

    /// The plugin that runs the command `command_id`: the first that
    /// declares it.
    pub fn command_owner(&self, command_id: &str) -> (r: Option<usize>)
        ensures
            match r {
                Some(i) => i < self.plugins@.len() && owns_command(self.plugins@[i as int], command_id@) && forall|j: int|
                    0 <= j < i ==> !owns_command(#[trigger] self.plugins@[j], command_id@),
                None => forall|j: int| 0 <= j < self.plugins@.len() ==> !owns_command(#[trigger] self.plugins@[j], command_id@),
            },
    {
        let want = str_chars(command_id);
        let mut i: usize = 0;
        while i < self.plugins.len()
            invariant
                i <= self.plugins@.len(),
                want@ == command_id@,
                forall|j: int| 0 <= j < i ==> !owns_command(#[trigger] self.plugins@[j], command_id@),
            decreases self.plugins.len() - i,
        {
            let p = &self.plugins[i];
            let mut k: usize = 0;
            while k < p.commands.len()
                invariant
                    k <= p.commands@.len(),
                    want@ == command_id@,
                    i < self.plugins@.len(),
                    *p == self.plugins@[i as int],
                    forall|j: int| 0 <= j < i ==> !owns_command(#[trigger] self.plugins@[j], command_id@),
                    forall|j: int| 0 <= j < k ==> (#[trigger] p.commands@[j]).id@ != command_id@,
                decreases p.commands.len() - k,
            {
                if chars_eq(&str_chars(p.commands[k].id.as_str()), &want) {
                    proof {
                        assert(p.commands@[k as int].id@ == command_id@);
                    }
                    return Some(i);
                }
                k += 1;
            }
            i += 1;
        }
        None
    }

    /// The plugin that draws the panel `panel_id`: the first that declares it.
    pub fn panel_owner(&self, panel_id: &str) -> (r: Option<usize>)
        ensures
            match r {
                Some(i) => i < self.plugins@.len() && owns_panel(self.plugins@[i as int], panel_id@) && forall|j: int|
                    0 <= j < i ==> !owns_panel(#[trigger] self.plugins@[j], panel_id@),
                None => forall|j: int| 0 <= j < self.plugins@.len() ==> !owns_panel(#[trigger] self.plugins@[j], panel_id@),
            },
    {
        let want = str_chars(panel_id);
        let mut i: usize = 0;
        while i < self.plugins.len()
            invariant
                i <= self.plugins@.len(),
                want@ == panel_id@,
                forall|j: int| 0 <= j < i ==> !owns_panel(#[trigger] self.plugins@[j], panel_id@),
            decreases self.plugins.len() - i,
        {
            let p = &self.plugins[i];
            let mut k: usize = 0;
            while k < p.panels.len()
                invariant
                    k <= p.panels@.len(),
                    want@ == panel_id@,
                    i < self.plugins@.len(),
                    *p == self.plugins@[i as int],
                    forall|j: int| 0 <= j < i ==> !owns_panel(#[trigger] self.plugins@[j], panel_id@),
                    forall|j: int| 0 <= j < k ==> (#[trigger] p.panels@[j]).id@ != panel_id@,
                decreases p.panels.len() - k,
            {
                if chars_eq(&str_chars(p.panels[k].id.as_str()), &want) {
                    proof {
                        assert(p.panels@[k as int].id@ == panel_id@);
                    }
                    return Some(i);
                }
                k += 1;
            }
            i += 1;
        }
        None
    }

    /// Every command of every plugin, for the command palette, each with its
    /// plugin's name.
    pub fn all_commands(&self) -> (r: Vec<(String, PluginCommand)>)
        ensures
            r@.map_values(|e: (String, PluginCommand)| (e.0@, command_view(e.1))) == command_rows(self.plugins@),
    {
        let mut r: Vec<(String, PluginCommand)> = Vec::new();
        let mut i: usize = 0;
        proof {
            assert(r@.map_values(|e: (String, PluginCommand)| (e.0@, command_view(e.1))) =~= command_rows(
                self.plugins@.take(0),
            ));
        }
        while i < self.plugins.len()
            invariant
                i <= self.plugins@.len(),
                r@.map_values(|e: (String, PluginCommand)| (e.0@, command_view(e.1))) == command_rows(
                    self.plugins@.take(i as int),
                ),
            decreases self.plugins.len() - i,
        {
            let p = &self.plugins[i];
            proof {
                assert(self.plugins@.take(i + 1).drop_last() =~= self.plugins@.take(i as int));
                assert(self.plugins@.take(i + 1).last() == *p);
            }
            let ghost base = r@.map_values(|e: (String, PluginCommand)| (e.0@, command_view(e.1)));
            let ghost row = |c: PluginCommand| (p.name@, command_view(c));
            let mut k: usize = 0;
            while k < p.commands.len()
                invariant
                    k <= p.commands@.len(),
                    row == (|c: PluginCommand| (p.name@, command_view(c))),
                    r@.map_values(|e: (String, PluginCommand)| (e.0@, command_view(e.1))) == base + p.commands@.take(
                        k as int,
                    ).map_values(row),
                decreases p.commands.len() - k,
            {
                let ghost before = r@;
                let c = copy_command(&p.commands[k]);
                r.push((p.name.clone(), c));
                k += 1;
                proof {
                    assert(r@.map_values(|e: (String, PluginCommand)| (e.0@, command_view(e.1))) =~= before.map_values(
                        |e: (String, PluginCommand)| (e.0@, command_view(e.1)),
                    ).push(row(p.commands@[k - 1])));
                    assert(p.commands@.take(k as int).map_values(row) =~= p.commands@.take(k - 1).map_values(row).push(
                        row(p.commands@[k - 1]),
                    ));
                }
            }
            proof {
                assert(p.commands@.take(p.commands@.len() as int) =~= p.commands@);
            }
            i += 1;
        }
        proof {
            assert(self.plugins@.take(self.plugins@.len() as int) =~= self.plugins@);
        }
        r
    }

    /// Every sidebar panel of every plugin, each with its plugin's name.
    pub fn sidebar_panels(&self) -> (r: Vec<(String, SidebarPanel)>)
        ensures
            r@.map_values(|e: (String, SidebarPanel)| (e.0@, panel_view(e.1))) == panel_rows(self.plugins@),
    {
        let mut r: Vec<(String, SidebarPanel)> = Vec::new();
        let mut i: usize = 0;
        proof {
            assert(r@.map_values(|e: (String, SidebarPanel)| (e.0@, panel_view(e.1))) =~= panel_rows(
                self.plugins@.take(0),
            ));
        }
        while i < self.plugins.len()
            invariant
                i <= self.plugins@.len(),
                r@.map_values(|e: (String, SidebarPanel)| (e.0@, panel_view(e.1))) == panel_rows(
                    self.plugins@.take(i as int),
                ),
            decreases self.plugins.len() - i,
        {
            let p = &self.plugins[i];
            proof {
                assert(self.plugins@.take(i + 1).drop_last() =~= self.plugins@.take(i as int));
                assert(self.plugins@.take(i + 1).last() == *p);
            }
            let ghost base = r@.map_values(|e: (String, SidebarPanel)| (e.0@, panel_view(e.1)));
            let ghost row = |q: SidebarPanel| (p.name@, panel_view(q));
            let mut k: usize = 0;
            while k < p.panels.len()
                invariant
                    k <= p.panels@.len(),
                    row == (|q: SidebarPanel| (p.name@, panel_view(q))),
                    r@.map_values(|e: (String, SidebarPanel)| (e.0@, panel_view(e.1))) == base + p.panels@.take(
                        k as int,
                    ).map_values(row),
                decreases p.panels.len() - k,
            {
                let ghost before = r@;
                let q = copy_panel(&p.panels[k]);
                r.push((p.name.clone(), q));
                k += 1;
                proof {
                    assert(r@.map_values(|e: (String, SidebarPanel)| (e.0@, panel_view(e.1))) =~= before.map_values(
                        |e: (String, SidebarPanel)| (e.0@, panel_view(e.1)),
                    ).push(row(p.panels@[k - 1])));
                    assert(p.panels@.take(k as int).map_values(row) =~= p.panels@.take(k - 1).map_values(row).push(
                        row(p.panels@[k - 1]),
                    ));
                }
            }
            proof {
                assert(p.panels@.take(p.panels@.len() as int) =~= p.panels@);
            }
            i += 1;
        }
        proof {
            assert(self.plugins@.take(self.plugins@.len() as int) =~= self.plugins@);
        }
        r
    }

    /// The plugins that handle files with extension `lang`, in order (those
    /// whose tokenizer state is reset for it).
    pub fn handlers_of(&self, lang: &str) -> (r: Vec<usize>)
        ensures
            forall|k: int| 0 <= k < r@.len() ==> r@[k] < self.plugins@.len() && handles(self.plugins@[r@[k] as int], lang@),
            forall|k: int, m: int| 0 <= k < m < r@.len() ==> r@[k] < r@[m],
            forall|j: int| 0 <= j < self.plugins@.len() && handles(#[trigger] self.plugins@[j], lang@) ==> r@.contains(
                j as usize,
            ),
    {
        let mut r: Vec<usize> = Vec::new();
        let mut i: usize = 0;
        while i < self.plugins.len()
            invariant
                i <= self.plugins@.len(),
                forall|k: int| 0 <= k < r@.len() ==> r@[k] < i && handles(self.plugins@[r@[k] as int], lang@),
                forall|k: int, m: int| 0 <= k < m < r@.len() ==> r@[k] < r@[m],
                forall|j: int| 0 <= j < i && handles(#[trigger] self.plugins@[j], lang@) ==> r@.contains(j as usize),
            decreases self.plugins.len() - i,
        {
            if handles_exec(&self.plugins[i], lang) {
                let ghost before = r@;
                r.push(i);
                proof {
                    assert forall|j: int| 0 <= j < i + 1 && handles(#[trigger] self.plugins@[j], lang@) implies r@.contains(
                        j as usize,
                    ) by {
                        if j < i {
                            let w = choose|w: int| 0 <= w < before.len() && before[w] == j as usize;
                            assert(r@[w] == j as usize);
                        } else {
                            assert(r@[r@.len() - 1] == j as usize);
                        }
                    }
                }
            }
            i += 1;
        }
        r
    }

    /// The language server of the first plugin that handles `ext` and has one.
    pub fn lsp_server_for_ext(&self, ext: &str) -> (r: Option<(String, Vec<String>)>)
        ensures
            match r {
                Some(cmd) => exists|i: int| {
                    &&& 0 <= i < self.plugins@.len()
                    &&& #[trigger] serves_lsp(self.plugins@[i], ext@)
                    &&& forall|j: int| 0 <= j < i ==> !serves_lsp(#[trigger] self.plugins@[j], ext@)
                    &&& self.plugins@[i].lsp_server matches Some(s) && cmd.0@ == s.0@ && texts(cmd.1@) == texts(s.1@)
                },
                None => forall|j: int| 0 <= j < self.plugins@.len() ==> !serves_lsp(#[trigger] self.plugins@[j], ext@),
            },
    {
        let mut i: usize = 0;
        while i < self.plugins.len()
            invariant
                i <= self.plugins@.len(),
                forall|j: int| 0 <= j < i ==> !serves_lsp(#[trigger] self.plugins@[j], ext@),
            decreases self.plugins.len() - i,
        {
            let p = &self.plugins[i];
            if handles_exec(p, ext) {
                match &p.lsp_server {
                    Some(s) => {
                        let cmd = (s.0.clone(), copy_strings(&s.1));
                        proof {
                            assert(serves_lsp(self.plugins@[i as int], ext@));
                        }
                        return Some(cmd);
                    },
                    None => {},
                }
            }
            i += 1;
        }
        None
    }

    /// The debugger of the first plugin that handles `ext` and has one.
    pub fn dap_config_for_ext(&self, ext: &str) -> (r: Option<DapConfig>)
        ensures
            match r {
                Some(c) => exists|i: int| {
                    &&& 0 <= i < self.plugins@.len()
                    &&& #[trigger] serves_dap(self.plugins@[i], ext@)
                    &&& forall|j: int| 0 <= j < i ==> !serves_dap(#[trigger] self.plugins@[j], ext@)
                    &&& self.plugins@[i].dap matches Some(d) && c.adapter_cmd@ == d.adapter_cmd@ && texts(c.adapter_args@)
                        == texts(d.adapter_args@) && c.launch_config@ == d.launch_config@
                },
                None => forall|j: int| 0 <= j < self.plugins@.len() ==> !serves_dap(#[trigger] self.plugins@[j], ext@),
            },
    {
        let mut i: usize = 0;
        while i < self.plugins.len()
            invariant
                i <= self.plugins@.len(),
                forall|j: int| 0 <= j < i ==> !serves_dap(#[trigger] self.plugins@[j], ext@),
            decreases self.plugins.len() - i,
        {
            let p = &self.plugins[i];
            if handles_exec(p, ext) {
                match &p.dap {
                    Some(d) => {
                        let c = DapConfig {
                            adapter_cmd: d.adapter_cmd.clone(),
                            adapter_args: copy_strings(&d.adapter_args),
                            launch_config: d.launch_config.clone(),
                        };
                        proof {
                            assert(serves_dap(self.plugins@[i as int], ext@));
                        }
                        return Some(c);
                    },
                    None => {},
                }
            }
            i += 1;
        }
        None
    }

    /// Unloads every plugin that handles one of `extensions`; returns, for
    /// each plugin as it was, whether it was kept.
    pub fn unload_by_extensions(&mut self, extensions: &Vec<String>) -> (kept: Vec<bool>)
        ensures
            final(self).plugins@ == kept_plugins(old(self).plugins@, texts(extensions@)),
            kept@.len() == old(self).plugins@.len(),
            forall|j: int| 0 <= j < kept@.len() ==> kept@[j] == !handles_any(
                #[trigger] old(self).plugins@[j],
                texts(extensions@),
            ),
    {
        let ghost orig = self.plugins@;
        let ghost exts = texts(extensions@);
        let total = self.plugins.len();
        let mut rest: Vec<PluginInfo> = Vec::new();
        std::mem::swap(&mut rest, &mut self.plugins);
        let mut out: Vec<PluginInfo> = Vec::new();
        let mut kept: Vec<bool> = Vec::new();
        let mut i: usize = 0;
        proof {
            assert(orig.skip(0) =~= orig);
            assert(kept_plugins(orig.take(0), exts) =~= seq![]);
        }
        while rest.len() > 0
            invariant
                orig == old(self).plugins@,
                orig.len() == total,
                exts == texts(extensions@),
                rest@ == orig.skip(i as int),
                i <= orig.len(),
                out@ == kept_plugins(orig.take(i as int), exts),
                kept@.len() == i,
                forall|j: int| 0 <= j < i ==> kept@[j] == !handles_any(#[trigger] orig[j], exts),
            decreases rest.len(),
        {
            let p = rest.remove(0);
            proof {
                assert(i < orig.len());
                assert(p == orig[i as int]);
                assert(rest@ =~= orig.skip(i + 1));
                assert(orig.take(i + 1).drop_last() =~= orig.take(i as int));
                assert(orig.take(i + 1).last() == p);
            }
            let mut hit = false;
            let mut k: usize = 0;
            while k < extensions.len()
                invariant
                    k <= extensions@.len(),
                    exts == texts(extensions@),
                    hit == exists|m: int| 0 <= m < k && handles(p, #[trigger] exts[m]),
                decreases extensions.len() - k,
            {
                proof {
                    assert(exts[k as int] == extensions@[k as int]@);
                }
                if handles_exec(&p, extensions[k].as_str()) {
                    hit = true;
                }
                k += 1;
            }
            kept.push(!hit);
            if !hit {
                out.push(p);
            }
            i += 1;
        }
        proof {
            assert(orig.take(orig.len() as int) =~= orig);
        }
        self.plugins = out;
        kept
    }
}

} // verus!
