use writing_unicorns::dap::types::{substitute_launch_variable, DapConfig};
use writing_unicorns::extension::builtin::rust_lang::RustLangExtension;
use writing_unicorns::extension::builtin::web_lang::WebLangExtension;
use writing_unicorns::extension::manifest::{ExtensionSource, SourceKind};
use writing_unicorns::extension::registry::{update_check_dir, ExtensionRegistry, InstalledExtension};
use writing_unicorns::plugin::manager::{PluginInfo, PluginManager};
use writing_unicorns::plugin::types::{PluginCommand, SidebarPanel};

fn s(x: &str) -> String {
    x.to_string()
}

fn command(id: &str) -> PluginCommand {
    PluginCommand { id: s(id), title: format!("Title of {}", id), keybinding: None }
}

fn two_plugins() -> PluginManager {
    let mut m = PluginManager::new();
    m.register(PluginInfo {
        name: s("A"),
        commands: vec![command("a.run")],
        panels: vec![SidebarPanel { id: s("a.panel"), title: s("A panel"), icon: "*" }],
        file_extensions: vec![s("rs")],
        lsp_server: Some((s("rust-analyzer"), vec![])),
        dap: None,
    });
    m.register(PluginInfo {
        name: s("B"),
        commands: vec![command("b.go"), command("a.run")],
        panels: vec![],
        file_extensions: vec![s("rs"), s("toml")],
        lsp_server: Some((s("taplo"), vec![s("lsp"), s("stdio")])),
        dap: RustLangExtension.dap_config(),
    });
    m
}

#[test]
fn first_declaring_plugin_owns_commands_and_panels() {
    let m = two_plugins();
    assert_eq!(m.command_owner("a.run"), Some(0));
    assert_eq!(m.command_owner("b.go"), Some(1));
    assert_eq!(m.command_owner("nope"), None);
    assert_eq!(m.panel_owner("a.panel"), Some(0));
    assert_eq!(m.panel_owner("b.panel"), None);
}

#[test]
fn palette_lists_every_command_with_its_plugin() {
    let m = two_plugins();
    let all: Vec<(String, String)> = m.all_commands().into_iter().map(|(n, c)| (n, c.id)).collect();
    assert_eq!(all, vec![(s("A"), s("a.run")), (s("B"), s("b.go")), (s("B"), s("a.run"))]);
    let panels: Vec<(String, String)> = m.sidebar_panels().into_iter().map(|(n, p)| (n, p.id)).collect();
    assert_eq!(panels, vec![(s("A"), s("a.panel"))]);
}

#[test]
fn servers_come_from_the_first_plugin_that_has_one() {
    let m = two_plugins();
    assert_eq!(m.lsp_server_for_ext("rs"), Some((s("rust-analyzer"), vec![])));
    assert_eq!(m.lsp_server_for_ext("toml"), Some((s("taplo"), vec![s("lsp"), s("stdio")])));
    assert_eq!(m.lsp_server_for_ext("py"), None);
    let dap = m.dap_config_for_ext("rs").expect("the second plugin debugs rust");
    assert_eq!(dap.adapter_cmd, "codelldb");
    assert!(m.dap_config_for_ext("py").is_none());
    assert_eq!(m.handlers_of("rs"), vec![0, 1]);
    assert_eq!(m.handlers_of("toml"), vec![1]);
    assert!(m.handlers_of("md").is_empty());
}

#[test]
fn unloading_drops_plugins_of_the_extensions() {
    let mut m = two_plugins();
    let kept = m.unload_by_extensions(&vec![s("toml"), s("md")]);
    assert_eq!(kept, vec![true, false]);
    assert_eq!(m.plugins.len(), 1);
    assert_eq!(m.plugins[0].name, "A");
    let kept = m.unload_by_extensions(&vec![]);
    assert_eq!(kept, vec![true]);
}

#[test]
fn launch_variables_are_substituted_while_json_stays_valid() {
    let web = WebLangExtension.dap_config().unwrap();
    let cfg = substitute_launch_variable(&web.launch_config, "${file}", "/p/app.js");
    assert!(cfg.contains("\"program\":\"/p/app.js\""));
    let cfg = substitute_launch_variable(&cfg, "${workspaceFolder}", "/p");
    assert!(cfg.contains("\"cwd\":\"/p\""));
    let broken = substitute_launch_variable(&web.launch_config, "${file}", "a\"b");
    assert_eq!(broken, web.launch_config);
    let rust = RustLangExtension.dap_config().unwrap();
    let cfg = substitute_launch_variable(&rust.launch_config, "${workspaceFolder}", "/w");
    assert!(cfg.contains("\"program\":\"/w/target/debug/app\""));
    let same: DapConfig = WebLangExtension.dap_config().unwrap();
    assert_eq!(same.adapter_args, vec![s("--require"), s("ts-node/register")]);
}

fn installed(id_from: fn() -> writing_unicorns::extension::manifest::ExtensionManifest, path: &str, source: Option<ExtensionSource>) -> InstalledExtension {
    InstalledExtension {
        manifest: id_from(),
        path: s(path),
        lib_path: None,
        enabled: true,
        source,
        update_available: Some(s("stale")),
    }
}

#[test]
fn updates_are_offered_for_newer_source_versions() {
    let mut r = ExtensionRegistry::new(s("/ext"));
    r.installed.push(installed(RustLangExtension::manifest, "/ext/rust", None));
    r.installed.push(installed(WebLangExtension::manifest, "/ext/web", None));
    r.installed.push(installed(RustLangExtension::manifest, "/ext/rust2", None));
    r.check_updates(&vec![Some(s("0.2.0")), Some(s("0.0.9")), None]);
    let offered: Vec<Option<String>> = r.installed.iter().map(|e| e.update_available.clone()).collect();
    assert_eq!(offered, vec![Some(s("0.2.0")), None, None]);
    assert_eq!(r.installed[1].path, "/ext/web");
}

#[test]
fn update_sources_are_local_copies() {
    let ws = ExtensionSource { kind: SourceKind::Workspace, path: Some(s("/ws")), member: Some(s("mod-a")), url: None };
    assert_eq!(update_check_dir(&ws), Some(vec![s("/ws"), s("mod-a")]));
    let half = ExtensionSource { kind: SourceKind::Workspace, path: Some(s("/ws")), member: None, url: None };
    assert_eq!(update_check_dir(&half), None);
    let folder = ExtensionSource { kind: SourceKind::Folder, path: Some(s("/f")), member: None, url: None };
    assert_eq!(update_check_dir(&folder), Some(vec![s("/f")]));
    let git = ExtensionSource { kind: SourceKind::Git, path: None, member: None, url: Some(s("https://x")) };
    assert_eq!(update_check_dir(&git), None);
}

#[test]
fn uninstall_removes_the_first_match() {
    let mut r = ExtensionRegistry::new(s("/ext"));
    r.installed.push(installed(RustLangExtension::manifest, "/ext/rust", None));
    r.installed.push(installed(WebLangExtension::manifest, "/ext/web", None));
    assert_eq!(r.uninstall("builtin.web-lang"), Some(s("/ext/web")));
    assert_eq!(r.installed.len(), 1);
    assert_eq!(r.uninstall("builtin.web-lang"), None);
    assert!(r.is_installed("builtin.rust-lang"));
}
