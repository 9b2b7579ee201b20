//! What an extension declares about itself, and where it was installed from.
use vstd::prelude::*;

verus! {

/// Where an installed extension came from.
#[derive(Debug, Clone)]
pub struct ExtensionSource {
    pub kind: SourceKind,
    /// Workspace root or local folder path.
    pub path: Option<String>,
    /// Cargo workspace member name (for a workspace source).
    pub member: Option<String>,
    /// Git remote URL (for a git source).
    pub url: Option<String>,
}

#[derive(Debug, Clone, Copy, PartialEq, Eq, Structural)]
pub enum SourceKind {
    Workspace,
    Folder,
    Git,
    Zip,
}

#[derive(Debug, Clone)]
pub struct ExtensionManifest {
    pub extension: ExtensionInfo,
    pub capabilities: Capabilities,
    pub dependencies: Dependencies,
}

/// External tools and packages a module needs installed.
#[derive(Debug, Clone)]
pub struct Dependencies {
    /// npm packages to install globally.
    pub npm: Vec<String>,
    /// Python packages to install.
    pub pip: Vec<String>,
    /// Cargo crates to install.
    pub cargo: Vec<String>,
    /// Go tools to install.
    pub go: Vec<String>,
}

#[derive(Debug, Clone)]
pub struct ExtensionInfo {
    pub id: String,
    pub name: String,
    pub version: String,
    pub description: String,
    pub author: String,
    pub repository: String,
}

#[derive(Debug, Clone)]
pub struct Capabilities {
    pub languages: Vec<String>,
    pub commands: Vec<String>,
    pub themes: Vec<String>,
    /// Language server binary name.
    pub lsp_server: Option<String>,
    /// Arguments to pass to the language server.
    pub lsp_args: Vec<String>,
}

impl Default for Dependencies {
    fn default() -> (d: Self)
        ensures
            d.npm@.len() == 0 && d.pip@.len() == 0 && d.cargo@.len() == 0 && d.go@.len() == 0,
    {
        Dependencies { npm: Vec::new(), pip: Vec::new(), cargo: Vec::new(), go: Vec::new() }
    }
}

impl Default for Capabilities {
    fn default() -> (c: Self)
        ensures
            c.languages@.len() == 0 && c.commands@.len() == 0 && c.themes@.len() == 0,
            c.lsp_server is None && c.lsp_args@.len() == 0,
    {
        Capabilities {
            languages: Vec::new(),
            commands: Vec::new(),
            themes: Vec::new(),
            lsp_server: None,
            lsp_args: Vec::new(),
        }
    }
}

} // verus!
