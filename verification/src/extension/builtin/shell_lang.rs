//! The built-in extension for shell scripts.
use vstd::prelude::*;

use super::{builtin, builtin_manifest, strs};
use crate::extension::manifest::ExtensionManifest;

verus! {

pub struct ShellLangExtension;

impl ShellLangExtension {
    pub fn manifest() -> (m: ExtensionManifest)
        ensures
            builtin_manifest(
                m,
                "builtin.shell-lang"@,
                "Shell Language Support"@,
                "Syntax highlighting for shell scripts (sh, bash, zsh)."@,
                seq!["sh"@, "bash"@, "zsh"@],
            ),
    {
        let langs: &[&str] = &["sh", "bash", "zsh"];
        let m = builtin("builtin.shell-lang", "Shell Language Support", "Syntax highlighting for shell scripts (sh, bash, zsh).", langs);
        proof {
            assert(strs(langs@) =~= seq!["sh"@, "bash"@, "zsh"@]);
        }
        m
    }
}

} // verus!
