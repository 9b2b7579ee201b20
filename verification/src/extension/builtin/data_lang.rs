//! The built-in extension for JSON and TOML data files.
use vstd::prelude::*;

use super::{builtin, builtin_manifest, strs};
use crate::extension::manifest::ExtensionManifest;

verus! {

pub struct DataLangExtension;

impl DataLangExtension {
    pub fn manifest() -> (m: ExtensionManifest)
        ensures
            builtin_manifest(
                m,
                "builtin.data-lang"@,
                "Data Language Support"@,
                "Syntax highlighting for JSON and TOML data files."@,
                seq!["json"@, "toml"@],
            ),
    {
        let langs: &[&str] = &["json", "toml"];
        let m = builtin("builtin.data-lang", "Data Language Support", "Syntax highlighting for JSON and TOML data files.", langs);
        proof {
            assert(strs(langs@) =~= seq!["json"@, "toml"@]);
        }
        m
    }
}

} // verus!
