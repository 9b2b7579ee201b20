//! The built-in extension for Python source files.
use vstd::prelude::*;

use super::{builtin, builtin_manifest, strs};
use crate::extension::manifest::ExtensionManifest;

verus! {

pub struct PythonLangExtension;

impl PythonLangExtension {
    pub fn manifest() -> (m: ExtensionManifest)
        ensures
            builtin_manifest(
                m,
                "builtin.python-lang"@,
                "Python Language Support"@,
                "Syntax highlighting for Python source files."@,
                seq!["py"@],
            ),
    {
        let langs: &[&str] = &["py"];
        let m = builtin("builtin.python-lang", "Python Language Support", "Syntax highlighting for Python source files.", langs);
        proof {
            assert(strs(langs@) =~= seq!["py"@]);
        }
        m
    }
}

} // verus!
