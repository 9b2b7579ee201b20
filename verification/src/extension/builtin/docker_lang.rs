//! The built-in extension for Dockerfiles.
use vstd::prelude::*;

use super::{builtin, builtin_manifest, strs};
use crate::extension::manifest::ExtensionManifest;

verus! {

pub struct DockerLangExtension;

impl DockerLangExtension {
    pub fn manifest() -> (m: ExtensionManifest)
        ensures
            builtin_manifest(
                m,
                "builtin.docker-lang"@,
                "Dockerfile Language Support"@,
                "Syntax highlighting for Dockerfile."@,
                seq!["dockerfile"@],
            ),
    {
        let langs: &[&str] = &["dockerfile"];
        let m = builtin("builtin.docker-lang", "Dockerfile Language Support", "Syntax highlighting for Dockerfile.", langs);
        proof {
            assert(strs(langs@) =~= seq!["dockerfile"@]);
        }
        m
    }
}

} // verus!
