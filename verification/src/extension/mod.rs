//! Extensions: their manifests, the built-in language extensions, the
//! registry of installed ones and the formats they exchange.
pub mod builtin;
pub mod ffi_plugin;
pub mod installer;
pub mod manifest;
pub mod panel;
pub mod registry;
pub mod workspace_toml;
