//! Plugins that ship with the editor.
pub mod word_count;
