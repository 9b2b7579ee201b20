//! Commands, panels, context and responses exchanged with plugins.
use vstd::prelude::*;

verus! {

/// A command a plugin registers for the command palette.
#[derive(Clone)]
pub struct PluginCommand {
    pub id: String,
    pub title: String,
    pub keybinding: Option<String>,
}

/// A sidebar panel a plugin contributes.
#[derive(Clone)]
pub struct SidebarPanel {
    pub id: String,
    pub title: String,
    pub icon: &'static str,
}

/// What a plugin is told each frame.
pub struct PluginContext<'a> {
    pub buffer_text: &'a str,
    pub filename: Option<&'a str>,
    pub cursor_row: usize,
    pub cursor_col: usize,
    pub is_modified: bool,
    /// The symbol under the mouse, if any.
    pub hovered_word: Option<&'a str>,
}

/// What a plugin asks the editor to show.
pub struct PluginResponse {
    pub status_text: Option<String>,
    pub notifications: Vec<String>,
}

impl Default for PluginResponse {
    fn default() -> (r: Self)
        ensures
            r.status_text is None,
            r.notifications@.len() == 0,
    {
        PluginResponse { status_text: None, notifications: Vec::new() }
    }
}

} // verus!
