//! Core editing logic of a small code editor: text buffer, cursors, search,
//! bracket matching, folding, navigation history, tabs and run configurations.
pub mod config;
pub mod dap;
pub mod editor;
pub mod extension;
pub mod filetree;
pub mod git;
pub mod icons;
pub mod lsp;
pub mod nav_history;
pub mod paths;
pub mod plugin;
pub mod runner;
pub mod tabs;
pub mod text;
pub mod workbench;
pub mod workspace_search;
