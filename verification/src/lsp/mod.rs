//! What language servers report, as the editor keeps it.
pub mod client;
pub mod json;
pub mod manager;
pub mod response;
pub mod edits;
pub mod wire;
