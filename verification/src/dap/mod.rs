//! Debugging: breakpoints, the debug session's state and how it follows the
//! debug adapter's messages.
pub mod client;
pub mod manager;
pub mod types;
pub mod decode;
