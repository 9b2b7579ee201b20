//! Plugins: what they contribute and what they are told.
pub mod builtin;
pub mod manager;
pub mod types;
