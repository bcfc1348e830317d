//! Verified core of the Nebula terminal.

pub mod ai_hook;
pub mod completions;
pub mod config;
pub mod display;
pub mod event;
pub mod file_uri;
pub mod laws;
pub mod order;
pub mod text;
pub mod unicode;
