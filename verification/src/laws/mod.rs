//! What the library promises, said in plain terms: over sequences, positions and
//! texts alone, without the notions that the modules define for themselves.

pub mod assistants;
pub mod chrome;
pub mod commands;
pub mod completions;
pub mod drawing;
pub mod editing;
pub mod files;
pub mod git;
pub mod hooks;
pub mod input;
pub mod listings;
pub mod palette;
pub mod panels;
pub mod paths;
pub mod searching;
pub mod spawning;
pub mod suggestions;
pub mod uris;
pub mod windows;
pub mod words;
