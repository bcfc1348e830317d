//! The completion engine: prefix, substring and fuzzy matching of candidates,
//! and the completers built on it.

pub mod color;
pub mod completer;
pub mod directory;
pub mod escape;
pub mod file;
pub mod item;
pub mod matcher;
pub mod options;
pub mod path;
pub mod span;
pub mod static_completion;
pub mod suggestion;
