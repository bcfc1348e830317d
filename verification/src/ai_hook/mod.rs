//! Real-time AI-CLI turn state: typed lifecycle events from AI command line
//! tools into the sidebar dots and the notification center, and the upkeep of
//! the hooks that send them.

use vstd::prelude::*;

pub mod claude;
pub mod codex;
pub mod envelope;
pub mod guard;
pub mod json;

verus! {

/// Environment variable carrying this instance's pipe name into child shells.
pub const PIPE_ENV: &'static str = "NEBULA_NOTIFY_PIPE";

/// Per-pane identity, injected into each pane's environment.
pub const PANE_ENV: &'static str = "NEBULA_PANE_ID";

/// Absolute path of the bridge, exported so that a plugin which cannot find
/// our installation on its own can call it.
pub const HOOK_EXE_ENV: &'static str = "NEBULA_HOOK_EXE";

} // verus!
