//! Right-side drawer: directory tree / git status for the focused pane's
//! working directory.
//!
//! The panel is an overlay drawer: it floats above the terminal's right edge
//! instead of resizing it. The snapshot is refreshed only on toggle, when the
//! root changes, or when the throttle window has elapsed.

pub mod git;
pub mod tree;
pub mod panel;
pub mod view;
