//! What can be asked of a window's tabs.

use crate::display::tabs::{SplitDirection, SplitNav};
use vstd::prelude::*;

verus! {

/// Tab management actions.
#[derive(Debug, Clone, PartialEq, Eq)]
pub enum TabRequest {
    New,
    /// Open a tab that runs the quick-launch profile at this index.
    NewProfile(usize),
    Close,
    CloseIndex(usize),
    CloseWindow,
    SelectNext,
    SelectPrev,
    Select(usize),
    /// Jump to the rightmost tab.
    SelectLast,
    /// Move the tab at one displayed index to another.
    Move { from: usize, to: usize },
    /// Toggle a split with an independent shell.
    SplitToggle(SplitDirection),
    /// Dock the whole layout of a tab into the active one, on one of its sides.
    DockSplit { source: usize, nav: SplitNav },
    /// Move the keyboard focus to the split pane in a direction.
    FocusSplit(SplitNav),
    /// Toggle the zoom of the focused split pane.
    ToggleZoom,
    /// Begin to rename the tab at an index.
    BeginRename(usize),
    /// End the rename with a new name.
    CommitRename(String),
    /// End the rename without one.
    CancelRename,
}

} // verus!
