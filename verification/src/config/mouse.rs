//! Mouse configuration.

use vstd::prelude::*;

verus! {

/// Mouse configuration, with bindings of type `B`.
#[derive(Clone, Debug, PartialEq, Eq)]
pub struct Mouse<B> {
    /// Hide the mouse cursor while typing; any mouse movement shows it again.
    pub hide_when_typing: bool,
    /// In a split, move keyboard focus to whichever pane the mouse hovers over
    /// (only within the focused window). Default off.
    pub focus_follows_mouse: bool,
    pub bindings: MouseBindings<B>,
}

impl<B> Mouse<B> {
    /// The configuration of an unconfigured terminal with these bindings: the
    /// cursor hides while typing, and focus stays where it is.
    pub fn with_bindings(bindings: MouseBindings<B>) -> (r: Self)
        ensures
            r.hide_when_typing,
            !r.focus_follows_mouse,
            r.bindings == bindings,
    {
        Mouse { hide_when_typing: true, focus_follows_mouse: false, bindings }
    }
}

/// The mouse bindings.
#[derive(Clone, Debug, PartialEq, Eq)]
pub struct MouseBindings<B>(pub Vec<B>);

} // verus!
