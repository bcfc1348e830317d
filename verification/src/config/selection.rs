//! Selection configuration.

use vstd::prelude::*;

verus! {

/// How text is selected and copied.
#[derive(Clone, Debug, PartialEq, Eq)]
pub struct Selection {
    pub semantic_escape_chars: String,
    pub save_to_clipboard: bool,
}

impl Selection {
    /// The configuration of an unconfigured terminal. Releasing the mouse
    /// writes to the primary selection; on platforms without one a selection is
    /// saved to the system clipboard instead, so that copy-on-select takes
    /// effect there and does not overwrite the clipboard elsewhere.
    pub fn for_platform(semantic_escape_chars: &str, has_primary_selection: bool) -> (r: Self)
        ensures
            r.semantic_escape_chars@ == semantic_escape_chars@,
            r.save_to_clipboard == !has_primary_selection,
    {
        Selection {
            semantic_escape_chars: semantic_escape_chars.to_owned(),
            save_to_clipboard: !has_primary_selection,
        }
    }
}

} // verus!
