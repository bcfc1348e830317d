//! Colors of file names, from the value of `LS_COLORS`.

use vstd::prelude::*;

use crate::completions::item;

verus! {

/// The escape sequence that switches on the style of a file name: by the value of
/// `LS_COLORS`, or by the built-in colors where there is none. No style where
/// none is set for such names.
pub uninterp spec fn ls_style(env: Option<Seq<char>>, name: Seq<char>) -> Option<Seq<char>>;

/// Whether a text is one component of a path on every platform.
pub open spec fn is_name(s: Seq<char>) -> bool {
    s.len() > 0 && !item::has_drive(s) && forall|i: int|
        0 <= i < s.len() ==> s[i] != '/' && s[i] != '\\'
}

pub open spec fn optional_text(s: Option<String>) -> Option<Seq<char>> {
    match s {
        Some(s) => Some(s@),
        None => None,
    }
}

/// `lscolors::LsColors::from_string` (or `default`), then
/// `style_for_path_with_metadata` without metadata, as a `nu_ansi_term` prefix:
/// the style of a file that is known by its name only. Of a path it is the last
/// component that counts; which one that is, for a text that holds separators or
/// begins with a drive, depends on the platform and is not said.
#[verifier::external_body]
pub(crate) fn style_for_name(env: Option<&str>, name: &str) -> (r: Option<String>)
    ensures
        is_name(name@) ==> optional_text(r) == ls_style(item::optional_text(env), name@),
{
    let colors = env.map_or_else(lscolors::LsColors::default, lscolors::LsColors::from_string);
    let style = colors.style_for_path_with_metadata(name, None);
    style.map(|s| s.to_nu_ansi_term_style().prefix().to_string())
}

} // verus!
