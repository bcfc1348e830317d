use vstd::prelude::*;

use crate::completions::options::CompletionOptions;
use crate::completions::span::Span;
use crate::completions::suggestion::SemanticSuggestion;

verus! {

/// Trait for types that can produce completion suggestions.
pub trait Completer {
    /// Whether the arguments may be completed.
    spec fn may_fetch(&self, prefix: Seq<char>, options: CompletionOptions) -> bool;

    /// Fetch, filter, and sort completions for the given `prefix`.
    ///
    /// * `cwd`: current working directory (used by file-based completers).
    /// * `prefix`: the partial text the user has typed.
    /// * `span`: the span in the original input that `prefix` covers.
    /// * `offset`: offset of the span relative to the start of the line
    ///   (for adjusting span values in suggestions).
    /// * `options`: matching / sorting configuration.
    fn fetch(
        &mut self,
        cwd: &str,
        prefix: &str,
        span: Span,
        offset: usize,
        options: &CompletionOptions,
    ) -> Vec<SemanticSuggestion>
        requires
            old(self).may_fetch(prefix@, *options),
    ;
}

} // verus!
