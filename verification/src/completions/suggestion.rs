use vstd::prelude::*;

use crate::completions::span::Span;

verus! {

/// A completion suggestion, the core value-type for completions.
#[derive(Debug, Clone, PartialEq)]
pub struct Suggestion {
    /// The text value to insert upon completion.
    pub value: String,
    /// Optional override for display (shown instead of `value`).
    pub display_override: Option<String>,
    /// Optional description / documentation.
    pub description: Option<String>,
    /// Arbitrary extra data.
    pub extra: Option<String>,
    /// Whether to append whitespace after the value.
    pub append_whitespace: bool,
    /// Indices in the displayed text that matched the query.
    pub match_indices: Option<Vec<usize>>,
    /// Styling for the suggestion: the escape sequence that switches it on.
    pub style: Option<String>,
    /// The span in the input that this suggestion replaces.
    pub span: Span,
}

impl Default for Suggestion {
    fn default() -> (r: Self)
        ensures
            r.value@ == Seq::<char>::empty(),
            r.display_override is None,
            r.description is None,
            r.extra is None,
            r.append_whitespace,
            r.match_indices is None,
            r.style is None,
            r.span == (Span { start: 0, end: 0 }),
    {
        Suggestion {
            value: String::new(),
            display_override: None,
            description: None,
            extra: None,
            append_whitespace: true,
            match_indices: None,
            style: None,
            span: Span::new(0, 0),
        }
    }
}

impl Suggestion {
    /// What is shown for the suggestion.
    pub open spec fn shown(&self) -> Seq<char> {
        match self.display_override {
            Some(text) => text@,
            None => self.value@,
        }
    }

    /// The display value: either the override or the raw value.
    pub fn display_value(&self) -> (r: &str)
        ensures
            r@ == self.shown(),
    {
        match &self.display_override {
            Some(text) => text.as_str(),
            None => self.value.as_str(),
        }
    }
}

/// Categorizes the kind of a completion.
#[derive(Debug, Clone, PartialEq)]
pub enum SuggestionKind {
    Command(String),
    Value(String),
    CellPath,
    Directory,
    File,
    Flag,
    Module,
    Operator,
    Variable,
}

/// A suggestion paired with its optional kind metadata.
#[derive(Debug, Clone, PartialEq)]
pub struct SemanticSuggestion {
    pub suggestion: Suggestion,
    pub kind: Option<SuggestionKind>,
}

impl SemanticSuggestion {
    pub fn new(suggestion: Suggestion) -> (r: Self)
        ensures
            r.suggestion == suggestion,
            r.kind is None,
    {
        SemanticSuggestion { suggestion, kind: None }
    }

    pub fn with_kind(suggestion: Suggestion, kind: SuggestionKind) -> (r: Self)
        ensures
            r.suggestion == suggestion,
            r.kind == Some(kind),
    {
        SemanticSuggestion { suggestion, kind: Some(kind) }
    }
}

impl From<Suggestion> for SemanticSuggestion {
    fn from(suggestion: Suggestion) -> (r: Self) {
        SemanticSuggestion { suggestion, kind: None }
    }
}

impl vstd::std_specs::convert::FromSpecImpl<Suggestion> for SemanticSuggestion {
    open spec fn obeys_from_spec() -> bool {
        true
    }

    open spec fn from_spec(suggestion: Suggestion) -> Self {
        SemanticSuggestion { suggestion, kind: None }
    }
}

impl Default for SemanticSuggestion {
    fn default() -> (r: Self)
        ensures
            r.suggestion.value@ == Seq::<char>::empty(),
            r.suggestion.display_override is None,
            r.suggestion.description is None,
            r.suggestion.extra is None,
            r.suggestion.append_whitespace,
            r.suggestion.match_indices is None,
            r.suggestion.span == (Span { start: 0, end: 0 }),
            r.kind is None,
    {
        SemanticSuggestion { suggestion: Suggestion::default(), kind: None }
    }
}

} // verus!
