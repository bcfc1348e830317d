use vstd::prelude::*;

use crate::text::str_eq;

verus! {

/// Algorithm used to match completions against the input prefix.
#[derive(Copy, Clone, Debug, PartialEq, Eq, Structural)]
pub enum MatchAlgorithm {
    /// Only show suggestions beginning with the input.
    ///
    /// Example: `"git switch"` is matched by `"git sw"`
    Prefix,
    /// Only show suggestions containing the input as a substring.
    ///
    /// Example: `"git checkout"` is matched by `"checkout"`
    Substring,
    /// Fuzzy matching: characters can appear anywhere, in order.
    ///
    /// Example: `"git checkout"` is matched by `"gco"`
    Fuzzy,
}

/// Sorting strategy for completion results.
#[derive(Copy, Clone, Debug, PartialEq, Eq, Structural)]
pub enum CompletionSort {
    /// Sort alphabetically.
    Alphabetical,
    /// Smart sort: by relevance score first, then alphabetically.
    Smart,
}

impl Default for CompletionSort {
    fn default() -> (r: Self)
        ensures
            r == CompletionSort::Alphabetical,
    {
        CompletionSort::Alphabetical
    }
}

/// Configuration for how completions are matched and sorted.
#[derive(Copy, Clone, Debug)]
pub struct CompletionOptions {
    pub case_sensitive: bool,
    pub match_algorithm: MatchAlgorithm,
    pub sort: CompletionSort,
    /// Whether to also match against the suggestion description.
    pub match_description: bool,
}

impl Default for CompletionOptions {
    fn default() -> (r: Self)
        ensures
            r.case_sensitive,
            r.match_algorithm == MatchAlgorithm::Prefix,
            r.sort == CompletionSort::Alphabetical,
            !r.match_description,
    {
        CompletionOptions {
            case_sensitive: true,
            match_algorithm: MatchAlgorithm::Prefix,
            sort: CompletionSort::default(),
            match_description: false,
        }
    }
}

/// Why a match algorithm could not be read from its name.
#[derive(Copy, Clone, Debug, PartialEq, Eq, Structural)]
pub enum InvalidMatchAlgorithm {
    Unknown,
}

impl InvalidMatchAlgorithm {
    /// The message shown for the error.
    pub fn message(&self) -> (r: String)
        ensures
            r@ == "unknown match algorithm"@,
    {
        "unknown match algorithm".to_owned()
    }
}

impl MatchAlgorithm {
    /// The name under which the algorithm is configured.
    pub open spec fn name_of(self) -> Seq<char> {
        match self {
            MatchAlgorithm::Prefix => "prefix"@,
            MatchAlgorithm::Substring => "substring"@,
            MatchAlgorithm::Fuzzy => "fuzzy"@,
        }
    }
}

impl TryFrom<String> for MatchAlgorithm {
    type Error = InvalidMatchAlgorithm;

    /// The algorithm configured under `value`, which must be spelled exactly.
    fn try_from(value: String) -> (r: Result<Self, Self::Error>) {
        let name = value.as_str();
        if str_eq(name, "prefix") {
            Ok(MatchAlgorithm::Prefix)
        } else if str_eq(name, "substring") {
            Ok(MatchAlgorithm::Substring)
        } else if str_eq(name, "fuzzy") {
            Ok(MatchAlgorithm::Fuzzy)
        } else {
            Err(InvalidMatchAlgorithm::Unknown)
        }
    }
}

impl vstd::std_specs::convert::TryFromSpecImpl<String> for MatchAlgorithm {
    open spec fn obeys_try_from_spec() -> bool {
        true
    }

    open spec fn try_from_spec(value: String) -> Result<Self, InvalidMatchAlgorithm> {
        if value@ == "prefix"@ {
            Ok(MatchAlgorithm::Prefix)
        } else if value@ == "substring"@ {
            Ok(MatchAlgorithm::Substring)
        } else if value@ == "fuzzy"@ {
            Ok(MatchAlgorithm::Fuzzy)
        } else {
            Err(InvalidMatchAlgorithm::Unknown)
        }
    }
}

/// A name reads back as the algorithm it was written for, and a text is
/// refused exactly when it is nobody's name.
pub proof fn law_algorithm_names_read_back(a: MatchAlgorithm, text: String)
    ensures
        text@ == a.name_of() ==> <MatchAlgorithm as vstd::std_specs::convert::TryFromSpec<String>>::try_from_spec(text) == Ok::<
            MatchAlgorithm,
            InvalidMatchAlgorithm,
        >(a),
        <MatchAlgorithm as vstd::std_specs::convert::TryFromSpec<String>>::try_from_spec(text) is Err <==> forall|b: MatchAlgorithm|
            text@ != #[trigger] b.name_of(),
{
    reveal_strlit("prefix");
    reveal_strlit("substring");
    reveal_strlit("fuzzy");
    assert("prefix"@.len() == 6);
    assert("substring"@.len() == 9);
    assert("fuzzy"@.len() == 5);
    assert(MatchAlgorithm::Prefix.name_of() == "prefix"@);
    assert(MatchAlgorithm::Substring.name_of() == "substring"@);
    assert(MatchAlgorithm::Fuzzy.name_of() == "fuzzy"@);
}

} // verus!
