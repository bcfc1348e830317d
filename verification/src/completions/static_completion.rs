use std::borrow::Cow;

use vstd::prelude::*;

use crate::completions::completer::Completer;
use crate::completions::matcher;
use crate::completions::matcher::{CandidateMatcher, MAX_FUZZY_HAYSTACK, MAX_FUZZY_NEEDLE};
use crate::completions::options::CompletionOptions;
use crate::completions::span::Span;
use crate::completions::suggestion::{SemanticSuggestion, Suggestion, SuggestionKind};

verus! {

/// A completer that matches against a static list of string options.
pub struct StaticCompletion {
    options: Cow<'static, [String]>,
}

/// The options that match `needle`, in order.
pub open spec fn matching_options(
    options: CompletionOptions,
    needle: Seq<char>,
    texts: Seq<Seq<char>>,
) -> Seq<matcher::Hit<Seq<char>>>
    decreases texts.len(),
{
    if texts.len() == 0 {
        Seq::empty()
    } else {
        let front = matching_options(options, needle, texts.drop_last());
        match matcher::match_of(options, needle, texts.last()) {
            Some((score, indices)) => front.push(
                matcher::Hit {
                    item: texts.last(),
                    haystack: matcher::trim_quotes(texts.last()),
                    score,
                    indices,
                },
            ),
            None => front,
        }
    }
}

/// The suggestion made of a matching option.
pub open spec fn is_option_suggestion(
    r: SemanticSuggestion,
    hit: matcher::Hit<Seq<char>>,
    span: Span,
) -> bool {
    &&& r.suggestion.value@ == hit.item
    &&& r.suggestion.display_override is None
    &&& r.suggestion.description is None
    &&& r.suggestion.extra is None
    &&& r.suggestion.append_whitespace
    &&& r.suggestion.match_indices matches Some(indices) && indices@ == hit.indices
    &&& r.suggestion.style is None
    &&& r.suggestion.span == span
    &&& r.kind matches Some(SuggestionKind::Value(kind)) && kind@ == "string"@
}

/// A suggestion for an option that was not matched yet.
spec fn is_plain_option(r: SemanticSuggestion, span: Span) -> bool {
    &&& r.suggestion.display_override is None
    &&& r.suggestion.description is None
    &&& r.suggestion.extra is None
    &&& r.suggestion.append_whitespace
    &&& r.suggestion.style is None
    &&& r.suggestion.span == span
    &&& r.kind matches Some(SuggestionKind::Value(kind)) && kind@ == "string"@
}

/// Whether `prefix` and the options may be matched.
pub open spec fn may_match(
    options: CompletionOptions,
    prefix: Seq<char>,
    texts: Seq<Seq<char>>,
) -> bool {
    options.match_algorithm is Fuzzy ==> {
        &&& matcher::trim_quotes(prefix).len() <= MAX_FUZZY_NEEDLE
        &&& forall|i: int|
            0 <= i < texts.len() ==> vstd::utf8::encode_utf8(#[trigger] texts[i]).len()
                <= MAX_FUZZY_HAYSTACK
    }
}

impl StaticCompletion {
    /// The options, in order.
    pub closed spec fn texts(&self) -> Seq<Seq<char>> {
        self.options@.map_values(|s: String| s@)
    }

    /// Create a new completer from a static list of owned strings.
    pub fn new(options: Cow<'static, [String]>) -> (r: Self)
        ensures
            r.texts() == options@.map_values(|s: String| s@),
    {
        StaticCompletion { options }
    }

    /// Create a completer from a `&'static [&'static str]` slice.
    pub fn from_static(options: &'static [&'static str]) -> (r: Self)
        ensures
            r.texts() == options@.map_values(|s: &'static str| s@),
    {
        let mut v: Vec<String> = Vec::new();
        let mut i: usize = 0;
        while i < options.len()
            invariant
                i <= options@.len(),
                v@.len() == i,
                forall|j: int| 0 <= j < i ==> (#[trigger] v@[j])@ == options@[j]@,
            decreases options@.len() - i,
        {
            v.push(options[i].to_owned());
            i += 1;
        }
        assert(v@.map_values(|s: String| s@) =~= options@.map_values(|s: &'static str| s@));
        StaticCompletion { options: Cow::Owned(v) }
    }

    fn as_slice(&self) -> (r: &[String])
        ensures
            r@.map_values(|s: String| s@) == self.texts(),
    {
        match &self.options {
            Cow::Borrowed(s) => s,
            Cow::Owned(v) => v.as_slice(),
        }
    }

    /// The matching options in the order in which they are suggested.
    pub open spec fn suggested(&self, prefix: Seq<char>, options: CompletionOptions) -> Seq<
        matcher::Hit<Seq<char>>,
    > {
        matcher::sort_hits(
            options,
            matching_options(options, matcher::needle_of(options, prefix), self.texts()),
        )
    }
}

impl Completer for StaticCompletion {
    open spec fn may_fetch(&self, prefix: Seq<char>, options: CompletionOptions) -> bool {
        may_match(options, prefix, self.texts())
    }

    fn fetch(
        &mut self,
        cwd: &str,
        prefix: &str,
        span: Span,
        offset: usize,
        options: &CompletionOptions,
    ) -> (r: Vec<SemanticSuggestion>)
        ensures
            *final(self) == *old(self),
            r@.len() == old(self).suggested(prefix@, *options).len(),
            forall|i: int|
                0 <= i < r@.len() ==> is_option_suggestion(
                    #[trigger] r@[i],
                    old(self).suggested(prefix@, *options)[i],
                    span.shifted(offset),
                ),
    {
        let ghost all = self.texts();
        let ghost f = |s: SemanticSuggestion| s.suggestion.value@;
        let ghost needle = matcher::needle_of(*options, prefix@);
        let ghost plain_span = span.shifted(offset);
        let mut finder: CandidateMatcher<SemanticSuggestion> = CandidateMatcher::new(
            prefix,
            options,
            true,
        );
        let current_span = span.shift(offset);
        let texts = self.as_slice();
        let mut i: usize = 0;
        assert(all.take(0) =~= Seq::empty());
        assert(matcher::map_items(finder.hits(), f) =~= Seq::empty());
        while i < texts.len()
            invariant
                i <= texts@.len(),
                all == texts@.map_values(|s: String| s@),
                f == (|s: SemanticSuggestion| s.suggestion.value@),
                current_span == plain_span,
                may_match(*options, prefix@, all),
                finder.wf(),
                finder.sorts(),
                finder.options_of() == *options,
                finder.needle_text() == needle,
                matcher::map_items(finder.hits(), f) == matching_options(
                    *options,
                    needle,
                    all.take(i as int),
                ),
                forall|j: int|
                    0 <= j < finder.hits().len() ==> is_plain_option(
                        (#[trigger] finder.hits()[j]).item,
                        plain_span,
                    ),
            decreases texts@.len() - i,
        {
            assert(all.take(i + 1).drop_last() =~= all.take(i as int));
            assert(all.take(i + 1).last() == texts@[i as int]@);
            assert(all[i as int] == texts@[i as int]@);
            let suggestion = SemanticSuggestion {
                suggestion: Suggestion {
                    value: texts[i].clone(),
                    display_override: None,
                    description: None,
                    extra: None,
                    append_whitespace: true,
                    match_indices: None,
                    style: None,
                    span: current_span,
                },
                kind: Some(SuggestionKind::Value("string".to_owned())),
            };
            let ghost before = finder.hits();
            let ghost item = suggestion;
            let added = finder.add_suggestion(suggestion);
            proof {
                if added {
                    let hit = finder.hits().last();
                    assert(finder.hits() =~= before.push(hit));
                    assert(hit.item == item);
                    assert(matcher::map_items(finder.hits(), f) =~= matcher::map_items(
                        before,
                        f,
                    ).push(matcher::map_item(hit, f)));
                    assert forall|j: int| 0 <= j < finder.hits().len() implies is_plain_option(
                        (#[trigger] finder.hits()[j]).item,
                        plain_span,
                    ) by {
                        if j < before.len() {
                            assert(finder.hits()[j] == before[j]);
                        }
                    }
                }
            }
            i += 1;
        }
        assert(all.take(i as int) =~= all);
        let ghost hits = finder.hits();
        let ghost sorted = matcher::sort_hits(*options, hits);
        proof {
            matcher::lemma_sort_map(*options, hits, f);
            lemma_sorted_plain(*options, hits, plain_span);
        }
        let r = finder.suggestion_results();
        assert forall|k: int| 0 <= k < r@.len() implies is_option_suggestion(
            #[trigger] r@[k],
            matcher::map_items(sorted, f)[k],
            plain_span,
        ) by {
            assert(matcher::is_result(r@[k], sorted[k]));
            assert(is_plain_option(sorted[k].item, plain_span));
        }
        r
    }
}

proof fn lemma_sorted_plain(
    options: CompletionOptions,
    hits: Seq<matcher::Hit<SemanticSuggestion>>,
    span: Span,
)
    requires
        forall|i: int| 0 <= i < hits.len() ==> is_plain_option((#[trigger] hits[i]).item, span),
    ensures
        forall|i: int|
            0 <= i < matcher::sort_hits(options, hits).len() ==> is_plain_option(
                (#[trigger] matcher::sort_hits(options, hits)[i]).item,
                span,
            ),
{
    broadcast use vstd::seq_lib::group_to_multiset_ensures;

    let sorted = matcher::sort_hits(options, hits);
    matcher::law_sorting_keeps_every_match(options, hits);
    assert forall|i: int| 0 <= i < sorted.len() implies is_plain_option(
        (#[trigger] sorted[i]).item,
        span,
    ) by {
        assert(sorted.contains(sorted[i]));
        assert(sorted.to_multiset().count(sorted[i]) > 0);
        assert(hits.contains(sorted[i]));
    }
}

} // verus!
