//! The directories and the fixed options that are offered.

use vstd::prelude::*;

use crate::completions::directory;
use crate::completions::item;
use crate::completions::item::FileSuggestion;
use crate::completions::matcher;
use crate::completions::options::CompletionOptions;
use crate::completions::path::PathStyle;
use crate::completions::span::Span;
use crate::completions::static_completion;
use crate::completions::suggestion::{SemanticSuggestion, SuggestionKind};
use crate::laws::paths;

verus! {

/// Whether a path ends in a component that begins with a dot, or in another one.
pub open spec fn ends_in(path: Seq<char>, style: PathStyle, dotted: bool) -> bool {
    directory::file_name_of(path, style) matches Some(name) && dotted == (name.len() > 0 && name[0]
        == '.')
}

/// Directories come in the order that they were found in, those without a leading
/// dot first.
pub proof fn law_dotted_directories_come_last(items: Seq<FileSuggestion>, style: PathStyle)
    ensures
        directory::arranged(items, style) == items.filter(
            |x: FileSuggestion| ends_in(x.path@, style, false),
        ) + items.filter(|x: FileSuggestion| ends_in(x.path@, style, true)),
{
    lemma_visible(items, style);
    lemma_hidden(items, style);
}

proof fn lemma_visible(items: Seq<FileSuggestion>, style: PathStyle)
    ensures
        directory::visible_among(items, style) == items.filter(
            |x: FileSuggestion| ends_in(x.path@, style, false),
        ),
    decreases items.len(),
{
    reveal(Seq::filter);
    if items.len() > 0 {
        lemma_visible(items.drop_last(), style);
    } else {
        assert(items =~= items.filter(|x: FileSuggestion| ends_in(x.path@, style, false)));
    }
}

proof fn lemma_hidden(items: Seq<FileSuggestion>, style: PathStyle)
    ensures
        directory::hidden_among(items, style) == items.filter(
            |x: FileSuggestion| ends_in(x.path@, style, true),
        ),
    decreases items.len(),
{
    reveal(Seq::filter);
    if items.len() > 0 {
        lemma_hidden(items.drop_last(), style);
    } else {
        assert(items =~= items.filter(|x: FileSuggestion| ends_in(x.path@, style, true)));
    }
}

/// The name of a path is its last component, whatever stands in front of it, and a
/// separator behind it changes nothing.
pub proof fn law_names_stand_last(dir: Seq<char>, sep: char, name: Seq<char>, style: PathStyle)
    requires
        style.separates(sep),
        paths::is_whole(name, style),
        name.len() > 0,
        name != seq!['.'],
        name != seq!['.', '.'],
    ensures
        directory::file_name_of(name, style) == Some(name),
        directory::file_name_of(dir + seq![sep] + name, style) == Some(name),
        directory::file_name_of(dir + seq![sep] + name + seq![sep], style) == Some(name),
{
    let none = Seq::<char>::empty();
    paths::law_components_stand_between_separators(dir, sep, name, style);
    paths::law_components_stand_between_separators(name, sep, none, style);
    let whole = dir + seq![sep] + name;
    paths::law_components_stand_between_separators(whole, sep, none, style);
    assert(whole + seq![sep] + none =~= whole + seq![sep]);
    let front = item::pieces(dir, style, none);
    assert((front + seq![name]).last() == name);
    assert(seq![name].last() == name);
    assert(item::pieces(whole + seq![sep], style, none) =~= front + seq![name]);
}

/// The options that are offered are those that match what was typed, each with the
/// score and the places of its match, in the order of the list.
pub proof fn law_matching_options_are_offered(
    options: CompletionOptions,
    needle: Seq<char>,
    texts: Seq<Seq<char>>,
)
    ensures
        ({
            let hits = static_completion::matching_options(options, needle, texts);
            let found = texts.filter(
                |t: Seq<char>| matcher::match_of(options, needle, t) is Some,
            );
            &&& hits.len() == found.len()
            &&& forall|i: int|
                0 <= i < hits.len() ==> {
                    &&& (#[trigger] hits[i]).item == found[i]
                    &&& matcher::match_of(options, needle, found[i]) == Some(
                        (hits[i].score, hits[i].indices),
                    )
                }
        }),
    decreases texts.len(),
{
    reveal(Seq::filter);
    if texts.len() > 0 {
        law_matching_options_are_offered(options, needle, texts.drop_last());
    } else {
        assert(texts.filter(|t: Seq<char>| matcher::match_of(options, needle, t) is Some).len()
            == 0);
    }
}

/// A span is told from the start of the line: both ends move by the offset, and
/// none before the start.
pub proof fn law_spans_are_shifted(span: Span, offset: usize)
    ensures
        offset <= span.start <= span.end ==> span.shifted(offset).start + offset == span.start
            && span.shifted(offset).end + offset == span.end,
        span.start <= offset ==> span.shifted(offset).start == 0,
        span.end <= offset ==> span.shifted(offset).end == 0,
        span.shifted(0) == span,
{
}

/// Each directory that is offered has the path, the marks and the style with which
/// it was found, over the span that was typed.
pub proof fn law_directories_are_offered_as_found(
    r: Seq<SemanticSuggestion>,
    items: Seq<FileSuggestion>,
    span: Span,
    i: int,
)
    requires
        directory::are_directory_suggestions(r, items, span),
        0 <= i < items.len(),
    ensures
        r.len() == items.len(),
        r[i].suggestion.value@ == items[i].path@,
        r[i].suggestion.span == span,
        r[i].suggestion.match_indices == Some(items[i].match_indices),
        r[i].suggestion.style == items[i].style,
        r[i].suggestion.display_override == items[i].display_override,
        r[i].suggestion.append_whitespace,
        r[i].kind == Some(SuggestionKind::Directory),
{
    assert(directory::is_directory_suggestion(r[i], items[i], span));
}

} // verus!
