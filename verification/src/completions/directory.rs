use vstd::prelude::*;

use crate::completions::file::{DirKey, DirSnapshot};
use crate::completions::item;
use crate::completions::item::FileSuggestion;
use crate::completions::options::CompletionOptions;
use crate::completions::path::PathStyle;
use crate::completions::span::Span;
use crate::completions::suggestion::{SemanticSuggestion, Suggestion, SuggestionKind};
use crate::text;

verus! {

/// A completer that returns only directory entries.
pub struct DirectoryCompletion;

/// `names` without the `.` components at its end.
pub open spec fn without_trailing_dots(names: Seq<Seq<char>>) -> Seq<Seq<char>>
    decreases names.len(),
{
    if names.len() > 0 && names.last() == seq!['.'] {
        without_trailing_dots(names.drop_last())
    } else {
        names
    }
}

/// The name that a path ends with: its last component other than `.`, unless
/// that is `..`.
pub open spec fn file_name_of(path: Seq<char>, style: PathStyle) -> Option<Seq<char>> {
    let names = without_trailing_dots(item::pieces(path, style, Seq::empty()));
    if names.len() == 0 || names.last() == seq!['.', '.'] {
        None
    } else {
        Some(names.last())
    }
}

/// Whether a suggested path has a name, and a visible one.
pub open spec fn is_visible(s: FileSuggestion, style: PathStyle) -> bool {
    file_name_of(s.path@, style) matches Some(name) && !(name.len() > 0 && name[0] == '.')
}

/// Whether a suggested path has a name that begins with a dot.
pub open spec fn is_hidden(s: FileSuggestion, style: PathStyle) -> bool {
    file_name_of(s.path@, style) matches Some(name) && name.len() > 0 && name[0] == '.'
}

pub open spec fn visible_among(items: Seq<FileSuggestion>, style: PathStyle) -> Seq<FileSuggestion>
    decreases items.len(),
{
    if items.len() == 0 {
        items
    } else if is_visible(items.last(), style) {
        visible_among(items.drop_last(), style).push(items.last())
    } else {
        visible_among(items.drop_last(), style)
    }
}

pub open spec fn hidden_among(items: Seq<FileSuggestion>, style: PathStyle) -> Seq<FileSuggestion>
    decreases items.len(),
{
    if items.len() == 0 {
        items
    } else if is_hidden(items.last(), style) {
        hidden_among(items.drop_last(), style).push(items.last())
    } else {
        hidden_among(items.drop_last(), style)
    }
}

/// The order in which directories are suggested: hidden ones last.
pub open spec fn arranged(items: Seq<FileSuggestion>, style: PathStyle) -> Seq<FileSuggestion> {
    visible_among(items, style) + hidden_among(items, style)
}

/// The suggestion made of a completed directory.
pub open spec fn is_directory_suggestion(
    r: SemanticSuggestion,
    x: FileSuggestion,
    span: Span,
) -> bool {
    &&& r.suggestion.value == x.path
    &&& r.suggestion.display_override == x.display_override
    &&& r.suggestion.description is None
    &&& r.suggestion.extra is None
    &&& r.suggestion.append_whitespace
    &&& r.suggestion.match_indices == Some(x.match_indices)
    &&& r.suggestion.style == x.style
    &&& r.suggestion.span == span
    &&& r.kind == Some(SuggestionKind::Directory)
}

pub open spec fn are_directory_suggestions(
    r: Seq<SemanticSuggestion>,
    xs: Seq<FileSuggestion>,
    span: Span,
) -> bool {
    r.len() == xs.len() && forall|i: int|
        0 <= i < r.len() ==> is_directory_suggestion(#[trigger] r[i], xs[i], span)
}

/// The name that a path ends with.
fn file_name(path: &str, style: PathStyle) -> (r: Option<String>)
    ensures
        match r {
            Some(name) => file_name_of(path@, style) == Some(name@),
            None => file_name_of(path@, style) is None,
        },
{
    let v = text::chars_of(path);
    let names = item::split_components(&v, 0, style);
    let ghost all = item::texts(names@);
    assert(v@.skip(0) =~= path@);
    let mut n: usize = names.len();
    assert(all.take(n as int) =~= all);
    while n > 0 && text::str_eq(names[n - 1].as_str(), ".")
        invariant
            n <= names@.len(),
            all == item::texts(names@),
            without_trailing_dots(all) == without_trailing_dots(all.take(n as int)),
        decreases n,
    {
        proof {
            reveal_strlit(".");
            assert("."@ =~= seq!['.']);
            assert(all.take(n as int).drop_last() =~= all.take(n - 1));
            assert(all.take(n as int).last() == names@[n - 1]@);
        }
        n -= 1;
    }
    proof {
        reveal_strlit(".");
        reveal_strlit("..");
        assert("."@ =~= seq!['.']);
        assert(".."@ =~= seq!['.', '.']);
        if n > 0 {
            assert(all.take(n as int).last() == names@[n - 1]@);
        }
        assert(without_trailing_dots(all) == all.take(n as int));
    }
    if n == 0 || text::str_eq(names[n - 1].as_str(), "..") {
        None
    } else {
        Some(names[n - 1].clone())
    }
}

/// Turns completed directories into suggestions, hidden ones last. Paths
/// without a name are dropped.
pub fn arrange(items: Vec<FileSuggestion>, span: Span, style: PathStyle) -> (r: Vec<
    SemanticSuggestion,
>)
    ensures
        are_directory_suggestions(r@, arranged(items@, style), span),
{
    let ghost all = items@;
    let mut hidden: Vec<SemanticSuggestion> = Vec::new();
    let mut non_hidden: Vec<SemanticSuggestion> = Vec::new();
    assert(all.take(0) =~= Seq::empty());
    for x in it: items
        invariant
            it.seq() == all,
            are_directory_suggestions(
                non_hidden@,
                visible_among(all.take(it.index() as int), style),
                span,
            ),
            are_directory_suggestions(
                hidden@,
                hidden_among(all.take(it.index() as int), style),
                span,
            ),
    {
        let ghost n = it.index() as int;
        assert(x == all[n]);
        assert(all.take(n + 1).drop_last() =~= all.take(n));
        assert(all.take(n + 1).last() == x);
        let name = file_name(x.path.as_str(), style);
        let suggestion = SemanticSuggestion {
            suggestion: Suggestion {
                value: x.path,
                display_override: x.display_override,
                description: None,
                extra: None,
                append_whitespace: true,
                match_indices: Some(x.match_indices),
                style: x.style,
                span,
            },
            kind: Some(SuggestionKind::Directory),
        };
        assert(is_directory_suggestion(suggestion, x, span));
        if let Some(name) = name {
            let chars = text::chars_of(name.as_str());
            if chars.len() > 0 && chars[0] == '.' {
                hidden.push(suggestion);
            } else {
                non_hidden.push(suggestion);
            }
        }
    }
    assert(all.take(all.len() as int) =~= all);
    let ghost front = non_hidden@;
    let ghost back = hidden@;
    non_hidden.append(&mut hidden);
    assert forall|i: int| 0 <= i < non_hidden@.len() implies is_directory_suggestion(
        #[trigger] non_hidden@[i],
        arranged(all, style)[i],
        span,
    ) by {
        if i < front.len() {
            assert(non_hidden@[i] == front[i]);
        } else {
            assert(non_hidden@[i] == back[i - front.len()]);
        }
    }
    non_hidden
}

/// What a directory completion asks for.
pub open spec fn directory_request(
    cwd: &str,
    prefix: &str,
    span: Span,
    options: CompletionOptions,
    style: PathStyle,
    home: Option<&str>,
) -> item::ItemRequest {
    item::ItemRequest {
        want_directory: true,
        span,
        partial: prefix@,
        cwds: seq![cwd@],
        options,
        style,
        home: item::optional_text(home),
        colors: Some(None),
    }
}

/// Whether `r` is what becomes of the completed directories.
pub open spec fn is_fetched(
    r: Result<Vec<SemanticSuggestion>, DirKey>,
    items: Result<Vec<FileSuggestion>, DirKey>,
    span: Span,
    style: PathStyle,
) -> bool {
    match (r, items) {
        (Ok(found), Ok(items)) => are_directory_suggestions(found@, arranged(items@, style), span),
        (Err(a), Err(b)) => a == b,
        _ => false,
    }
}

impl DirectoryCompletion {
    /// Fetch the directories that complete `prefix`, or the directory that has
    /// to be read first.
    pub fn fetch(
        &mut self,
        cwd: &str,
        prefix: &str,
        span: Span,
        offset: usize,
        options: &CompletionOptions,
        style: PathStyle,
        home: Option<&str>,
        dirs: &DirSnapshot,
    ) -> (r: Result<Vec<SemanticSuggestion>, DirKey>)
        requires
            directory_request(cwd, prefix, span, *options, style, home).wf(),
            dirs.wf(*options),
        ensures
            exists|items: Result<Vec<FileSuggestion>, DirKey>| #[trigger]
                directory_request(cwd, prefix, span, *options, style, home).is_answered(
                    items,
                    *dirs,
                ) && is_fetched(r, items, span.shifted(offset), style),
    {
        let mut cwds: Vec<String> = Vec::new();
        cwds.push(cwd.to_owned());
        assert(item::texts(cwds@) =~= seq![cwd@]);
        let items = item::complete_item(
            true,
            span,
            prefix,
            &cwds,
            options,
            true,
            None,
            style,
            home,
            dirs,
        );
        let ghost answer = items;
        let r = match items {
            Ok(items) => Ok(arrange(items, span.shift(offset), style)),
            Err(key) => Err(key),
        };
        assert(is_fetched(r, answer, span.shifted(offset), style));
        r
    }
}

/// No visible directory is suggested behind a hidden one.
pub proof fn law_hidden_directories_come_last(
    items: Seq<FileSuggestion>,
    style: PathStyle,
    i: int,
    j: int,
)
    requires
        0 <= i < j < arranged(items, style).len(),
        is_hidden(arranged(items, style)[i], style),
    ensures
        is_hidden(arranged(items, style)[j], style),
{
    lemma_kinds(items, style);
    let n = visible_among(items, style).len();
    if i < n {
        assert(is_visible(visible_among(items, style)[i], style));
    }
    assert(is_hidden(hidden_among(items, style)[j - n], style));
}

proof fn lemma_kinds(items: Seq<FileSuggestion>, style: PathStyle)
    ensures
        forall|i: int|
            0 <= i < visible_among(items, style).len() ==> is_visible(
                #[trigger] visible_among(items, style)[i],
                style,
            ),
        forall|i: int|
            0 <= i < hidden_among(items, style).len() ==> is_hidden(
                #[trigger] hidden_among(items, style)[i],
                style,
            ),
    decreases items.len(),
{
    if items.len() > 0 {
        lemma_kinds(items.drop_last(), style);
        let a = visible_among(items, style);
        let a0 = visible_among(items.drop_last(), style);
        assert forall|i: int| 0 <= i < a.len() implies is_visible(#[trigger] a[i], style) by {
            if i < a0.len() {
                assert(a[i] == a0[i]);
            }
        }
        let b = hidden_among(items, style);
        let b0 = hidden_among(items.drop_last(), style);
        assert forall|i: int| 0 <= i < b.len() implies is_hidden(#[trigger] b[i], style) by {
            if i < b0.len() {
                assert(b[i] == b0[i]);
            }
        }
    }
}

} // verus!
