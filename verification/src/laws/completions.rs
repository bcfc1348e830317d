//! Completing paths.

use vstd::prelude::*;

use crate::completions::file;
use crate::completions::file::{Built, Candidate, DirSnapshot, Entry, Key, Part, Request};
use crate::completions::matcher;
use crate::completions::matcher::Call;
use crate::completions::options::{CompletionOptions, CompletionSort, MatchAlgorithm};
use crate::laws::words;
use crate::text;
use crate::unicode;

verus! {

/// A path one directory further down.
pub open spec fn below(built: Built, name: Seq<char>, indices: Seq<usize>, isdir: bool) -> Built {
    Built { cwd: built.cwd, parts: built.parts.push(Part { text: name, indices }), isdir }
}

/// A component of dots that is followed by more is never looked for among the
/// entries of a directory: every path goes on from the directory that it names.
pub proof fn law_dots_are_descended(
    request: Request,
    n: nat,
    rest: Seq<Seq<char>>,
    paths: Seq<Built>,
    exact: bool,
    dirs: DirSnapshot,
)
    requires
        n >= 1,
        rest.len() > 0 || request.isdir,
    ensures
        ({
            let dots = Seq::new(n, |i: int| '.');
            file::walk(request, seq![dots] + rest, paths, exact, dirs) == file::walk(
                request,
                rest,
                Seq::new(paths.len(), |i: int| below(paths[i], dots, Seq::empty(), true)),
                exact,
                dirs,
            )
        }),
{
    let dots = Seq::new(n, |i: int| '.');
    let all = seq![dots] + rest;
    assert(all.drop_first() =~= rest);
    assert(all[0] == dots);
    let down = paths.map_values(|b: Built| file::into_dots(b, all[0]));
    assert(down =~= Seq::new(paths.len(), |i: int| below(paths[i], dots, Seq::empty(), true)));
}

/// Whether `c` is one of the quotes.
pub open spec fn is_quote(c: char) -> bool {
    c == '"' || c == '\'' || c == '`'
}

pub open spec fn all_quotes(s: Seq<char>) -> bool {
    forall|i: int| 0 <= i < s.len() ==> is_quote(#[trigger] s[i])
}

/// Quotes are taken off both ends of a name, all of them, and nothing else.
pub proof fn law_quotes_are_taken_off(s: Seq<char>)
    ensures
        exists|a: Seq<char>, b: Seq<char>|
            all_quotes(a) && all_quotes(b) && s == #[trigger] (a + matcher::trim_quotes(s) + b),
        matcher::trim_quotes(s).len() > 0 ==> !is_quote(matcher::trim_quotes(s)[0]) && !is_quote(
            matcher::trim_quotes(s).last(),
        ),
{
    let t = matcher::trim_quotes_start(s);
    lemma_quotes_start(s);
    lemma_quotes_end(t);
    let r = matcher::trim_quotes(s);
    let a = s.take(s.len() - t.len());
    let b = t.skip(r.len() as int);
    assert(s =~= a + r + b) by {
        assert(t =~= r + b);
        assert(s =~= a + t);
        assert(a + (r + b) =~= a + r + b);
    }
    if r.len() > 0 {
        assert(r[0] == t[0]);
    }
}

proof fn lemma_quotes_start(s: Seq<char>)
    ensures
        matcher::trim_quotes_start(s).len() <= s.len(),
        matcher::trim_quotes_start(s) == s.skip(s.len() - matcher::trim_quotes_start(s).len()),
        all_quotes(s.take(s.len() - matcher::trim_quotes_start(s).len())),
        matcher::trim_quotes_start(s).len() > 0 ==> !is_quote(matcher::trim_quotes_start(s)[0]),
    decreases s.len(),
{
    if s.len() > 0 && is_quote(s[0]) {
        let rest = s.drop_first();
        lemma_quotes_start(rest);
        let n = s.len() - matcher::trim_quotes_start(s).len();
        assert(rest.skip(n - 1) =~= s.skip(n));
        assert forall|i: int| 0 <= i < n implies is_quote(#[trigger] s.take(n)[i]) by {
            if i > 0 {
                assert(rest.take(n - 1)[i - 1] == s[i]);
            }
        }
    } else {
        assert(s.skip(0) =~= s);
    }
}

proof fn lemma_quotes_end(s: Seq<char>)
    ensures
        matcher::trim_quotes_end(s).len() <= s.len(),
        matcher::trim_quotes_end(s) == s.take(matcher::trim_quotes_end(s).len() as int),
        all_quotes(s.skip(matcher::trim_quotes_end(s).len() as int)),
        matcher::trim_quotes_end(s).len() > 0 ==> !is_quote(matcher::trim_quotes_end(s).last()),
    decreases s.len(),
{
    if s.len() > 0 && is_quote(s.last()) {
        let front = s.drop_last();
        lemma_quotes_end(front);
        let n = matcher::trim_quotes_end(s).len() as int;
        assert(front.take(n) =~= s.take(n));
        assert forall|i: int| 0 <= i < s.len() - n implies is_quote(#[trigger] s.skip(n)[i]) by {
            if i < front.len() - n {
                assert(front.skip(n)[i] == s[i + n]);
            }
        }
    } else {
        assert(s.take(s.len() as int) =~= s);
    }
}

/// A match is marked where it stands in a name, behind the quotes that lead it: from
/// the first character on where the name begins with what was typed, else from the
/// first place that holds it.
pub proof fn law_matches_are_marked(
    options: CompletionOptions,
    needle: Seq<char>,
    quotes: Seq<char>,
    name: Seq<char>,
    k: int,
)
    requires
        options.case_sensitive,
        all_quotes(quotes),
        name.len() > 0,
        !is_quote(name[0]),
        !is_quote(name.last()),
        0 <= k < unicode::graphemes(needle),
        quotes.len() + unicode::graphemes(name) + unicode::graphemes(needle) <= usize::MAX,
    ensures
        options.match_algorithm is Prefix && needle.is_prefix_of(name) ==> (matcher::match_of(
            options,
            needle,
            quotes + name,
        ) matches Some((score, at)) && score == 0 && at.len() == unicode::graphemes(needle) && at[k]
            == quotes.len() + k),
        options.match_algorithm is Substring ==> forall|a: Seq<char>, b: Seq<char>|
            name == #[trigger] (a + needle + b) && text::find_from(name, needle, 0) == Some(
                a.len() as int,
            ) && quotes.len() + unicode::graphemes(a) + k <= usize::MAX ==> (matcher::match_of(
                options,
                needle,
                quotes + name,
            ) matches Some((score, at)) && score == 0 && at.len() == unicode::graphemes(needle)
                && at[k] == quotes.len() + unicode::graphemes(a) + k),
{
    lemma_unquoted_start(quotes, name);
    assert(matcher::trim_quotes_end(name) == name);
    if needle.is_prefix_of(name) {
        assert(name.subrange(0, needle.len() as int) =~= needle);
    }
    assert forall|a: Seq<char>, b: Seq<char>|
        options.match_algorithm is Substring && name == #[trigger] (a + needle + b)
            && text::find_from(name, needle, 0) == Some(a.len() as int) && quotes.len()
            + unicode::graphemes(a) + k <= usize::MAX implies (matcher::match_of(
        options,
        needle,
        quotes + name,
    ) matches Some((score, at)) && score == 0 && at.len() == unicode::graphemes(needle) && at[k]
        == quotes.len() + unicode::graphemes(a) + k) by {
        assert(name.take(a.len() as int) =~= a);
    }
}

proof fn lemma_unquoted_start(quotes: Seq<char>, name: Seq<char>)
    requires
        all_quotes(quotes),
        name.len() > 0 ==> !is_quote(name[0]),
    ensures
        matcher::trim_quotes_start(quotes + name) == name,
    decreases quotes.len(),
{
    if quotes.len() == 0 {
        assert(quotes + name =~= name);
    } else {
        assert(is_quote(quotes[0]));
        let q = quotes.drop_first();
        assert forall|i: int| 0 <= i < q.len() implies is_quote(#[trigger] q[i]) by {
            assert(is_quote(quotes[i + 1]));
        }
        lemma_unquoted_start(q, name);
        assert((quotes + name).drop_first() =~= q + name);
    }
}

/// A text as it is compared: its folding where case does not count.
pub open spec fn compared(options: CompletionOptions, s: Seq<char>) -> Seq<char> {
    if options.case_sensitive {
        s
    } else {
        unicode::folded(s)
    }
}

/// Whether a name goes with what was typed, quotes aside: it begins with it, holds
/// it, or is a fuzzy match of it.
pub open spec fn suits(options: CompletionOptions, typed: Seq<char>, name: Seq<char>) -> bool {
    let (t, n) = (matcher::trim_quotes(typed), matcher::trim_quotes(name));
    match options.match_algorithm {
        MatchAlgorithm::Prefix => compared(options, t).is_prefix_of(compared(options, n)),
        MatchAlgorithm::Substring => words::holds(compared(options, n), compared(options, t)),
        MatchAlgorithm::Fuzzy => matcher::fuzzy_hit(t, options.case_sensitive, true, false, n)
            is Some,
    }
}

/// A candidate is kept exactly where it goes with what was typed.
pub proof fn law_what_suits_is_kept(options: CompletionOptions, typed: Seq<char>, name: Seq<char>)
    ensures
        matcher::match_of(options, matcher::needle_of(options, typed), name) is Some <==> suits(
            options,
            typed,
            name,
        ),
{
    let (t, n) = (matcher::trim_quotes(typed), matcher::trim_quotes(name));
    let (p, s) = (compared(options, t), compared(options, n));
    words::law_found_where_it_stands(s, p);
    assert(text::starts_with(s, p) <==> p.is_prefix_of(s));
}

/// Whether an entry is on offer for what was typed.
pub open spec fn offered(request: Request, typed: Seq<char>, entry: Entry) -> bool {
    (request.want_directory ==> entry.is_dir) && suits(request.options, typed, entry.name)
}

/// Whether a completed path is that of an entry below `built`.
pub open spec fn completes(found: Built, built: Built, entry: Entry) -> bool {
    &&& found.cwd == built.cwd
    &&& found.isdir == entry.is_dir
    &&& found.parts.len() == built.parts.len() + 1
    &&& found.parts.drop_last() == built.parts
    &&& found.parts.last().text == entry.name
}

spec fn level_hits(request: Request, typed: Seq<char>, built: Built, entries: Seq<Entry>) -> Seq<
    matcher::Hit<Candidate>,
> {
    file::hits_among(
        request.options,
        matcher::needle_of(request.options, typed),
        file::candidates_in(built, entries, request.want_directory),
    )
}

proof fn lemma_level_hits(request: Request, typed: Seq<char>, built: Built, entries: Seq<Entry>)
    ensures
        ({
            let hits = level_hits(request, typed, built, entries);
            let keep = |e: Entry| offered(request, typed, e);
            &&& hits.len() == entries.filter(keep).len()
            &&& forall|i: int|
                0 <= i < hits.len() ==> is_hit_of(
                    #[trigger] hits[i],
                    request,
                    typed,
                    built,
                    entries.filter(keep)[i],
                )
        }),
    decreases entries.len(),
{
    reveal(Seq::filter);
    let keep = |e: Entry| offered(request, typed, e);
    let hits = level_hits(request, typed, built, entries);
    if entries.len() > 0 {
        let front = entries.drop_last();
        lemma_level_hits(request, typed, built, front);
        let e = entries.last();
        law_what_suits_is_kept(request.options, typed, e.name);
        let before = file::candidates_in(built, front, request.want_directory);
        if !request.want_directory || e.is_dir {
            let one = Candidate { built: built.with_isdir(e.is_dir), name: e.name };
            assert(before.push(one).drop_last() =~= before);
        }
    }
}

/// Whether a hit is that of an entry below `built`.
spec fn is_hit_of(
    hit: matcher::Hit<Candidate>,
    request: Request,
    typed: Seq<char>,
    built: Built,
    entry: Entry,
) -> bool {
    &&& hit.item.built == built.with_isdir(entry.is_dir)
    &&& hit.item.name == entry.name
    &&& hit.haystack == matcher::trim_quotes(entry.name)
    &&& matcher::match_of(
        request.options,
        matcher::needle_of(request.options, typed),
        entry.name,
    ) == Some((hit.score, hit.indices))
    &&& offered(request, typed, entry)
}

/// Whether a completed path is that of one of the entries on offer.
pub open spec fn is_from(
    request: Request,
    typed: Seq<char>,
    found: Built,
    built: Built,
    entries: Seq<Entry>,
) -> bool {
    exists|j: int|
        0 <= j < entries.len() && offered(request, typed, entries[j]) && completes(
            found,
            built,
            #[trigger] entries[j],
        )
}

/// Whether one of the completed paths is that of an entry.
pub open spec fn is_listed(found: Seq<Built>, built: Built, entry: Entry) -> bool {
    exists|i: int| 0 <= i < found.len() && completes(#[trigger] found[i], built, entry)
}

/// The last component that was typed (or nothing, behind a separator) lists the
/// entries of the directory that go with it: each one of them, once, and no other.
pub proof fn law_last_component_lists_what_suits(
    request: Request,
    components: Seq<Seq<char>>,
    typed: Seq<char>,
    built: Built,
    exact: bool,
    dirs: DirSnapshot,
    entries: Seq<Entry>,
)
    requires
        (components == seq![typed] && !request.isdir) || (components.len() == 0 && typed.len()
            == 0),
        dirs.listing(built.key()) == Some(Some(entries)),
    ensures
        file::walk(request, components, seq![built], exact, dirs) matches Ok(found) && {
            &&& found.len() == entries.filter(|e: Entry| offered(request, typed, e)).len()
            &&& forall|i: int|
                0 <= i < found.len() ==> is_from(request, typed, #[trigger] found[i], built, entries)
            &&& forall|j: int|
                0 <= j < entries.len() && offered(request, typed, #[trigger] entries[j])
                    ==> is_listed(found, built, entries[j])
        },
{
    broadcast use vstd::seq_lib::group_to_multiset_ensures;

    let keep = |e: Entry| offered(request, typed, e);
    let kept = entries.filter(keep);
    let hits = level_hits(request, typed, built, entries);
    let sorted = matcher::sort_hits(request.options, hits);
    let found = sorted.map_values(|h: matcher::Hit<Candidate>| file::completed(h));
    lemma_level(request, components, typed, built, exact, dirs, entries);
    lemma_level_hits(request, typed, built, entries);
    matcher::law_sorting_keeps_every_match(request.options, hits);
    assert(file::walk(request, components, seq![built], exact, dirs) == Ok::<Seq<Built>, Key>(
        found,
    ));
    assert(found.len() == kept.len());
    assert forall|i: int| 0 <= i < found.len() implies is_from(
        request,
        typed,
        #[trigger] found[i],
        built,
        entries,
    ) by {
        assert(sorted.contains(sorted[i]));
        assert(hits.to_multiset().count(sorted[i]) > 0);
        assert(hits.contains(sorted[i]));
        let k = choose|k: int| 0 <= k < hits.len() && hits[k] == sorted[i];
        assert(is_hit_of(hits[k], request, typed, built, kept[k]));
        lemma_filtered_from(entries, keep, k);
        let j = choose|j: int| 0 <= j < entries.len() && entries[j] == kept[k];
        assert(found[i].parts.drop_last() =~= built.parts);
        assert(completes(found[i], built, entries[j]));
    }
    assert forall|j: int|
        0 <= j < entries.len() && offered(
            request,
            typed,
            #[trigger] entries[j],
        ) implies is_listed(found, built, entries[j]) by {
        lemma_filter_takes(entries, keep, j);
        let k = choose|k: int| 0 <= k < kept.len() && kept[k] == entries[j];
        assert(is_hit_of(hits[k], request, typed, built, kept[k]));
        assert(hits.contains(hits[k]));
        assert(sorted.to_multiset().count(hits[k]) > 0);
        assert(sorted.contains(hits[k]));
        let i = choose|i: int| 0 <= i < sorted.len() && sorted[i] == hits[k];
        assert(found[i].parts.drop_last() =~= built.parts);
        assert(completes(found[i], built, entries[j]));
    }
}

proof fn lemma_level(
    request: Request,
    components: Seq<Seq<char>>,
    typed: Seq<char>,
    built: Built,
    exact: bool,
    dirs: DirSnapshot,
    entries: Seq<Entry>,
)
    requires
        (components == seq![typed] && !request.isdir) || (components.len() == 0 && typed.len()
            == 0),
        dirs.listing(built.key()) == Some(Some(entries)),
    ensures
        file::walk(request, components, seq![built], exact, dirs) == Ok::<Seq<Built>, Key>(
            matcher::sort_hits(
                request.options,
                level_hits(request, typed, built, entries),
            ).map_values(|h: matcher::Hit<Candidate>| file::completed(h)),
        ),
{
    let paths = seq![built];
    assert(paths.drop_last() =~= Seq::empty());
    assert(file::candidates_below(paths.drop_last(), request.want_directory, dirs) == Ok::<
        Seq<Candidate>,
        Key,
    >(Seq::empty()));
    let all = file::candidates_in(built, entries, request.want_directory);
    assert(Seq::<Candidate>::empty() + all =~= all);
    assert(paths.last() == built);
    assert(file::candidates_below(paths, request.want_directory, dirs) == Ok::<
        Seq<Candidate>,
        Key,
    >(all));
    if components.len() == 0 {
        assert(typed =~= Seq::empty());
    }
}

/// What a filter kept came from the sequence.
pub proof fn lemma_filtered_from<T>(s: Seq<T>, keep: spec_fn(T) -> bool, k: int)
    requires
        0 <= k < s.filter(keep).len(),
    ensures
        exists|j: int| 0 <= j < s.len() && #[trigger] s[j] == s.filter(keep)[k],
        keep(s.filter(keep)[k]),
    decreases s.len(),
{
    reveal(Seq::filter);
    if s.len() > 0 {
        let front = s.drop_last();
        if k < front.filter(keep).len() {
            lemma_filtered_from(front, keep, k);
            let j = choose|j: int| 0 <= j < front.len() && #[trigger] front[j] == front.filter(keep)[k];
            assert(s[j] == front[j]);
        } else {
            assert(s[s.len() - 1] == s.filter(keep)[k]);
        }
    }
}

/// A filter keeps whatever it is for.
pub proof fn lemma_filter_takes<T>(s: Seq<T>, keep: spec_fn(T) -> bool, j: int)
    requires
        0 <= j < s.len(),
        keep(s[j]),
    ensures
        exists|k: int| 0 <= k < s.filter(keep).len() && #[trigger] s.filter(keep)[k] == s[j],
    decreases s.len(),
{
    reveal(Seq::filter);
    let front = s.drop_last();
    if j < front.len() {
        lemma_filter_takes(front, keep, j);
        let k = choose|k: int| 0 <= k < front.filter(keep).len() && #[trigger] front.filter(keep)[k] == front[j];
        assert(s.filter(keep)[k] == s[j]);
    } else {
        let n = s.filter(keep).len() - 1;
        assert(s.filter(keep)[n] == s[j]);
    }
}

/// The name that a completed path ends with, without quotes.
pub open spec fn last_name(found: Built) -> Seq<char> {
    matcher::trim_quotes(found.parts.last().text)
}

/// How well a fuzzy needle goes with a name.
pub open spec fn fuzzy_score(o: CompletionOptions, needle: Seq<char>, name: Seq<char>) -> u16 {
    match matcher::fuzzy_hit(needle, o.case_sensitive, true, false, name) {
        Some((score, _)) => score,
        None => 0,
    }
}

/// Completions are listed in the order of their names, without regard to case
/// unless that counts; among fuzzy matches the better one comes first, and names
/// decide only between equals.
pub proof fn law_completions_are_in_order(
    request: Request,
    components: Seq<Seq<char>>,
    typed: Seq<char>,
    built: Built,
    exact: bool,
    dirs: DirSnapshot,
    entries: Seq<Entry>,
    i: int,
    j: int,
)
    requires
        (components == seq![typed] && !request.isdir) || (components.len() == 0 && typed.len()
            == 0),
        dirs.listing(built.key()) == Some(Some(entries)),
        file::walk(request, components, seq![built], exact, dirs) matches Ok(found) && 0 <= i < j
            < found.len(),
    ensures
        ({
            let found = file::walk(request, components, seq![built], exact, dirs)->Ok_0;
            let (a, b) = (last_name(found[i]), last_name(found[j]));
            let o = request.options;
            let needle = matcher::trim_quotes(typed);
            let score_a = fuzzy_score(o, needle, a);
            let score_b = fuzzy_score(o, needle, b);
            if o.match_algorithm is Fuzzy && o.sort is Smart {
                score_a > score_b || (score_a == score_b && !text::lex_lt(b, a))
            } else if o.match_algorithm is Fuzzy || o.case_sensitive {
                !text::lex_lt(b, a)
            } else {
                text::lex_lt(unicode::folded(a), unicode::folded(b)) || (unicode::folded(a)
                    == unicode::folded(b) && !text::lex_lt(b, a))
            }
        }),
{
    broadcast use vstd::seq_lib::group_to_multiset_ensures;

    let keep = |e: Entry| offered(request, typed, e);
    let kept = entries.filter(keep);
    let hits = level_hits(request, typed, built, entries);
    let sorted = matcher::sort_hits(request.options, hits);
    lemma_level(request, components, typed, built, exact, dirs, entries);
    lemma_level_hits(request, typed, built, entries);
    matcher::law_sorting_keeps_every_match(request.options, hits);
    matcher::law_sorting_orders_matches(request.options, hits);
    let (x, y) = (sorted[i], sorted[j]);
    assert(sorted.contains(x) && sorted.contains(y));
    assert(hits.to_multiset().count(x) > 0 && hits.to_multiset().count(y) > 0);
    assert(hits.contains(x) && hits.contains(y));
    let k = choose|k: int| 0 <= k < hits.len() && hits[k] == x;
    let l = choose|l: int| 0 <= l < hits.len() && hits[l] == y;
    assert(is_hit_of(hits[k], request, typed, built, kept[k]));
    assert(is_hit_of(hits[l], request, typed, built, kept[l]));
    assert(!matcher::precedes(request.options, y, x));
    let found = file::walk(request, components, seq![built], exact, dirs)->Ok_0;
    assert(found[i].parts.last().text == x.item.name);
    assert(found[j].parts.last().text == y.item.name);
    text::lemma_lex_total(unicode::folded(x.haystack), unicode::folded(y.haystack));
}

/// A component that is followed by more, and that no single entry spells out, goes
/// on from each of the entries that it alone would list, in their order.
pub proof fn law_inner_components_go_on_from_each(
    request: Request,
    typed: Seq<char>,
    rest: Seq<Seq<char>>,
    paths: Seq<Built>,
    dirs: DirSnapshot,
)
    requires
        rest.len() > 0 || request.isdir,
        exists|i: int| 0 <= i < typed.len() && typed[i] != '.',
    ensures
        ({
            let alone = Request { isdir: false, ..request };
            let whole = file::walk(request, seq![typed] + rest, paths, false, dirs);
            match file::walk(alone, seq![typed], paths, false, dirs) {
                Err(key) => whole == Err::<Seq<Built>, Key>(key),
                Ok(found) => {
                    let each = Seq::new(
                        found.len(),
                        |i: int| file::walk(request, rest, seq![found[i]], false, dirs),
                    );
                    (forall|i: int| 0 <= i < each.len() ==> (#[trigger] each[i]) is Ok) ==> whole
                        == Ok::<Seq<Built>, Key>(
                        each.map_values(|r: Result<Seq<Built>, Key>| r->Ok_0).flatten(),
                    )
                },
            }
        }),
{
    let alone = Request { isdir: false, ..request };
    let all = seq![typed] + rest;
    assert(all.drop_first() =~= rest);
    assert(all[0] == typed);
    let i = choose|i: int| 0 <= i < typed.len() && typed[i] != '.';
    assert(!file::all_dots(typed)) by {
        assert(typed[i] != '.');
    }
    assert(seq![typed][0] == typed);
    if let Ok(found) = file::walk(alone, seq![typed], paths, false, dirs) {
        let each = Seq::new(
            found.len(),
            |i: int| file::walk(request, rest, seq![found[i]], false, dirs),
        );
        if forall|i: int| 0 <= i < each.len() ==> (#[trigger] each[i]) is Ok {
            assert forall|i: int| 0 <= i < found.len() implies file::walk(
                request,
                rest,
                seq![#[trigger] found[i]],
                false,
                dirs,
            ) is Ok by {
                assert(each[i] is Ok);
            }
            lemma_each(request, rest, found, dirs);
        }
    }
}

proof fn lemma_each(request: Request, rest: Seq<Seq<char>>, found: Seq<Built>, dirs: DirSnapshot)
    requires
        forall|i: int|
            0 <= i < found.len() ==> file::walk(
                request,
                rest,
                seq![#[trigger] found[i]],
                false,
                dirs,
            ) is Ok,
    ensures
        file::walk_each(request, rest, found, dirs) == Ok::<Seq<Built>, Key>(
            Seq::new(
                found.len(),
                |i: int| file::walk(request, rest, seq![found[i]], false, dirs),
            ).map_values(|r: Result<Seq<Built>, Key>| r->Ok_0).flatten(),
        ),
    decreases found.len(),
{
    let each = Seq::new(
        found.len(),
        |i: int| file::walk(request, rest, seq![found[i]], false, dirs),
    ).map_values(|r: Result<Seq<Built>, Key>| r->Ok_0);
    if found.len() == 0 {
        assert(each.flatten() =~= Seq::empty());
    } else {
        let front = found.drop_last();
        assert forall|i: int| 0 <= i < front.len() implies file::walk(
            request,
            rest,
            seq![#[trigger] front[i]],
            false,
            dirs,
        ) is Ok by {
            assert(front[i] == found[i]);
        }
        lemma_each(request, rest, front, dirs);
        let before = Seq::new(
            front.len(),
            |i: int| file::walk(request, rest, seq![front[i]], false, dirs),
        ).map_values(|r: Result<Seq<Built>, Key>| r->Ok_0);
        assert(found[found.len() - 1] == found.last());
        let last = file::walk(request, rest, seq![found.last()], false, dirs)->Ok_0;
        assert(each =~= before.push(last));
        lemma_flatten_push(before, last);
    }
}

/// Flattening one more piece puts it at the end.
pub proof fn lemma_flatten_push<T>(s: Seq<Seq<T>>, last: Seq<T>)
    ensures
        s.push(last).flatten() == s.flatten() + last,
    decreases s.len(),
{
    if s.len() == 0 {
        assert(s.push(last).drop_first() =~= Seq::<Seq<T>>::empty());
        assert(s.push(last).first() == last);
        assert(Seq::<Seq<T>>::empty().flatten() =~= Seq::<T>::empty());
        assert(s.push(last).flatten() =~= last);
        assert(s.flatten() =~= Seq::<T>::empty());
        assert(s.flatten() + last =~= last);
    } else {
        lemma_flatten_push(s.drop_first(), last);
        assert(s.push(last).drop_first() =~= s.drop_first().push(last));
        assert(s.push(last).first() == s.first());
        assert(s.first() + (s.drop_first().flatten() + last) =~= s.first()
            + s.drop_first().flatten() + last);
    }
}

/// Whether an entry is what was typed, letter by letter.
pub open spec fn is_spelled(request: Request, typed: Seq<char>, entry: Entry) -> bool {
    (request.want_directory ==> entry.is_dir) && compared(request.options, entry.name)
        == compared(request.options, typed)
}

/// Where exactly one entry is what was typed, a component that is followed by more
/// leads into that entry alone, whatever else begins with it.
pub proof fn law_spelled_out_entries_win(
    request: Request,
    typed: Seq<char>,
    rest: Seq<Seq<char>>,
    built: Built,
    dirs: DirSnapshot,
    entries: Seq<Entry>,
    at: int,
)
    requires
        rest.len() > 0 || request.isdir,
        exists|i: int| 0 <= i < typed.len() && typed[i] != '.',
        dirs.listing(built.key()) == Some(Some(entries)),
        0 <= at < entries.len(),
        forall|i: int|
            0 <= i < entries.len() ==> (is_spelled(request, typed, #[trigger] entries[i]) <==> i
                == at),
    ensures
        file::walk(request, seq![typed] + rest, seq![built], true, dirs) == file::walk(
            request,
            rest,
            seq![
                below(
                    built,
                    entries[at].name,
                    Seq::new(unicode::graphemes(entries[at].name), |i: int| i as usize),
                    entries[at].is_dir,
                ),
            ],
            true,
            dirs,
        ),
{
    let all = seq![typed] + rest;
    assert(all.drop_first() =~= rest);
    assert(all[0] == typed);
    let i = choose|i: int| 0 <= i < typed.len() && typed[i] != '.';
    assert(!file::all_dots(typed)) by {
        assert(typed[i] != '.');
    }
    let paths = seq![built];
    assert(paths.drop_last() =~= Seq::empty());
    assert(file::candidates_below(paths.drop_last(), request.want_directory, dirs) == Ok::<
        Seq<Candidate>,
        Key,
    >(Seq::empty()));
    let candidates = file::candidates_in(built, entries, request.want_directory);
    assert(Seq::<Candidate>::empty() + candidates =~= candidates);
    assert(paths.last() == built);
    lemma_spelled(request, typed, built, entries, at);
    let one = file::spelled_out(
        Candidate { built: built.with_isdir(entries[at].is_dir), name: entries[at].name },
    );
    let n = unicode::graphemes(entries[at].name);
    assert(matcher::positions(0, n as int) =~= Seq::new(n, |i: int| i as usize));
}

proof fn lemma_spelled(
    request: Request,
    typed: Seq<char>,
    built: Built,
    entries: Seq<Entry>,
    at: int,
)
    requires
        forall|i: int|
            0 <= i < entries.len() ==> (is_spelled(request, typed, #[trigger] entries[i]) <==> i
                == at),
    ensures
        file::exact_among(
            request.options,
            typed,
            file::candidates_in(built, entries, request.want_directory),
        ) == if 0 <= at < entries.len() {
            seq![Candidate { built: built.with_isdir(entries[at].is_dir), name: entries[at].name }]
        } else {
            Seq::empty()
        },
    decreases entries.len(),
{
    let all = file::candidates_in(built, entries, request.want_directory);
    if entries.len() == 0 {
        assert(file::exact_among(request.options, typed, all) =~= Seq::empty());
    } else {
        let front = entries.drop_last();
        assert forall|i: int| 0 <= i < front.len() implies (is_spelled(
            request,
            typed,
            #[trigger] front[i],
        ) <==> i == at) by {
            assert(front[i] == entries[i]);
        }
        lemma_spelled(request, typed, built, front, at);
        let before = file::candidates_in(built, front, request.want_directory);
        let e = entries[entries.len() - 1];
        let one = Candidate { built: built.with_isdir(e.is_dir), name: e.name };
        if !request.want_directory || e.is_dir {
            assert(all == before.push(one));
            assert(before.push(one).drop_last() =~= before);
        }
        assert(file::exact_among(request.options, typed, all) =~= if 0 <= at < entries.len() {
            seq![Candidate { built: built.with_isdir(entries[at].is_dir), name: entries[at].name }]
        } else {
            Seq::empty()
        });
    }
}

/// A candidate is kept exactly where it suits what was typed, behind those before
/// it, with its score and its marks; asking about one keeps nothing.
pub proof fn law_candidates_are_kept_in_turn<T>(
    options: CompletionOptions,
    needle: Seq<char>,
    calls: Seq<Call<T>>,
    candidate: Seq<char>,
    item: T,
)
    ensures
        ({
            let before = matcher::hits_after(options, needle, calls);
            let after = matcher::hits_after(options, needle, calls.push(Call::Add(candidate, item)));
            &&& matcher::hits_after(options, needle, Seq::<Call<T>>::empty()).len() == 0
            &&& matcher::hits_after(options, needle, calls.push(Call::Check(candidate))) == before
            &&& match matcher::match_of(options, needle, candidate) {
                None => after == before,
                Some((score, indices)) => after.len() == before.len() + 1 && after.drop_last()
                    == before && after.last().item == item && after.last().haystack
                    == matcher::trim_quotes(candidate) && after.last().score == score
                    && after.last().indices == indices,
            }
        }),
{
    let add = calls.push(Call::Add(candidate, item));
    let ask = calls.push(Call::Check(candidate));
    assert(add.drop_last() =~= calls);
    assert(ask.drop_last() =~= calls);
    let before = matcher::hits_after(options, needle, calls);
    let after = matcher::hits_after(options, needle, add);
    if after.len() > before.len() {
        assert(after.drop_last() =~= before);
    }
}

/// Only where exactly one entry spells a component out does that entry win; otherwise
/// the completion goes on as if none had to.
pub proof fn law_only_one_spelling_wins(
    request: Request,
    typed: Seq<char>,
    rest: Seq<Seq<char>>,
    built: Built,
    dirs: DirSnapshot,
    entries: Seq<Entry>,
)
    requires
        exists|i: int| 0 <= i < typed.len() && typed[i] != '.',
        dirs.listing(built.key()) == Some(Some(entries)),
        entries.filter(|e: Entry| is_spelled(request, typed, e)).len() != 1,
    ensures
        file::walk(request, seq![typed] + rest, seq![built], true, dirs) == file::walk(
            request,
            seq![typed] + rest,
            seq![built],
            false,
            dirs,
        ),
{
    let all = seq![typed] + rest;
    assert(all[0] == typed);
    let i = choose|i: int| 0 <= i < typed.len() && typed[i] != '.';
    assert(!file::all_dots(typed)) by {
        assert(typed[i] != '.');
    }
    let paths = seq![built];
    assert(paths.drop_last() =~= Seq::empty());
    assert(file::candidates_below(paths.drop_last(), request.want_directory, dirs) == Ok::<
        Seq<Candidate>,
        Key,
    >(Seq::empty()));
    let candidates = file::candidates_in(built, entries, request.want_directory);
    assert(Seq::<Candidate>::empty() + candidates =~= candidates);
    assert(paths.last() == built);
    lemma_spelled_count(request, typed, built, entries);
}

proof fn lemma_spelled_count(
    request: Request,
    typed: Seq<char>,
    built: Built,
    entries: Seq<Entry>,
)
    ensures
        file::exact_among(
            request.options,
            typed,
            file::candidates_in(built, entries, request.want_directory),
        ).len() == entries.filter(|e: Entry| is_spelled(request, typed, e)).len(),
    decreases entries.len(),
{
    reveal(Seq::filter);
    if entries.len() > 0 {
        let front = entries.drop_last();
        lemma_spelled_count(request, typed, built, front);
        let before = file::candidates_in(built, front, request.want_directory);
        let all = file::candidates_in(built, entries, request.want_directory);
        if all.len() > before.len() {
            assert(all.drop_last() =~= before);
        }
    } else {
        assert(file::candidates_in(built, entries, request.want_directory).len() == 0);
    }
}

/// A directory that cannot be read has nothing to offer, and one that was not read
/// yet is asked for.
pub proof fn law_unreadable_directories_offer_nothing(
    request: Request,
    typed: Seq<char>,
    built: Built,
    exact: bool,
    dirs: DirSnapshot,
)
    requires
        !request.isdir,
    ensures
        dirs.listing(built.key()) == Some(None::<Seq<Entry>>) ==> (file::walk(
            request,
            seq![typed],
            seq![built],
            exact,
            dirs,
        ) matches Ok(found) && found.len() == 0),
        dirs.listing(built.key()) is None ==> file::walk(
            request,
            seq![typed],
            seq![built],
            exact,
            dirs,
        ) == Err::<Seq<Built>, Key>(built.key()),
{
    let paths = seq![built];
    assert(paths.drop_last() =~= Seq::empty());
    assert(file::candidates_below(paths.drop_last(), request.want_directory, dirs) == Ok::<
        Seq<Candidate>,
        Key,
    >(Seq::empty()));
    assert(paths.last() == built);
    assert(seq![typed][0] == typed);
    let none = Seq::<Candidate>::empty();
    let needle = matcher::needle_of(request.options, typed);
    assert(file::hits_among(request.options, needle, none).len() == 0);
    assert(matcher::sort_hits(
        request.options,
        file::hits_among(request.options, needle, none),
    ).len() == 0);
}

} // verus!
