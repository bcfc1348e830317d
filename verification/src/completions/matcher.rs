//! Filtering and sorting of candidates against a needle.

use nucleo_matcher::pattern::{Atom, AtomKind, CaseMatching, Normalization};
use nucleo_matcher::{Config, Matcher, Utf32Str};
use vstd::prelude::*;

use crate::completions::options::{CompletionOptions, CompletionSort, MatchAlgorithm};
use crate::completions::suggestion::SemanticSuggestion;
use crate::text;
use crate::unicode;

verus! {

/// Longest needle, in characters, for which a fuzzy score cannot overflow.
pub const MAX_FUZZY_NEEDLE: usize = 2500;

/// Longest haystack, in bytes, for which a fuzzy score cannot overflow.
pub const MAX_FUZZY_HAYSTACK: usize = 21845;

/// Case folding and case-insensitive comparison.
pub trait IgnoreCaseExt {
    /// The characters of the text.
    spec fn characters(&self) -> Seq<char>;

    /// Case-folded equivalent of this string (for comparison, not display).
    fn to_folded_case(&self) -> (r: String)
        ensures
            r@ == unicode::folded(self.characters()),
            r@.len() <= 3 * self.characters().len(),
    ;

    /// Case-insensitive equality check.
    fn eq_ignore_case(&self, other: &str) -> (r: bool)
        ensures
            r == (unicode::folded(self.characters()) == unicode::folded(other@)),
    ;
}

impl IgnoreCaseExt for str {
    open spec fn characters(&self) -> Seq<char> {
        self@
    }

    fn to_folded_case(&self) -> (r: String) {
        unicode::fold_case(self)
    }

    fn eq_ignore_case(&self, other: &str) -> (r: bool) {
        unicode::fold_eq(self, other)
    }
}

/// The characters that quote a candidate.
pub open spec fn is_quote(c: char) -> bool {
    c == '"' || c == '\'' || c == '`'
}

/// `s` without its leading quotes.
pub open spec fn trim_quotes_start(s: Seq<char>) -> Seq<char>
    decreases s.len(),
{
    if s.len() > 0 && is_quote(s[0]) {
        trim_quotes_start(s.drop_first())
    } else {
        s
    }
}

/// `s` without its trailing quotes.
pub open spec fn trim_quotes_end(s: Seq<char>) -> Seq<char>
    decreases s.len(),
{
    if s.len() > 0 && is_quote(s.last()) {
        trim_quotes_end(s.drop_last())
    } else {
        s
    }
}

/// `s` without its leading and trailing quotes.
pub open spec fn trim_quotes(s: Seq<char>) -> Seq<char> {
    trim_quotes_end(trim_quotes_start(s))
}

/// Stripping quotes makes no text longer.
pub proof fn lemma_trim_shortens(s: Seq<char>)
    ensures
        trim_quotes(s).len() <= s.len(),
{
    lemma_trim_start_shortens(s);
    lemma_trim_end_shortens(trim_quotes_start(s));
}

proof fn lemma_trim_start_shortens(s: Seq<char>)
    ensures
        trim_quotes_start(s).len() <= s.len(),
    decreases s.len(),
{
    if s.len() > 0 && is_quote(s[0]) {
        lemma_trim_start_shortens(s.drop_first());
    }
}

proof fn lemma_trim_end_shortens(s: Seq<char>)
    ensures
        trim_quotes_end(s).len() <= s.len(),
    decreases s.len(),
{
    if s.len() > 0 && is_quote(s.last()) {
        lemma_trim_end_shortens(s.drop_last());
    }
}

fn quote(c: char) -> (r: bool)
    ensures
        r == is_quote(c),
{
    c == '"' || c == '\'' || c == '`'
}

/// The positions of `v` between its leading and its trailing quotes.
fn unquoted_range(v: &[char]) -> (r: (usize, usize))
    ensures
        r.0 <= r.1 <= v@.len(),
        trim_quotes_start(v@) == v@.subrange(r.0 as int, v@.len() as int),
        trim_quotes(v@) == v@.subrange(r.0 as int, r.1 as int),
{
    let mut from: usize = 0;
    assert(v@.subrange(0, v@.len() as int) == v@);
    while from < v.len() && quote(v[from])
        invariant
            from <= v@.len(),
            trim_quotes_start(v@) == trim_quotes_start(v@.subrange(from as int, v@.len() as int)),
        decreases v@.len() - from,
    {
        assert(v@.subrange(from as int, v@.len() as int).drop_first() == v@.subrange(
            from + 1,
            v@.len() as int,
        ));
        from += 1;
    }
    let ghost rest = v@.subrange(from as int, v@.len() as int);
    let mut to: usize = v.len();
    while to > from && quote(v[to - 1])
        invariant
            from <= to <= v@.len(),
            trim_quotes_end(rest) == trim_quotes_end(v@.subrange(from as int, to as int)),
        decreases to - from,
    {
        assert(v@.subrange(from as int, to as int).drop_last() == v@.subrange(
            from as int,
            to - 1,
        ));
        to -= 1;
    }
    (from, to)
}

/// A match of an item: where it was found and how well.
pub struct Hit<T> {
    pub item: T,
    pub haystack: Seq<char>,
    pub score: u16,
    pub indices: Seq<usize>,
}

/// The positions `start..start + len`.
pub open spec fn positions(start: int, len: int) -> Seq<usize> {
    Seq::new(len as nat, |i: int| (start + i) as usize)
}

/// Whether positions in a candidate stay within three times its length in
/// bytes, which is as far as case folding can push them.
pub open spec fn near(at: Seq<usize>, candidate: Seq<char>) -> bool {
    forall|k: int|
        0 <= k < at.len() ==> #[trigger] at[k] < 3 * vstd::utf8::encode_utf8(candidate).len()
}

/// The positions `start..start + len`.
pub(crate) fn position_range(start: usize, len: usize) -> (r: Vec<usize>)
    requires
        start + len <= usize::MAX,
    ensures
        r@ == positions(start as int, len as int),
{
    let mut r: Vec<usize> = Vec::new();
    let mut k: usize = 0;
    while k < len
        invariant
            k <= len,
            start + len <= usize::MAX,
            r@ == positions(start as int, k as int),
        decreases len - k,
    {
        r.push(start + k);
        k += 1;
        assert(r@ =~= positions(start as int, k as int));
    }
    r
}

fn copy_indices(v: &Vec<usize>) -> (r: Vec<usize>)
    ensures
        r@ == v@,
{
    let r = v.clone();
    assert(r@ =~= v@);
    r
}

/// The fuzzy match of `needle` in `haystack`: its score, and the positions of
/// the matched characters.
pub uninterp spec fn fuzzy_hit(
    needle: Seq<char>,
    case_sensitive: bool,
    prefer_prefix: bool,
    escape_whitespace: bool,
    haystack: Seq<char>,
) -> Option<(u16, Seq<u32>)>;

/// How a fuzzy needle treats letter case.
#[derive(Clone, Copy)]
enum CaseRule {
    Respect,
    Ignore,
}

/// `nucleo_matcher::pattern::Atom::indices` for an atom of kind `Fuzzy` with
/// smart normalization, on the default configuration with `prefer_prefix` set
/// as given: the score and the matched positions, which lie inside the
/// haystack. Longer needles or haystacks could overflow the score.
#[verifier::external_body]
fn fuzzy_indices(
    needle: &str,
    case: CaseRule,
    prefer_prefix: bool,
    escape_whitespace: bool,
    haystack: &str,
) -> (r: Option<(u16, Vec<u32>)>)
    requires
        needle@.len() <= MAX_FUZZY_NEEDLE,
        vstd::utf8::encode_utf8(haystack@).len() <= MAX_FUZZY_HAYSTACK,
    ensures
        fuzzy_hit(needle@, case is Respect, prefer_prefix, escape_whitespace, haystack@) == (
        match r {
            Some(hit) => Some((hit.0, hit.1@)),
            None => None,
        }),
        r matches Some(hit) ==> forall|k: int|
            0 <= k < hit.1@.len() ==> #[trigger] hit.1@[k] < vstd::utf8::encode_utf8(
                haystack@,
            ).len(),
{
    let case = match case {
        CaseRule::Respect => CaseMatching::Respect,
        CaseRule::Ignore => CaseMatching::Ignore,
    };
    let atom = Atom::new(needle, case, Normalization::Smart, AtomKind::Fuzzy, escape_whitespace);
    let mut config = Config::DEFAULT;
    config.prefer_prefix = prefer_prefix;
    let mut matcher = Matcher::new(config);
    let (mut buffer, mut indices) = (Vec::new(), Vec::new());
    let score = atom.indices(Utf32Str::new(haystack, &mut buffer), &mut matcher, &mut indices)?;
    Some((score, indices))
}

/// The needle that candidates are held against, for what the user typed.
pub open spec fn needle_of(options: CompletionOptions, typed: Seq<char>) -> Seq<char> {
    if options.match_algorithm is Fuzzy || options.case_sensitive {
        trim_quotes(typed)
    } else {
        unicode::folded(trim_quotes(typed))
    }
}

/// How a candidate matches the needle: its score, and the positions in the
/// candidate that matched. Positions count from the candidate's first
/// character, leading quotes included.
pub open spec fn match_of(
    options: CompletionOptions,
    needle: Seq<char>,
    candidate: Seq<char>,
) -> Option<(u16, Seq<usize>)> {
    let offset = candidate.len() - trim_quotes_start(candidate).len();
    let haystack = trim_quotes(candidate);
    let subject = if options.case_sensitive {
        haystack
    } else {
        unicode::folded(haystack)
    };
    match options.match_algorithm {
        MatchAlgorithm::Prefix => if text::starts_with(subject, needle) {
            Some((0, positions(offset, unicode::graphemes(needle) as int)))
        } else {
            None
        },
        MatchAlgorithm::Substring => match text::find_from(subject, needle, 0) {
            Some(at) => Some(
                (
                    0,
                    positions(
                        offset + unicode::graphemes(subject.take(at)),
                        unicode::graphemes(needle) as int,
                    ),
                ),
            ),
            None => None,
        },
        MatchAlgorithm::Fuzzy => match fuzzy_hit(
            needle,
            options.case_sensitive,
            true,
            false,
            haystack,
        ) {
            Some((score, found)) => Some(
                (score, Seq::new(found.len(), |k: int| (offset + found[k]) as usize)),
            ),
            None => None,
        },
    }
}

/// `hits` with every item replaced by its value under `f`.
pub open spec fn map_items<T, U>(hits: Seq<Hit<T>>, f: spec_fn(T) -> U) -> Seq<Hit<U>> {
    hits.map_values(|h: Hit<T>| map_item(h, f))
}

pub open spec fn map_item<T, U>(h: Hit<T>, f: spec_fn(T) -> U) -> Hit<U> {
    Hit { item: f(h.item), haystack: h.haystack, score: h.score, indices: h.indices }
}

proof fn lemma_insert_map<T, U>(
    options: CompletionOptions,
    hits: Seq<Hit<T>>,
    x: Hit<T>,
    f: spec_fn(T) -> U,
)
    ensures
        map_items(insert_hit(options, hits, x), f) == insert_hit(
            options,
            map_items(hits, f),
            map_item(x, f),
        ),
    decreases hits.len(),
{
    if hits.len() == 0 || !precedes(options, x, hits.last()) {
        assert(map_items(hits.push(x), f) =~= map_items(hits, f).push(map_item(x, f)));
        if hits.len() > 0 {
            assert(map_items(hits, f).last() == map_item(hits.last(), f));
        }
    } else {
        lemma_insert_map(options, hits.drop_last(), x, f);
        assert(map_items(hits, f).drop_last() =~= map_items(hits.drop_last(), f));
        assert(map_items(hits, f).last() == map_item(hits.last(), f));
        let inner = insert_hit(options, hits.drop_last(), x);
        assert(map_items(inner.push(hits.last()), f) =~= map_items(inner, f).push(
            map_item(hits.last(), f),
        ));
    }
}

/// The order of matches does not depend on the items themselves.
pub proof fn lemma_sort_map<T, U>(
    options: CompletionOptions,
    hits: Seq<Hit<T>>,
    f: spec_fn(T) -> U,
)
    ensures
        map_items(sort_hits(options, hits), f) == sort_hits(options, map_items(hits, f)),
    decreases hits.len(),
{
    if hits.len() == 0 {
        assert(map_items(hits, f) =~= Seq::empty());
    } else {
        lemma_sort_map(options, hits.drop_last(), f);
        lemma_insert_map(options, sort_hits(options, hits.drop_last()), hits.last(), f);
        assert(map_items(hits, f).drop_last() =~= map_items(hits.drop_last(), f));
        assert(map_items(hits, f).last() == map_item(hits.last(), f));
    }
}

/// Whether `a` is listed before `b`.
pub open spec fn precedes<T>(options: CompletionOptions, a: Hit<T>, b: Hit<T>) -> bool {
    match options.match_algorithm {
        MatchAlgorithm::Fuzzy => match options.sort {
            CompletionSort::Alphabetical => text::lex_lt(a.haystack, b.haystack),
            CompletionSort::Smart => a.score > b.score || (a.score == b.score && text::lex_lt(
                a.haystack,
                b.haystack,
            )),
        },
        _ => if options.case_sensitive {
            text::lex_lt(a.haystack, b.haystack)
        } else {
            text::lex_lt(unicode::folded(a.haystack), unicode::folded(b.haystack)) || (
            unicode::folded(a.haystack) == unicode::folded(b.haystack) && text::lex_lt(
                a.haystack,
                b.haystack,
            ))
        },
    }
}

/// `hits` with `x` put behind every hit that it does not precede, counted from
/// the end.
pub open spec fn insert_hit<T>(options: CompletionOptions, hits: Seq<Hit<T>>, x: Hit<T>) -> Seq<
    Hit<T>,
>
    decreases hits.len(),
{
    if hits.len() == 0 || !precedes(options, x, hits.last()) {
        hits.push(x)
    } else {
        insert_hit(options, hits.drop_last(), x).push(hits.last())
    }
}

/// The stable sort of `hits`.
pub open spec fn sort_hits<T>(options: CompletionOptions, hits: Seq<Hit<T>>) -> Seq<Hit<T>>
    decreases hits.len(),
{
    if hits.len() == 0 {
        hits
    } else {
        insert_hit(options, sort_hits(options, hits.drop_last()), hits.last())
    }
}

/// A call on a matcher.
pub enum Call<T> {
    /// `add` with a haystack and an item.
    Add(Seq<char>, T),
    /// `check_match` with a haystack.
    Check(Seq<char>),
}

/// What a call makes of the stored matches: it adds the item where the haystack
/// matches, and a check adds nothing.
pub open spec fn stepped<T>(
    options: CompletionOptions,
    needle: Seq<char>,
    hits: Seq<Hit<T>>,
    call: Call<T>,
) -> Seq<Hit<T>> {
    match call {
        Call::Add(haystack, item) => match match_of(options, needle, haystack) {
            Some((score, indices)) => hits.push(
                Hit { item, haystack: trim_quotes(haystack), score, indices },
            ),
            None => hits,
        },
        Call::Check(_) => hits,
    }
}

/// The stored matches after some calls on a new matcher.
pub open spec fn hits_after<T>(
    options: CompletionOptions,
    needle: Seq<char>,
    calls: Seq<Call<T>>,
) -> Seq<Hit<T>>
    decreases calls.len(),
{
    if calls.len() == 0 {
        Seq::empty()
    } else {
        stepped(options, needle, hits_after(options, needle, calls.drop_last()), calls.last())
    }
}

/// The haystacks, without outer quotes, and the items of the calls that added
/// one.
pub open spec fn added<T>(
    options: CompletionOptions,
    needle: Seq<char>,
    calls: Seq<Call<T>>,
) -> Seq<(Seq<char>, T)>
    decreases calls.len(),
{
    if calls.len() == 0 {
        Seq::empty()
    } else {
        let front = added(options, needle, calls.drop_last());
        match calls.last() {
            Call::Add(haystack, item) => if match_of(options, needle, haystack) is Some {
                front.push((trim_quotes(haystack), item))
            } else {
                front
            },
            Call::Check(_) => front,
        }
    }
}

/// A stored match.
struct Found<T> {
    item: T,
    haystack: String,
    score: u16,
    match_indices: Vec<usize>,
}

impl<T> Found<T> {
    spec fn hit(self) -> Hit<T> {
        Hit {
            item: self.item,
            haystack: self.haystack@,
            score: self.score,
            indices: self.match_indices@,
        }
    }
}

/// Filters and sorts candidate completions against a needle using the
/// configured [`MatchAlgorithm`].
///
/// Supports three algorithms:
/// * [`Prefix`](MatchAlgorithm::Prefix): the candidate begins with the needle
/// * [`Substring`](MatchAlgorithm::Substring): the candidate contains it
/// * [`Fuzzy`](MatchAlgorithm::Fuzzy): character-skip matching
pub struct CandidateMatcher<'a, T> {
    options: &'a CompletionOptions,
    should_sort: bool,
    needle: String,
    matches: Vec<Found<T>>,
}

impl<'a, T> CandidateMatcher<'a, T> {
    /// The matching configuration.
    pub closed spec fn options_of(&self) -> CompletionOptions {
        *self.options
    }

    /// Whether results are sorted.
    pub closed spec fn sorts(&self) -> bool {
        self.should_sort
    }

    /// What candidates are held against.
    pub closed spec fn needle_text(&self) -> Seq<char> {
        self.needle@
    }

    /// The matches stored so far, in the order in which they were added.
    pub closed spec fn hits(&self) -> Seq<Hit<T>> {
        self.matches@.map_values(|m: Found<T>| m.hit())
    }

    /// A fuzzy needle is short enough to be scored.
    pub open spec fn wf(&self) -> bool {
        self.options_of().match_algorithm is Fuzzy ==> self.needle_text().len() <= MAX_FUZZY_NEEDLE
    }

    /// Whether `candidate` may be held against the needle.
    pub open spec fn accepts(&self, candidate: Seq<char>) -> bool {
        self.options_of().match_algorithm is Fuzzy ==> vstd::utf8::encode_utf8(candidate).len()
            <= MAX_FUZZY_HAYSTACK
    }

    /// How `candidate` matches.
    pub open spec fn matched(&self, candidate: Seq<char>) -> Option<(u16, Seq<usize>)> {
        match_of(self.options_of(), self.needle_text(), candidate)
    }

    /// The matches in the order in which they are returned.
    pub open spec fn listed(&self) -> Seq<Hit<T>> {
        if self.sorts() {
            sort_hits(self.options_of(), self.hits())
        } else {
            self.hits()
        }
    }

    /// Everything but the stored matches is as in `other`.
    pub open spec fn same_setup(&self, other: &Self) -> bool {
        &&& self.options_of() == other.options_of()
        &&& self.sorts() == other.sorts()
        &&& self.needle_text() == other.needle_text()
    }

    /// Create a new matcher.
    ///
    /// * `needle`: the text to search for. Leading/trailing quotes are stripped.
    /// * `options`: matching configuration (algorithm, case sensitivity, etc.).
    /// * `should_sort`: whether results should be sorted before returning.
    pub fn new(needle: &str, options: &'a CompletionOptions, should_sort: bool) -> (r: Self)
        requires
            options.match_algorithm is Fuzzy ==> trim_quotes(needle@).len() <= MAX_FUZZY_NEEDLE,
        ensures
            r.wf(),
            r.options_of() == *options,
            r.sorts() == should_sort,
            r.needle_text() == needle_of(*options, needle@),
            r.hits() == Seq::<Hit<T>>::empty(),
    {
        let typed = text::chars_of(needle);
        let (from, to) = unquoted_range(typed.as_slice());
        let bare = text::string_of_range(typed.as_slice(), from, to);
        let needle = match options.match_algorithm {
            MatchAlgorithm::Fuzzy => bare,
            _ => if options.case_sensitive {
                bare
            } else {
                bare.as_str().to_folded_case()
            },
        };
        let matches: Vec<Found<T>> = Vec::new();
        assert(matches@.map_values(|m: Found<T>| m.hit()) == Seq::<Hit<T>>::empty());
        CandidateMatcher { options, should_sort, needle, matches }
    }

    /// Holds `candidate` against the needle: the haystack, the score and the
    /// matched positions.
    fn lookup(&self, candidate: &str) -> (r: Option<(String, u16, Vec<usize>)>)
        requires
            self.wf(),
            self.accepts(candidate@),
        ensures
            match r {
                Some((haystack, score, indices)) => haystack@ == trim_quotes(candidate@)
                    && self.matched(candidate@) == Some((score, indices@)),
                None => self.matched(candidate@) is None,
            },
            self.matched(candidate@) matches Some((_, at)) ==> near(at, candidate@),
    {
        let size: usize = unicode::byte_len(candidate);
        let chars = text::chars_of(candidate);
        let (from, to) = unquoted_range(chars.as_slice());
        let offset: usize = from;
        let haystack = text::string_of_range(chars.as_slice(), from, to);
        proof {
            text::lemma_bytes_at_least_chars(candidate@);
            text::lemma_bytes_of_piece(candidate@, from as int, to as int);
        }
        match self.options.match_algorithm {
            MatchAlgorithm::Fuzzy => {
                let case = if self.options.case_sensitive {
                    CaseRule::Respect
                } else {
                    CaseRule::Ignore
                };
                match fuzzy_indices(self.needle.as_str(), case, true, false, haystack.as_str()) {
                    None => None,
                    Some((score, found)) => {
                        let mut indices: Vec<usize> = Vec::new();
                        let mut k: usize = 0;
                        while k < found.len()
                            invariant
                                k <= found@.len(),
                                offset <= isize::MAX,
                                forall|j: int|
                                    0 <= j < found@.len() ==> #[trigger] found@[j]
                                        <= MAX_FUZZY_HAYSTACK,
                                indices@ == Seq::new(
                                    k as nat,
                                    |j: int| (offset + found@[j]) as usize,
                                ),
                            decreases found@.len() - k,
                        {
                            let at: usize = offset + found[k] as usize;
                            indices.push(at);
                            k += 1;
                            assert(indices@ =~= Seq::new(
                                k as nat,
                                |j: int| (offset + found@[j]) as usize,
                            ));
                        }
                        Some((haystack, score, indices))
                    },
                }
            },
            MatchAlgorithm::Prefix => {
                let subject = self.subject_of(&haystack);
                let subject_size: usize = unicode::byte_len(subject.as_str());
                let subject_chars = text::chars_of(subject.as_str());
                let needle_chars = text::chars_of(self.needle.as_str());
                proof {
                    text::lemma_bytes_at_least_chars(subject@);
                }
                if text::occurs(subject_chars.as_slice(), needle_chars.as_slice(), 0) {
                    let len: usize = unicode::grapheme_count(self.needle.as_str());
                    Some((haystack, 0, position_range(offset, len)))
                } else {
                    None
                }
            },
            MatchAlgorithm::Substring => {
                let subject = self.subject_of(&haystack);
                let subject_size: usize = unicode::byte_len(subject.as_str());
                let subject_chars = text::chars_of(subject.as_str());
                let needle_chars = text::chars_of(self.needle.as_str());
                proof {
                    text::lemma_bytes_at_least_chars(subject@);
                    text::lemma_find_from(subject@, self.needle@, 0);
                }
                match text::find(subject_chars.as_slice(), needle_chars.as_slice()) {
                    None => None,
                    Some(at) => {
                        let before = text::string_of_range(subject_chars.as_slice(), 0, at);
                        assert(before@ == subject@.take(at as int));
                        let start: usize = unicode::grapheme_count(before.as_str());
                        let len: usize = unicode::grapheme_count(self.needle.as_str());
                        Some((haystack, 0, position_range(offset + start, len)))
                    },
                }
            },
        }
    }

    /// The text in which a prefix or substring is looked for.
    fn subject_of(&self, haystack: &String) -> (r: String)
        ensures
            r@.len() <= 3 * haystack@.len(),
            r@ == if self.options_of().case_sensitive {
                haystack@
            } else {
                unicode::folded(haystack@)
            },
    {
        if self.options.case_sensitive {
            haystack.clone()
        } else {
            haystack.as_str().to_folded_case()
        }
    }

    /// Test `candidate` against the needle and optionally store the item.
    fn matches_aux(&mut self, candidate: &str, item: Option<T>) -> (r: Option<Vec<usize>>)
        requires
            old(self).wf(),
            old(self).accepts(candidate@),
        ensures
            final(self).wf(),
            final(self).same_setup(old(self)),
            old(self).matched(candidate@) matches Some((_, at)) ==> near(at, candidate@),
            match r {
                Some(indices) => old(self).matched(candidate@) matches Some((_, at)) && at
                    == indices@,
                None => old(self).matched(candidate@) is None,
            },
            final(self).hits() == match (old(self).matched(candidate@), item) {
                (Some((score, indices)), Some(item)) => old(self).hits().push(
                    Hit { item, haystack: trim_quotes(candidate@), score, indices },
                ),
                _ => old(self).hits(),
            },
    {
        match self.lookup(candidate) {
            None => None,
            Some((haystack, score, indices)) => {
                if let Some(item) = item {
                    let found = Found { item, haystack, score, match_indices: copy_indices(&indices) };
                    self.matches.push(found);
                    assert(self.matches@.map_values(|m: Found<T>| m.hit()) =~= old(
                        self,
                    ).matches@.map_values(|m: Found<T>| m.hit()).push(found.hit()));
                }
                Some(indices)
            },
        }
    }

    /// Add `item` if `haystack` matches the needle.
    ///
    /// Returns `true` if the item was added.
    pub fn add(&mut self, haystack: &str, item: T) -> (r: bool)
        requires
            old(self).wf(),
            old(self).accepts(haystack@),
        ensures
            final(self).wf(),
            final(self).same_setup(old(self)),
            old(self).matched(haystack@) matches Some((_, at)) ==> near(at, haystack@),
            r == (old(self).matched(haystack@) is Some),
            final(self).hits() == stepped(
                old(self).options_of(),
                old(self).needle_text(),
                old(self).hits(),
                Call::Add(haystack@, item),
            ),
    {
        self.matches_aux(haystack, Some(item)).is_some()
    }

    /// Check whether `haystack` matches the needle without inserting.
    ///
    /// Returns `Some(match_indices)` if it matched.
    pub fn check_match(&mut self, haystack: &str) -> (r: Option<Vec<usize>>)
        requires
            old(self).wf(),
            old(self).accepts(haystack@),
        ensures
            final(self).wf(),
            final(self).same_setup(old(self)),
            final(self).hits() == stepped(
                old(self).options_of(),
                old(self).needle_text(),
                old(self).hits(),
                Call::Check(haystack@),
            ),
            match r {
                Some(indices) => old(self).matched(haystack@) matches Some((_, at)) && at
                    == indices@,
                None => old(self).matched(haystack@) is None,
            },
    {
        self.matches_aux(haystack, None)
    }

    /// Whether `a` is listed before `b`.
    fn before(&self, a: &Found<T>, b: &Found<T>) -> (r: bool)
        ensures
            r == precedes(self.options_of(), a.hit(), b.hit()),
    {
        let raw = text::lex_less(
            text::chars_of(a.haystack.as_str()).as_slice(),
            text::chars_of(b.haystack.as_str()).as_slice(),
        );
        match self.options.match_algorithm {
            MatchAlgorithm::Fuzzy => match self.options.sort {
                CompletionSort::Alphabetical => raw,
                CompletionSort::Smart => a.score > b.score || (a.score == b.score && raw),
            },
            _ => if self.options.case_sensitive {
                raw
            } else {
                let folded_a = text::chars_of(a.haystack.as_str().to_folded_case().as_str());
                let folded_b = text::chars_of(b.haystack.as_str().to_folded_case().as_str());
                text::lex_less(folded_a.as_slice(), folded_b.as_slice()) || (text::same(
                    folded_a.as_slice(),
                    folded_b.as_slice(),
                ) && raw)
            },
        }
    }

    /// Puts `found` into the sorted `sorted`.
    fn insert_sorted(&self, sorted: &mut Vec<Found<T>>, found: Found<T>)
        ensures
            final(sorted)@.map_values(|m: Found<T>| m.hit()) == insert_hit(
                self.options_of(),
                old(sorted)@.map_values(|m: Found<T>| m.hit()),
                found.hit(),
            ),
    {
        let ghost hits = sorted@.map_values(|m: Found<T>| m.hit());
        let ghost x = found.hit();
        let mut at: usize = sorted.len();
        assert(hits.take(at as int) =~= hits);
        assert(hits.skip(at as int) =~= Seq::empty());
        while at > 0 && self.before(&found, &sorted[at - 1])
            invariant
                at <= sorted@.len(),
                x == found.hit(),
                hits == sorted@.map_values(|m: Found<T>| m.hit()),
                insert_hit(self.options_of(), hits, x) == insert_hit(
                    self.options_of(),
                    hits.take(at as int),
                    x,
                ) + hits.skip(at as int),
            decreases at,
        {
            assert(hits.take(at as int).drop_last() =~= hits.take(at - 1));
            assert(hits.take(at as int).last() == hits[at - 1]);
            assert(insert_hit(self.options_of(), hits.take(at - 1), x).push(hits[at - 1])
                + hits.skip(at as int) =~= insert_hit(self.options_of(), hits.take(at - 1), x)
                + hits.skip(at - 1));
            at -= 1;
        }
        assert(at > 0 ==> hits.take(at as int).last() == hits[at - 1]);
        sorted.insert(at, found);
        assert(sorted@.map_values(|m: Found<T>| m.hit()) =~= hits.take(at as int).push(x)
            + hits.skip(at as int));
    }

    /// Sorts the stored matches.
    fn sort(&mut self)
        ensures
            final(self).same_setup(old(self)),
            final(self).hits() == sort_hits(old(self).options_of(), old(self).hits()),
    {
        let mut sorted: Vec<Found<T>> = Vec::new();
        let ghost all = self.hits();
        let ghost len = self.matches@.len();
        let mut pending: Vec<Found<T>> = Vec::new();
        std::mem::swap(&mut pending, &mut self.matches);
        let ghost whole = pending@;
        assert(sorted@.map_values(|m: Found<T>| m.hit()) =~= Seq::empty());
        assert(all.take(0) =~= Seq::empty());
        for found in it: pending
            invariant
                it.seq() == whole,
                all == whole.map_values(|m: Found<T>| m.hit()),
                self.same_setup(old(self)),
                sorted@.map_values(|m: Found<T>| m.hit()) == sort_hits(
                    self.options_of(),
                    all.take(it.index() as int),
                ),
        {
            assert(all.take(it.index() + 1).drop_last() =~= all.take(it.index() as int));
            assert(all.take(it.index() + 1).last() == found.hit());
            self.insert_sorted(&mut sorted, found);
        }
        assert(all.take(all.len() as int) =~= all);
        self.matches = sorted;
    }

    /// Sort (if configured) and return all matched items with their match
    /// indices.
    pub fn results(self) -> (r: Vec<(T, Vec<usize>)>)
        ensures
            r@.len() == self.listed().len(),
            forall|i: int|
                0 <= i < r@.len() ==> (#[trigger] r@[i]).0 == self.listed()[i].item && r@[i].1@
                    == self.listed()[i].indices,
    {
        let mut this = self;
        if this.should_sort {
            this.sort();
        }
        let ghost hits = this.hits();
        let mut out: Vec<(T, Vec<usize>)> = Vec::new();
        let ghost whole = this.matches@;
        for found in it: this.matches
            invariant
                it.seq() == whole,
                hits == whole.map_values(|m: Found<T>| m.hit()),
                out@.len() == it.index(),
                forall|i: int|
                    0 <= i < out@.len() ==> (#[trigger] out@[i]).0 == hits[i].item && out@[i].1@
                        == hits[i].indices,
        {
            assert(hits[it.index() as int] == found.hit());
            out.push((found.item, found.match_indices));
        }
        out
    }
}

impl<'a> CandidateMatcher<'a, SemanticSuggestion> {
    /// Add a `SemanticSuggestion` (matched by its display value).
    pub fn add_suggestion(&mut self, sugg: SemanticSuggestion) -> (r: bool)
        requires
            old(self).wf(),
            old(self).accepts(sugg.suggestion.shown()),
        ensures
            final(self).wf(),
            final(self).same_setup(old(self)),
            r == (old(self).matched(sugg.suggestion.shown()) is Some),
            final(self).hits() == match old(self).matched(sugg.suggestion.shown()) {
                Some((score, indices)) => old(self).hits().push(
                    Hit {
                        item: sugg,
                        haystack: trim_quotes(sugg.suggestion.shown()),
                        score,
                        indices,
                    },
                ),
                None => old(self).hits(),
            },
    {
        let value = sugg.suggestion.display_value().to_owned();
        self.add(value.as_str(), sugg)
    }

    /// Return all matched suggestions sorted, with match indices set.
    pub fn suggestion_results(self) -> (r: Vec<SemanticSuggestion>)
        ensures
            r@.len() == self.listed().len(),
            forall|i: int|
                0 <= i < r@.len() ==> is_result(#[trigger] r@[i], self.listed()[i]),
    {
        let ghost hits = self.listed();
        let results = self.results();
        let ghost whole = results@;
        let mut out: Vec<SemanticSuggestion> = Vec::new();
        for pair in it: results
            invariant
                it.seq() == whole,
                out@.len() == it.index(),
                whole.len() == hits.len(),
                forall|i: int|
                    0 <= i < whole.len() ==> (#[trigger] whole[i]).0 == hits[i].item && whole[i].1@
                        == hits[i].indices,
                forall|i: int| 0 <= i < out@.len() ==> is_result(#[trigger] out@[i], hits[i]),
        {
            let (mut sugg, indices) = pair;
            assert(pair == whole[it.index() as int]);
            sugg.suggestion.match_indices = Some(indices);
            out.push(sugg);
        }
        out
    }
}

/// `r` is the matched suggestion with the matched positions filled in.
pub open spec fn is_result(r: SemanticSuggestion, hit: Hit<SemanticSuggestion>) -> bool {
    &&& r.suggestion.match_indices matches Some(indices) && indices@ == hit.indices
    &&& r.kind == hit.item.kind
    &&& r.suggestion.value == hit.item.suggestion.value
    &&& r.suggestion.display_override == hit.item.suggestion.display_override
    &&& r.suggestion.description == hit.item.suggestion.description
    &&& r.suggestion.extra == hit.item.suggestion.extra
    &&& r.suggestion.append_whitespace == hit.item.suggestion.append_whitespace
    &&& r.suggestion.style == hit.item.suggestion.style
    &&& r.suggestion.span == hit.item.suggestion.span
}

/// Of two hits neither precedes the other both ways, and listing order is
/// transitive.
pub proof fn lemma_precedes_orders<T>(
    options: CompletionOptions,
    a: Hit<T>,
    b: Hit<T>,
    c: Hit<T>,
)
    ensures
        !(precedes(options, a, b) && precedes(options, b, a)),
        !precedes(options, b, a) && !precedes(options, c, b) ==> !precedes(options, c, a),
{
    text::lemma_lex_total(a.haystack, b.haystack);
    text::lemma_lex_total(b.haystack, c.haystack);
    text::lemma_lex_total(a.haystack, c.haystack);
    let (fa, fb, fc) = (
        unicode::folded(a.haystack),
        unicode::folded(b.haystack),
        unicode::folded(c.haystack),
    );
    text::lemma_lex_total(fa, fb);
    text::lemma_lex_total(fb, fc);
    text::lemma_lex_total(fa, fc);
    if !text::lex_lt(b.haystack, a.haystack) && !text::lex_lt(c.haystack, b.haystack) {
        text::lemma_lex_transitive(a.haystack, b.haystack, c.haystack);
    }
    if !text::lex_lt(fb, fa) && !text::lex_lt(fc, fb) {
        text::lemma_lex_transitive(fa, fb, fc);
    }
    if !text::lex_lt(fc, fb) && !text::lex_lt(fa, fc) {
        text::lemma_lex_transitive(fb, fc, fa);
    }
    if !text::lex_lt(fa, fc) && !text::lex_lt(fb, fa) {
        text::lemma_lex_transitive(fc, fa, fb);
    }
}

proof fn lemma_insert_keeps<T>(options: CompletionOptions, hits: Seq<Hit<T>>, x: Hit<T>)
    ensures
        insert_hit(options, hits, x).to_multiset() == hits.to_multiset().insert(x),
        insert_hit(options, hits, x).len() == hits.len() + 1,
    decreases hits.len(),
{
    broadcast use vstd::seq_lib::group_to_multiset_ensures;

    if hits.len() == 0 || !precedes(options, x, hits.last()) {
    } else {
        lemma_insert_keeps(options, hits.drop_last(), x);
        assert(hits.drop_last().push(hits.last()) =~= hits);
        assert(hits.drop_last().to_multiset().insert(x).insert(hits.last())
            =~= hits.drop_last().to_multiset().insert(hits.last()).insert(x));
    }
}

/// Sorting neither drops nor adds a match.
pub proof fn law_sorting_keeps_every_match<T>(options: CompletionOptions, hits: Seq<Hit<T>>)
    ensures
        sort_hits(options, hits).to_multiset() == hits.to_multiset(),
        sort_hits(options, hits).len() == hits.len(),
    decreases hits.len(),
{
    broadcast use vstd::seq_lib::group_to_multiset_ensures;

    if hits.len() > 0 {
        law_sorting_keeps_every_match(options, hits.drop_last());
        lemma_insert_keeps(options, sort_hits(options, hits.drop_last()), hits.last());
        assert(hits.drop_last().push(hits.last()) =~= hits);
    }
}

/// Whether no hit is listed behind one that it precedes.
pub open spec fn is_sorted<T>(options: CompletionOptions, hits: Seq<Hit<T>>) -> bool {
    forall|i: int, j: int|
        0 <= i < j < hits.len() ==> !precedes(options, #[trigger] hits[j], #[trigger] hits[i])
}

proof fn lemma_insert_sorts<T>(options: CompletionOptions, hits: Seq<Hit<T>>, x: Hit<T>)
    requires
        is_sorted(options, hits),
    ensures
        is_sorted(options, insert_hit(options, hits, x)),
        forall|k: int|
            0 <= k < insert_hit(options, hits, x).len() ==> #[trigger] insert_hit(
                options,
                hits,
                x,
            )[k] == x || hits.contains(insert_hit(options, hits, x)[k]),
        insert_hit(options, hits, x).len() == hits.len() + 1,
    decreases hits.len(),
{
    let out = insert_hit(options, hits, x);
    if hits.len() == 0 || !precedes(options, x, hits.last()) {
        assert forall|i: int, j: int| 0 <= i < j < out.len() implies !precedes(
            options,
            #[trigger] out[j],
            #[trigger] out[i],
        ) by {
            if j == hits.len() {
                lemma_precedes_orders(options, hits[i], hits.last(), x);
                if i == hits.len() - 1 {
                } else {
                    assert(!precedes(options, hits[hits.len() - 1], hits[i]));
                }
            }
        }
        assert forall|k: int| 0 <= k < out.len() implies #[trigger] out[k] == x || hits.contains(
            out[k],
        ) by {
            if k < hits.len() {
                assert(out[k] == hits[k]);
            }
        }
    } else {
        let front = hits.drop_last();
        let inner = insert_hit(options, front, x);
        lemma_insert_sorts(options, front, x);
        assert(out == inner.push(hits.last()));
        assert forall|i: int, j: int| 0 <= i < j < out.len() implies !precedes(
            options,
            #[trigger] out[j],
            #[trigger] out[i],
        ) by {
            if j == inner.len() {
                assert(out[i] == inner[i]);
                if inner[i] == x {
                    lemma_precedes_orders(options, x, hits.last(), x);
                } else {
                    let k = choose|k: int| 0 <= k < front.len() && front[k] == inner[i];
                    assert(front.contains(inner[i]));
                    assert(hits[k] == inner[i]);
                    assert(!precedes(options, hits[hits.len() - 1], hits[k]));
                }
            } else {
                assert(out[i] == inner[i] && out[j] == inner[j]);
            }
        }
        assert forall|k: int| 0 <= k < out.len() implies #[trigger] out[k] == x || hits.contains(
            out[k],
        ) by {
            if k < inner.len() {
                assert(out[k] == inner[k]);
                if inner[k] != x {
                    assert(front.contains(inner[k]));
                    let m = choose|m: int| 0 <= m < front.len() && front[m] == inner[k];
                    assert(hits[m] == inner[k]);
                }
            } else {
                assert(out[k] == hits[hits.len() - 1]);
            }
        }
    }
}

/// After sorting, no match is listed behind one that it precedes.
pub proof fn law_sorting_orders_matches<T>(options: CompletionOptions, hits: Seq<Hit<T>>)
    ensures
        is_sorted(options, sort_hits(options, hits)),
    decreases hits.len(),
{
    if hits.len() > 0 {
        law_sorting_orders_matches(options, hits.drop_last());
        lemma_insert_sorts(options, sort_hits(options, hits.drop_last()), hits.last());
    }
}

proof fn lemma_insert_filter<T>(
    options: CompletionOptions,
    hits: Seq<Hit<T>>,
    x: Hit<T>,
    tied: spec_fn(Hit<T>) -> bool,
)
    requires
        forall|a: Hit<T>, b: Hit<T>| tied(a) && tied(b) ==> !#[trigger] precedes(options, a, b),
    ensures
        insert_hit(options, hits, x).filter(tied) == if tied(x) {
            hits.filter(tied).push(x)
        } else {
            hits.filter(tied)
        },
    decreases hits.len(),
{
    if hits.len() == 0 || !precedes(options, x, hits.last()) {
        lemma_filter_push(hits, x, tied);
    } else {
        lemma_insert_filter(options, hits.drop_last(), x, tied);
        lemma_filter_push(insert_hit(options, hits.drop_last(), x), hits.last(), tied);
        lemma_filter_push(hits.drop_last(), hits.last(), tied);
        assert(hits.drop_last().push(hits.last()) =~= hits);
    }
}

proof fn lemma_filter_push<T>(s: Seq<Hit<T>>, x: Hit<T>, p: spec_fn(Hit<T>) -> bool)
    ensures
        s.push(x).filter(p) == if p(x) {
            s.filter(p).push(x)
        } else {
            s.filter(p)
        },
{
    reveal(Seq::filter);
    assert(s.push(x).drop_last() =~= s);
}

/// Sorting is stable: matches that tie with one another stay in the order in
/// which they were added.
pub proof fn law_sorting_is_stable<T>(
    options: CompletionOptions,
    hits: Seq<Hit<T>>,
    tied: spec_fn(Hit<T>) -> bool,
)
    requires
        forall|a: Hit<T>, b: Hit<T>| tied(a) && tied(b) ==> !#[trigger] precedes(options, a, b),
    ensures
        sort_hits(options, hits).filter(tied) == hits.filter(tied),
    decreases hits.len(),
{
    if hits.len() > 0 {
        law_sorting_is_stable(options, hits.drop_last(), tied);
        lemma_insert_filter(options, sort_hits(options, hits.drop_last()), hits.last(), tied);
        lemma_filter_push(hits.drop_last(), hits.last(), tied);
        assert(hits.drop_last().push(hits.last()) =~= hits);
    }
}

/// An empty needle is a prefix and a substring of every candidate.
pub proof fn law_empty_needle_matches_everything(options: CompletionOptions, candidate: Seq<char>)
    requires
        !(options.match_algorithm is Fuzzy),
    ensures
        match_of(options, Seq::empty(), candidate) is Some,
{
    let haystack = trim_quotes(candidate);
    let subject = if options.case_sensitive {
        haystack
    } else {
        unicode::folded(haystack)
    };
    assert(subject.subrange(0, 0) =~= Seq::<char>::empty());
}

/// What matches as a prefix also matches as a substring.
pub proof fn law_prefix_match_is_substring_match(
    prefix: CompletionOptions,
    substring: CompletionOptions,
    needle: Seq<char>,
    candidate: Seq<char>,
)
    requires
        prefix.match_algorithm is Prefix,
        substring.match_algorithm is Substring,
        prefix.case_sensitive == substring.case_sensitive,
        match_of(prefix, needle, candidate) is Some,
    ensures
        match_of(substring, needle, candidate) is Some,
{
}

proof fn lemma_added<T>(options: CompletionOptions, needle: Seq<char>, calls: Seq<Call<T>>)
    ensures
        hits_after(options, needle, calls).map_values(|h: Hit<T>| (h.haystack, h.item)) == added(
            options,
            needle,
            calls,
        ),
    decreases calls.len(),
{
    let f = |h: Hit<T>| (h.haystack, h.item);
    if calls.len() > 0 {
        lemma_added(options, needle, calls.drop_last());
        let before = hits_after(options, needle, calls.drop_last());
        let after = hits_after(options, needle, calls);
        if after.len() > before.len() {
            assert(after =~= before.push(after.last()));
            assert(after.map_values(f) =~= before.map_values(f).push(f(after.last())));
        }
    }
    assert(hits_after(options, needle, calls).map_values(f) =~= added(options, needle, calls));
}

proof fn lemma_sort_setting<T>(options: CompletionOptions, sort: CompletionSort, hits: Seq<Hit<T>>)
    requires
        !(options.match_algorithm is Fuzzy),
    ensures
        sort_hits(CompletionOptions { sort, ..options }, hits) == sort_hits(options, hits),
    decreases hits.len(),
{
    if hits.len() > 0 {
        lemma_sort_setting(options, sort, hits.drop_last());
        lemma_insert_setting(options, sort, sort_hits(options, hits.drop_last()), hits.last());
    }
}

proof fn lemma_insert_setting<T>(
    options: CompletionOptions,
    sort: CompletionSort,
    hits: Seq<Hit<T>>,
    x: Hit<T>,
)
    requires
        !(options.match_algorithm is Fuzzy),
    ensures
        insert_hit(CompletionOptions { sort, ..options }, hits, x) == insert_hit(options, hits, x),
    decreases hits.len(),
{
    if hits.len() > 0 {
        lemma_insert_setting(options, sort, hits.drop_last(), x);
    }
}

/// Over any number of calls, the matches are exactly the items that were added,
/// in the order of the calls; sorting keeps each of them once and puts them in
/// order. Unless the matching is fuzzy, the `sort` setting has no influence.
pub proof fn law_results_are_what_was_added<T>(
    options: CompletionOptions,
    needle: Seq<char>,
    calls: Seq<Call<T>>,
    sort: CompletionSort,
)
    ensures
        ({
            let hits = hits_after(options, needle, calls);
            &&& hits.map_values(|h: Hit<T>| (h.haystack, h.item)) == added(options, needle, calls)
            &&& sort_hits(options, hits).to_multiset() == hits.to_multiset()
            &&& is_sorted(options, sort_hits(options, hits))
            &&& !(options.match_algorithm is Fuzzy) ==> sort_hits(
                CompletionOptions { sort, ..options },
                hits,
            ) == sort_hits(options, hits)
        }),
{
    let hits = hits_after(options, needle, calls);
    lemma_added(options, needle, calls);
    law_sorting_keeps_every_match(options, hits);
    law_sorting_orders_matches(options, hits);
    if !(options.match_algorithm is Fuzzy) {
        lemma_sort_setting(options, sort, hits);
    }
}

} // verus!
