//! Completion of file and directory names, level by level.
//!
//! The engine never reads the file system. It works on the directory listings
//! that it has been handed so far ([`DirSnapshot`]); where it needs one that is
//! not there yet, it returns the [`DirKey`] of the directory to read next.

use vstd::prelude::*;

use crate::completions::matcher;
use crate::completions::matcher::{CandidateMatcher, IgnoreCaseExt, MAX_FUZZY_HAYSTACK, MAX_FUZZY_NEEDLE};
use crate::completions::options::CompletionOptions;
use crate::text;
use crate::unicode;

verus! {

/// Longest name of a directory entry, in bytes.
pub const MAX_ENTRY_NAME: usize = 65535;

/// One entry of a directory.
pub struct DirEntry {
    pub name: String,
    pub is_dir: bool,
}

/// A directory to read: the names in `parts`, one below the other, under `cwd`.
#[derive(Debug)]
pub struct DirKey {
    pub cwd: String,
    pub parts: Vec<String>,
}

/// A directory that was read: its entries, or nothing if it is unreadable.
pub struct DirListing {
    pub key: DirKey,
    pub entries: Option<Vec<DirEntry>>,
}

/// The directories that were read so far.
pub struct DirSnapshot {
    pub listings: Vec<DirListing>,
}

/// One matched component of a completed path.
pub struct MatchedPart {
    pub text: String,
    pub match_indices: Vec<usize>,
}

/// A path under construction.
pub struct PathBuiltFromString {
    pub cwd: String,
    pub parts: Vec<MatchedPart>,
    pub isdir: bool,
}

/// A directory to read, as a value.
pub struct Key {
    pub cwd: Seq<char>,
    pub parts: Seq<Seq<char>>,
}

/// A matched component, as a value.
pub struct Part {
    pub text: Seq<char>,
    pub indices: Seq<usize>,
}

/// A path under construction, as a value.
pub struct Built {
    pub cwd: Seq<char>,
    pub parts: Seq<Part>,
    pub isdir: bool,
}

/// A candidate: a path, still without its last component, and that component.
pub struct Candidate {
    pub built: Built,
    pub name: Seq<char>,
}

/// An entry of a directory, as a value.
pub struct Entry {
    pub name: Seq<char>,
    pub is_dir: bool,
}

impl DirEntry {
    pub open spec fn value(self) -> Entry {
        Entry { name: self.name@, is_dir: self.is_dir }
    }
}

impl DirKey {
    pub open spec fn value(self) -> Key {
        Key { cwd: self.cwd@, parts: self.parts@.map_values(|s: String| s@) }
    }
}

impl MatchedPart {
    pub open spec fn value(self) -> Part {
        Part { text: self.text@, indices: self.match_indices@ }
    }
}

impl PathBuiltFromString {
    pub open spec fn value(self) -> Built {
        Built {
            cwd: self.cwd@,
            parts: self.parts@.map_values(|p: MatchedPart| p.value()),
            isdir: self.isdir,
        }
    }
}

impl Built {
    /// The directory that the path names.
    pub open spec fn key(self) -> Key {
        Key { cwd: self.cwd, parts: self.parts.map_values(|p: Part| p.text) }
    }

    /// The path with one more component.
    pub open spec fn with_part(self, part: Part) -> Built {
        Built { cwd: self.cwd, parts: self.parts.push(part), isdir: self.isdir }
    }

    pub open spec fn with_isdir(self, isdir: bool) -> Built {
        Built { cwd: self.cwd, parts: self.parts, isdir }
    }
}

impl DirSnapshot {
    /// Whether entry names are as short as file systems keep them, and short
    /// enough to be scored where the matching is fuzzy.
    pub open spec fn wf(&self, options: CompletionOptions) -> bool {
        forall|i: int, j: int|
            0 <= i < self.listings@.len() && self.listings@[i].entries is Some && 0 <= j
                < self.listings@[i].entries->0@.len() ==> entry_fits(
                options,
                #[trigger] self.listings@[i].entries->0@[j],
            )
    }

    /// The listing of the directory `key`: not read yet, unreadable, or its
    /// entries. The first listing handed in counts.
    pub open spec fn listing(&self, key: Key) -> Option<Option<Seq<Entry>>> {
        listing_from(self.listings@, key, 0)
    }
}

pub open spec fn entry_fits(options: CompletionOptions, entry: DirEntry) -> bool {
    let size = vstd::utf8::encode_utf8(entry.name@).len();
    size <= MAX_ENTRY_NAME && (options.match_algorithm is Fuzzy ==> size <= MAX_FUZZY_HAYSTACK)
}

pub open spec fn listing_value(listing: DirListing) -> Option<Seq<Entry>> {
    match listing.entries {
        Some(entries) => Some(entries@.map_values(|e: DirEntry| e.value())),
        None => None,
    }
}

pub open spec fn listing_from(listings: Seq<DirListing>, key: Key, i: int) -> Option<
    Option<Seq<Entry>>,
>
    decreases listings.len() - i,
{
    if i < 0 || i >= listings.len() {
        None
    } else if listings[i].key.value() == key {
        Some(listing_value(listings[i]))
    } else {
        listing_from(listings, key, i + 1)
    }
}

fn copy_string(s: &String) -> (r: String)
    ensures
        r@ == s@,
{
    s.clone()
}

fn copy_part(part: &MatchedPart) -> (r: MatchedPart)
    ensures
        r.value() == part.value(),
{
    let indices = part.match_indices.clone();
    assert(indices@ =~= part.match_indices@);
    MatchedPart { text: copy_string(&part.text), match_indices: indices }
}

fn copy_built(built: &PathBuiltFromString) -> (r: PathBuiltFromString)
    ensures
        r.value() == built.value(),
{
    let mut parts: Vec<MatchedPart> = Vec::new();
    let mut i: usize = 0;
    while i < built.parts.len()
        invariant
            i <= built.parts@.len(),
            parts@.len() == i,
            forall|j: int|
                0 <= j < i ==> (#[trigger] parts@[j]).value() == built.parts@[j].value(),
        decreases built.parts@.len() - i,
    {
        parts.push(copy_part(&built.parts[i]));
        i += 1;
    }
    assert(parts@.map_values(|p: MatchedPart| p.value()) =~= built.value().parts);
    PathBuiltFromString { cwd: copy_string(&built.cwd), parts, isdir: built.isdir }
}

/// The key of the directory that a path names.
fn key_of(built: &PathBuiltFromString) -> (r: DirKey)
    ensures
        r.value() == built.value().key(),
{
    let mut parts: Vec<String> = Vec::new();
    let mut i: usize = 0;
    while i < built.parts.len()
        invariant
            i <= built.parts@.len(),
            parts@.len() == i,
            forall|j: int| 0 <= j < i ==> (#[trigger] parts@[j])@ == built.parts@[j].text@,
        decreases built.parts@.len() - i,
    {
        parts.push(copy_string(&built.parts[i].text));
        i += 1;
    }
    assert(parts@.map_values(|s: String| s@) =~= built.value().key().parts);
    DirKey { cwd: copy_string(&built.cwd), parts }
}

fn same_key(a: &DirKey, b: &DirKey) -> (r: bool)
    ensures
        r == (a.value() == b.value()),
{
    if !text::str_eq(a.cwd.as_str(), b.cwd.as_str()) || a.parts.len() != b.parts.len() {
        assert(a.value().parts.len() == a.parts@.len());
        return false;
    }
    let mut i: usize = 0;
    while i < a.parts.len()
        invariant
            i <= a.parts@.len(),
            a.parts@.len() == b.parts@.len(),
            forall|j: int| 0 <= j < i ==> a.parts@[j]@ == b.parts@[j]@,
        decreases a.parts@.len() - i,
    {
        if !text::str_eq(a.parts[i].as_str(), b.parts[i].as_str()) {
            assert(a.value().parts[i as int] != b.value().parts[i as int]);
            return false;
        }
        i += 1;
    }
    assert(a.value().parts =~= b.value().parts);
    true
}

impl DirSnapshot {
    /// The position of the listing of `key`.
    fn position(&self, key: &DirKey) -> (r: Option<usize>)
        ensures
            match r {
                Some(i) => i < self.listings@.len() && self.listing(key.value()) == Some(
                    listing_value(self.listings@[i as int]),
                ),
                None => self.listing(key.value()) is None,
            },
    {
        let mut i: usize = 0;
        while i < self.listings.len()
            invariant
                i <= self.listings@.len(),
                self.listing(key.value()) == listing_from(
                    self.listings@,
                    key.value(),
                    i as int,
                ),
            decreases self.listings@.len() - i,
        {
            if same_key(&self.listings[i].key, key) {
                return Some(i);
            }
            i += 1;
        }
        None
    }
}

/// The entries of one directory as candidates below `built`.
pub open spec fn candidates_in(built: Built, entries: Seq<Entry>, want_directory: bool) -> Seq<
    Candidate,
>
    decreases entries.len(),
{
    if entries.len() == 0 {
        Seq::empty()
    } else {
        let front = candidates_in(built, entries.drop_last(), want_directory);
        let entry = entries.last();
        if !want_directory || entry.is_dir {
            front.push(Candidate { built: built.with_isdir(entry.is_dir), name: entry.name })
        } else {
            front
        }
    }
}

/// The candidates below all of `paths`, or the first directory that was not
/// read yet. An unreadable directory has none.
pub open spec fn candidates_below(
    paths: Seq<Built>,
    want_directory: bool,
    dirs: DirSnapshot,
) -> Result<Seq<Candidate>, Key>
    decreases paths.len(),
{
    if paths.len() == 0 {
        Ok(Seq::empty())
    } else {
        match candidates_below(paths.drop_last(), want_directory, dirs) {
            Err(key) => Err(key),
            Ok(front) => match dirs.listing(paths.last().key()) {
                None => Err(paths.last().key()),
                Some(None) => Ok(front),
                Some(Some(entries)) => Ok(
                    front + candidates_in(paths.last(), entries, want_directory),
                ),
            },
        }
    }
}

pub open spec fn item_value(item: (PathBuiltFromString, String)) -> Candidate {
    Candidate { built: item.0.value(), name: item.1@ }
}

/// Adds the entries of one directory to the candidates.
fn add_candidates(
    out: &mut Vec<(PathBuiltFromString, String)>,
    built: &PathBuiltFromString,
    entries: &Vec<DirEntry>,
    want_directory: bool,
    Ghost(options): Ghost<CompletionOptions>,
    Ghost(width): Ghost<int>,
    Ghost(count): Ghost<int>,
)
    requires
        items_fit(options, old(out)@, width, count),
        fits(built.value(), width, count),
        forall|j: int| 0 <= j < entries@.len() ==> entry_fits(options, #[trigger] entries@[j]),
    ensures
        items_fit(options, final(out)@, width, count),
        final(out)@.map_values(|x| item_value(x)) == old(out)@.map_values(|x| item_value(x))
            + candidates_in(
            built.value(),
            entries@.map_values(|e: DirEntry| e.value()),
            want_directory,
        ),
{
    let ghost values = entries@.map_values(|e: DirEntry| e.value());
    let ghost start = out@.map_values(|x| item_value(x));
    let mut i: usize = 0;
    assert(values.take(0) =~= Seq::empty());
    assert(start + candidates_in(built.value(), values.take(0), want_directory) =~= start);
    while i < entries.len()
        invariant
            i <= entries@.len(),
            values == entries@.map_values(|e: DirEntry| e.value()),
            items_fit(options, out@, width, count),
            fits(built.value(), width, count),
            forall|j: int| 0 <= j < entries@.len() ==> entry_fits(options, #[trigger] entries@[j]),
            out@.map_values(|x| item_value(x)) == start + candidates_in(
                built.value(),
                values.take(i as int),
                want_directory,
            ),
        decreases entries@.len() - i,
    {
        let entry = &entries[i];
        assert(values.take(i + 1).drop_last() =~= values.take(i as int));
        assert(values.take(i + 1).last() == entry.value());
        if !want_directory || entry.is_dir {
            let mut path = copy_built(built);
            path.isdir = entry.is_dir;
            assert(path.value() == built.value().with_isdir(entry.is_dir));
            let ghost before = out@;
            out.push((path, copy_string(&entry.name)));
            assert(out@.map_values(|x| item_value(x)) =~= before.map_values(
                |x| item_value(x),
            ).push(item_value(out@.last())));
            assert(out@.map_values(|x| item_value(x)) =~= start + candidates_in(
                built.value(),
                values.take(i + 1),
                want_directory,
            ));
        }
        i += 1;
    }
    assert(values.take(i as int) =~= values);
}

pub open spec fn built_values(paths: Seq<PathBuiltFromString>) -> Seq<Built> {
    paths.map_values(|p: PathBuiltFromString| p.value())
}

/// Collects the candidates below all of `paths`.
fn collect_candidates(
    paths: &Vec<PathBuiltFromString>,
    want_directory: bool,
    dirs: &DirSnapshot,
    Ghost(options): Ghost<CompletionOptions>,
    Ghost(width): Ghost<int>,
    Ghost(count): Ghost<int>,
) -> (r: Result<Vec<(PathBuiltFromString, String)>, DirKey>)
    requires
        dirs.wf(options),
        all_fit(paths@, width, count),
    ensures
        r matches Ok(v) ==> items_fit(options, v@, width, count),
        match r {
            Ok(v) => candidates_below(built_values(paths@), want_directory, *dirs) == Ok::<
                Seq<Candidate>,
                Key,
            >(v@.map_values(|x| item_value(x))),
            Err(key) => candidates_below(built_values(paths@), want_directory, *dirs) == Err::<
                Seq<Candidate>,
                Key,
            >(key.value()),
        },
{
    let ghost values = built_values(paths@);
    let mut out: Vec<(PathBuiltFromString, String)> = Vec::new();
    let mut i: usize = 0;
    assert(values.take(0) =~= Seq::empty());
    assert(out@.map_values(|x| item_value(x)) =~= Seq::empty());
    while i < paths.len()
        invariant
            i <= paths@.len(),
            values == built_values(paths@),
            dirs.wf(options),
            all_fit(paths@, width, count),
            items_fit(options, out@, width, count),
            candidates_below(values.take(i as int), want_directory, *dirs) == Ok::<
                Seq<Candidate>,
                Key,
            >(out@.map_values(|x| item_value(x))),
        decreases paths@.len() - i,
    {
        assert(values.take(i + 1).drop_last() =~= values.take(i as int));
        assert(values.take(i + 1).last() == paths@[i as int].value());
        let key = key_of(&paths[i]);
        match dirs.position(&key) {
            None => {
                proof {
                    lemma_first_missing(values, i + 1, want_directory, *dirs);
                }
                return Err(key);
            },
            Some(at) => {
                if let Some(entries) = &dirs.listings[at].entries {
                    add_candidates(
                        &mut out,
                        &paths[i],
                        entries,
                        want_directory,
                        Ghost(options),
                        Ghost(width),
                        Ghost(count),
                    );
                }
            },
        }
        i += 1;
    }
    assert(values.take(i as int) =~= values);
    Ok(out)
}

/// A directory missing for some of the paths is missing for all of them.
proof fn lemma_first_missing(paths: Seq<Built>, n: int, want_directory: bool, dirs: DirSnapshot)
    requires
        0 <= n <= paths.len(),
        candidates_below(paths.take(n), want_directory, dirs) is Err,
    ensures
        candidates_below(paths, want_directory, dirs) == candidates_below(
            paths.take(n),
            want_directory,
            dirs,
        ),
    decreases paths.len() - n,
{
    if n < paths.len() {
        assert(paths.take(n + 1).drop_last() =~= paths.take(n));
        lemma_first_missing(paths, n + 1, want_directory, dirs);
    } else {
        assert(paths.take(n) =~= paths);
    }
}

/// Whether an entry is what the user spelled out.
pub open spec fn is_exact(options: CompletionOptions, prefix: Seq<char>, name: Seq<char>) -> bool {
    if options.case_sensitive {
        name == prefix
    } else {
        unicode::folded(name) == unicode::folded(prefix)
    }
}

/// The candidates whose name is what the user spelled out.
pub open spec fn exact_among(
    options: CompletionOptions,
    prefix: Seq<char>,
    candidates: Seq<Candidate>,
) -> Seq<Candidate>
    decreases candidates.len(),
{
    if candidates.len() == 0 {
        candidates
    } else {
        let front = exact_among(options, prefix, candidates.drop_last());
        if is_exact(options, prefix, candidates.last().name) {
            front.push(candidates.last())
        } else {
            front
        }
    }
}

/// The candidates that match `needle`, in order.
pub open spec fn hits_among(
    options: CompletionOptions,
    needle: Seq<char>,
    candidates: Seq<Candidate>,
) -> Seq<matcher::Hit<Candidate>>
    decreases candidates.len(),
{
    if candidates.len() == 0 {
        Seq::empty()
    } else {
        let front = hits_among(options, needle, candidates.drop_last());
        let item = candidates.last();
        match matcher::match_of(options, needle, item.name) {
            Some((score, indices)) => front.push(
                matcher::Hit { item, haystack: matcher::trim_quotes(item.name), score, indices },
            ),
            None => front,
        }
    }
}

/// The path that a match stands for.
pub open spec fn completed(hit: matcher::Hit<Candidate>) -> Built {
    hit.item.built.with_part(Part { text: hit.item.name, indices: hit.indices })
}

/// The path of an entry that the user spelled out.
pub open spec fn spelled_out(candidate: Candidate) -> Built {
    candidate.built.with_part(
        Part {
            text: candidate.name,
            indices: matcher::positions(0, unicode::graphemes(candidate.name) as int),
        },
    )
}

/// Whether `s` consists of dots.
pub open spec fn all_dots(s: Seq<char>) -> bool {
    forall|i: int| 0 <= i < s.len() ==> s[i] == '.'
}

/// A path descended into a component of dots.
pub open spec fn into_dots(built: Built, component: Seq<char>) -> Built {
    built.with_part(Part { text: component, indices: Seq::empty() }).with_isdir(true)
}

/// What stays the same on every level of a completion.
pub struct Request {
    pub options: CompletionOptions,
    /// Only directories are wanted.
    pub want_directory: bool,
    /// The typed path ends with a separator.
    pub isdir: bool,
}

/// The paths that the typed components lead to from `paths`, or the first
/// directory that has to be read before they are known.
///
/// A component of dots is descended into as it is. Where exactly one entry is
/// spelled out in full, only that entry is descended into; otherwise every
/// entry that matches the component is.
pub open spec fn walk(
    request: Request,
    components: Seq<Seq<char>>,
    paths: Seq<Built>,
    exact: bool,
    dirs: DirSnapshot,
) -> Result<Seq<Built>, Key>
    decreases components.len(), 0nat,
{
    let has_more = components.len() > 1 || (components.len() == 1 && request.isdir);
    if has_more && all_dots(components[0]) {
        walk(
            request,
            components.drop_first(),
            paths.map_values(|b: Built| into_dots(b, components[0])),
            exact,
            dirs,
        )
    } else {
        let prefix = if components.len() > 0 {
            components[0]
        } else {
            Seq::empty()
        };
        match candidates_below(paths, request.want_directory, dirs) {
            Err(key) => Err(key),
            Ok(candidates) => {
                let spelled = exact_among(request.options, prefix, candidates);
                if exact && has_more && spelled.len() == 1 {
                    walk(
                        request,
                        components.drop_first(),
                        seq![spelled_out(spelled[0])],
                        true,
                        dirs,
                    )
                } else {
                    let needle = matcher::needle_of(request.options, prefix);
                    let found = matcher::sort_hits(
                        request.options,
                        hits_among(request.options, needle, candidates),
                    ).map_values(|h: matcher::Hit<Candidate>| completed(h));
                    if has_more {
                        walk_each(request, components.drop_first(), found, dirs)
                    } else {
                        Ok(found)
                    }
                }
            },
        }
    }
}

/// The walks from each of `paths`, one after the other.
pub open spec fn walk_each(
    request: Request,
    components: Seq<Seq<char>>,
    paths: Seq<Built>,
    dirs: DirSnapshot,
) -> Result<Seq<Built>, Key>
    decreases components.len(), 1 + paths.len(),
{
    if paths.len() == 0 {
        Ok(Seq::empty())
    } else {
        match walk_each(request, components, paths.drop_last(), dirs) {
            Err(key) => Err(key),
            Ok(front) => match walk(request, components, seq![paths.last()], false, dirs) {
                Err(key) => Err(key),
                Ok(last) => Ok(front + last),
            },
        }
    }
}

/// From no path, nothing is found, and nothing has to be read.
pub proof fn lemma_walk_from_nowhere(
    request: Request,
    components: Seq<Seq<char>>,
    exact: bool,
    dirs: DirSnapshot,
)
    ensures
        walk(request, components, Seq::empty(), exact, dirs) == Ok::<Seq<Built>, Key>(Seq::empty()),
    decreases components.len(),
{
    let none = Seq::<Built>::empty();
    let has_more = components.len() > 1 || (components.len() == 1 && request.isdir);
    if has_more && all_dots(components[0]) {
        assert(none.map_values(|b: Built| into_dots(b, components[0])) =~= none);
        lemma_walk_from_nowhere(request, components.drop_first(), exact, dirs);
    } else {
        let prefix = if components.len() > 0 {
            components[0]
        } else {
            Seq::empty()
        };
        let hits = hits_among(
            request.options,
            matcher::needle_of(request.options, prefix),
            Seq::<Candidate>::empty(),
        );
        assert(candidates_below(none, request.want_directory, dirs) == Ok::<Seq<Candidate>, Key>(
            Seq::empty(),
        ));
        assert(exact_among(request.options, prefix, Seq::<Candidate>::empty()).len() == 0);
        assert(walk_each(request, components.drop_first(), none, dirs) == Ok::<Seq<Built>, Key>(
            none,
        ));
        assert(matcher::sort_hits(request.options, hits).map_values(
            |h: matcher::Hit<Candidate>| completed(h),
        ) =~= none);
    }
}

/// Upper bound of matched positions in an entry name.
pub const POSITION_LIMIT: usize = 196605;

/// Whether a path has at most `count` components, none longer than `width`,
/// with every matched position within bounds.
pub open spec fn fits(built: Built, width: int, count: int) -> bool {
    &&& built.parts.len() <= count
    &&& forall|i: int| 0 <= i < built.parts.len() ==> part_fits(#[trigger] built.parts[i], width)
}

pub open spec fn part_fits(part: Part, width: int) -> bool {
    &&& part.text.len() <= width
    &&& forall|k: int| 0 <= k < part.indices.len() ==> #[trigger] part.indices[k] < POSITION_LIMIT
}

pub open spec fn all_fit(paths: Seq<PathBuiltFromString>, width: int, count: int) -> bool {
    forall|i: int| 0 <= i < paths.len() ==> fits((#[trigger] paths[i]).value(), width, count)
}

/// The typed components from `from` on.
pub open spec fn components_from(partial: Seq<String>, from: int) -> Seq<Seq<char>> {
    partial.skip(from).map_values(|s: String| s@)
}

fn only_dots(s: &str) -> (r: bool)
    ensures
        r == all_dots(s@),
{
    let v = text::chars_of(s);
    let mut i: usize = 0;
    while i < v.len()
        invariant
            i <= v@.len(),
            v@ == s@,
            forall|j: int| 0 <= j < i ==> v@[j] == '.',
        decreases v@.len() - i,
    {
        if v[i] != '.' {
            assert(s@[i as int] != '.');
            return false;
        }
        i += 1;
    }
    true
}

fn matches_exactly(options: &CompletionOptions, prefix: &str, name: &str) -> (r: bool)
    ensures
        r == is_exact(*options, prefix@, name@),
{
    if options.case_sensitive {
        text::str_eq(name, prefix)
    } else {
        name.eq_ignore_case(prefix)
    }
}

pub open spec fn item_values(items: Seq<(PathBuiltFromString, String)>) -> Seq<Candidate> {
    items.map_values(|x| item_value(x))
}

/// The position of the only item that is spelled out.
fn only_exact(
    options: &CompletionOptions,
    prefix: &str,
    items: &Vec<(PathBuiltFromString, String)>,
) -> (r: Option<usize>)
    ensures
        match r {
            Some(i) => i < items@.len() && exact_among(*options, prefix@, item_values(items@))
                == seq![item_value(items@[i as int])],
            None => exact_among(*options, prefix@, item_values(items@)).len() != 1,
        },
{
    let ghost values = item_values(items@);
    let mut found: Option<usize> = None;
    let mut several = false;
    let mut i: usize = 0;
    assert(values.take(0) =~= Seq::empty());
    while i < items.len()
        invariant
            i <= items@.len(),
            values == item_values(items@),
            several ==> exact_among(*options, prefix@, values.take(i as int)).len() > 1,
            !several && found is None ==> exact_among(*options, prefix@, values.take(i as int)).len()
                == 0,
            !several && found is Some ==> found->0 < i && exact_among(
                *options,
                prefix@,
                values.take(i as int),
            ) == seq![item_value(items@[found->0 as int])],
        decreases items@.len() - i,
    {
        assert(values.take(i + 1).drop_last() =~= values.take(i as int));
        assert(values.take(i + 1).last() == item_value(items@[i as int]));
        if matches_exactly(options, prefix, items[i].1.as_str()) {
            if found.is_some() || several {
                several = true;
            } else {
                found = Some(i);
                assert(exact_among(*options, prefix@, values.take(i + 1)) =~= seq![
                    item_value(items@[i as int]),
                ]);
            }
        }
        i += 1;
    }
    assert(values.take(i as int) =~= values);
    if several {
        None
    } else {
        found
    }
}

/// Whether an entry name is short enough.
pub open spec fn name_fits(options: CompletionOptions, name: Seq<char>) -> bool {
    let size = vstd::utf8::encode_utf8(name).len();
    size <= MAX_ENTRY_NAME && (options.match_algorithm is Fuzzy ==> size <= MAX_FUZZY_HAYSTACK)
}

/// Whether every candidate below paths within bounds is within bounds itself.
pub open spec fn items_fit(
    options: CompletionOptions,
    items: Seq<(PathBuiltFromString, String)>,
    width: int,
    count: int,
) -> bool {
    forall|i: int|
        0 <= i < items.len() ==> name_fits(options, (#[trigger] items[i]).1@) && fits(
            items[i].0.value(),
            width,
            count,
        )
}

/// A match within bounds.
spec fn hit_fits(
    hit: matcher::Hit<(PathBuiltFromString, String)>,
    width: int,
    count: int,
) -> bool {
    &&& fits(hit.item.0.value(), width, count)
    &&& hit.item.1@.len() <= width
    &&& forall|k: int| 0 <= k < hit.indices.len() ==> #[trigger] hit.indices[k] < POSITION_LIMIT
}

proof fn lemma_sorted_fit(
    options: CompletionOptions,
    hits: Seq<matcher::Hit<(PathBuiltFromString, String)>>,
    width: int,
    count: int,
)
    requires
        forall|i: int| 0 <= i < hits.len() ==> hit_fits(#[trigger] hits[i], width, count),
    ensures
        forall|i: int|
            0 <= i < matcher::sort_hits(options, hits).len() ==> hit_fits(
                #[trigger] matcher::sort_hits(options, hits)[i],
                width,
                count,
            ),
{
    broadcast use vstd::seq_lib::group_to_multiset_ensures;

    let sorted = matcher::sort_hits(options, hits);
    matcher::law_sorting_keeps_every_match(options, hits);
    assert forall|i: int| 0 <= i < sorted.len() implies hit_fits(
        #[trigger] sorted[i],
        width,
        count,
    ) by {
        assert(sorted.contains(sorted[i]));
        assert(sorted.to_multiset().count(sorted[i]) > 0);
        assert(hits.contains(sorted[i]));
    }
}

proof fn lemma_with_part_fits(built: Built, part: Part, width: int, count: int)
    requires
        fits(built, width, count),
        part_fits(part, width),
    ensures
        fits(built.with_part(part), width, count + 1),
{
    let longer = built.with_part(part);
    assert forall|i: int| 0 <= i < longer.parts.len() implies part_fits(
        #[trigger] longer.parts[i],
        width,
    ) by {
        if i < built.parts.len() {
            assert(longer.parts[i] == built.parts[i]);
        }
    }
}

/// Adds a component to a path.
fn push_part(built: &mut PathBuiltFromString, part: MatchedPart)
    ensures
        final(built).value() == old(built).value().with_part(part.value()),
{
    built.parts.push(part);
    assert(built.value().parts =~= old(built).value().parts.push(part.value()));
}

/// The paths of the items that match `prefix`, in order.
fn match_level(
    options: &CompletionOptions,
    prefix: &str,
    items: Vec<(PathBuiltFromString, String)>,
    Ghost(width): Ghost<int>,
    Ghost(count): Ghost<int>,
) -> (r: Vec<PathBuiltFromString>)
    requires
        options.match_algorithm is Fuzzy ==> matcher::trim_quotes(prefix@).len()
            <= MAX_FUZZY_NEEDLE,
        items_fit(*options, items@, width, count),
        width >= MAX_ENTRY_NAME,
    ensures
        built_values(r@) == matcher::sort_hits(
            *options,
            hits_among(*options, matcher::needle_of(*options, prefix@), item_values(items@)),
        ).map_values(|h: matcher::Hit<Candidate>| completed(h)),
        all_fit(r@, width, count + 1),
{
    let ghost values = item_values(items@);
    let ghost whole = items@;
    let ghost f = |x: (PathBuiltFromString, String)| item_value(x);
    let ghost needle = matcher::needle_of(*options, prefix@);
    let mut finder: CandidateMatcher<(PathBuiltFromString, String)> = CandidateMatcher::new(
        prefix,
        options,
        true,
    );
    assert(values.take(0) =~= Seq::empty());
    assert(matcher::map_items(finder.hits(), f) =~= Seq::empty());
    for item in it: items
        invariant
            it.seq() == whole,
            values == item_values(whole),
            f == (|x: (PathBuiltFromString, String)| item_value(x)),
            items_fit(*options, whole, width, count),
            width >= MAX_ENTRY_NAME,
            finder.wf(),
            finder.sorts(),
            finder.options_of() == *options,
            finder.needle_text() == needle,
            matcher::map_items(finder.hits(), f) == hits_among(
                *options,
                needle,
                values.take(it.index() as int),
            ),
            forall|i: int|
                0 <= i < finder.hits().len() ==> hit_fits(
                    #[trigger] finder.hits()[i],
                    width,
                    count,
                ),
    {
        let ghost n = it.index() as int;
        assert(item == whole[n]);
        assert(name_fits(*options, whole[n].1@));
        proof {
            text::lemma_bytes_at_least_chars(item.1@);
            assert(values.take(n + 1).drop_last() =~= values.take(n));
            assert(values.take(n + 1).last() == item_value(item));
        }
        let name = copy_string(&item.1);
        let ghost before = finder.hits();
        let added = finder.add(name.as_str(), item);
        proof {
            if added {
                let hit = finder.hits().last();
                assert(finder.hits() =~= before.push(hit));
                assert(hit_fits(hit, width, count));
                assert(matcher::map_items(finder.hits(), f) =~= matcher::map_items(
                    before,
                    f,
                ).push(matcher::map_item(hit, f)));
                assert forall|i: int| 0 <= i < finder.hits().len() implies hit_fits(
                    #[trigger] finder.hits()[i],
                    width,
                    count,
                ) by {
                    if i < before.len() {
                        assert(finder.hits()[i] == before[i]);
                    }
                }
            }
        }
    }
    assert(values.take(values.len() as int) =~= values);
    let ghost hits = finder.hits();
    let ghost sorted = matcher::sort_hits(*options, hits);
    proof {
        matcher::lemma_sort_map(*options, hits, f);
        lemma_sorted_fit(*options, hits, width, count);
    }
    let results = finder.results();
    let ghost pairs = results@;
    let mut out: Vec<PathBuiltFromString> = Vec::new();
    for pair in it: results
        invariant
            it.seq() == pairs,
            pairs.len() == sorted.len(),
            f == (|x: (PathBuiltFromString, String)| item_value(x)),
            width >= MAX_ENTRY_NAME,
            forall|i: int|
                0 <= i < pairs.len() ==> (#[trigger] pairs[i]).0 == sorted[i].item && pairs[i].1@
                    == sorted[i].indices,
            forall|i: int| 0 <= i < sorted.len() ==> hit_fits(#[trigger] sorted[i], width, count),
            out@.len() == it.index(),
            forall|i: int|
                0 <= i < out@.len() ==> (#[trigger] out@[i]).value() == completed(
                    matcher::map_item(sorted[i], f),
                ),
            all_fit(out@, width, count + 1),
    {
        let ghost n = it.index() as int;
        assert(pair == pairs[n]);
        assert(hit_fits(sorted[n], width, count));
        let ((mut built, name), indices) = pair;
        let part = MatchedPart { text: name, match_indices: indices };
        proof {
            assert(part_fits(part.value(), width));
            lemma_with_part_fits(built.value(), part.value(), width, count);
        }
        push_part(&mut built, part);
        out.push(built);
    }
    assert(built_values(out@) =~= matcher::map_items(sorted, f).map_values(
        |h: matcher::Hit<Candidate>| completed(h),
    ));
    out
}

/// Every path descended into a component of dots.
fn descend_dots(
    paths: &Vec<PathBuiltFromString>,
    component: &String,
    Ghost(width): Ghost<int>,
    Ghost(count): Ghost<int>,
) -> (r: Vec<PathBuiltFromString>)
    requires
        all_fit(paths@, width, count),
        component@.len() <= width,
    ensures
        built_values(r@) == built_values(paths@).map_values(|b: Built| into_dots(b, component@)),
        all_fit(r@, width, count + 1),
{
    let mut out: Vec<PathBuiltFromString> = Vec::new();
    let mut i: usize = 0;
    while i < paths.len()
        invariant
            i <= paths@.len(),
            out@.len() == i,
            component@.len() <= width,
            all_fit(paths@, width, count),
            forall|j: int|
                0 <= j < i ==> (#[trigger] out@[j]).value() == into_dots(
                    paths@[j].value(),
                    component@,
                ),
            all_fit(out@, width, count + 1),
        decreases paths@.len() - i,
    {
        let mut built = copy_built(&paths[i]);
        let part = MatchedPart { text: copy_string(component), match_indices: Vec::new() };
        assert(part.value().indices =~= Seq::empty());
        proof {
            assert(fits(paths@[i as int].value(), width, count));
            lemma_with_part_fits(built.value(), part.value(), width, count);
        }
        push_part(&mut built, part);
        built.isdir = true;
        assert(built.value() == into_dots(paths@[i as int].value(), component@));
        out.push(built);
        i += 1;
    }
    assert(built_values(out@) =~= built_values(paths@).map_values(
        |b: Built| into_dots(b, component@),
    ));
    out
}

/// The request that the arguments of a completion make up.
pub open spec fn request_of(
    options: CompletionOptions,
    want_directory: bool,
    isdir: bool,
) -> Request {
    Request { options, want_directory, isdir }
}

/// Whether typed components are short enough.
pub open spec fn components_fit(
    options: CompletionOptions,
    partial: Seq<String>,
    width: int,
) -> bool {
    forall|i: int|
        0 <= i < partial.len() ==> (#[trigger] partial[i])@.len() <= width && (
        options.match_algorithm is Fuzzy ==> partial[i]@.len() <= MAX_FUZZY_NEEDLE)
}

/// Whether a result is what a walk gives.
pub open spec fn is_outcome(
    r: Result<Vec<PathBuiltFromString>, DirKey>,
    outcome: Result<Seq<Built>, Key>,
) -> bool {
    match r {
        Ok(paths) => outcome == Ok::<Seq<Built>, Key>(built_values(paths@)),
        Err(key) => outcome == Err::<Seq<Built>, Key>(key.value()),
    }
}

/// Walks down the directories and collects matching paths.
pub(crate) fn complete_rec(
    partial: &Vec<String>,
    from: usize,
    paths: &Vec<PathBuiltFromString>,
    options: &CompletionOptions,
    want_directory: bool,
    isdir: bool,
    enable_exact_match: bool,
    dirs: &DirSnapshot,
    Ghost(width): Ghost<int>,
    Ghost(count): Ghost<int>,
) -> (r: Result<Vec<PathBuiltFromString>, DirKey>)
    requires
        from <= partial@.len(),
        dirs.wf(*options),
        components_fit(*options, partial@, width),
        width >= MAX_ENTRY_NAME,
        all_fit(paths@, width, count),
    ensures
        is_outcome(
            r,
            walk(
                request_of(*options, want_directory, isdir),
                components_from(partial@, from as int),
                built_values(paths@),
                enable_exact_match,
                *dirs,
            ),
        ),
        r matches Ok(v) ==> all_fit(v@, width, count + partial@.len() - from + 1),
    decreases partial@.len() - from, 0nat,
{
    let ghost components = components_from(partial@, from as int);
    let left: usize = partial.len() - from;
    let has_more = left > 1 || (left == 1 && isdir);
    proof {
        if from < partial@.len() {
            assert(components.drop_first() =~= components_from(partial@, from + 1));
            assert(components[0] == partial@[from as int]@);
        }
    }
    if has_more && only_dots(partial[from].as_str()) {
        let below = descend_dots(paths, &partial[from], Ghost(width), Ghost(count));
        return complete_rec(
            partial,
            from + 1,
            &below,
            options,
            want_directory,
            isdir,
            enable_exact_match,
            dirs,
            Ghost(width),
            Ghost(count + 1),
        );
    }
    let prefix: String = if left > 0 {
        copy_string(&partial[from])
    } else {
        String::new()
    };
    let items = match collect_candidates(
        paths,
        want_directory,
        dirs,
        Ghost(*options),
        Ghost(width),
        Ghost(count),
    ) {
        Ok(items) => items,
        Err(key) => {
            return Err(key);
        },
    };
    if enable_exact_match && has_more {
        if let Some(at) = only_exact(options, prefix.as_str(), &items) {
            let mut built = copy_built(&items[at].0);
            let name = copy_string(&items[at].1);
            let len: usize = unicode::grapheme_count(name.as_str());
            proof {
                assert(name_fits(*options, items@[at as int].1@));
                text::lemma_bytes_at_least_chars(name@);
            }
            let part = MatchedPart { text: name, match_indices: matcher::position_range(0, len) };
            proof {
                assert(part_fits(part.value(), width));
                lemma_with_part_fits(built.value(), part.value(), width, count);
            }
            push_part(&mut built, part);
            let mut only: Vec<PathBuiltFromString> = Vec::new();
            only.push(built);
            assert(built_values(only@) =~= seq![spelled_out(item_value(items@[at as int]))]);
            return complete_rec(
                partial,
                from + 1,
                &only,
                options,
                want_directory,
                isdir,
                true,
                dirs,
                Ghost(width),
                Ghost(count + 1),
            );
        }
    }
    proof {
        matcher::lemma_trim_shortens(prefix@);
    }
    let found = match_level(options, prefix.as_str(), items, Ghost(width), Ghost(count));
    if has_more {
        complete_each(
            partial,
            from + 1,
            &found,
            options,
            want_directory,
            isdir,
            dirs,
            Ghost(width),
            Ghost(count + 1),
        )
    } else {
        Ok(found)
    }
}

/// Walks down from each of `paths` in turn.
fn complete_each(
    partial: &Vec<String>,
    from: usize,
    paths: &Vec<PathBuiltFromString>,
    options: &CompletionOptions,
    want_directory: bool,
    isdir: bool,
    dirs: &DirSnapshot,
    Ghost(width): Ghost<int>,
    Ghost(count): Ghost<int>,
) -> (r: Result<Vec<PathBuiltFromString>, DirKey>)
    requires
        from <= partial@.len(),
        dirs.wf(*options),
        components_fit(*options, partial@, width),
        width >= MAX_ENTRY_NAME,
        all_fit(paths@, width, count),
    ensures
        is_outcome(
            r,
            walk_each(
                request_of(*options, want_directory, isdir),
                components_from(partial@, from as int),
                built_values(paths@),
                *dirs,
            ),
        ),
        r matches Ok(v) ==> all_fit(v@, width, count + partial@.len() - from + 1),
    decreases partial@.len() - from, 1nat,
{
    let ghost request = request_of(*options, want_directory, isdir);
    let ghost components = components_from(partial@, from as int);
    let ghost values = built_values(paths@);
    let mut out: Vec<PathBuiltFromString> = Vec::new();
    let mut i: usize = 0;
    assert(values.take(0) =~= Seq::empty());
    assert(built_values(out@) =~= Seq::empty());
    while i < paths.len()
        invariant
            i <= paths@.len(),
            from <= partial@.len(),
            dirs.wf(*options),
            components_fit(*options, partial@, width),
            width >= MAX_ENTRY_NAME,
            all_fit(paths@, width, count),
            request == request_of(*options, want_directory, isdir),
            components == components_from(partial@, from as int),
            values == built_values(paths@),
            walk_each(request, components, values.take(i as int), *dirs) == Ok::<Seq<Built>, Key>(
                built_values(out@),
            ),
            all_fit(out@, width, count + partial@.len() - from + 1),
        decreases paths@.len() - i,
    {
        assert(values.take(i + 1).drop_last() =~= values.take(i as int));
        assert(values.take(i + 1).last() == paths@[i as int].value());
        let mut only: Vec<PathBuiltFromString> = Vec::new();
        only.push(copy_built(&paths[i]));
        assert(built_values(only@) =~= seq![values[i as int]]);
        match complete_rec(
            partial,
            from,
            &only,
            options,
            want_directory,
            isdir,
            false,
            dirs,
            Ghost(width),
            Ghost(count),
        ) {
            Err(key) => {
                proof {
                    lemma_first_stop(request, components, values, i + 1, *dirs);
                }
                return Err(key);
            },
            Ok(mut more) => {
                let ghost before = out@;
                let ghost added = more@;
                out.append(&mut more);
                assert(built_values(out@) =~= built_values(before) + built_values(added));
                assert forall|j: int| 0 <= j < out@.len() implies fits(
                    (#[trigger] out@[j]).value(),
                    width,
                    count + partial@.len() - from + 1,
                ) by {
                    if j < before.len() {
                        assert(out@[j] == before[j]);
                    } else {
                        assert(out@[j] == added[j - before.len()]);
                    }
                }
            },
        }
        i += 1;
    }
    assert(values.take(i as int) =~= values);
    Ok(out)
}

/// A directory missing on the way from some of the paths is missing for all.
proof fn lemma_first_stop(
    request: Request,
    components: Seq<Seq<char>>,
    paths: Seq<Built>,
    n: int,
    dirs: DirSnapshot,
)
    requires
        0 <= n <= paths.len(),
        walk_each(request, components, paths.take(n), dirs) is Err,
    ensures
        walk_each(request, components, paths, dirs) == walk_each(
            request,
            components,
            paths.take(n),
            dirs,
        ),
    decreases paths.len() - n,
{
    if n < paths.len() {
        assert(paths.take(n + 1).drop_last() =~= paths.take(n));
        lemma_first_stop(request, components, paths, n + 1, dirs);
    } else {
        assert(paths.take(n) =~= paths);
    }
}

/// Whether `more` holds every listing that `dirs` holds.
pub open spec fn extends(more: DirSnapshot, dirs: DirSnapshot) -> bool {
    forall|key: Key| #[trigger] dirs.listing(key) is Some ==> more.listing(key) == dirs.listing(key)
}

proof fn lemma_candidates_missing(paths: Seq<Built>, want_directory: bool, dirs: DirSnapshot)
    ensures
        candidates_below(paths, want_directory, dirs) matches Err(key) ==> dirs.listing(key) is None,
    decreases paths.len(),
{
    if paths.len() > 0 {
        lemma_candidates_missing(paths.drop_last(), want_directory, dirs);
    }
}

proof fn lemma_candidates_extend(
    paths: Seq<Built>,
    want_directory: bool,
    dirs: DirSnapshot,
    more: DirSnapshot,
)
    requires
        extends(more, dirs),
        candidates_below(paths, want_directory, dirs) is Ok,
    ensures
        candidates_below(paths, want_directory, more) == candidates_below(
            paths,
            want_directory,
            dirs,
        ),
    decreases paths.len(),
{
    if paths.len() > 0 {
        lemma_candidates_extend(paths.drop_last(), want_directory, dirs, more);
        assert(dirs.listing(paths.last().key()) is Some);
    }
}

/// A completion only ever asks for a directory that was not read yet, so
/// handing in the directories it asks for brings it forward.
pub proof fn law_asks_for_unread_directories(
    request: Request,
    components: Seq<Seq<char>>,
    paths: Seq<Built>,
    exact: bool,
    dirs: DirSnapshot,
)
    ensures
        walk(request, components, paths, exact, dirs) matches Err(key) ==> dirs.listing(key) is None,
    decreases components.len(), 0nat,
{
    let has_more = components.len() > 1 || (components.len() == 1 && request.isdir);
    if has_more && all_dots(components[0]) {
        law_asks_for_unread_directories(
            request,
            components.drop_first(),
            paths.map_values(|b: Built| into_dots(b, components[0])),
            exact,
            dirs,
        );
    } else {
        lemma_candidates_missing(paths, request.want_directory, dirs);
        let prefix = if components.len() > 0 {
            components[0]
        } else {
            Seq::empty()
        };
        if let Ok(candidates) = candidates_below(paths, request.want_directory, dirs) {
            let spelled = exact_among(request.options, prefix, candidates);
            if has_more {
                law_asks_for_unread_directories(
                    request,
                    components.drop_first(),
                    seq![spelled_out(spelled[0])],
                    true,
                    dirs,
                );
                let needle = matcher::needle_of(request.options, prefix);
                let found = matcher::sort_hits(
                    request.options,
                    hits_among(request.options, needle, candidates),
                ).map_values(|h: matcher::Hit<Candidate>| completed(h));
                lemma_each_asks_for_unread(request, components.drop_first(), found, dirs);
            }
        }
    }
}

proof fn lemma_each_asks_for_unread(
    request: Request,
    components: Seq<Seq<char>>,
    paths: Seq<Built>,
    dirs: DirSnapshot,
)
    ensures
        walk_each(request, components, paths, dirs) matches Err(key) ==> dirs.listing(key) is None,
    decreases components.len(), 1 + paths.len(),
{
    if paths.len() > 0 {
        lemma_each_asks_for_unread(request, components, paths.drop_last(), dirs);
        law_asks_for_unread_directories(request, components, seq![paths.last()], false, dirs);
    }
}

/// A finished completion is not changed by reading more directories.
pub proof fn law_finished_completions_stay(
    request: Request,
    components: Seq<Seq<char>>,
    paths: Seq<Built>,
    exact: bool,
    dirs: DirSnapshot,
    more: DirSnapshot,
)
    requires
        extends(more, dirs),
        walk(request, components, paths, exact, dirs) is Ok,
    ensures
        walk(request, components, paths, exact, more) == walk(
            request,
            components,
            paths,
            exact,
            dirs,
        ),
    decreases components.len(), 0nat,
{
    let has_more = components.len() > 1 || (components.len() == 1 && request.isdir);
    if has_more && all_dots(components[0]) {
        law_finished_completions_stay(
            request,
            components.drop_first(),
            paths.map_values(|b: Built| into_dots(b, components[0])),
            exact,
            dirs,
            more,
        );
    } else {
        let prefix = if components.len() > 0 {
            components[0]
        } else {
            Seq::empty()
        };
        lemma_candidates_extend(paths, request.want_directory, dirs, more);
        let candidates = candidates_below(paths, request.want_directory, dirs)->Ok_0;
        let spelled = exact_among(request.options, prefix, candidates);
        if has_more {
            if exact && spelled.len() == 1 {
                law_finished_completions_stay(
                    request,
                    components.drop_first(),
                    seq![spelled_out(spelled[0])],
                    true,
                    dirs,
                    more,
                );
            } else {
                let needle = matcher::needle_of(request.options, prefix);
                let found = matcher::sort_hits(
                    request.options,
                    hits_among(request.options, needle, candidates),
                ).map_values(|h: matcher::Hit<Candidate>| completed(h));
                lemma_finished_each_stay(request, components.drop_first(), found, dirs, more);
            }
        }
    }
}

proof fn lemma_finished_each_stay(
    request: Request,
    components: Seq<Seq<char>>,
    paths: Seq<Built>,
    dirs: DirSnapshot,
    more: DirSnapshot,
)
    requires
        extends(more, dirs),
        walk_each(request, components, paths, dirs) is Ok,
    ensures
        walk_each(request, components, paths, more) == walk_each(request, components, paths, dirs),
    decreases components.len(), 1 + paths.len(),
{
    if paths.len() > 0 {
        lemma_finished_each_stay(request, components, paths.drop_last(), dirs, more);
        law_finished_completions_stay(
            request,
            components,
            seq![paths.last()],
            false,
            dirs,
            more,
        );
    }
}

proof fn lemma_candidates_are_directories(paths: Seq<Built>, dirs: DirSnapshot)
    ensures
        candidates_below(paths, true, dirs) matches Ok(candidates) ==> forall|i: int|
            0 <= i < candidates.len() ==> (#[trigger] candidates[i]).built.isdir,
    decreases paths.len(),
{
    if paths.len() > 0 {
        lemma_candidates_are_directories(paths.drop_last(), dirs);
        if let Some(Some(entries)) = dirs.listing(paths.last().key()) {
            lemma_entries_are_directories(paths.last(), entries);
        }
    }
}

proof fn lemma_entries_are_directories(built: Built, entries: Seq<Entry>)
    ensures
        forall|i: int|
            0 <= i < candidates_in(built, entries, true).len() ==> (
            #[trigger] candidates_in(built, entries, true)[i]).built.isdir,
    decreases entries.len(),
{
    if entries.len() > 0 {
        lemma_entries_are_directories(built, entries.drop_last());
        let front = candidates_in(built, entries.drop_last(), true);
        let all = candidates_in(built, entries, true);
        assert forall|i: int| 0 <= i < all.len() implies (#[trigger] all[i]).built.isdir by {
            if i < front.len() {
                assert(all[i] == front[i]);
            }
        }
    }
}

proof fn lemma_hits_are_directories(
    options: CompletionOptions,
    needle: Seq<char>,
    candidates: Seq<Candidate>,
)
    requires
        forall|i: int| 0 <= i < candidates.len() ==> (#[trigger] candidates[i]).built.isdir,
    ensures
        forall|i: int|
            0 <= i < hits_among(options, needle, candidates).len() ==> (
            #[trigger] hits_among(options, needle, candidates)[i]).item.built.isdir,
    decreases candidates.len(),
{
    if candidates.len() > 0 {
        assert(candidates[candidates.len() - 1].built.isdir);
        assert forall|i: int| 0 <= i < candidates.len() - 1 implies (
        #[trigger] candidates.drop_last()[i]).built.isdir by {
            assert(candidates[i].built.isdir);
        }
        lemma_hits_are_directories(options, needle, candidates.drop_last());
        let front = hits_among(options, needle, candidates.drop_last());
        let all = hits_among(options, needle, candidates);
        assert forall|i: int| 0 <= i < all.len() implies (
        #[trigger] all[i]).item.built.isdir by {
            if i < front.len() {
                assert(all[i] == front[i]);
            }
        }
    }
}

/// Where only directories are wanted, every completed path is one.
pub proof fn law_directory_completions_are_directories(
    request: Request,
    components: Seq<Seq<char>>,
    paths: Seq<Built>,
    exact: bool,
    dirs: DirSnapshot,
)
    requires
        request.want_directory,
    ensures
        walk(request, components, paths, exact, dirs) matches Ok(found) ==> forall|i: int|
            0 <= i < found.len() ==> (#[trigger] found[i]).isdir,
    decreases components.len(), 0nat,
{
    broadcast use vstd::seq_lib::group_to_multiset_ensures;

    let has_more = components.len() > 1 || (components.len() == 1 && request.isdir);
    if has_more && all_dots(components[0]) {
        law_directory_completions_are_directories(
            request,
            components.drop_first(),
            paths.map_values(|b: Built| into_dots(b, components[0])),
            exact,
            dirs,
        );
    } else {
        lemma_candidates_are_directories(paths, dirs);
        let prefix = if components.len() > 0 {
            components[0]
        } else {
            Seq::empty()
        };
        if let Ok(candidates) = candidates_below(paths, request.want_directory, dirs) {
            let spelled = exact_among(request.options, prefix, candidates);
            let needle = matcher::needle_of(request.options, prefix);
            let hits = hits_among(request.options, needle, candidates);
            let sorted = matcher::sort_hits(request.options, hits);
            let found = sorted.map_values(|h: matcher::Hit<Candidate>| completed(h));
            if has_more {
                law_directory_completions_are_directories(
                    request,
                    components.drop_first(),
                    seq![spelled_out(spelled[0])],
                    true,
                    dirs,
                );
                lemma_each_are_directories(request, components.drop_first(), found, dirs);
            } else {
                lemma_hits_are_directories(request.options, needle, candidates);
                matcher::law_sorting_keeps_every_match(request.options, hits);
                assert forall|i: int| 0 <= i < found.len() implies (
                #[trigger] found[i]).isdir by {
                    assert(sorted.contains(sorted[i]));
                    assert(sorted.to_multiset().count(sorted[i]) > 0);
                    assert(hits.contains(sorted[i]));
                }
            }
        }
    }
}

proof fn lemma_each_are_directories(
    request: Request,
    components: Seq<Seq<char>>,
    paths: Seq<Built>,
    dirs: DirSnapshot,
)
    requires
        request.want_directory,
    ensures
        walk_each(request, components, paths, dirs) matches Ok(found) ==> forall|i: int|
            0 <= i < found.len() ==> (#[trigger] found[i]).isdir,
    decreases components.len(), 1 + paths.len(),
{
    if paths.len() > 0 {
        lemma_each_are_directories(request, components, paths.drop_last(), dirs);
        law_directory_completions_are_directories(
            request,
            components,
            seq![paths.last()],
            false,
            dirs,
        );
    }
}

} // verus!
