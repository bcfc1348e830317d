//! Completion of a typed path: from the text of the path to the suggestions.

use vstd::prelude::*;

use crate::completions::color;
use crate::completions::escape;
use crate::completions::file;
use crate::completions::file::{Built, DirKey, DirSnapshot, Key, MatchedPart, Part, PathBuiltFromString, MAX_ENTRY_NAME, POSITION_LIMIT};
use crate::completions::matcher::MAX_FUZZY_NEEDLE;
use crate::completions::options::{CompletionOptions, MatchAlgorithm};
use crate::completions::path;
use crate::completions::path::PathStyle;
use crate::completions::span::Span;
use crate::text;
use crate::unicode;

verus! {

/// A single file/directory completion candidate produced by [`complete_item`].
pub struct FileSuggestion {
    pub span: Span,
    pub path: String,
    pub is_dir: bool,
    pub display_override: Option<String>,
    pub match_indices: Vec<usize>,
    /// The escape sequence that switches its style on.
    pub style: Option<String>,
}

/// A component of `count + 1` dots, which climbs `count` levels.
pub open spec fn dots_part(count: nat) -> Part {
    Part { text: path::dots(count + 1), indices: Seq::empty() }
}

/// `parts` behind `pending` levels of `..`, with every run of `..` collapsed
/// into one component of dots.
pub open spec fn collapsed(parts: Seq<Part>, pending: nat) -> Seq<Part>
    decreases parts.len(),
{
    let run = if pending > 0 {
        seq![dots_part(pending)]
    } else {
        Seq::empty()
    };
    if parts.len() == 0 {
        run
    } else if parts[0].text == seq!['.', '.'] {
        collapsed(parts.drop_first(), pending + 1)
    } else {
        run + seq![parts[0]] + collapsed(parts.drop_first(), 0)
    }
}

fn dots_component(count: usize) -> (r: MatchedPart)
    requires
        count < usize::MAX,
    ensures
        r.value() == dots_part(count as nat),
{
    let mut text = String::new();
    let mut k: usize = 0;
    while k < count + 1
        invariant
            count < usize::MAX,
            k <= count + 1,
            text@ == path::dots(k as nat),
        decreases count + 1 - k,
    {
        text.push('.');
        k += 1;
        assert(text@ =~= path::dots(k as nat));
    }
    let r = MatchedPart { text, match_indices: Vec::new() };
    assert(r.value().indices =~= Seq::empty());
    r
}

fn is_parent(text: &str) -> (r: bool)
    ensures
        r == (text@ == seq!['.', '.']),
{
    let v = text::chars_of(text);
    let r = v.len() == 2 && v[0] == '.' && v[1] == '.';
    assert(r ==> text@ =~= seq!['.', '.']);
    r
}

/// Collapse consecutive `..` segments back into n-dots.
pub fn collapse_ndots(path: PathBuiltFromString) -> (r: PathBuiltFromString)
    requires
        path.parts@.len() < usize::MAX,
    ensures
        r.value() == (Built { parts: collapsed(path.value().parts, 0), ..path.value() }),
{
    let ghost values = path.value().parts;
    let ghost whole = path.parts@;
    let mut out: Vec<MatchedPart> = Vec::new();
    let mut pending: usize = 0;
    let cwd = path.cwd;
    let isdir = path.isdir;
    let total: usize = path.parts.len();
    assert(values.skip(0) =~= values);
    assert(out@.map_values(|p: MatchedPart| p.value()) =~= Seq::empty());
    assert(Seq::<Part>::empty() + collapsed(values, 0) =~= collapsed(values, 0));
    for part in it: path.parts
        invariant
            it.seq() == whole,
            total == whole.len() < usize::MAX,
            values == whole.map_values(|p: MatchedPart| p.value()),
            pending <= it.index(),
            out@.map_values(|p: MatchedPart| p.value()) + collapsed(
                values.skip(it.index() as int),
                pending as nat,
            ) == collapsed(values, 0),
    {
        let ghost n = it.index() as int;
        assert(part == whole[n]);
        let ghost rest = values.skip(n);
        assert(rest[0] == part.value());
        assert(rest.drop_first() =~= values.skip(n + 1));
        let ghost start = out@.map_values(|p: MatchedPart| p.value());
        if is_parent(part.text.as_str()) {
            pending += 1;
        } else {
            if pending > 0 {
                out.push(dots_component(pending));
                assert(out@.map_values(|p: MatchedPart| p.value()) =~= start + seq![
                    dots_part(pending as nat),
                ]);
            }
            let ghost run = out@.map_values(|p: MatchedPart| p.value());
            let ghost value = part.value();
            out.push(part);
            assert(out@.map_values(|p: MatchedPart| p.value()) =~= run + seq![value]);
            assert(out@.map_values(|p: MatchedPart| p.value()) + collapsed(values.skip(n + 1), 0)
                =~= start + collapsed(rest, pending as nat));
            pending = 0;
        }
    }
    assert(values.skip(total as int) =~= Seq::empty());
    let ghost start = out@.map_values(|p: MatchedPart| p.value());
    if pending > 0 {
        out.push(dots_component(pending));
    }
    assert(out@.map_values(|p: MatchedPart| p.value()) =~= start + collapsed(
        Seq::empty(),
        pending as nat,
    ));
    PathBuiltFromString { cwd, parts: out, isdir }
}

/// Collapsing undoes n-dots expansion: the `..` components that a run of more
/// than two dots expands to collapse back into that run.
pub proof fn law_collapse_undoes_expansion(parts: Seq<Part>, n: nat)
    requires
        n > 2,
        parts.len() == n - 1,
        forall|i: int| 0 <= i < parts.len() ==> (#[trigger] parts[i]).text == seq!['.', '.'],
    ensures
        collapsed(parts, 0) == seq![Part { text: path::dots(n), indices: Seq::empty() }],
{
    lemma_collapse_run(parts, 0);
}

proof fn lemma_collapse_run(parts: Seq<Part>, pending: nat)
    requires
        parts.len() + pending > 0,
        forall|i: int| 0 <= i < parts.len() ==> (#[trigger] parts[i]).text == seq!['.', '.'],
    ensures
        collapsed(parts, pending) == seq![dots_part(parts.len() + pending)],
    decreases parts.len(),
{
    if parts.len() > 0 {
        assert forall|i: int| 0 <= i < parts.len() - 1 implies (
        #[trigger] parts.drop_first()[i]).text == seq!['.', '.'] by {
            assert(parts[i + 1].text == seq!['.', '.']);
        }
        assert(parts[0].text == seq!['.', '.']);
        lemma_collapse_run(parts.drop_first(), pending + 1);
    }
}

/// The non-empty pieces of `current + s` between separators, where `current`
/// is the piece begun so far.
pub open spec fn pieces(s: Seq<char>, style: PathStyle, current: Seq<char>) -> Seq<Seq<char>>
    decreases s.len(),
{
    let done = if current.len() > 0 {
        seq![current]
    } else {
        Seq::empty()
    };
    if s.len() == 0 {
        done
    } else if style.separates(s[0]) {
        done + pieces(s.drop_first(), style, Seq::empty())
    } else {
        pieces(s.drop_first(), style, current.push(s[0]))
    }
}

pub open spec fn texts(v: Seq<String>) -> Seq<Seq<char>> {
    v.map_values(|s: String| s@)
}

/// The non-empty pieces between separators, from position `from` on.
pub(crate) fn split_components(v: &Vec<char>, from: usize, style: PathStyle) -> (r: Vec<String>)
    requires
        from <= v@.len(),
    ensures
        texts(r@) == pieces(v@.skip(from as int), style, Seq::empty()),
        r@.len() <= v@.len() - from,
        forall|i: int| 0 <= i < r@.len() ==> (#[trigger] r@[i])@.len() <= v@.len(),
{
    let ghost all = pieces(v@.skip(from as int), style, Seq::empty());
    let mut out: Vec<String> = Vec::new();
    let mut current: String = String::new();
    let mut empty = true;
    let mut i: usize = from;
    assert(texts(out@) =~= Seq::empty());
    assert(Seq::<Seq<char>>::empty() + all =~= all);
    while i < v.len()
        invariant
            from <= i <= v@.len(),
            empty == (current@.len() == 0),
            current@.len() <= i,
            out@.len() + (if empty {
                0int
            } else {
                1int
            }) <= i - from,
            texts(out@) + pieces(v@.skip(i as int), style, current@) == all,
            forall|j: int| 0 <= j < out@.len() ==> (#[trigger] out@[j])@.len() <= v@.len(),
        decreases v@.len() - i,
    {
        let ghost rest = v@.skip(i as int);
        let ghost start = texts(out@);
        assert(rest.drop_first() =~= v@.skip(i + 1));
        if style.is_separator(v[i]) {
            if !empty {
                let mut done = String::new();
                std::mem::swap(&mut done, &mut current);
                let ghost piece = done@;
                out.push(done);
                assert(texts(out@) =~= start + seq![piece]);
                empty = true;
            }
            assert(current@ =~= Seq::empty());
            assert(texts(out@) + pieces(v@.skip(i + 1), style, current@) =~= all);
        } else {
            current.push(v[i]);
            empty = false;
        }
        i += 1;
    }
    assert(v@.skip(i as int) =~= Seq::empty());
    let ghost start = texts(out@);
    if !empty {
        let ghost piece = current@;
        out.push(current);
        assert(texts(out@) =~= start + seq![piece]);
    } else {
        assert(start + Seq::<Seq<char>>::empty() =~= start);
    }
    out
}

/// What a completed path looks like: `lead`, then the components with `sep`
/// between them, then `sep` again for a directory.
pub open spec fn rendered(lead: Seq<char>, parts: Seq<Part>, isdir: bool, sep: char) -> Seq<char> {
    lead + joined(parts, sep) + if isdir {
        seq![sep]
    } else {
        Seq::empty()
    }
}

/// The components with `sep` between them.
pub open spec fn joined(parts: Seq<Part>, sep: char) -> Seq<char>
    decreases parts.len(),
{
    if parts.len() == 0 {
        Seq::empty()
    } else if parts.len() == 1 {
        parts[0].text
    } else {
        parts[0].text + seq![sep] + joined(parts.drop_first(), sep)
    }
}

/// `n` levels of `..` in front of components, as text.
spec fn climbed(n: nat, parts: Seq<Part>, sep: char) -> Seq<char> {
    if n == 0 {
        joined(parts, sep)
    } else if parts.len() == 0 {
        path::parent_chain(n, sep)
    } else {
        path::parent_chain(n, sep) + seq![sep] + joined(parts, sep)
    }
}

proof fn lemma_climb(n: nat, parts: Seq<Part>, sep: char)
    requires
        parts.len() > 0,
        parts[0].text == seq!['.', '.'],
    ensures
        climbed(n, parts, sep) == climbed(n + 1, parts.drop_first(), sep),
{
    assert(climbed(n, parts, sep) =~= climbed(n + 1, parts.drop_first(), sep));
}

proof fn lemma_expand_collapsed(parts: Seq<Part>, pending: nat, sep: char)
    requires
        sep != '.',
        forall|i: int| 0 <= i < parts.len() ==> path::has_no_ndots((#[trigger] parts[i]).text),
    ensures
        path::expanded(joined(collapsed(parts, pending), sep), sep) == climbed(pending, parts, sep),
        parts.len() > 0 ==> collapsed(parts, pending).len() > 0,
    decreases parts.len(),
{
    if pending > 0 {
        path::lemma_expanded_dots(pending, sep);
    }
    if parts.len() > 0 {
        let rest = parts.drop_first();
        assert forall|i: int| 0 <= i < rest.len() implies path::has_no_ndots(
            (#[trigger] rest[i]).text,
        ) by {
            assert(rest[i] == parts[i + 1]);
        }
        assert(path::has_no_ndots(parts[0].text));
        if parts[0].text == seq!['.', '.'] {
            lemma_expand_collapsed(rest, pending + 1, sep);
            lemma_climb(pending, parts, sep);
            if rest.len() == 0 {
                assert(collapsed(rest, pending + 1) == seq![dots_part(pending + 1)]);
            }
        } else {
            lemma_expand_collapsed(rest, 0, sep);
            let tail = collapsed(rest, 0);
            let own = parts[0].text;
            path::lemma_nothing_to_expand(own, sep);
            let from_here = seq![parts[0]] + tail;
            assert(from_here.drop_first() =~= tail);
            assert(path::expanded(joined(from_here, sep), sep) == joined(parts, sep)) by {
                if rest.len() > 0 {
                    path::lemma_expanded_joined(own, joined(tail, sep), sep);
                } else {
                    assert(tail.len() == 0);
                }
            }
            if pending > 0 {
                let all = seq![dots_part(pending)] + seq![parts[0]] + tail;
                assert(all.drop_first() =~= from_here);
                path::lemma_expanded_joined(path::dots(pending + 1), joined(from_here, sep), sep);
            } else {
                assert(Seq::<Part>::empty() + seq![parts[0]] + tail =~= from_here);
            }
        }
    } else if pending == 0 {
        assert(joined(parts, sep) =~= Seq::empty());
    }
}

/// Expansion undoes collapsing: the joined components come back from the joined
/// collapsed ones, where no component holds n-dots itself.
pub proof fn law_expansion_undoes_collapse(parts: Seq<Part>, sep: char)
    requires
        sep != '.',
        forall|i: int| 0 <= i < parts.len() ==> path::has_no_ndots((#[trigger] parts[i]).text),
    ensures
        path::expanded(joined(collapsed(parts, 0), sep), sep) == joined(parts, sep),
{
    lemma_expand_collapsed(parts, 0, sep);
}

/// The matched positions of all components, the first of which begins at
/// `offset`. A separator takes one position.
pub open spec fn marks(parts: Seq<Part>, offset: int) -> Seq<usize>
    decreases parts.len(),
{
    if parts.len() == 0 {
        Seq::empty()
    } else {
        Seq::new(parts[0].indices.len(), |k: int| (parts[0].indices[k] + offset) as usize) + marks(
            parts.drop_first(),
            offset + unicode::graphemes(parts[0].text) + 1,
        )
    }
}

proof fn lemma_step(i: int, width: int)
    ensures
        (i + 1) * (width + 1) == i * (width + 1) + width + 1,
{
    assert((i + 1) * (width + 1) == i * (width + 1) + width + 1) by (nonlinear_arith);
}

proof fn lemma_scale(i: int, count: int, width: int)
    requires
        0 <= i <= count,
        0 <= width,
    ensures
        i * (width + 1) <= count * (width + 1),
{
    assert(i * (width + 1) <= count * (width + 1)) by (nonlinear_arith)
        requires
            0 <= i <= count,
            0 <= width,
    ;
}

/// The text and the matched positions of a completed path.
fn render(
    lead: &str,
    built: &PathBuiltFromString,
    sep: char,
    Ghost(width): Ghost<int>,
    Ghost(count): Ghost<int>,
) -> (r: (String, Vec<usize>))
    requires
        file::fits(built.value(), width, count),
        0 <= width,
        lead@.len() + count * (width + 1) + POSITION_LIMIT <= usize::MAX,
    ensures
        r.0@ == rendered(lead@, built.value().parts, built.value().isdir, sep),
        r.1@ == marks(built.value().parts, unicode::graphemes(lead@) as int),
{
    let ghost parts = built.value().parts;
    let mut text = lead.to_owned();
    let start: usize = unicode::grapheme_count(lead);
    let mut offset: usize = start;
    let mut at: Vec<usize> = Vec::new();
    let mut i: usize = 0;
    assert(parts.skip(0) =~= parts);
    assert(at@ + marks(parts, start as int) =~= marks(parts, start as int));
    while i < built.parts.len()
        invariant
            i <= built.parts@.len(),
            parts == built.value().parts,
            file::fits(built.value(), width, count),
            0 <= width,
            lead@.len() + count * (width + 1) + POSITION_LIMIT <= usize::MAX,
            start <= lead@.len(),
            start <= offset <= start + i * (width + 1),
            text@ + joined(parts.skip(i as int), sep) == lead@ + joined(parts, sep),
            at@ + marks(parts.skip(i as int), offset as int) == marks(parts, start as int),
        decreases built.parts@.len() - i,
    {
        let part = &built.parts[i];
        let ghost rest = parts.skip(i as int);
        let ghost text_before = text@;
        let ghost at_before = at@;
        proof {
            assert(rest[0] == part.value());
            assert(rest.drop_first() =~= parts.skip(i + 1));
            assert(file::part_fits(parts[i as int], width));
            lemma_step(i as int, width);
            lemma_scale(i + 1, count, width);
        }
        text.append(part.text.as_str());
        let mut k: usize = 0;
        assert(at_before + Seq::new(0, |j: int| (part.match_indices@[j] + offset) as usize)
            =~= at_before);
        while k < part.match_indices.len()
            invariant
                k <= part.match_indices@.len(),
                offset + POSITION_LIMIT <= usize::MAX,
                file::part_fits(part.value(), width),
                at@ == at_before + Seq::new(
                    k as nat,
                    |j: int| (part.match_indices@[j] + offset) as usize,
                ),
            decreases part.match_indices@.len() - k,
        {
            assert(part.value().indices[k as int] < POSITION_LIMIT);
            at.push(part.match_indices[k] + offset);
            k += 1;
            assert(at@ =~= at_before + Seq::new(
                k as nat,
                |j: int| (part.match_indices@[j] + offset) as usize,
            ));
        }
        let width_here: usize = unicode::grapheme_count(part.text.as_str());
        if i + 1 < built.parts.len() {
            text.push(sep);
            assert(text@ + joined(parts.skip(i + 1), sep) =~= text_before + joined(rest, sep));
        } else {
            assert(parts.skip(i + 1) =~= Seq::empty());
            assert(rest.len() == 1);
            assert(text@ + joined(parts.skip(i + 1), sep) =~= text_before + joined(rest, sep));
        }
        assert(at@ + marks(parts.skip(i + 1), offset + width_here + 1) =~= at_before + marks(
            rest,
            offset as int,
        ));
        offset = offset + width_here + 1;
        i += 1;
    }
    assert(parts.skip(i as int) =~= Seq::empty());
    assert(at@ + marks(Seq::empty(), offset as int) =~= at@);
    assert(text@ + joined(Seq::empty(), sep) =~= text@);
    let ghost body = text@;
    if built.isdir {
        text.push(sep);
    }
    assert(text@ =~= rendered(lead@, parts, built.isdir, sep));
    (text, at)
}

/// The first component of a path, as the platform reads it.
pub enum FirstComponent {
    /// A prefix such as `C:`.
    Prefix(String),
    /// The root directory.
    RootDir,
    /// A name.
    Normal(String),
    /// Nothing, `.` or `..`.
    Other,
}

/// Whether a prefix or name is how the path begins, and a rooted path is not
/// empty.
pub open spec fn begins(partial: Seq<char>, first: FirstComponent) -> bool {
    match first {
        FirstComponent::Prefix(s) => text::starts_with(partial, s@),
        FirstComponent::RootDir => partial.len() > 0,
        FirstComponent::Normal(s) => text::starts_with(partial, s@),
        FirstComponent::Other => true,
    }
}

/// A path up to its first separator.
pub open spec fn first_piece(partial: Seq<char>, platform: PathStyle) -> Seq<char>
    decreases partial.len(),
{
    if partial.len() == 0 || platform.separates(partial[0]) {
        Seq::empty()
    } else {
        seq![partial[0]] + first_piece(partial.drop_first(), platform)
    }
}

/// Whether a path begins with the letter of a drive and a colon.
pub open spec fn has_drive(partial: Seq<char>) -> bool {
    partial.len() >= 2 && ('a' <= partial[0] <= 'z' || 'A' <= partial[0] <= 'Z') && partial[1]
        == ':'
}

/// Whether `first` is the first component of a path by the rules of a platform.
/// A prefix is the drive, or begins with two separators; a rooted path begins
/// with a separator; a name is the path up to its first separator. Which paths
/// with two leading separators have a prefix is left open.
pub open spec fn reads_as(first: FirstComponent, partial: Seq<char>, platform: PathStyle) -> bool {
    let piece = first_piece(partial, platform);
    if platform is Windows && has_drive(partial) {
        first matches FirstComponent::Prefix(s) && s@ == partial.take(2)
    } else {
        match first {
            FirstComponent::Prefix(s) => platform is Windows && partial.len() >= 2
                && platform.separates(partial[0]) && platform.separates(partial[1])
                && text::starts_with(partial, s@),
            FirstComponent::RootDir => partial.len() > 0 && platform.separates(partial[0]),
            FirstComponent::Normal(s) => s@ == piece && piece.len() > 0 && piece != seq!['.']
                && piece != seq!['.', '.'],
            FirstComponent::Other => partial.len() == 0 || piece == seq!['.'] || piece == seq![
                '.',
                '.',
            ],
        }
    }
}

/// Whether `first` is the first component of a path on one of the platforms.
pub open spec fn is_first_component(first: FirstComponent, partial: Seq<char>) -> bool {
    reads_as(first, partial, PathStyle::Unix) || reads_as(first, partial, PathStyle::Windows)
}

/// `std::path::Path::components().next()`: the first component of `partial`,
/// by the rules of the platform that the program runs on. Repeated and trailing
/// separators are ignored, and `.` is a component at the start only. Where a
/// prefix that begins with two separators ends is not said.
#[verifier::external_body]
fn first_component(partial: &str) -> (r: FirstComponent)
    ensures
        is_first_component(r, partial@),
{
    match std::path::Path::new(partial).components().next() {
        Some(c @ std::path::Component::Prefix(_)) => {
            FirstComponent::Prefix(c.as_os_str().to_string_lossy().into_owned())
        },
        Some(std::path::Component::RootDir) => FirstComponent::RootDir,
        Some(std::path::Component::Normal(name)) => {
            FirstComponent::Normal(name.to_string_lossy().into_owned())
        },
        _ => FirstComponent::Other,
    }
}

/// The separator written between completed components: on Windows the last
/// one that was typed.
pub open spec fn separator_for(cleaned: Seq<char>, style: PathStyle) -> char
    decreases cleaned.len(),
{
    if style is Unix || cleaned.len() == 0 {
        style.main_separator_of()
    } else if style.separates(cleaned.last()) {
        cleaned.last()
    } else {
        separator_for(cleaned.drop_last(), style)
    }
}

fn pick_separator(v: &Vec<char>, style: PathStyle) -> (r: char)
    ensures
        r == separator_for(v@, style),
{
    if let PathStyle::Unix = style {
        return '/';
    }
    let mut i: usize = v.len();
    assert(v@.take(i as int) =~= v@);
    while i > 0
        invariant
            i <= v@.len(),
            style is Windows,
            separator_for(v@, style) == separator_for(v@.take(i as int), style),
        decreases i,
    {
        assert(v@.take(i as int).drop_last() =~= v@.take(i - 1));
        if style.is_separator(v[i - 1]) {
            return v[i - 1];
        }
        i -= 1;
    }
    style.main_separator()
}

/// The path that is completed for what was typed: unquoted, with n-dots
/// expanded, and with a trailing `.` component kept.
pub open spec fn path_for(partial: Seq<char>, style: PathStyle) -> Seq<char> {
    let cleaned = path::unquoted(partial, style);
    let sep = separator_for(cleaned, style);
    let whole = path::expanded(cleaned, style.main_separator_of());
    if text::ends_with(cleaned, seq![sep, '.']) {
        whole + seq![sep, '.']
    } else {
        whole
    }
}

/// Where a completion starts from: the directories to search, what is shown in
/// front of the completed components, and how much of the path that covers.
pub struct Base {
    pub cwds: Seq<Seq<char>>,
    pub lead: Seq<char>,
    pub covered: int,
}

pub open spec fn optional_text(s: Option<&str>) -> Option<Seq<char>> {
    match s {
        Some(s) => Some(s@),
        None => None,
    }
}

/// The base of a path that begins with `~`.
pub open spec fn home_base(cwds: Seq<Seq<char>>, home: Option<Seq<char>>, sep: char) -> Base {
    Base {
        cwds: match home {
            Some(h) => seq![h],
            None => cwds,
        },
        lead: seq!['~', sep],
        covered: 1,
    }
}

pub open spec fn base_for(
    first: FirstComponent,
    cwds: Seq<Seq<char>>,
    home: Option<Seq<char>>,
    sep: char,
    style: PathStyle,
) -> Base {
    match first {
        FirstComponent::Prefix(s) => Base {
            cwds: seq![s@.push(style.main_separator_of())],
            lead: s@.push(sep),
            covered: s@.len() as int,
        },
        FirstComponent::RootDir => Base {
            cwds: seq![seq![style.main_separator_of()]],
            lead: seq![sep],
            covered: 1,
        },
        FirstComponent::Normal(s) => if s@ == seq!['~'] {
            home_base(cwds, home, sep)
        } else {
            Base { cwds, lead: Seq::empty(), covered: 0 }
        },
        FirstComponent::Other => Base { cwds, lead: Seq::empty(), covered: 0 },
    }
}

pub open spec fn is_slash(c: char) -> bool {
    c == '/' || c == '\\'
}

/// Whether a path begins at the root on every platform.
pub open spec fn at_root(path: Seq<char>) -> bool {
    path.len() > 0 && path[0] == '/' && (path.len() == 1 || !is_slash(path[1]))
}

/// Whether a path begins at the home directory on every platform.
pub open spec fn at_home(path: Seq<char>) -> bool {
    path.len() > 0 && path[0] == '~' && (path.len() == 1 || path[1] == '/')
}

/// Whether a path is relative on every platform: it has no separator, no drive
/// and no `~` in front.
pub open spec fn is_relative(path: Seq<char>) -> bool {
    path.len() == 0 || (!is_slash(path[0]) && !has_drive(path) && !(path[0] == '~' && (path.len()
        == 1 || is_slash(path[1]))))
}

/// A path without components, in the directory `cwd`.
pub open spec fn bare(cwd: Seq<char>) -> Built {
    Built { cwd, parts: Seq::empty(), isdir: false }
}

/// What a completion asks for.
pub struct ItemRequest {
    pub want_directory: bool,
    pub span: Span,
    pub partial: Seq<char>,
    pub cwds: Seq<Seq<char>>,
    pub options: CompletionOptions,
    pub style: PathStyle,
    pub home: Option<Seq<char>>,
    /// The value of `LS_COLORS`, if any, where styles are wanted.
    pub colors: Option<Option<Seq<char>>>,
}

impl ItemRequest {
    /// The typed path without quotes.
    pub open spec fn cleaned(self) -> Seq<char> {
        path::unquoted(self.partial, self.style)
    }

    pub open spec fn separator(self) -> char {
        separator_for(self.cleaned(), self.style)
    }

    /// Whether the typed path ends with a separator.
    pub open spec fn isdir(self) -> bool {
        self.cleaned().len() > 0 && self.style.separates(self.cleaned().last())
    }

    pub open spec fn base(self, first: FirstComponent) -> Base {
        base_for(first, self.cwds, self.home, self.separator(), self.style)
    }

    /// Where the completion starts from, as far as that is the same on every
    /// platform.
    pub open spec fn fixed_base(self) -> Option<Base> {
        let path = path_for(self.partial, self.style);
        if at_root(path) {
            Some(self.base(FirstComponent::RootDir))
        } else if at_home(path) {
            Some(home_base(self.cwds, self.home, self.separator()))
        } else if is_relative(path) {
            Some(self.base(FirstComponent::Other))
        } else {
            None
        }
    }

    /// The completed paths, or the directory to read next.
    pub open spec fn outcome(self, base: Base, dirs: DirSnapshot) -> Result<Seq<Built>, Key> {
        file::walk(
            file::request_of(self.options, self.want_directory, self.isdir()),
            pieces(
                path_for(self.partial, self.style).skip(base.covered),
                self.style,
                Seq::empty(),
            ),
            base.cwds.map_values(|cwd: Seq<char>| bare(cwd)),
            self.options.match_algorithm is Prefix,
            dirs,
        )
    }

    /// A completed path as it is shown: where n-dots were expanded, they are
    /// collapsed again.
    pub open spec fn shown_parts(self, built: Built) -> Seq<Part> {
        if path::expanded(self.cleaned(), self.style.main_separator_of()) != self.cleaned() {
            collapsed(built.parts, 0)
        } else {
            built.parts
        }
    }

    /// Whether `style` is that of a completed path, which goes by its last
    /// component.
    pub open spec fn is_styled(self, style: Option<String>, parts: Seq<Part>) -> bool {
        match self.colors {
            None => style is None,
            Some(env) => parts.len() > 0 && color::is_name(parts.last().text)
                ==> color::optional_text(style) == color::ls_style(env, parts.last().text),
        }
    }

    /// Whether `s` is the suggestion for a completed path.
    pub open spec fn is_suggestion(self, s: FileSuggestion, built: Built, base: Base) -> bool {
        let shown = rendered(base.lead, self.shown_parts(built), built.isdir, self.separator());
        &&& s.span == self.span
        &&& s.is_dir == built.isdir
        &&& self.is_styled(s.style, self.shown_parts(built))
        &&& s.match_indices@ == marks(
            self.shown_parts(built),
            unicode::graphemes(base.lead) as int,
        )
        &&& match escape::escaped(shown, self.home) {
            Some(quoted) => s.path@ == quoted && (s.display_override matches Some(d) && d@ == shown),
            None => s.path@ == shown && s.display_override is None,
        }
    }

    /// Whether `r` is what the completion gives from a base.
    pub open spec fn is_answer(
        self,
        r: Result<Vec<FileSuggestion>, DirKey>,
        base: Base,
        dirs: DirSnapshot,
    ) -> bool {
        match (r, self.outcome(base, dirs)) {
            (Ok(v), Ok(found)) => v@.len() == found.len() && forall|i: int|
                0 <= i < found.len() ==> self.is_suggestion(#[trigger] v@[i], found[i], base),
            (Err(key), Err(missing)) => key.value() == missing,
            _ => false,
        }
    }

    /// Whether `r` is what the completion gives: from the one base of the path,
    /// or where the platform decides, from the base that its first component has
    /// there.
    pub open spec fn is_answered(
        self,
        r: Result<Vec<FileSuggestion>, DirKey>,
        dirs: DirSnapshot,
    ) -> bool {
        match self.fixed_base() {
            Some(base) => self.is_answer(r, base, dirs),
            None => exists|first: FirstComponent| #[trigger]
                is_first_component(first, path_for(self.partial, self.style)) && self.is_answer(
                    r,
                    self.base(first),
                    dirs,
                ),
        }
    }

    /// The typed path is short enough for positions to fit in memory and, where
    /// the matching is fuzzy, each of its components is short enough to be scored.
    pub open spec fn wf(self) -> bool {
        let path = path_for(self.partial, self.style);
        &&& (path.len() + 4) * (path.len() + 262144) <= usize::MAX
        &&& self.options.match_algorithm is Fuzzy ==> all_short(
            pieces(path, self.style, Seq::empty()),
        )
    }
}

/// Whether every component is short enough to be scored.
pub open spec fn all_short(components: Seq<Seq<char>>) -> bool {
    forall|i: int| 0 <= i < components.len() ==> (#[trigger] components[i]).len() <= MAX_FUZZY_NEEDLE
}

/// With less begun, no piece gets longer.
proof fn lemma_pieces_short(s: Seq<char>, style: PathStyle, a: Seq<char>, b: Seq<char>)
    requires
        all_short(pieces(s, style, a)),
        b.len() <= a.len(),
    ensures
        all_short(pieces(s, style, b)),
    decreases s.len(),
{
    let of_a = pieces(s, style, a);
    let of_b = pieces(s, style, b);
    if s.len() > 0 && !style.separates(s[0]) {
        lemma_pieces_short(s.drop_first(), style, a.push(s[0]), b.push(s[0]));
    } else {
        let tail = if s.len() == 0 {
            Seq::empty()
        } else {
            pieces(s.drop_first(), style, Seq::empty())
        };
        let shift = if a.len() > 0 {
            1int
        } else {
            0
        };
        assert forall|i: int| 0 <= i < tail.len() implies (#[trigger] tail[i]).len()
            <= MAX_FUZZY_NEEDLE by {
            assert(of_a[i + shift] == tail[i]);
        }
        if b.len() > 0 {
            assert(of_a[0] == a);
        }
        assert forall|i: int| 0 <= i < of_b.len() implies (#[trigger] of_b[i]).len()
            <= MAX_FUZZY_NEEDLE by {
            if b.len() > 0 && i > 0 {
                assert(of_b[i] == tail[i - 1]);
            } else if b.len() == 0 {
                assert(of_b[i] == tail[i]);
            }
        }
    }
}

/// The components of the end of a path are no longer than those of the path.
proof fn lemma_skipped_pieces_short(s: Seq<char>, style: PathStyle, n: int)
    requires
        all_short(pieces(s, style, Seq::empty())),
        0 <= n <= s.len(),
    ensures
        all_short(pieces(s.skip(n), style, Seq::empty())),
    decreases n,
{
    if n == 0 {
        assert(s.skip(0) =~= s);
    } else {
        let rest = s.drop_first();
        assert(all_short(pieces(rest, style, Seq::empty()))) by {
            if style.separates(s[0]) {
                assert(Seq::<Seq<char>>::empty() + pieces(rest, style, Seq::empty()) =~= pieces(
                    rest,
                    style,
                    Seq::empty(),
                ));
            } else {
                lemma_pieces_short(rest, style, Seq::empty().push(s[0]), Seq::empty());
            }
        }
        lemma_skipped_pieces_short(rest, style, n - 1);
        assert(rest.skip(n - 1) =~= s.skip(n));
    }
}

proof fn lemma_collapse_fits(parts: Seq<Part>, pending: nat, width: int, most: int)
    requires
        forall|i: int| 0 <= i < parts.len() ==> file::part_fits(#[trigger] parts[i], width),
        parts.len() + pending + 1 <= most,
        most <= width,
    ensures
        collapsed(parts, pending).len() <= parts.len() + (if pending > 0 {
            1int
        } else {
            0int
        }),
        forall|i: int|
            0 <= i < collapsed(parts, pending).len() ==> file::part_fits(
                #[trigger] collapsed(parts, pending)[i],
                width,
            ),
    decreases parts.len(),
{
    let out = collapsed(parts, pending);
    assert(file::part_fits(dots_part(pending), width));
    if parts.len() > 0 {
        let rest = parts.drop_first();
        assert forall|i: int| 0 <= i < rest.len() implies file::part_fits(
            #[trigger] rest[i],
            width,
        ) by {
            assert(rest[i] == parts[i + 1]);
        }
        if parts[0].text == seq!['.', '.'] {
            lemma_collapse_fits(rest, pending + 1, width, most);
        } else {
            lemma_collapse_fits(rest, 0, width, most);
            let run = if pending > 0 {
                seq![dots_part(pending)]
            } else {
                Seq::<Part>::empty()
            };
            let tail = collapsed(rest, 0);
            assert(out == run + seq![parts[0]] + tail);
            assert forall|i: int| 0 <= i < out.len() implies file::part_fits(
                #[trigger] out[i],
                width,
            ) by {
                if i < run.len() {
                    assert(out[i] == dots_part(pending));
                } else if i == run.len() {
                    assert(out[i] == parts[0]);
                } else {
                    assert(out[i] == tail[i - run.len() - 1]);
                }
            }
        }
    }
}

proof fn lemma_room(len: int, count: int, width: int, lead: int)
    requires
        0 <= len,
        0 <= count <= len + 1,
        0 <= width <= len + 65537,
        0 <= lead <= len + 2,
        (len + 4) * (len + 262144) <= usize::MAX,
    ensures
        lead + count * (width + 1) + POSITION_LIMIT <= usize::MAX,
        len + 4 <= usize::MAX,
{
    assert(len + 4 <= (len + 4) * (len + 262144)) by (nonlinear_arith)
        requires
            0 <= len,
    ;
    assert(count * (width + 1) <= (len + 1) * (len + 65538)) by (nonlinear_arith)
        requires
            0 <= count <= len + 1,
            0 <= width <= len + 65537,
            0 <= len,
    ;
    assert((len + 1) * (len + 65538) + len + 2 + 196605 <= (len + 4) * (len + 262144))
        by (nonlinear_arith)
        requires
            0 <= len,
    ;
}

/// The path that is completed for what was typed.
fn path_text(cleaned: &str, style: PathStyle, sep: char) -> (r: String)
    requires
        sep == separator_for(cleaned@, style),
    ensures
        r@ == (if text::ends_with(cleaned@, seq![sep, '.']) {
            path::expanded(cleaned@, style.main_separator_of()) + seq![sep, '.']
        } else {
            path::expanded(cleaned@, style.main_separator_of())
        }),
{
    let v = text::chars_of(cleaned);
    let mut whole = path::expand_ndots(cleaned, style.main_separator());
    let n: usize = v.len();
    let ghost tail = cleaned@.subrange(n - 2, n as int);
    assert(n >= 2 && v@[n - 2] == sep && v@[n - 1] == '.' ==> tail =~= seq![sep, '.']);
    assert(n >= 2 && tail == seq![sep, '.'] ==> tail[0] == sep && tail[1] == '.');
    if n >= 2 && v[n - 2] == sep && v[n - 1] == '.' {
        let ghost before = whole@;
        whole.push(sep);
        whole.push('.');
        assert(whole@ =~= before + seq![sep, '.']);
    }
    whole
}

/// The directories to search and what is shown in front.
fn find_base(
    first: FirstComponent,
    cwds: &Vec<String>,
    home: Option<&str>,
    sep: char,
    style: PathStyle,
) -> (r: (Vec<PathBuiltFromString>, String, usize))
    ensures
        ({
            let base = base_for(first, texts(cwds@), optional_text(home), sep, style);
            &&& file::built_values(r.0@) == base.cwds.map_values(|cwd: Seq<char>| bare(cwd))
            &&& r.1@ == base.lead
            &&& r.2 == base.covered
        }),
        forall|i: int| 0 <= i < r.0@.len() ==> (#[trigger] r.0@[i]).value().parts.len() == 0,
{
    let ghost base = base_for(first, texts(cwds@), optional_text(home), sep, style);
    let mut dirs: Vec<String> = Vec::new();
    let mut lead = String::new();
    let mut covered: usize = 0;
    let mut replaced = false;
    match first {
        FirstComponent::Prefix(s) => {
            covered = text::chars_of(s.as_str()).len();
            lead = s.clone();
            lead.push(sep);
            let mut dir = s;
            dir.push(style.main_separator());
            dirs.push(dir);
            replaced = true;
            assert(texts(dirs@) =~= base.cwds);
        },
        FirstComponent::RootDir => {
            lead.push(sep);
            assert(lead@ =~= seq![sep]);
            covered = 1;
            let mut dir = String::new();
            dir.push(style.main_separator());
            assert(dir@ =~= seq![style.main_separator_of()]);
            dirs.push(dir);
            replaced = true;
            assert(texts(dirs@) =~= base.cwds);
        },
        FirstComponent::Normal(s) => {
            let v = text::chars_of(s.as_str());
            let tilde = v.len() == 1 && v[0] == '~';
            assert(tilde ==> s@ =~= seq!['~']);
            if tilde {
                lead.push('~');
                lead.push(sep);
                assert(lead@ =~= seq!['~', sep]);
                covered = 1;
                if let Some(h) = home {
                    dirs.push(h.to_owned());
                    replaced = true;
                    assert(texts(dirs@) =~= base.cwds);
                }
            }
        },
        FirstComponent::Other => {},
    }
    let source: &Vec<String> = if replaced {
        &dirs
    } else {
        cwds
    };
    assert(texts(source@) == base.cwds);
    let mut paths: Vec<PathBuiltFromString> = Vec::new();
    let mut i: usize = 0;
    while i < source.len()
        invariant
            i <= source@.len(),
            paths@.len() == i,
            forall|j: int|
                0 <= j < i ==> (#[trigger] paths@[j]).value() == bare(source@[j]@),
        decreases source@.len() - i,
    {
        let one = PathBuiltFromString { cwd: source[i].clone(), parts: Vec::new(), isdir: false };
        assert(one.value().parts =~= Seq::empty());
        paths.push(one);
        i += 1;
    }
    assert(file::built_values(paths@) =~= base.cwds.map_values(|cwd: Seq<char>| bare(cwd)));
    (paths, lead, covered)
}

/// The completion request that the arguments make up.
pub open spec fn item_request(
    want_directory: bool,
    span: Span,
    partial: &str,
    cwds: &Vec<String>,
    options: &CompletionOptions,
    use_ls_colors: bool,
    ls_colors_env: Option<&str>,
    style: PathStyle,
    home: Option<&str>,
) -> ItemRequest {
    ItemRequest {
        want_directory,
        span,
        partial: partial@,
        cwds: texts(cwds@),
        options: *options,
        style,
        home: optional_text(home),
        colors: if use_ls_colors {
            Some(optional_text(ls_colors_env))
        } else {
            None
        },
    }
}

/// Completes `partial`, whose first component is `first`.
pub fn complete_item_from(
    want_directory: bool,
    span: Span,
    partial: &str,
    cwds: &Vec<String>,
    options: &CompletionOptions,
    use_ls_colors: bool,
    ls_colors_env: Option<&str>,
    style: PathStyle,
    home: Option<&str>,
    first: FirstComponent,
    dirs: &DirSnapshot,
) -> (r: Result<Vec<FileSuggestion>, DirKey>)
    requires
        item_request(
            want_directory,
            span,
            partial,
            cwds,
            options,
            use_ls_colors,
            ls_colors_env,
            style,
            home,
        ).wf(),
        begins(path_for(partial@, style), first),
        dirs.wf(*options),
    ensures
        item_request(
            want_directory,
            span,
            partial,
            cwds,
            options,
            use_ls_colors,
            ls_colors_env,
            style,
            home,
        ).is_answer(
            r,
            item_request(
            want_directory,
            span,
            partial,
            cwds,
            options,
            use_ls_colors,
            ls_colors_env,
            style,
            home,
        ).base(first),
            *dirs,
        ),
{
    let ghost request = item_request(
            want_directory,
            span,
            partial,
            cwds,
            options,
            use_ls_colors,
            ls_colors_env,
            style,
            home,
        );
    let ghost base = request.base(first);
    let ghost len = path_for(partial@, style).len() as int;
    let cleaned = path::surround_remove(partial, style);
    let cleaned_chars = text::chars_of(cleaned.as_str());
    let sep = pick_separator(&cleaned_chars, style);
    let isdir = cleaned_chars.len() > 0 && style.is_separator(
        cleaned_chars[cleaned_chars.len() - 1],
    );
    let expanded = path::expand_ndots(cleaned.as_str(), style.main_separator());
    let collapse = !text::str_eq(expanded.as_str(), cleaned.as_str());
    let whole = path_text(cleaned.as_str(), style, sep);
    let whole_chars = text::chars_of(whole.as_str());
    assert(whole@ == path_for(partial@, style));
    let (paths, lead, covered) = find_base(first, cwds, home, sep, style);
    assert(covered <= whole@.len() && lead@.len() <= len + 2);
    let components = split_components(&whole_chars, covered, style);
    proof {
        if options.match_algorithm is Fuzzy {
            lemma_skipped_pieces_short(whole@, style, covered as int);
            assert forall|i: int| 0 <= i < components@.len() implies (#[trigger] components@[i])@.len()
                <= MAX_FUZZY_NEEDLE by {
                assert(texts(components@)[i] == components@[i]@);
            }
        }
    }
    assert(file::components_from(components@, 0) =~= texts(components@)) by {
        assert(components@.skip(0) =~= components@);
    }
    let ghost width: int = if len > MAX_ENTRY_NAME {
        len
    } else {
        MAX_ENTRY_NAME as int
    };
    let exact = match options.match_algorithm {
        MatchAlgorithm::Prefix => true,
        _ => false,
    };
    let found = match file::complete_rec(
        &components,
        0,
        &paths,
        options,
        want_directory,
        isdir,
        exact,
        dirs,
        Ghost(width),
        Ghost(0),
    ) {
        Ok(found) => found,
        Err(key) => {
            return Err(key);
        },
    };
    let ghost outcome = file::built_values(found@);
    let ghost all = found@;
    let ghost count = components@.len() + 1;
    let ghost wide = width + 2;
    proof {
        lemma_room(len, count as int, wide, lead@.len() as int);
    }
    let mut out: Vec<FileSuggestion> = Vec::new();
    for built in it: found
        invariant
            it.seq() == all,
            outcome == file::built_values(all),
            request == item_request(
            want_directory,
            span,
            partial,
            cwds,
            options,
            use_ls_colors,
            ls_colors_env,
            style,
            home,
        ),
            base == request.base(first),
            cleaned@ == request.cleaned(),
            sep == request.separator(),
            lead@ == base.lead,
            collapse == (path::expanded(cleaned@, style.main_separator_of()) != cleaned@),
            file::all_fit(all, width, count as int),
            count == components@.len() + 1,
            count <= len + 1,
            width >= len,
            width >= MAX_ENTRY_NAME,
            wide == width + 2,
            components@.len() < usize::MAX - 1,
            lead@.len() + count * (wide + 1) + POSITION_LIMIT <= usize::MAX,
            out@.len() == it.index(),
            forall|i: int|
                0 <= i < out@.len() ==> request.is_suggestion(#[trigger] out@[i], outcome[i], base),
    {
        let ghost n = it.index() as int;
        assert(built == all[n]);
        assert(file::fits(all[n].value(), width, count as int));
        let ghost value = built.value();
        assert(outcome[n] == value);
        let is_dir = built.isdir;
        proof {
            lemma_collapse_fits(value.parts, 0, wide, (count + 1) as int);
        }
        let shown = if collapse {
            collapse_ndots(built)
        } else {
            built
        };
        assert(shown.value().parts == request.shown_parts(value));
        assert(shown.value().isdir == is_dir);
        assert(file::fits(shown.value(), wide, count as int));
        let (text, match_indices) = render(
            lead.as_str(),
            &shown,
            sep,
            Ghost(wide),
            Ghost(count as int),
        );
        let file_style = if use_ls_colors {
            let last: &str = if shown.parts.len() > 0 {
                shown.parts[shown.parts.len() - 1].text.as_str()
            } else {
                ""
            };
            assert(shown.parts@.len() > 0 ==> last@ == shown.value().parts.last().text);
            color::style_for_name(ls_colors_env, last)
        } else {
            None
        };
        let suggestion = match escape::escape_path(text.as_str(), home) {
            Some(quoted) => FileSuggestion {
                span,
                path: quoted,
                is_dir,
                display_override: Some(text),
                match_indices,
                style: file_style,
            },
            None => FileSuggestion {
                span,
                path: text,
                is_dir,
                display_override: None,
                match_indices,
                style: file_style,
            },
        };
        assert(request.is_suggestion(suggestion, value, base));
        out.push(suggestion);
    }
    Ok(out)
}

proof fn lemma_first_piece(partial: Seq<char>, platform: PathStyle)
    ensures
        text::starts_with(partial, first_piece(partial, platform)),
        first_piece(partial, platform) == seq!['~'] ==> partial.len() > 0 && partial[0] == '~' && (
        partial.len() == 1 || platform.separates(partial[1])),
        partial.len() > 0 && partial[0] == '~' && (partial.len() == 1 || platform.separates(
            partial[1],
        )) ==> first_piece(partial, platform) == seq!['~'],
    decreases partial.len(),
{
    let piece = first_piece(partial, platform);
    if partial.len() > 0 && !platform.separates(partial[0]) {
        let rest = partial.drop_first();
        lemma_first_piece(rest, platform);
        let tail = first_piece(rest, platform);
        assert(piece == seq![partial[0]] + tail);
        assert(piece[0] == partial[0]);
        assert(partial.subrange(0, piece.len() as int) =~= piece) by {
            assert forall|i: int| 0 <= i < piece.len() implies partial[i] == piece[i] by {
                if i > 0 {
                    assert(rest.subrange(0, tail.len() as int)[i - 1] == tail[i - 1]);
                }
            }
        }
        if piece == seq!['~'] {
            assert(tail.len() == 0);
            if rest.len() > 0 && !platform.separates(rest[0]) {
                assert(tail.len() > 0);
            }
        }
        if partial[0] == '~' && (partial.len() == 1 || platform.separates(partial[1])) {
            assert(tail =~= Seq::empty());
            assert(piece =~= seq!['~']);
        }
    } else {
        assert(partial.subrange(0, 0) =~= Seq::empty());
    }
}

proof fn lemma_first_component(first: FirstComponent, partial: Seq<char>)
    requires
        is_first_component(first, partial),
    ensures
        begins(partial, first),
{
    lemma_first_piece(partial, PathStyle::Unix);
    lemma_first_piece(partial, PathStyle::Windows);
    if partial.len() >= 2 {
        assert(partial.take(2) =~= partial.subrange(0, 2));
    }
}

/// Where the base is fixed, every first component of the path has it.
proof fn lemma_base(request: ItemRequest, first: FirstComponent)
    requires
        is_first_component(first, path_for(request.partial, request.style)),
    ensures
        request.fixed_base() matches Some(base) ==> request.base(first) == base,
{
    let path = path_for(request.partial, request.style);
    lemma_first_piece(path, PathStyle::Unix);
    lemma_first_piece(path, PathStyle::Windows);
    if path.len() > 0 && (path[0] == '~' || path[0] == '/') {
        assert(seq!['~'] != seq!['.']) by {
            assert(seq!['~'][0] != seq!['.'][0]);
        }
        assert(seq!['~'].len() != seq!['.', '.'].len());
        assert(first_piece(path, PathStyle::Unix).len() == 0 ==> path[0] == '/');
    }
}

/// Complete files / directories.
///
/// * `want_directory`: only return directories if `true`.
/// * `span`: span of the partial in the input.
/// * `partial`: the partial path the user typed.
/// * `cwds`: one or more directories to search from.
/// * `options`: matching configuration.
/// * `use_ls_colors`: whether to compute styles from `LS_COLORS`.
/// * `ls_colors_env`: the value of `LS_COLORS`, where it is set.
/// * `style`: how paths are written.
/// * `home`: the home directory, where it is known.
/// * `dirs`: the directories that were read so far.
///
/// Returns the directory to read next where it is not among `dirs` yet.
pub fn complete_item(
    want_directory: bool,
    span: Span,
    partial: &str,
    cwds: &Vec<String>,
    options: &CompletionOptions,
    use_ls_colors: bool,
    ls_colors_env: Option<&str>,
    style: PathStyle,
    home: Option<&str>,
    dirs: &DirSnapshot,
) -> (r: Result<Vec<FileSuggestion>, DirKey>)
    requires
        item_request(
            want_directory,
            span,
            partial,
            cwds,
            options,
            use_ls_colors,
            ls_colors_env,
            style,
            home,
        ).wf(),
        dirs.wf(*options),
    ensures
        item_request(
            want_directory,
            span,
            partial,
            cwds,
            options,
            use_ls_colors,
            ls_colors_env,
            style,
            home,
        ).is_answered(
            r,
            *dirs,
        ),
        is_relative(path_for(partial@, style)) && cwds@.len() == 0 ==> (r matches Ok(v)
            && v@.len() == 0),
{
    let ghost request = item_request(
            want_directory,
            span,
            partial,
            cwds,
            options,
            use_ls_colors,
            ls_colors_env,
            style,
            home,
        );
    let cleaned = path::surround_remove(partial, style);
    let sep = pick_separator(&text::chars_of(cleaned.as_str()), style);
    let whole = path_text(cleaned.as_str(), style, sep);
    let first = first_component(whole.as_str());
    proof {
        lemma_first_component(first, whole@);
        lemma_base(request, first);
        assert(is_first_component(first, path_for(request.partial, request.style)));
        if is_relative(whole@) && cwds@.len() == 0 {
            let base = request.base(FirstComponent::Other);
            assert(base.cwds.map_values(|cwd: Seq<char>| bare(cwd)) =~= Seq::empty());
            file::lemma_walk_from_nowhere(
                file::request_of(*options, want_directory, request.isdir()),
                pieces(whole@.skip(base.covered), style, Seq::empty()),
                options.match_algorithm is Prefix,
                *dirs,
            );
        }
    }
    complete_item_from(
        want_directory,
        span,
        partial,
        cwds,
        options,
        use_ls_colors,
        ls_colors_env,
        style,
        home,
        first,
        dirs,
    )
}

} // verus!
