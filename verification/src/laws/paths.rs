//! How typed paths are read, and completed paths are written.

use vstd::prelude::*;

use crate::completions::escape;
use crate::completions::file;
use crate::completions::file::{Built, DirSnapshot, Part};
use crate::completions::item;
use crate::completions::item::{Base, ItemRequest};
use crate::completions::path;
use crate::completions::path::PathStyle;
use crate::laws::words;
use crate::unicode;

verus! {

/// A slash separates everywhere, a backslash on Windows alone, and nothing else
/// does; the separator that is written is the one that the platform prefers.
pub proof fn law_separators(style: PathStyle, c: char)
    ensures
        style.separates('/'),
        style.separates('\\') <==> style is Windows,
        c != '/' && c != '\\' ==> !style.separates(c),
        style.main_separator_of() == if style is Windows {
            '\\'
        } else {
            '/'
        },
{
}

/// Whether a text holds no separator.
pub open spec fn is_whole(s: Seq<char>, style: PathStyle) -> bool {
    forall|i: int| 0 <= i < s.len() ==> !style.separates(#[trigger] s[i])
}

/// The components of a path are what stands between its separators. Separators in
/// a row, at the start or at the end add none.
pub proof fn law_components_stand_between_separators(
    a: Seq<char>,
    sep: char,
    b: Seq<char>,
    style: PathStyle,
)
    requires
        style.separates(sep),
    ensures
        item::pieces(a + seq![sep] + b, style, Seq::empty()) == item::pieces(
            a,
            style,
            Seq::empty(),
        ) + item::pieces(b, style, Seq::empty()),
        a.len() > 0 && is_whole(a, style) ==> item::pieces(a, style, Seq::empty()) == seq![a],
        item::pieces(Seq::empty(), style, Seq::empty()) == Seq::<Seq<char>>::empty(),
{
    lemma_pieces_concat(a, sep, b, style, Seq::empty());
    if a.len() > 0 && is_whole(a, style) {
        lemma_pieces_whole(a, style, Seq::empty());
        assert(Seq::<char>::empty() + a =~= a);
    }
}

proof fn lemma_pieces_concat(
    a: Seq<char>,
    sep: char,
    b: Seq<char>,
    style: PathStyle,
    current: Seq<char>,
)
    requires
        style.separates(sep),
    ensures
        item::pieces(a + seq![sep] + b, style, current) == item::pieces(a, style, current)
            + item::pieces(b, style, Seq::empty()),
    decreases a.len(),
{
    let s = a + seq![sep] + b;
    if a.len() == 0 {
        assert(s.drop_first() =~= b);
    } else {
        assert(s.drop_first() =~= a.drop_first() + seq![sep] + b);
        if style.separates(a[0]) {
            lemma_pieces_concat(a.drop_first(), sep, b, style, Seq::empty());
            let done = if current.len() > 0 {
                seq![current]
            } else {
                Seq::empty()
            };
            let x = item::pieces(a.drop_first(), style, Seq::empty());
            let y = item::pieces(b, style, Seq::empty());
            assert(done + (x + y) =~= done + x + y);
        } else {
            lemma_pieces_concat(a.drop_first(), sep, b, style, current.push(a[0]));
        }
    }
}

proof fn lemma_pieces_whole(a: Seq<char>, style: PathStyle, current: Seq<char>)
    requires
        is_whole(a, style),
        a.len() + current.len() > 0,
    ensures
        item::pieces(a, style, current) == seq![current + a],
    decreases a.len(),
{
    if a.len() == 0 {
        assert(current + a =~= current);
    } else {
        assert(!style.separates(a[0]));
        assert forall|i: int| 0 <= i < a.len() - 1 implies !style.separates(
            #[trigger] a.drop_first()[i],
        ) by {
            assert(!style.separates(a[i + 1]));
        }
        lemma_pieces_whole(a.drop_first(), style, current.push(a[0]));
        assert(current.push(a[0]) + a.drop_first() =~= current + a);
    }
}

/// `n` times the parent directory.
pub open spec fn parents(n: nat) -> Seq<Seq<char>> {
    Seq::new(n, |i: int| seq!['.', '.'])
}

/// More than two dots in a row climb one level less than there are dots; fewer dots
/// and everything between the runs of dots stay as they are.
pub proof fn law_dots_climb(a: Seq<char>, c: char, b: Seq<char>, n: nat, sep: char)
    requires
        c != '.',
    ensures
        path::expanded(Seq::new(n, |i: int| '.'), sep) == if n > 2 {
            words::joined(parents((n - 1) as nat), sep)
        } else {
            Seq::new(n, |i: int| '.')
        },
        path::expanded(a + seq![c] + b, sep) == path::expanded(a, sep) + seq![c] + path::expanded(
            b,
            sep,
        ),
{
    let d = Seq::new(n, |i: int| '.');
    if n > 0 {
        lemma_all_dots(d);
        assert(d.skip(n as int) =~= Seq::empty());
        assert(path::expanded(Seq::empty(), sep) =~= Seq::empty());
        assert(path::expand_run(n, sep) + Seq::empty() =~= path::expand_run(n, sep));
        assert(path::dots(n) =~= d);
        if n > 2 {
            lemma_chain((n - 1) as nat, sep);
        }
    } else {
        assert(d =~= Seq::empty());
    }
    lemma_expanded_around(a, c, b, sep);
}

proof fn lemma_all_dots(d: Seq<char>)
    requires
        forall|i: int| 0 <= i < d.len() ==> d[i] == '.',
    ensures
        path::leading_dots(d) == d.len(),
    decreases d.len(),
{
    if d.len() > 0 {
        lemma_all_dots(d.drop_first());
    }
}

proof fn lemma_joined_push(parts: Seq<Seq<char>>, last: Seq<char>, sep: char)
    requires
        parts.len() > 0,
    ensures
        words::joined(parts.push(last), sep) == words::joined(parts, sep) + seq![sep] + last,
    decreases parts.len(),
{
    let all = parts.push(last);
    assert(all.drop_first() =~= parts.drop_first().push(last));
    if parts.len() == 1 {
        assert(parts.drop_first() =~= Seq::empty());
        assert(all.drop_first() =~= seq![last]);
        assert(words::joined(seq![last], sep) == last);
    } else {
        lemma_joined_push(parts.drop_first(), last, sep);
        assert(words::joined(all, sep) =~= words::joined(parts, sep) + seq![sep] + last);
    }
}

proof fn lemma_chain(n: nat, sep: char)
    requires
        n > 0,
    ensures
        path::parent_chain(n, sep) == words::joined(parents(n), sep),
    decreases n,
{
    if n > 1 {
        let before = parents((n - 1) as nat);
        lemma_chain((n - 1) as nat, sep);
        assert(parents(n) =~= before.push(seq!['.', '.']));
        lemma_joined_push(before, seq!['.', '.'], sep);
        assert(path::parent_chain(n, sep) =~= words::joined(before, sep) + seq![sep] + seq![
            '.',
            '.',
        ]);
    }
}

proof fn lemma_leading(s: Seq<char>, n: int)
    requires
        0 <= n <= s.len(),
        forall|i: int| 0 <= i < n ==> s[i] == '.',
        n == s.len() || s[n] != '.',
    ensures
        path::leading_dots(s) == n,
    decreases n,
{
    if n > 0 {
        lemma_leading(s.drop_first(), n - 1);
    }
}

proof fn lemma_dots_in_front(s: Seq<char>)
    ensures
        path::leading_dots(s) <= s.len(),
        forall|i: int| 0 <= i < path::leading_dots(s) ==> s[i] == '.',
        path::leading_dots(s) == s.len() || s[path::leading_dots(s) as int] != '.',
    decreases s.len(),
{
    if s.len() > 0 && s[0] == '.' {
        let rest = s.drop_first();
        lemma_dots_in_front(rest);
        assert forall|i: int| 0 <= i < path::leading_dots(s) implies s[i] == '.' by {
            if i > 0 {
                assert(rest[i - 1] == s[i]);
            }
        }
    }
}

proof fn lemma_expanded_around(a: Seq<char>, c: char, b: Seq<char>, sep: char)
    requires
        c != '.',
    ensures
        path::expanded(a + seq![c] + b, sep) == path::expanded(a, sep) + seq![c] + path::expanded(
            b,
            sep,
        ),
    decreases a.len(),
{
    let s = a + seq![c] + b;
    if a.len() == 0 {
        assert(s.drop_first() =~= b);
        assert(path::expanded(s, sep) =~= path::expanded(a, sep) + seq![c] + path::expanded(b, sep));
    } else if a[0] == '.' {
        let n = path::leading_dots(a) as int;
        lemma_dots_in_front(a);
        assert(s[n] != '.') by {
            if n < a.len() {
                assert(s[n] == a[n]);
            }
        }
        assert forall|i: int| 0 <= i < n implies s[i] == '.' by {
            assert(s[i] == a[i]);
        }
        lemma_leading(s, n);
        assert(s.skip(n) =~= a.skip(n) + seq![c] + b);
        lemma_expanded_around(a.skip(n), c, b, sep);
        assert(path::expanded(s, sep) =~= path::expanded(a, sep) + seq![c] + path::expanded(b, sep));
    } else {
        assert(s.drop_first() =~= a.drop_first() + seq![c] + b);
        lemma_expanded_around(a.drop_first(), c, b, sep);
        assert(path::expanded(s, sep) =~= path::expanded(a, sep) + seq![c] + path::expanded(b, sep));
    }
}

/// The texts of components.
pub open spec fn names(parts: Seq<Part>) -> Seq<Seq<char>> {
    parts.map_values(|p: Part| p.text)
}

/// A completed path is written with what it starts from in front, its components
/// with the separator between them, and a separator at the end of a directory.
pub proof fn law_completed_paths_are_written_out(
    lead: Seq<char>,
    parts: Seq<Part>,
    isdir: bool,
    sep: char,
)
    ensures
        item::rendered(lead, parts, isdir, sep) == lead + words::joined(names(parts), sep) + if isdir {
            seq![sep]
        } else {
            Seq::empty()
        },
{
    lemma_joined(parts, sep);
}

proof fn lemma_joined(parts: Seq<Part>, sep: char)
    ensures
        item::joined(parts, sep) == words::joined(names(parts), sep),
    decreases parts.len(),
{
    if parts.len() > 1 {
        lemma_joined(parts.drop_first(), sep);
        assert(names(parts.drop_first()) =~= names(parts).drop_first());
    }
}

/// Components that are no parents stay as they are when parents are collapsed, and
/// a run of parents in front of them becomes one component with one dot more.
pub proof fn law_only_parents_collapse(up: Seq<Part>, down: Seq<Part>)
    requires
        up.len() > 0,
        forall|i: int| 0 <= i < up.len() ==> (#[trigger] up[i]).text == seq!['.', '.'],
        forall|i: int| 0 <= i < down.len() ==> (#[trigger] down[i]).text != seq!['.', '.'],
    ensures
        item::collapsed(down, 0) == down,
        item::collapsed(up + down, 0) == seq![
            Part { text: Seq::new(up.len() + 1, |i: int| '.'), indices: Seq::empty() },
        ] + down,
{
    lemma_down(down);
    lemma_up(up, down, 0);
    assert(path::dots(up.len() + 1) =~= Seq::new(up.len() + 1, |i: int| '.'));
}

proof fn lemma_down(down: Seq<Part>)
    requires
        forall|i: int| 0 <= i < down.len() ==> (#[trigger] down[i]).text != seq!['.', '.'],
    ensures
        item::collapsed(down, 0) == down,
    decreases down.len(),
{
    if down.len() > 0 {
        assert(down[0].text != seq!['.', '.']);
        assert forall|i: int| 0 <= i < down.len() - 1 implies (
        #[trigger] down.drop_first()[i]).text != seq!['.', '.'] by {
            assert(down[i + 1].text != seq!['.', '.']);
        }
        lemma_down(down.drop_first());
    }
    assert(item::collapsed(down, 0) =~= down);
}

proof fn lemma_up(up: Seq<Part>, down: Seq<Part>, pending: nat)
    requires
        up.len() + pending > 0,
        forall|i: int| 0 <= i < up.len() ==> (#[trigger] up[i]).text == seq!['.', '.'],
        forall|i: int| 0 <= i < down.len() ==> (#[trigger] down[i]).text != seq!['.', '.'],
    ensures
        item::collapsed(up + down, pending) == seq![item::dots_part(up.len() + pending)] + down,
    decreases up.len(),
{
    let all = up + down;
    if up.len() > 0 {
        assert(up[0].text == seq!['.', '.']);
        assert(all[0] == up[0]);
        assert(all.drop_first() =~= up.drop_first() + down);
        assert forall|i: int| 0 <= i < up.len() - 1 implies (#[trigger] up.drop_first()[i]).text
            == seq!['.', '.'] by {
            assert(up[i + 1].text == seq!['.', '.']);
        }
        lemma_up(up.drop_first(), down, pending + 1);
    } else {
        assert(all =~= down);
        lemma_down(down);
        if down.len() > 0 {
            assert(down[0].text != seq!['.', '.']);
            assert forall|i: int| 0 <= i < down.len() - 1 implies (
            #[trigger] down.drop_first()[i]).text != seq!['.', '.'] by {
                assert(down[i + 1].text != seq!['.', '.']);
            }
            lemma_down(down.drop_first());
        }
        assert(item::collapsed(all, pending) =~= seq![item::dots_part(up.len() + pending)] + down);
    }
}

/// A path that begins with no quote is taken as it is typed. One that was opened
/// and not closed loses its opening quote alone, if the quote comes not again.
pub proof fn law_unquoting(q: char, rest: Seq<char>, style: PathStyle)
    requires
        !rest.contains(q),
    ensures
        q != '"' && q != '\'' && q != '`' ==> path::unquoted(seq![q] + rest, style) == seq![q]
            + rest,
        q == '"' || q == '\'' || q == '`' ==> path::unquoted(seq![q] + rest, style) == rest,
        path::unquoted(Seq::empty(), style) == Seq::<char>::empty(),
{
    let s = seq![q] + rest;
    assert(s.drop_first() =~= rest);
    assert forall|k: int| 0 <= k < rest.len() implies rest[k] != q by {
        assert(rest.contains(rest[k]));
    }
    if rest.len() > 0 {
        assert(rest[rest.len() - 1] != q);
    }
    assert forall|k: int| !path::is_only_quote_behind_separator(rest, q, style, k) by {}
}

/// On Unix a slash is written; on Windows the separator that was typed last, or a
/// backslash where none was.
pub proof fn law_typed_separators_are_kept(a: Seq<char>, c: char, b: Seq<char>)
    requires
        c == '/' || c == '\\',
        is_whole(b, PathStyle::Windows),
    ensures
        item::separator_for(a, PathStyle::Unix) == '/',
        item::separator_for(a + seq![c] + b, PathStyle::Windows) == c,
        item::separator_for(b, PathStyle::Windows) == '\\',
    decreases b.len(),
{
    let s = a + seq![c] + b;
    if b.len() > 0 {
        let front = b.drop_last();
        assert(!PathStyle::Windows.separates(b[b.len() - 1]));
        assert forall|i: int| 0 <= i < front.len() implies !PathStyle::Windows.separates(
            #[trigger] front[i],
        ) by {
            assert(!PathStyle::Windows.separates(b[i]));
        }
        law_typed_separators_are_kept(a, c, front);
        assert(s.drop_last() =~= a + seq![c] + front);
        assert(s.last() == b.last());
    } else {
        assert(s.last() == c);
    }
}

/// Where a completion starts from: the root for a path that begins with a slash,
/// the home directory, where it is known, for one that begins with a tilde, and the
/// given directories for one that begins with a name. What is covered by that is
/// written in front, and not looked for again.
pub proof fn law_completions_start_somewhere(q: ItemRequest)
    ensures
        ({
            let p = item::path_for(q.partial, q.style);
            let sep = item::separator_for(path::unquoted(q.partial, q.style), q.style);
            let main = if q.style is Windows {
                '\\'
            } else {
                '/'
            };
            &&& p.len() > 0 && p[0] == '/' && (p.len() == 1 || (p[1] != '/' && p[1] != '\\'))
                ==> q.fixed_base() == Some(
                Base { cwds: seq![seq![main]], lead: seq![sep], covered: 1 },
            )
            &&& p.len() > 0 && p[0] == '~' && (p.len() == 1 || p[1] == '/') ==> q.fixed_base()
                == Some(
                Base {
                    cwds: if q.home is Some {
                        seq![q.home->0]
                    } else {
                        q.cwds
                    },
                    lead: seq!['~', sep],
                    covered: 1,
                },
            )
            &&& p.len() == 0 || (p[0] != '/' && p[0] != '\\' && p[0] != '~' && (p.len() < 2 || p[1]
                != ':')) ==> q.fixed_base() == Some(
                Base { cwds: q.cwds, lead: Seq::empty(), covered: 0 },
            )
        }),
{
}

/// Whether a character cannot be inserted as it is.
pub open spec fn is_risky(c: char) -> bool {
    c == '*' || c == '?' || c == '[' || c == ']' || c == '`' || c == '\'' || c == '"' || c == ' '
        || c == '#' || c == '(' || c == ')' || c == '{' || c == '}' || c == '|' || c == ';'
}

/// A path is quoted exactly where it holds a risky character, begins with a dash or
/// a dollar sign, or reads as a number.
pub proof fn law_risky_paths_are_quoted(p: Seq<char>, home: Option<Seq<char>>)
    ensures
        escape::escaped(p, home) is Some <==> {
            ||| exists|i: int| 0 <= i < p.len() && is_risky(#[trigger] p[i])
            ||| p.len() > 0 && (p[0] == '-' || p[0] == '$')
            ||| escape::is_number(p)
        },
{
    if escape::needs_quotes(p) {
        let i = choose|i: int|
            0 <= i < p.len() && (escape::is_glob(#[trigger] p[i]) || p[i] == '`');
        assert(is_risky(p[i]));
    }
    if escape::contaminated(p) {
        let i = choose|i: int| 0 <= i < p.len() && escape::is_special(#[trigger] p[i]);
        assert(is_risky(p[i]));
    }
    if exists|i: int| 0 <= i < p.len() && is_risky(#[trigger] p[i]) {
        let i = choose|i: int| 0 <= i < p.len() && is_risky(#[trigger] p[i]);
        if escape::is_glob(p[i]) || p[i] == '`' {
            assert(escape::needs_quotes(p));
        } else {
            assert(escape::is_special(p[i]));
            assert(escape::contaminated(p));
        }
    }
}

/// The quotes stand around the whole path: backticks, or single quotes where a glob
/// character or a backtick is in it, with the home directory written out.
pub proof fn law_quotes_stand_around_the_path(p: Seq<char>, home: Option<Seq<char>>)
    ensures
        ({
            let globbed = exists|i: int|
                0 <= i < p.len() && (p[i] == '*' || p[i] == '?' || p[i] == '[' || p[i] == ']'
                    || #[trigger] p[i] == '`');
            let at_home = p.len() > 0 && p[0] == '~' && (p.len() == 1 || p[1] == '/' || p[1]
                == '\\');
            let whole = if at_home && home is Some {
                home->0 + p.drop_first()
            } else {
                p
            };
            escape::escaped(p, home) matches Some(quoted) ==> {
                &&& !globbed ==> quoted == seq!['`'] + p + seq!['`']
                &&& globbed && !whole.contains('\'') ==> quoted == seq!['\''] + whole + seq!['\'']
            }
        }),
{
    let globbed = exists|i: int|
        0 <= i < p.len() && (p[i] == '*' || p[i] == '?' || p[i] == '[' || p[i] == ']'
            || #[trigger] p[i] == '`');
    if globbed {
        let i = choose|i: int|
            0 <= i < p.len() && (p[i] == '*' || p[i] == '?' || p[i] == '[' || p[i] == ']'
                || #[trigger] p[i] == '`');
        assert(escape::is_glob(p[i]) || p[i] == '`');
        assert(escape::needs_quotes(p));
    }
    if escape::needs_quotes(p) {
        let i = choose|i: int|
            0 <= i < p.len() && (escape::is_glob(#[trigger] p[i]) || p[i] == '`');
        assert(p[i] == '*' || p[i] == '?' || p[i] == '[' || p[i] == ']' || p[i] == '`');
        assert(globbed);
    }
}

/// A path that ends in a separator, quotes aside, asks for what is in a directory.
pub proof fn law_trailing_separators_ask_for_contents(q: ItemRequest, front: Seq<char>, c: char)
    requires
        path::unquoted(q.partial, q.style) == front.push(c),
    ensures
        q.isdir() <==> q.style.separates(c),
{
    assert(front.push(c).last() == c);
}

/// A single dot behind the last separator stays: it completes what is hidden.
pub proof fn law_trailing_dots_are_kept(partial: Seq<char>, front: Seq<char>, sep: char)
    requires
        path::unquoted(partial, PathStyle::Unix) == front + seq![sep, '.'],
        sep == '/',
    ensures
        item::path_for(partial, PathStyle::Unix) == path::expanded(
            front + seq![sep, '.'],
            '/',
        ) + seq![sep, '.'],
{
    let cleaned = front + seq![sep, '.'];
    words::law_beginnings_and_ends(cleaned, seq![sep, '.']);
    assert(item::separator_for(cleaned, PathStyle::Unix) == '/');
}

/// How many columns parts take, each with a separator behind it.
pub open spec fn parts_columns(parts: Seq<Part>) -> nat
    decreases parts.len(),
{
    if parts.len() == 0 {
        0
    } else {
        parts_columns(parts.drop_last()) + unicode::graphemes(parts.last().text) + 1
    }
}

/// The marks of a path are those of its parts, each moved to where its part stands
/// behind the parts and separators before it.
pub proof fn law_marks_move_with_their_part(front: Seq<Part>, part: Part, offset: int, k: int)
    requires
        0 <= k < part.indices.len(),
        0 <= offset,
        offset + parts_columns(front) + part.indices[k] <= usize::MAX,
    ensures
        ({
            let before = item::marks(front, offset);
            let all = item::marks(front.push(part), offset);
            &&& all.len() == before.len() + part.indices.len()
            &&& all.take(before.len() as int) == before
            &&& all[before.len() + k] == offset + parts_columns(front) + part.indices[k]
        }),
    decreases front.len(),
{
    let all = item::marks(front.push(part), offset);
    if front.len() == 0 {
        let none = front.push(part).drop_first();
        assert(none =~= Seq::empty());
        assert(item::marks(none, offset + unicode::graphemes(part.text) + 1) =~= Seq::empty());
        assert(front.push(part)[0] == part);
        assert(item::marks(front, offset) =~= Seq::empty());
        assert(all.take(0) =~= Seq::empty());
    } else {
        let rest = front.drop_first();
        let next = offset + unicode::graphemes(front[0].text) + 1;
        lemma_parts_columns(front);
        law_marks_move_with_their_part(rest, part, next, k);
        assert(front.push(part).drop_first() =~= rest.push(part));
        assert(front.push(part)[0] == front[0]);
        let before = item::marks(front, offset);
        assert(all.take(before.len() as int) =~= before) by {
            let tail = item::marks(rest.push(part), next);
            let old = item::marks(rest, next);
            assert forall|i: int| 0 <= i < old.len() implies tail[i] == old[i] by {
                assert(tail.take(old.len() as int)[i] == old[i]);
            }
        }
    }
}

proof fn lemma_parts_columns(parts: Seq<Part>)
    requires
        parts.len() > 0,
    ensures
        parts_columns(parts) == unicode::graphemes(parts[0].text) + 1 + parts_columns(
            parts.drop_first(),
        ),
    decreases parts.len(),
{
    let rest = parts.drop_first();
    if parts.len() == 1 {
        assert(rest =~= Seq::empty());
        assert(parts.drop_last() =~= Seq::empty());
        assert(parts_columns(parts.drop_last()) == 0);
    } else {
        lemma_parts_columns(parts.drop_last());
        assert(parts.drop_last().drop_first() =~= rest.drop_last());
    }
}

/// Entries that are spelled out win only where names are completed by their
/// beginning.
pub proof fn law_spelling_counts_for_prefixes(q: ItemRequest, base: Base, dirs: DirSnapshot)
    requires
        base.covered == 0,
    ensures
        ({
            let components = item::pieces(
                item::path_for(q.partial, q.style),
                q.style,
                Seq::empty(),
            );
            let request = file::request_of(q.options, q.want_directory, q.isdir());
            let from = base.cwds.map_values(
                |cwd: Seq<char>| Built { cwd, parts: Seq::empty(), isdir: false },
            );
            &&& q.options.match_algorithm is Prefix ==> q.outcome(base, dirs) == file::walk(
                request,
                components,
                from,
                true,
                dirs,
            )
            &&& !(q.options.match_algorithm is Prefix) ==> q.outcome(base, dirs) == file::walk(
                request,
                components,
                from,
                false,
                dirs,
            )
        }),
{
    let whole = item::path_for(q.partial, q.style);
    assert(whole.skip(0) =~= whole);
    assert(base.cwds.map_values(|cwd: Seq<char>| item::bare(cwd)) =~= base.cwds.map_values(
        |cwd: Seq<char>| Built { cwd, parts: Seq::empty(), isdir: false },
    ));
}

/// Whether a text is decimal digits alone.
pub open spec fn is_digits(s: Seq<char>) -> bool {
    forall|i: int| 0 <= i < s.len() ==> '0' <= #[trigger] s[i] <= '9'
}

/// What reads as a number is quoted: digits, with a point before, behind or among
/// them, with an exponent, and with a sign.
pub proof fn law_numbers_are_quoted(
    a: Seq<char>,
    b: Seq<char>,
    e: Seq<char>,
    home: Option<Seq<char>>,
)
    requires
        is_digits(a),
        is_digits(b),
        is_digits(e),
    ensures
        a.len() > 0 ==> escape::escaped(a, home) is Some,
        a.len() + b.len() > 0 ==> escape::escaped(a + seq!['.'] + b, home) is Some,
        a.len() + b.len() > 0 ==> escape::escaped(seq!['-'] + (a + seq!['.'] + b), home) is Some,
        a.len() > 0 && e.len() > 0 ==> escape::escaped(a + seq!['e'] + e, home) is Some,
        a.len() > 0 && e.len() > 0 ==> escape::escaped(a + seq!['E', '-'] + e, home) is Some,
{
    law_risky_paths_are_quoted(a, home);
    let p = a + seq!['.'] + b;
    law_risky_paths_are_quoted(p, home);
    law_risky_paths_are_quoted(seq!['-'] + p, home);
    law_risky_paths_are_quoted(a + seq!['e'] + e, home);
    law_risky_paths_are_quoted(a + seq!['E', '-'] + e, home);
    assert((seq!['-'] + p)[0] == '-');
    lemma_digits(a, Seq::empty());
    assert(a + Seq::empty() =~= a);
    lemma_digits(b, Seq::empty());
    assert(b + Seq::empty() =~= b);
    lemma_digits(e, Seq::empty());
    assert(e + Seq::empty() =~= e);
    let rest = seq!['.'] + b;
    assert(p =~= a + rest);
    lemma_digits(a, rest);
    assert(rest.drop_first() =~= b);
    assert(a.skip(a.len() as int) =~= Seq::empty());
    assert(p.skip(a.len() as int) =~= rest);
    assert(b.skip(b.len() as int) =~= Seq::empty());
    if a.len() > 0 {
        assert('0' <= a[0] <= '9');
        assert(escape::unsigned(a) == a);
        assert(escape::is_number(a));
    }
    if a.len() + b.len() > 0 {
        if a.len() > 0 {
            assert(p[0] == a[0]);
        } else {
            assert(p[0] == '.');
        }
        assert(escape::unsigned(p) == p);
        assert(escape::is_decimal(p));
        assert(escape::is_number(p));
    }
    if a.len() > 0 && e.len() > 0 {
        assert('0' <= e[0] <= '9');
        let x = seq!['e'] + e;
        let s = a + seq!['e'] + e;
        assert(s =~= a + x);
        lemma_digits(a, x);
        assert(s.skip(a.len() as int) =~= x);
        assert(x.drop_first() =~= e);
        assert(s[0] == a[0]);
        assert(escape::unsigned(e) == e);
        assert(escape::is_exponent(x));
        assert(escape::is_number(s));
        let y = seq!['E', '-'] + e;
        let t = a + seq!['E', '-'] + e;
        assert(t =~= a + y);
        lemma_digits(a, y);
        assert(t.skip(a.len() as int) =~= y);
        assert(y.drop_first() =~= seq!['-'] + e);
        assert((seq!['-'] + e).drop_first() =~= e);
        assert(t[0] == a[0]);
        assert(escape::is_exponent(y));
        assert(escape::is_number(t));
    }
}

proof fn lemma_digits(a: Seq<char>, rest: Seq<char>)
    requires
        is_digits(a),
        rest.len() > 0 ==> !('0' <= rest[0] <= '9'),
    ensures
        escape::digit_run(a + rest) == a.len(),
    decreases a.len(),
{
    if a.len() == 0 {
        assert(a + rest =~= rest);
    } else {
        assert('0' <= a[0] <= '9');
        let d = a.drop_first();
        assert forall|i: int| 0 <= i < d.len() implies '0' <= #[trigger] d[i] <= '9' by {
            assert('0' <= a[i + 1] <= '9');
        }
        lemma_digits(d, rest);
        assert((a + rest).drop_first() =~= d + rest);
    }
}

/// A quote that closes is taken off with the one that opens: at the end, and behind
/// a separator where it is the only other one. One that stands elsewhere stays.
pub proof fn law_closing_quotes_are_taken_off(
    q: char,
    front: Seq<char>,
    c: char,
    back: Seq<char>,
    style: PathStyle,
)
    requires
        q == '"' || q == '\'' || q == '`',
        !front.contains(q),
        !back.contains(q),
        c != q,
    ensures
        path::unquoted(seq![q] + (front + seq![c, q]), style) == front + seq![c],
        back.len() > 0 && style.separates(c) ==> path::unquoted(
            seq![q] + (front + seq![c, q] + back),
            style,
        ) == front + seq![c] + back,
        back.len() > 0 && !style.separates(c) ==> path::unquoted(
            seq![q] + (front + seq![c, q] + back),
            style,
        ) == front + seq![c, q] + back,
{
    let one = front + seq![c, q];
    assert((seq![q] + one).drop_first() =~= one);
    assert(one.last() == q);
    assert(one.drop_last() =~= front + seq![c]);
    let rest = front + seq![c, q] + back;
    let n = front.len() as int + 1;
    assert((seq![q] + rest).drop_first() =~= rest);
    assert(rest[n] == q && rest[n - 1] == c);
    assert forall|j: int| 0 <= j < rest.len() && j != n implies rest[j] != q by {
        if j < front.len() {
            assert(front.contains(front[j]));
        } else if j > n {
            assert(back.contains(back[j - n - 1]));
        }
    }
    if back.len() > 0 {
        assert(rest.last() == back[back.len() - 1]);
        assert(back.contains(back[back.len() - 1]));
        if style.separates(c) {
            assert(path::is_only_quote_behind_separator(rest, q, style, n));
            let k = choose|k: int| path::is_only_quote_behind_separator(rest, q, style, k);
            assert(k == n);
            assert(path::without(rest, n) =~= front + seq![c] + back);
        } else {
            assert forall|k: int| !path::is_only_quote_behind_separator(rest, q, style, k) by {
                if path::is_only_quote_behind_separator(rest, q, style, k) {
                    assert(k == n);
                }
            }
        }
    }
}

} // verus!
