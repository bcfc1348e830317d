//! How the list of commands is put together.

use vstd::prelude::*;

use crate::display::commands;
use crate::laws::words;
use crate::text;
use crate::unicode;

verus! {

/// Whether two characters are one letter, where case does not count.
pub open spec fn same_letter(a: char, b: char) -> bool {
    a == b || ('A' <= a <= 'Z' && b as u32 == a as u32 + 32) || ('A' <= b <= 'Z' && a as u32
        == b as u32 + 32)
}

/// Whether two names are one command.
pub open spec fn same_command(a: Seq<char>, b: Seq<char>, ignore_case: bool) -> bool {
    a == b || (ignore_case && a.len() == b.len() && forall|i: int|
        0 <= i < a.len() ==> same_letter(#[trigger] a[i], b[i]))
}

proof fn lemma_same_command(a: Seq<char>, b: Seq<char>, ignore_case: bool)
    ensures
        same_command(a, b, ignore_case) <==> commands::key(a, ignore_case) == commands::key(
            b,
            ignore_case,
        ),
{
    let (x, y) = (text::ascii_lower(a), text::ascii_lower(b));
    if ignore_case {
        if x == y {
            assert(x.len() == a.len() && y.len() == b.len());
            assert forall|i: int| 0 <= i < a.len() implies same_letter(#[trigger] a[i], b[i]) by {
                assert(x[i] == y[i]);
                assert(x[i] == text::lower_char(a[i]) && y[i] == text::lower_char(b[i]));
            }
        }
        if same_command(a, b, ignore_case) && a != b {
            assert forall|i: int| 0 <= i < a.len() implies x[i] == y[i] by {
                assert(same_letter(a[i], b[i]));
                assert(x[i] == text::lower_char(a[i]) && y[i] == text::lower_char(b[i]));
            }
            assert(x =~= y);
        }
    }
}

/// A command is added where none of the same name is known, up to case where that
/// does not count, and left off where one is.
pub proof fn law_known_commands_are_not_added(
    names: Seq<Seq<char>>,
    more: Seq<Seq<char>>,
    name: Seq<char>,
    ignore_case: bool,
)
    ensures
        commands::merged(names, Seq::empty(), ignore_case) == names,
        ({
            let held = commands::merged(names, more, ignore_case);
            let after = commands::merged(names, more.push(name), ignore_case);
            &&& (exists|i: int|
                0 <= i < held.len() && same_command(#[trigger] held[i], name, ignore_case))
                ==> after == held
            &&& (forall|i: int|
                0 <= i < held.len() ==> !same_command(#[trigger] held[i], name, ignore_case))
                ==> after == held.push(name)
        }),
{
    let held = commands::merged(names, more, ignore_case);
    assert(more.push(name).drop_last() =~= more);
    assert forall|i: int| 0 <= i < held.len() implies (same_command(
        #[trigger] held[i],
        name,
        ignore_case,
    ) <==> commands::key(held[i], ignore_case) == commands::key(name, ignore_case)) by {
        lemma_same_command(held[i], name, ignore_case);
    }
}

/// The commands are listed in the order of a dictionary, small letters like large
/// ones where case does not count; names that differ by case alone stand together.
pub proof fn law_commands_are_in_dictionary_order(
    names: Seq<Seq<char>>,
    ignore_case: bool,
    i: int,
    j: int,
)
    requires
        0 <= i < j < names.len(),
    ensures
        ({
            let list = commands::sorted(names, ignore_case);
            &&& list.len() == names.len()
            &&& list.to_multiset() == names.to_multiset()
            &&& ignore_case ==> !text::lex_lt(
                text::ascii_lower(list[j]),
                text::ascii_lower(list[i]),
            )
            &&& !ignore_case || text::ascii_lower(list[i]) == text::ascii_lower(list[j])
                ==> !text::lex_lt(list[j], list[i])
        }),
{
    broadcast use vstd::seq_lib::group_to_multiset_ensures;

    commands::law_commands_are_sorted(names, ignore_case);
    let list = commands::sorted(names, ignore_case);
    let before = commands::name_order(ignore_case);
    assert(list.len() == list.to_multiset().len());
    assert(!before(list[j], list[i]));
    text::lemma_lex_total(list[i], list[j]);
}

/// Extensions begin with a dot and are in lower case, blanks aside; empty ones count
/// for nothing.
pub proof fn law_extensions_begin_with_a_dot(
    lead: Seq<char>,
    ext: Seq<char>,
    tail: Seq<char>,
    pieces: Seq<Seq<char>>,
)
    requires
        words::is_blank(lead),
        words::is_blank(tail),
        ext.len() > 0,
        !unicode::whitespace(ext[0]),
        !unicode::whitespace(ext.last()),
    ensures
        ({
            let known = commands::extensions_of(pieces);
            let after = commands::extensions_of(pieces.push(lead + ext + tail));
            &&& ext[0] == '.' ==> after == known.push(text::ascii_lower(ext))
            &&& ext[0] != '.' ==> after == known.push(seq!['.'] + text::ascii_lower(ext))
            &&& commands::extensions_of(pieces.push(lead)) == known
            &&& commands::extensions_of(Seq::empty()) == Seq::<Seq<char>>::empty()
        }),
{
    lemma_sandwich(lead, ext, tail);
    let piece = lead + ext + tail;
    assert(pieces.push(piece).drop_last() =~= pieces);
    assert(pieces.push(piece).last() == piece);
    assert(pieces.push(lead).drop_last() =~= pieces);
    assert(pieces.push(lead).last() == lead);
    words::lemma_trim_lead(lead, Seq::empty());
    assert(lead + Seq::empty() =~= lead);
    assert(unicode::trimmed(lead).len() == 0);
}

proof fn lemma_sandwich(lead: Seq<char>, t: Seq<char>, tail: Seq<char>)
    requires
        words::is_blank(lead),
        words::is_blank(tail),
        t.len() > 0,
        !unicode::whitespace(t[0]),
        !unicode::whitespace(t.last()),
    ensures
        unicode::trimmed(lead + t + tail) == t,
{
    assert(lead + t + tail =~= lead + (t + tail));
    assert((t + tail)[0] == t[0]);
    words::lemma_trim_lead(lead, t + tail);
    words::lemma_trim_tail(t, tail);
}

/// The lines of a list count without the blanks around them, and empty ones not at
/// all.
pub proof fn law_blank_lines_are_passed_over(
    lines: Seq<Seq<char>>,
    lead: Seq<char>,
    name: Seq<char>,
    tail: Seq<char>,
)
    requires
        words::is_blank(lead),
        words::is_blank(tail),
        name.len() > 0,
        !unicode::whitespace(name[0]),
        !unicode::whitespace(name.last()),
    ensures
        commands::filled_lines(lines.push(lead + name + tail)) == commands::filled_lines(
            lines,
        ).push(name),
        commands::filled_lines(lines.push(lead)) == commands::filled_lines(lines),
        commands::filled_lines(Seq::empty()) == Seq::<Seq<char>>::empty(),
{
    lemma_sandwich(lead, name, tail);
    let line = lead + name + tail;
    assert(lines.push(line).drop_last() =~= lines);
    assert(lines.push(line).last() == line);
    assert(lines.push(lead).drop_last() =~= lines);
    assert(lines.push(lead).last() == lead);
    words::lemma_trim_lead(lead, Seq::empty());
    assert(lead + Seq::empty() =~= lead);
    assert(unicode::trimmed(lead).len() == 0);
}

} // verus!
