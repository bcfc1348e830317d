//! Pasting, renaming and arranging tabs, and cutting labels.

use vstd::prelude::*;

use crate::display::tabs;
use crate::display::tabs::{TabDrag, TabDropAction, TabState};
use crate::display::width;
use crate::event::paste;
use crate::event::paste::InputFocus;
use crate::unicode;

verus! {

/// Pasted text that goes in brackets loses its escape characters and interrupts,
/// and nothing else.
pub proof fn law_brackets_hold_the_text(s: Seq<char>)
    ensures
        paste::payload(s, true, true) == "\x1b[200~"@ + s.filter(
            |c: char| c != '\x1b' && c != '\x03',
        ) + "\x1b[201~"@,
        paste::inserted(s, true, true) == s.filter(|c: char| c != '\x1b' && c != '\x03'),
{
    lemma_unbreaking(s);
}

proof fn lemma_unbreaking(s: Seq<char>)
    ensures
        paste::unbreaking(s) == s.filter(|c: char| c != '\x1b' && c != '\x03'),
    decreases s.len(),
{
    reveal(Seq::filter);
    if s.len() > 0 {
        lemma_unbreaking(s.drop_last());
    } else {
        assert(paste::unbreaking(s) =~= s.filter(|c: char| c != '\x1b' && c != '\x03'));
    }
}

/// Without brackets every line break is sent as the key that ends a line, once,
/// however it is written; the rest is sent as it is. Text that is no paste is sent
/// as it is altogether.
pub proof fn law_line_breaks_are_typed(line: Seq<char>, rest: Seq<char>, mode: bool)
    requires
        forall|i: int| 0 <= i < line.len() ==> #[trigger] line[i] != '\r' && line[i] != '\n',
    ensures
        paste::payload(line, true, false) == line,
        paste::payload(line + seq!['\n'] + rest, true, false) == line + seq!['\r']
            + paste::payload(rest, true, false),
        paste::payload(line + seq!['\r', '\n'] + rest, true, false) == line + seq!['\r']
            + paste::payload(rest, true, false),
        rest.len() == 0 || rest[0] != '\n' ==> paste::payload(
            line + seq!['\r'] + rest,
            true,
            false,
        ) == line + seq!['\r'] + paste::payload(rest, true, false),
        paste::payload(rest, false, mode) == rest,
    decreases line.len(),
{
    let a = line + seq!['\n'] + rest;
    let b = line + seq!['\r', '\n'] + rest;
    let c = line + seq!['\r'] + rest;
    let k = paste::keyed(rest);
    if line.len() == 0 {
        assert(a.skip(1) =~= rest);
        assert(b[0] == '\r' && b[1] == '\n');
        assert(b.skip(2) =~= rest);
        assert(c.skip(1) =~= rest);
        assert(c[0] == '\r');
        if rest.len() > 0 {
            assert(c[1] == rest[0]);
        }
        assert(seq!['\r'] + k =~= line + seq!['\r'] + k);
        assert(paste::keyed(line) =~= line);
    } else {
        assert(line[0] != '\r' && line[0] != '\n');
        let l = line.skip(1);
        assert forall|i: int| 0 <= i < l.len() implies #[trigger] l[i] != '\r' && l[i] != '\n' by {
            assert(line[i + 1] != '\r' && line[i + 1] != '\n');
        }
        law_line_breaks_are_typed(l, rest, mode);
        assert(a.skip(1) =~= l + seq!['\n'] + rest);
        assert(b.skip(1) =~= l + seq!['\r', '\n'] + rest);
        assert(c.skip(1) =~= l + seq!['\r'] + rest);
        assert(seq![line[0]] + (l + seq!['\r'] + k) =~= line + seq!['\r'] + k);
        assert(seq![line[0]] + l =~= line);
    }
}

/// A paste is confirmed exactly where a line break in it would run something: not
/// in a search, and not where a question is open already.
pub proof fn law_only_line_breaks_are_asked_about(focus: InputFocus, s: Seq<char>)
    ensures
        paste::needs_confirmation(focus, s) <==> {
            &&& exists|i: int| 0 <= i < s.len() && (#[trigger] s[i] == '\n' || s[i] == '\r')
            &&& !focus.search_active
            &&& !focus.char_pending
            &&& !focus.confirming
        },
{
    if s.contains('\n') {
        let i = choose|i: int| 0 <= i < s.len() && s[i] == '\n';
        assert(s[i] == '\n');
    }
    if s.contains('\r') {
        let i = choose|i: int| 0 <= i < s.len() && s[i] == '\r';
        assert(s[i] == '\r');
    }
    if exists|i: int| 0 <= i < s.len() && (#[trigger] s[i] == '\n' || s[i] == '\r') {
        let i = choose|i: int| 0 <= i < s.len() && (#[trigger] s[i] == '\n' || s[i] == '\r');
        assert(s.contains(s[i]));
    }
}

/// The name of a tab is edited, with `front` and `back` at the sides of its caret.
pub open spec fn is_edited(t: TabState, index: usize, front: Seq<char>, back: Seq<char>) -> bool {
    &&& t.rename == Some((index, front + back))
    &&& t.rename_caret == front.len()
    &&& !t.rename_select_all
}

/// Typed text goes in at the caret, and the caret behind it.
pub proof fn law_typing_goes_in_at_the_caret(
    t: TabState,
    index: usize,
    front: Seq<char>,
    back: Seq<char>,
    typed: Seq<char>,
)
    requires
        is_edited(t, index, front, back),
    ensures
        is_edited(tabs::inserted(t, typed), index, front + typed, back),
        tabs::inserted(t, typed).labels == t.labels,
{
    let buf = front + back;
    assert(buf.take(front.len() as int) =~= front);
    assert(buf.skip(front.len() as int) =~= back);
    assert(front + typed + back =~= (front + typed) + back);
}

/// Typing over a selected name replaces it.
pub proof fn law_typing_replaces_a_selection(
    t: TabState,
    index: usize,
    name: Seq<char>,
    typed: Seq<char>,
)
    requires
        t.rename == Some((index, name)),
        t.rename_select_all,
    ensures
        is_edited(tabs::inserted(t, typed), index, typed, Seq::empty()),
{
    let none = Seq::<char>::empty();
    assert(none.take(0) + typed + none.skip(0) =~= typed + none);
}

/// A backspace takes off the character in front of the caret; at the start it
/// takes off nothing, and from a selected name all of it.
pub proof fn law_backspace_takes_what_is_in_front(
    t: TabState,
    index: usize,
    front: Seq<char>,
    c: char,
    back: Seq<char>,
)
    ensures
        is_edited(t, index, front.push(c), back) ==> is_edited(tabs::backspaced(t), index, front, back),
        is_edited(t, index, Seq::empty(), back) ==> is_edited(tabs::backspaced(t), index, Seq::empty(), back),
        t.rename is Some && t.rename->0 == (index, front) && t.rename_select_all ==> is_edited(
            tabs::backspaced(t),
            index,
            Seq::empty(),
            Seq::empty(),
        ),
{
    if is_edited(t, index, front.push(c), back) {
        let buf = front.push(c) + back;
        assert(buf.remove(front.len() as int) =~= front + back);
    }
    if t.rename_select_all {
        assert(Seq::<char>::empty() + Seq::<char>::empty() =~= Seq::empty());
    }
}

/// The caret moves by characters, and not out of the name; from a selected name it
/// goes to the end that it is moved to.
pub proof fn law_caret_stays_in_the_name(t: TabState, buf: Seq<char>, index: usize, delta: int)
    requires
        t.rename == Some((index, buf)),
        t.rename_caret <= buf.len(),
    ensures
        ({
            let after = tabs::caret_moved(t, delta);
            let at = t.rename_caret + delta;
            &&& after.rename == t.rename
            &&& !after.rename_select_all
            &&& !t.rename_select_all && 0 <= at <= buf.len() ==> after.rename_caret == at
            &&& !t.rename_select_all && at < 0 ==> after.rename_caret == 0
            &&& !t.rename_select_all && at > buf.len() ==> after.rename_caret == buf.len()
            &&& t.rename_select_all ==> after.rename_caret == if delta < 0 {
                0
            } else {
                buf.len()
            }
        }),
{
}

/// A tab that is dragged and dropped goes to the slot under it; over the text it
/// splits the view there; and where it comes to rest in its own slot, or nothing
/// can be reordered, the drop is a click.
pub proof fn law_drops_do_what_they_show(t: TabState, d: TabDrag, passed: nat)
    requires
        t.drag == Some(d),
        d.active,
        0 < t.labels.len() <= usize::MAX,
    ensures
        ({
            let slot = if passed >= t.labels.len() {
                (t.labels.len() - 1) as usize
            } else {
                passed as usize
            };
            tabs::dropped(t, passed) == Some(
                if d.dock is Some {
                    TabDropAction::Dock { source: d.source, nav: d.dock->0 }
                } else if t.reorderable && t.labels.len() >= 2 && slot != d.source {
                    TabDropAction::Reorder { from: d.source, to: slot }
                } else {
                    TabDropAction::Click(d.source)
                },
            )
        }),
        tabs::dropped(TabState { drag: None, ..t }, passed) is None,
{
}

proof fn lemma_head_is_longest(s: Seq<char>, room: nat)
    ensures
        width::head_len(s, room) <= s.len(),
        width::head_len(s, room) < s.len() ==> width::width(
            s.take(width::head_len(s, room) as int + 1),
        ) > room,
    decreases s.len(),
{
    if s.len() > 0 && width::columns_of(s[0]) <= room {
        let rest = s.drop_first();
        let left = (room - width::columns_of(s[0])) as nat;
        lemma_head_is_longest(rest, left);
        let n = width::head_len(rest, left) as int;
        if n < rest.len() {
            assert(s.take(n + 2) =~= seq![s[0]] + rest.take(n + 1));
            width::lemma_width_concat(seq![s[0]], rest.take(n + 1));
            lemma_width_one(s[0]);
        }
    } else if s.len() > 0 {
        assert(s.take(1) =~= seq![s[0]]);
        lemma_width_one(s[0]);
    }
}

proof fn lemma_width_one(c: char)
    ensures
        width::width(seq![c]) == width::columns_of(c),
{
    assert(seq![c].drop_last() =~= Seq::empty());
    assert(width::width(seq![c].drop_last()) == 0);
    assert(seq![c].last() == c);
}

proof fn lemma_tail_is_longest(s: Seq<char>, room: nat)
    ensures
        width::tail_len(s, room) <= s.len(),
        width::width(s.skip(s.len() - width::tail_len(s, room))) <= room,
        width::tail_len(s, room) < s.len() ==> width::width(
            s.skip(s.len() - width::tail_len(s, room) - 1),
        ) > room,
    decreases s.len(),
{
    if s.len() > 0 && width::columns_of(s.last()) <= room {
        let front = s.drop_last();
        let left = (room - width::columns_of(s.last())) as nat;
        lemma_tail_is_longest(front, left);
        let n = width::tail_len(front, left) as int;
        assert(s.skip(s.len() - n - 1) =~= front.skip(front.len() - n) + seq![s.last()]);
        width::lemma_width_concat(front.skip(front.len() - n), seq![s.last()]);
        lemma_width_one(s.last());
        if n < front.len() {
            assert(s.skip(s.len() - n - 2) =~= front.skip(front.len() - n - 1) + seq![s.last()]);
            width::lemma_width_concat(front.skip(front.len() - n - 1), seq![s.last()]);
        }
    } else if s.len() > 0 {
        assert(s.skip(s.len() as int) =~= Seq::empty());
        assert(s.skip(s.len() - 1) =~= seq![s.last()]);
        lemma_width_one(s.last());
    } else {
        assert(s.skip(0) =~= Seq::empty());
    }
}

/// A label that fits is shown whole. One that does not is cut behind as many
/// characters as leave a column for the ellipsis: one more would not fit.
pub proof fn law_labels_are_cut_no_more_than_needed(s: Seq<char>, room: nat)
    requires
        room >= 2,
    ensures
        width::width(s) <= room ==> width::cut_right(s, room) == s,
        width::width(s) > room ==> {
            let cut = width::cut_right(s, room);
            let n = cut.len() - 1;
            &&& 0 <= n < s.len()
            &&& cut == s.take(n).push('…')
            &&& width::width(s.take(n)) + 1 <= room
            &&& width::width(s.take(n + 1)) + 1 > room
        },
{
    lemma_head_is_longest(s, (room - 1) as nat);
    width::lemma_head_fits(s, (room - 1) as nat);
    if width::width(s) > room {
        let n = width::head_len(s, (room - 1) as nat) as int;
        if n == s.len() {
            assert(s.take(n) =~= s);
        }
        assert(width::cut_right(s, room).len() == n + 1);
    }
}

/// A text that is cut in front keeps its end: as much of it as leaves a column for
/// the ellipsis.
pub proof fn law_tails_are_cut_no_more_than_needed(s: Seq<char>, room: nat)
    requires
        room >= 1,
    ensures
        width::width(s) <= room ==> width::cut_left(s, room) == s,
        width::width(s) > room ==> {
            let cut = width::cut_left(s, room);
            let n = s.len() - (cut.len() - 1);
            &&& 0 < n <= s.len()
            &&& cut == seq!['…'] + s.skip(n)
            &&& width::width(s.skip(n)) + 1 <= room
            &&& width::width(s.skip(n - 1)) + 1 > room
        },
{
    lemma_tail_is_longest(s, (room - 1) as nat);
    if width::width(s) > room {
        let m = width::tail_len(s, (room - 1) as nat) as int;
        if m == s.len() {
            assert(s.skip(0) =~= s);
        }
        assert(width::cut_left(s, room).len() == m + 1);
    }
}

/// A text is as wide as its parts are together, and a character as wide as it is
/// said to be, or without width.
pub proof fn law_widths_add_up(a: Seq<char>, b: Seq<char>, c: char)
    ensures
        width::width(a + b) == width::width(a) + width::width(b),
        width::width(seq![c]) == match unicode::char_width(c) {
            Some(n) => n as nat,
            None => 0,
        },
        width::width(Seq::empty()) == 0,
{
    width::lemma_width_concat(a, b);
    lemma_width_one(c);
}

} // verus!
