//! Searches, and what the mouse points to.

use vstd::prelude::*;

use crate::display::overlay::Direction;
use crate::event::mouse;
use crate::event::mouse::{ClickState, SelectionType};
use crate::event::search;
use crate::event::search::{GridView, Match, Point, SearchStep, SearchValue};
use crate::event::word;
use crate::event::word::{SemanticWord, WordCell};
use crate::laws::words;
use crate::unicode;

verus! {

/// Whether a pattern of the history is shown, and which.
pub open spec fn shows(s: SearchValue, i: int) -> bool {
    &&& 0 < s.history.len() <= 255
    &&& 0 <= i < s.history.len()
    &&& s.history_index matches Some(k) && k == i
}

/// A key goes to the pattern that is shown, which it makes the newest: a backspace
/// takes off its last character, a printable character goes behind it, and others
/// leave it. Older patterns stay.
pub proof fn law_keys_edit_the_shown_pattern(s: SearchValue, i: int, c: char)
    requires
        shows(s, i),
    ensures
        ({
            let after = search::typed(s, c);
            let p = s.history[i];
            &&& shows(after, 0)
            &&& after.history.skip(1) == s.history.skip(1)
            &&& c == '\x08' || c == '\x7f' ==> after.history[0] == if p.len() == 0 {
                p
            } else {
                p.drop_last()
            }
            &&& (' ' <= c <= '~' || '\u{a0}' <= c) ==> after.history[0] == p.push(c)
            &&& (c < ' ' && c != '\x08') || ('\x7f' < c < '\u{a0}') ==> after.history[0] == p
            &&& after.direction == s.direction && after.origin == s.origin
        }),
{
    let after = search::typed(s, c);
    assert(after.history.skip(1) =~= s.history.skip(1));
}

/// Where nothing is searched, keys do nothing to the search.
pub proof fn law_keys_need_a_search(s: SearchValue, c: char)
    requires
        s.history_index is None,
    ensures
        search::typed(s, c) == s,
{
}

/// A text that is typed reaches the pattern one character after the other.
pub proof fn law_texts_are_typed_in_order(s: SearchValue, text: Seq<char>, c: char)
    ensures
        search::typed_text(s, Seq::empty()) == s,
        search::typed_text(s, text.push(c)) == search::typed(search::typed_text(s, text), c),
{
    assert(text.push(c).drop_last() =~= text);
}

/// A search begins with an empty pattern, in front of the earlier ones: at most as
/// many of them as fit stay, the oldest go first.
pub proof fn law_searches_begin_empty(s: SearchValue, g: GridView, direction: Direction)
    requires
        s.history.len() <= 255,
    ensures
        ({
            let after = search::started(s, g, direction);
            let earlier = if s.history.len() > 0 && s.history[0].len() == 0 {
                s.history.skip(1)
            } else {
                s.history
            };
            &&& shows(after, 0)
            &&& after.history[0].len() == 0
            &&& after.history.skip(1) == if earlier.len() < 255 {
                earlier
            } else {
                earlier.take(254)
            }
            &&& after.direction == direction
            &&& after.focused_match is None
        }),
{
    let after = search::started(s, g, direction);
    let longer = seq![Seq::<char>::empty()] + s.history;
    if s.history.len() > 0 && s.history[0].len() == 0 {
        assert(after.history == s.history);
    } else if s.history.len() == 255 {
        assert(longer.take(255).skip(1) =~= s.history.take(254));
    } else {
        assert(longer.skip(1) =~= s.history);
    }
}

/// Without vi mode a search begins above the lines that are seen, or below them
/// where it goes backward; in vi mode at the cursor, one line higher while the
/// search bar covers the last line.
pub proof fn law_searches_begin_outside_the_view(g: GridView)
    requires
        search::is_measurable(g),
        g.display_offset + 1 <= i32::MAX,
    ensures
        !g.vi_mode ==> search::start_origin(g, Direction::Right) == (Point {
            line: (-g.display_offset - 1) as i32,
            column: 0,
        }),
        !g.vi_mode ==> search::start_origin(g, Direction::Left).line
            - search::start_origin(g, Direction::Right).line == g.bottommost_line,
        !g.vi_mode ==> search::start_origin(g, Direction::Left).column == g.last_column,
        g.vi_mode ==> search::start_origin(g, Direction::Left) == search::start_origin(
            g,
            Direction::Right,
        ),
        g.vi_mode ==> search::start_origin(g, Direction::Left).column == g.vi_cursor.column,
        g.vi_mode && g.cursor_line + 1 == g.screen_lines ==> search::start_origin(
            g,
            Direction::Left,
        ).line == g.vi_cursor.line - 1,
        g.vi_mode && g.cursor_line + 1 != g.screen_lines ==> search::start_origin(
            g,
            Direction::Left,
        ).line == g.vi_cursor.line,
{
}

/// A text is escaped character by character: those that mean something in a pattern
/// get a backslash, and the others stay.
pub proof fn law_escaping_is_by_character(a: Seq<char>, b: Seq<char>, c: char)
    ensures
        search::escaped(a + b) == search::escaped(a) + search::escaped(b),
        search::escaped(Seq::empty()) == Seq::<char>::empty(),
        search::escaped(seq![c]) == if seq![
            '$', '(', ')', '*', '+', '?', '[', '\\', ']', '^', '{', '|', '}',
        ].contains(c) {
            seq!['\\', c]
        } else {
            seq![c]
        },
    decreases b.len(),
{
    if b.len() == 0 {
        assert(a + b =~= a);
        assert(search::escaped(b) == b);
        assert(search::escaped(a) + b =~= search::escaped(a));
    } else {
        law_escaping_is_by_character(a, b.drop_last(), c);
        assert((a + b).drop_last() =~= a + b.drop_last());
        assert(search::escaped(a + b) =~= search::escaped(a) + search::escaped(b));
    }
    let one = seq![c];
    assert(one.drop_last() =~= Seq::empty());
    assert(search::escaped(one.drop_last()) =~= Seq::empty());
    assert(one.last() == c);
    assert(Seq::<char>::empty().push('\\').push(c) =~= seq!['\\', c]);
    assert(Seq::<char>::empty().push(c) =~= seq![c]);
    let all = seq!['$', '(', ')', '*', '+', '?', '[', '\\', ']', '^', '{', '|', '}'];
    assert(all[0] == '$' && all[1] == '(' && all[2] == ')' && all[3] == '*' && all[4] == '+');
    assert(all[5] == '?' && all[6] == '[' && all[7] == '\\' && all[8] == ']' && all[9] == '^');
    assert(all[10] == '{' && all[11] == '|' && all[12] == '}');
    if search::is_special(c) {
        assert(exists|i: int| 0 <= i < all.len() && all[i] == c);
    }
}

/// Erasing a word takes off the blanks at the end, and the word in front of them up
/// to the last space before it.
pub proof fn law_words_are_erased(front: Seq<char>, word: Seq<char>, blanks: Seq<char>)
    requires
        front.len() == 0 || front.last() == ' ',
        word.len() > 0,
        !word.contains(' '),
        !unicode::whitespace(word.last()),
        words::is_blank(blanks),
    ensures
        search::up_to_space(unicode::trim_end(front + word + blanks)) == front,
    decreases blanks.len(),
{
    let s = front + word + blanks;
    if blanks.len() > 0 {
        assert(unicode::whitespace(blanks[blanks.len() - 1]));
        let b = blanks.drop_last();
        assert forall|i: int| 0 <= i < b.len() implies unicode::whitespace(#[trigger] b[i]) by {
            assert(unicode::whitespace(blanks[i]));
        }
        assert(s.drop_last() =~= front + word + b);
        law_words_are_erased(front, word, b);
    } else {
        assert(s =~= front + word);
        assert(s.last() == word.last());
        lemma_up_to_space(front, word);
    }
}

proof fn lemma_up_to_space(front: Seq<char>, word: Seq<char>)
    requires
        front.len() == 0 || front.last() == ' ',
        !word.contains(' '),
    ensures
        search::up_to_space(front + word) == front,
    decreases word.len(),
{
    if word.len() == 0 {
        assert(front + word =~= front);
    } else {
        assert(word.contains(word[word.len() - 1]));
        let w = word.drop_last();
        assert forall|i: int| 0 <= i < w.len() implies w[i] != ' ' by {
            assert(word.contains(word[i]));
        }
        assert((front + word).drop_last() =~= front + w);
        lemma_up_to_space(front, w);
    }
}

/// A pattern is searched for as soon as it is not empty; an empty one puts back what
/// the search changed. Where there is none, nothing happens.
pub proof fn law_patterns_are_searched(s: SearchValue, i: int, vi_mode: bool, compiles: bool)
    ensures
        shows(s, i) && s.history[i].len() > 0 ==> search::update_step(s, vi_mode) is Search
            && search::updated(s, vi_mode, compiles) == (SearchValue { compiled: compiles, ..s }),
        shows(s, i) && s.history[i].len() == 0 && vi_mode ==> search::update_step(s, vi_mode)
            == (SearchStep::Reset { restore: Some((s.origin, s.display_offset_delta)) })
            && search::updated(s, vi_mode, compiles) == (SearchValue {
            compiled: false,
            focused_match: None,
            display_offset_delta: 0,
            ..s
        }),
        shows(s, i) && s.history[i].len() == 0 && !vi_mode ==> search::update_step(s, vi_mode)
            == (SearchStep::Reset { restore: None })
            && search::updated(s, vi_mode, compiles) == (SearchValue {
            compiled: false,
            focused_match: None,
            ..s
        }),
        s.history_index is None ==> search::update_step(s, vi_mode) is Rest
            && search::updated(s, vi_mode, compiles) == s,
{
}

/// What is found is focused, and the scrolling to it counted. What is not found
/// within a limit is looked for again, once, without it; beyond that the search is
/// put back.
pub proof fn law_misses_are_tried_again(
    s: SearchValue,
    m: Match,
    moved: i32,
    vi_mode: bool,
    scheduled: bool,
)
    requires
        i32::MIN <= s.display_offset_delta + moved <= i32::MAX,
    ensures
        search::found(s, m, moved as int).focused_match == Some(m),
        search::found(s, m, moved as int).display_offset_delta == s.display_offset_delta + moved,
        search::found(s, m, moved as int).history == s.history,
        search::missed_step(s, vi_mode, true, false) is SearchLater,
        search::missed_step(s, vi_mode, true, true) is Rest,
        search::missed_step(s, vi_mode, false, scheduled) is Reset,
        search::missed(s, vi_mode, true) == (SearchValue { focused_match: None, ..s }),
        search::missed(s, vi_mode, false).focused_match is None,
        vi_mode ==> search::missed(s, vi_mode, false).display_offset_delta == 0,
        !vi_mode ==> search::missed(s, vi_mode, false).display_offset_delta
            == s.display_offset_delta,
{
}

/// Confirming or cancelling a search without vi mode selects the match that is
/// focused, if there is one.
pub proof fn law_matches_are_selected(s: SearchValue, m: Match, delayed: bool)
    ensures
        s.focused_match == Some(m) ==> search::cancel_step(s, false) == SearchStep::Select(m)
            && search::confirm_step(s, false, delayed) == SearchStep::Select(m),
        s.focused_match is None ==> search::cancel_step(s, false) is Rest && search::confirm_step(
            s,
            false,
            delayed,
        ) is Rest,
        search::confirm_step(s, true, true) is SearchAll,
        search::confirm_step(s, true, false) is Rest,
        search::cancelled(s, false).history_index is None,
        search::cancelled(s, false).focused_match is None,
        search::cancelled(s, false).history == s.history,
        !search::cancelled(s, false).compiled,
{
}

/// Pixels in front of the grid belong to its first cell, and pixels behind it to
/// its last.
pub proof fn law_pixels_outside_point_to_the_edge(pixel: int, padding: int, size: int, count: int)
    requires
        size > 0,
        count > 0,
    ensures
        pixel < padding ==> mouse::cell_at(pixel, padding, size, count) == 0,
        pixel >= padding + count * size ==> mouse::cell_at(pixel, padding, size, count) == count
            - 1,
{
    if pixel >= padding + count * size {
        assert(count * size >= 0) by (nonlinear_arith)
            requires
                size > 0,
                count > 0,
        ;
        assert((pixel - padding) / size >= count) by (nonlinear_arith)
            requires
                size > 0,
                pixel - padding >= count * size,
        ;
    }
}

/// One click selects characters, two select a word, three a line; with control held
/// it is a block in each case, and without a click nothing.
pub proof fn law_clicks_decide_what_is_selected(control: bool)
    ensures
        mouse::expansion(ClickState::Idle, control) is None,
        mouse::expansion(ClickState::Click, false) == Some(SelectionType::Simple),
        mouse::expansion(ClickState::DoubleClick, false) == Some(SelectionType::Semantic),
        mouse::expansion(ClickState::TripleClick, false) == Some(SelectionType::Lines),
        forall|clicks: ClickState| #[trigger]
            mouse::expansion(clicks, true) == if clicks == ClickState::Idle {
                None
            } else {
                Some(SelectionType::Block)
            },
{
}

/// A word ends where its cell shows no separator; the search for it goes on past
/// separators, and comes to nothing where it is back at its end.
pub proof fn law_separators_are_passed(
    w: SemanticWord,
    end: Point,
    cell: WordCell,
    before: char,
    separators: Seq<char>,
)
    ensures
        ({
            let c = if cell.wide_spacer {
                before
            } else {
                cell.c
            };
            let step = word::word_step(w, end, cell, before, separators);
            &&& w.moved && end == w.search_end ==> step is Empty
            &&& !(w.moved && end == w.search_end) && separators.contains(c) ==> step is Next
            &&& !(w.moved && end == w.search_end) && !separators.contains(c) ==> step is Word
        }),
{
}

/// A limit counts only where there are that many lines; backward is the opposite of
/// forward, and back.
pub proof fn law_limits_fit_the_lines(limit: usize, lines: usize)
    ensures
        limit <= lines ==> search::limit_of(Some(limit), lines) == Some(limit),
        limit > lines ==> search::limit_of(Some(limit), lines) is None,
        search::limit_of(None, lines) is None,
        search::opposite(Direction::Left) == Direction::Right,
        search::opposite(Direction::Right) == Direction::Left,
{
}

} // verus!
