//! The search bar: the pattern that is typed, the history of patterns, and where
//! a search starts and returns to.
//!
//! The grid and the compiled pattern belong to the terminal. The state asks for
//! what has to be done there, and takes what came of it.

use crate::display::overlay::Direction;
use crate::text;
use crate::unicode;
use vstd::prelude::*;

verus! {

broadcast use vstd::string::group_string_axioms;

/// Maximum number of lines searched at once while the pattern is still typed.
pub const MAX_SEARCH_WHILE_TYPING: usize = 1000;

/// Maximum number of patterns kept in the history.
pub const MAX_SEARCH_HISTORY_SIZE: usize = 255;

/// A cell of the grid. Lines above the screen are negative.
#[derive(Debug, Clone, Copy, PartialEq, Eq, Structural)]
pub struct Point {
    pub line: i32,
    pub column: usize,
}

/// The cells of a match.
#[derive(Debug, Clone, Copy, PartialEq, Eq, Structural)]
pub struct Match {
    pub start: Point,
    pub end: Point,
}

/// What a search reads off the terminal when it starts.
#[derive(Debug, Clone, Copy, PartialEq, Eq, Structural)]
pub struct GridView {
    pub vi_mode: bool,
    pub vi_cursor: Point,
    /// Line of the terminal's cursor.
    pub cursor_line: i32,
    pub screen_lines: usize,
    /// How many lines the viewport is scrolled up.
    pub display_offset: i32,
    pub bottommost_line: i32,
    pub last_column: usize,
}

/// Search state.
#[derive(Debug)]
pub struct SearchState {
    pub direction: Direction,
    /// Current position in the search history, while a search is active.
    pub history_index: Option<usize>,
    /// Change in display offset since the beginning of the search.
    pub display_offset_delta: i32,
    /// Search origin.
    pub origin: Point,
    /// Focused match during active search.
    pub focused_match: Option<Match>,
    /// Patterns, the latest first. During an active search, the first one is the
    /// user's current input.
    pub history: Vec<String>,
    /// Whether the terminal holds a compiled pattern.
    pub compiled: bool,
}

/// The state of a search as a value.
#[verifier::ext_equal]
pub struct SearchValue {
    pub direction: Direction,
    pub history_index: Option<usize>,
    pub display_offset_delta: i32,
    pub origin: Point,
    pub focused_match: Option<Match>,
    pub history: Seq<Seq<char>>,
    pub compiled: bool,
}

pub open spec fn texts(v: Seq<String>) -> Seq<Seq<char>> {
    v.map_values(|s: String| s@)
}

impl SearchValue {
    /// A search that is active shows a pattern of the history, which is not too
    /// long.
    pub open spec fn wf(self) -> bool {
        &&& self.history.len() <= MAX_SEARCH_HISTORY_SIZE
        &&& self.history_index matches Some(i) ==> i < self.history.len()
    }

    /// The pattern that is shown.
    pub open spec fn pattern(self) -> Option<Seq<char>> {
        match self.history_index {
            Some(i) => if i < self.history.len() {
                Some(self.history[i as int])
            } else {
                None
            },
            None => None,
        }
    }

    pub open spec fn active(self) -> bool {
        self.history_index is Some
    }
}

impl SearchState {
    pub open spec fn value(&self) -> SearchValue {
        SearchValue {
            direction: self.direction,
            history_index: self.history_index,
            display_offset_delta: self.display_offset_delta,
            origin: self.origin,
            focused_match: self.focused_match,
            history: texts(self.history@),
            compiled: self.compiled,
        }
    }
}

/// The state before the first search.
pub open spec fn unsearched() -> SearchValue {
    SearchValue {
        direction: Direction::Right,
        history_index: None,
        display_offset_delta: 0,
        origin: Point { line: 0, column: 0 },
        focused_match: None,
        history: Seq::empty(),
        compiled: false,
    }
}

impl Default for SearchState {
    fn default() -> (r: SearchState)
        ensures
            r.value() == unsearched(),
    {
        let r = SearchState {
            direction: Direction::Right,
            history_index: None,
            display_offset_delta: 0,
            origin: Point { line: 0, column: 0 },
            focused_match: None,
            history: Vec::new(),
            compiled: false,
        };
        assert(r.value() =~= unsearched());
        r
    }
}

/// The history when a search starts: an empty pattern comes to its front, unless
/// one stands there already, and the oldest pattern makes way.
pub open spec fn fresh_history(h: Seq<Seq<char>>) -> Seq<Seq<char>> {
    if h.len() == 0 || h[0].len() > 0 {
        let longer = seq![Seq::<char>::empty()] + h;
        if longer.len() > MAX_SEARCH_HISTORY_SIZE {
            longer.take(MAX_SEARCH_HISTORY_SIZE as int)
        } else {
            longer
        }
    } else {
        h
    }
}

/// Whether the lines that a start computes with fit.
pub open spec fn is_measurable(g: GridView) -> bool {
    &&& g.vi_cursor.line > i32::MIN
    &&& 0 <= g.cursor_line
    &&& 0 <= g.display_offset
    &&& 0 <= g.bottommost_line
}

/// Where a search starts: at the cursor in vi mode, one line up where content
/// moves upward on the start; else at the edge of the viewport that the search
/// leads away from.
pub open spec fn start_origin(g: GridView, direction: Direction) -> Point {
    if g.vi_mode {
        if g.cursor_line + 1 == g.screen_lines {
            Point { line: (g.vi_cursor.line - 1) as i32, ..g.vi_cursor }
        } else {
            g.vi_cursor
        }
    } else {
        let top = -g.display_offset - 1;
        match direction {
            Direction::Right => Point { line: top as i32, column: 0 },
            Direction::Left => Point {
                line: (top + g.bottommost_line) as i32,
                column: g.last_column,
            },
        }
    }
}

/// The state after a search was started.
pub open spec fn started(s: SearchValue, g: GridView, direction: Direction) -> SearchValue {
    SearchValue {
        history: fresh_history(s.history),
        history_index: Some(0),
        direction,
        focused_match: None,
        origin: start_origin(g, direction),
        display_offset_delta: if g.vi_mode {
            0
        } else {
            s.display_offset_delta
        },
        ..s
    }
}

/// Whether a character erases the last one.
pub open spec fn is_erasing(c: char) -> bool {
    c == '\x08' || c == '\x7f'
}

/// Whether a character can stand in a pattern.
pub open spec fn is_typable(c: char) -> bool {
    ' ' <= c <= '~' || '\u{a0}' <= c
}

/// The state with a pattern of the history taken over as the input.
pub open spec fn taken_over(s: SearchValue) -> SearchValue {
    match s.history_index {
        Some(i) => if i == 0 {
            s
        } else {
            SearchValue {
                history: s.history.update(0, s.history[i as int]),
                history_index: Some(0),
                ..s
            }
        },
        None => s,
    }
}

/// A pattern after a character was typed.
pub open spec fn retyped(p: Seq<char>, c: char) -> Seq<char> {
    if is_erasing(c) {
        if p.len() == 0 {
            p
        } else {
            p.drop_last()
        }
    } else if is_typable(c) {
        p.push(c)
    } else {
        p
    }
}

/// The state after a character was typed into the search bar.
pub open spec fn typed(s: SearchValue, c: char) -> SearchValue {
    if s.history_index is None {
        s
    } else {
        let t = taken_over(s);
        SearchValue { history: t.history.update(0, retyped(t.history[0], c)), ..t }
    }
}

/// The state after a text was typed.
pub open spec fn typed_text(s: SearchValue, text: Seq<char>) -> SearchValue
    decreases text.len(),
{
    if text.len() == 0 {
        s
    } else {
        typed(typed_text(s, text.drop_last()), text.last())
    }
}

/// Whether a character means something in a pattern.
pub open spec fn is_special(c: char) -> bool {
    c == '$' || '(' <= c <= '+' || c == '?' || '[' <= c <= '^' || '{' <= c <= '}'
}

/// The pattern that matches a text.
pub open spec fn escaped(text: Seq<char>) -> Seq<char>
    decreases text.len(),
{
    if text.len() == 0 {
        text
    } else {
        let before = escaped(text.drop_last());
        if is_special(text.last()) {
            before.push('\\').push(text.last())
        } else {
            before.push(text.last())
        }
    }
}

/// What a text has behind its last space, cut off.
pub open spec fn up_to_space(s: Seq<char>) -> Seq<char>
    decreases s.len(),
{
    if s.len() == 0 || s.last() == ' ' {
        s
    } else {
        up_to_space(s.drop_last())
    }
}

/// The state with another text for the pattern that is shown.
pub open spec fn with_pattern(s: SearchValue, i: usize, p: Seq<char>) -> SearchValue {
    SearchValue { history: s.history.update(i as int, p), ..s }
}

/// How many lines a search is limited to: a limit counts only where there are
/// enough lines to run into it.
pub open spec fn limit_of(limit: Option<usize>, total_lines: usize) -> Option<usize> {
    match limit {
        Some(l) => if l <= total_lines {
            Some(l)
        } else {
            None
        },
        None => None,
    }
}

/// What has to be done in the terminal.
#[derive(Debug, Clone, Copy, PartialEq, Eq)]
pub enum SearchStep {
    /// Nothing.
    Rest,
    /// Forget the pattern and the timer of a delayed search. In vi mode, put the
    /// cursor back to a point and scroll by a number of lines.
    Reset { restore: Option<(Point, i32)> },
    /// Compile the pattern, and search from the origin.
    Search,
    /// Search again after a while.
    SearchLater,
    /// Select the cells of a match.
    Select(Match),
    /// Search all lines, then leave the search.
    SearchAll,
}

/// What brings the terminal back to where it was before the search.
pub open spec fn restoring(s: SearchValue, vi_mode: bool) -> SearchStep {
    SearchStep::Reset {
        restore: if vi_mode {
            Some((s.origin, s.display_offset_delta))
        } else {
            None
        },
    }
}

pub open spec fn restored(s: SearchValue, vi_mode: bool) -> SearchValue {
    SearchValue {
        focused_match: None,
        display_offset_delta: if vi_mode {
            0
        } else {
            s.display_offset_delta
        },
        ..s
    }
}

/// What has to be done after the pattern changed.
pub open spec fn update_step(s: SearchValue, vi_mode: bool) -> SearchStep {
    match s.pattern() {
        None => SearchStep::Rest,
        Some(p) => if p.len() == 0 {
            restoring(s, vi_mode)
        } else {
            SearchStep::Search
        },
    }
}

pub open spec fn updated(s: SearchValue, vi_mode: bool, compiles: bool) -> SearchValue {
    match s.pattern() {
        None => s,
        Some(p) => if p.len() == 0 {
            SearchValue { compiled: false, ..restored(s, vi_mode) }
        } else {
            SearchValue { compiled: compiles, ..s }
        },
    }
}

/// The state after a match was found.
pub open spec fn found(s: SearchValue, m: Match, moved: int) -> SearchValue {
    SearchValue {
        focused_match: Some(m),
        display_offset_delta: (s.display_offset_delta + moved) as i32,
        ..s
    }
}

/// What has to be done where no match was found.
pub open spec fn missed_step(s: SearchValue, vi_mode: bool, limited: bool, scheduled: bool) ->
    SearchStep {
    if !limited {
        restoring(s, vi_mode)
    } else if scheduled {
        SearchStep::Rest
    } else {
        SearchStep::SearchLater
    }
}

pub open spec fn missed(s: SearchValue, vi_mode: bool, limited: bool) -> SearchValue {
    if !limited {
        restored(s, vi_mode)
    } else {
        SearchValue { focused_match: None, ..s }
    }
}

/// The state after the search was left.
pub open spec fn left(s: SearchValue) -> SearchValue {
    SearchValue { history_index: None, focused_match: None, ..s }
}

/// What cancelling a search asks for.
pub open spec fn cancel_step(s: SearchValue, vi_mode: bool) -> SearchStep {
    if vi_mode {
        restoring(s, vi_mode)
    } else {
        match s.focused_match {
            Some(m) => SearchStep::Select(m),
            None => SearchStep::Rest,
        }
    }
}

pub open spec fn cancelled(s: SearchValue, vi_mode: bool) -> SearchValue {
    left(
        SearchValue {
            compiled: false,
            ..if vi_mode {
                restored(s, vi_mode)
            } else {
                s
            }
        },
    )
}

/// What confirming a search asks for; `delayed` tells whether a search is still
/// waiting to be done.
pub open spec fn confirm_step(s: SearchValue, vi_mode: bool, delayed: bool) -> SearchStep {
    if !vi_mode {
        cancel_step(s, vi_mode)
    } else if delayed {
        SearchStep::SearchAll
    } else {
        SearchStep::Rest
    }
}

fn is_special_char(c: char) -> (r: bool)
    ensures
        r == is_special(c),
{
    c == '$' || ('(' <= c && c <= '+') || c == '?' || ('[' <= c && c <= '^') || ('{' <= c && c
        <= '}')
}

impl SearchState {
    /// Search pattern if a search is active.
    pub fn regex(&self) -> (r: Option<&String>)
        ensures
            match r {
                Some(p) => self.value().pattern() == Some(p@),
                None => self.value().pattern() is None,
            },
    {
        match self.history_index {
            Some(i) => if i < self.history.len() {
                Some(&self.history[i])
            } else {
                None
            },
            None => None,
        }
    }

    /// Direction of the search from the search origin.
    pub fn direction(&self) -> (r: Direction)
        ensures
            r == self.direction,
    {
        self.direction
    }

    /// Focused match during a search.
    pub fn focused_match(&self) -> (r: Option<Match>)
        ensures
            r == self.focused_match,
    {
        self.focused_match
    }

    /// Clears the focused match.
    pub fn clear_focused_match(&mut self)
        ensures
            final(self).value() == (SearchValue { focused_match: None, ..old(self).value() }),
    {
        self.focused_match = None;
    }

    pub fn search_active(&self) -> (r: bool)
        ensures
            r == self.value().active(),
    {
        self.history_index.is_some()
    }

    fn set_pattern(&mut self, i: usize, p: String)
        requires
            i < old(self).history@.len(),
        ensures
            final(self).value() == with_pattern(old(self).value(), i, p@),
    {
        let ghost before = self.history@;
        self.history.set(i, p);
        assert(texts(self.history@) =~= texts(before).update(i as int, p@));
    }

    /// Starts a search.
    pub fn start_search(&mut self, direction: Direction, g: &GridView)
        requires
            old(self).value().wf(),
            is_measurable(*g),
        ensures
            final(self).value() == started(old(self).value(), *g, direction),
            final(self).value().wf(),
    {
        let ghost before = self.history@;
        let wants_entry: bool = self.history.len() == 0 || !self.history[0].as_str().is_empty();
        if wants_entry {
            self.history.insert(0, String::new());
            assert(texts(self.history@) =~= seq![Seq::<char>::empty()] + texts(before));
            let ghost longer = self.history@;
            if self.history.len() > MAX_SEARCH_HISTORY_SIZE {
                self.history.truncate(MAX_SEARCH_HISTORY_SIZE);
                assert(texts(self.history@) =~= texts(longer).take(MAX_SEARCH_HISTORY_SIZE as int));
            }
        } else {
            assert(texts(before)[0] == before[0]@);
        }
        assert(texts(self.history@) =~= fresh_history(texts(before)));
        self.history_index = Some(0);
        self.direction = direction;
        self.focused_match = None;
        if g.vi_mode {
            self.origin = g.vi_cursor;
            self.display_offset_delta = 0;
            if (g.cursor_line as u64) + 1 == g.screen_lines as u64 {
                self.origin = Point { line: g.vi_cursor.line - 1, column: g.vi_cursor.column };
            }
        } else {
            let top: i32 = -g.display_offset - 1;
            self.origin =
            match direction {
                Direction::Right => Point { line: top, column: 0 },
                Direction::Left => Point { line: top + g.bottommost_line, column: g.last_column },
            };
        }
    }

    fn take_over(&mut self)
        requires
            old(self).value().wf(),
        ensures
            final(self).value() == taken_over(old(self).value()),
            final(self).value().wf(),
    {
        if let Some(i) = self.history_index {
            if i > 0 {
                let p = self.history[i].clone();
                self.set_pattern(0, p);
                self.history_index = Some(0);
            }
        }
    }

    /// Types a character. Returns whether the search has to be updated: it has
    /// not where no search is active, or the character cannot be typed.
    pub fn search_input(&mut self, c: char) -> (r: bool)
        requires
            old(self).value().wf(),
        ensures
            final(self).value() == typed(old(self).value(), c),
            final(self).value().wf(),
            r == (old(self).value().active() && (is_erasing(c) || is_typable(c))),
    {
        if self.history_index.is_none() {
            return false;
        }
        self.take_over();
        let ghost t = self.value();
        let mut p = self.history[0].clone();
        assert(t.history[0] == p@);
        let answer: bool = if c == '\x08' || c == '\x7f' {
            let _ = p.pop();
            true
        } else if (' ' <= c && c <= '~') || '\u{a0}' <= c {
            p.push(c);
            true
        } else {
            false
        };
        assert(p@ == retyped(t.history[0], c));
        self.set_pattern(0, p);
        answer
    }

    /// Types a text.
    pub fn search_input_text(&mut self, text: &str) -> (r: bool)
        requires
            old(self).value().wf(),
        ensures
            final(self).value() == typed_text(old(self).value(), text@),
            final(self).value().wf(),
            r == (old(self).value().active() && exists|i: int|
                0 <= i < text@.len() && (is_erasing(#[trigger] text@[i]) || is_typable(text@[i]))),
    {
        let v = text::chars_of(text);
        let ghost first = self.value();
        let mut changed = false;
        let mut i: usize = 0;
        assert(v@.take(0) =~= Seq::empty());
        while i < v.len()
            invariant
                i <= v@.len(),
                v@ == text@,
                self.value() == typed_text(first, v@.take(i as int)),
                self.value().wf(),
                self.value().active() == first.active(),
                changed == (first.active() && exists|j: int|
                    0 <= j < i && (is_erasing(#[trigger] v@[j]) || is_typable(v@[j]))),
            decreases v@.len() - i,
        {
            assert(v@.take(i + 1).drop_last() =~= v@.take(i as int));
            assert(v@.take(i + 1).last() == v@[i as int]);
            let step = self.search_input(v[i]);
            if step {
                changed = true;
                assert(is_erasing(v@[i as int]) || is_typable(v@[i as int]));
            }
            i += 1;
        }
        assert(v@.take(i as int) =~= text@);
        changed
    }

    /// Types the pattern that matches a text.
    pub fn seed(&mut self, text: &str)
        requires
            old(self).value().wf(),
        ensures
            final(self).value() == typed_text(old(self).value(), escaped(text@)),
            final(self).value().wf(),
    {
        let v = text::chars_of(text);
        let ghost first = self.value();
        let mut i: usize = 0;
        assert(v@.take(0) =~= Seq::empty());
        while i < v.len()
            invariant
                i <= v@.len(),
                v@ == text@,
                self.value() == typed_text(first, escaped(v@.take(i as int))),
                self.value().wf(),
            decreases v@.len() - i,
        {
            assert(v@.take(i + 1).drop_last() =~= v@.take(i as int));
            assert(v@.take(i + 1).last() == v@[i as int]);
            let ghost before = escaped(v@.take(i as int));
            let c = v[i];
            if is_special_char(c) {
                assert(before.push('\\').drop_last() =~= before);
                let _ = self.search_input('\\');
                assert(self.value() == typed_text(first, before.push('\\')));
                assert(before.push('\\').push(c).drop_last() =~= before.push('\\'));
            } else {
                assert(before.push(c).drop_last() =~= before);
            }
            let _ = self.search_input(c);
            i += 1;
        }
        assert(v@.take(i as int) =~= text@);
    }

    /// Erases the last word of the pattern that is shown. Returns whether the
    /// search has to be updated.
    pub fn search_pop_word(&mut self) -> (r: bool)
        requires
            old(self).value().wf(),
        ensures
            r == old(self).value().active(),
            match old(self).history_index {
                Some(i) => final(self).value() == with_pattern(
                    old(self).value(),
                    i,
                    up_to_space(unicode::trim_end(old(self).value().history[i as int])),
                ),
                None => final(self).value() == old(self).value(),
            },
            final(self).value().wf(),
    {
        let index: usize = match self.history_index {
            Some(i) => i,
            None => return false,
        };
        let v = text::chars_of(self.history[index].as_str());
        assert(self.value().history[index as int] == v@);
        let mut to: usize = unicode::trim_end_at(v.as_slice(), 0);
        assert(v@.skip(0) =~= v@);
        assert(v@.subrange(0, to as int) =~= v@.take(to as int));
        let ghost trimmed = unicode::trim_end(v@);
        while to > 0 && v[to - 1] != ' '
            invariant
                to <= v@.len(),
                up_to_space(trimmed) == up_to_space(v@.take(to as int)),
            decreases to,
        {
            assert(v@.take(to as int).drop_last() =~= v@.take(to - 1));
            to -= 1;
        }
        let p = text::string_of_range(v.as_slice(), 0, to);
        assert(p@ =~= v@.take(to as int));
        self.set_pattern(index, p);
        true
    }

    /// Goes to the previous pattern of the history. Returns whether there is one.
    pub fn search_history_previous(&mut self) -> (r: bool)
        requires
            old(self).value().wf(),
        ensures
            r == (old(self).history_index matches Some(i) && i + 1 < old(self).history@.len()),
            final(self).value() == (SearchValue {
                history_index: if r {
                    Some((old(self).history_index->0 + 1) as usize)
                } else {
                    old(self).history_index
                },
                ..old(self).value()
            }),
            final(self).value().wf(),
    {
        let len: usize = self.history.len();
        match self.history_index {
            Some(i) => if len > 0 && i < len - 1 {
                self.history_index = Some(i + 1);
                true
            } else {
                false
            },
            None => false,
        }
    }

    /// Goes to the next pattern of the history. Returns whether there is one.
    pub fn search_history_next(&mut self) -> (r: bool)
        requires
            old(self).value().wf(),
        ensures
            r == (old(self).history_index matches Some(i) && i > 0),
            final(self).value() == (SearchValue {
                history_index: if r {
                    Some((old(self).history_index->0 - 1) as usize)
                } else {
                    old(self).history_index
                },
                ..old(self).value()
            }),
            final(self).value().wf(),
    {
        match self.history_index {
            Some(i) => if i > 0 {
                self.history_index = Some(i - 1);
                true
            } else {
                false
            },
            None => false,
        }
    }

    fn search_reset_state(&mut self, vi_mode: bool) -> (r: SearchStep)
        ensures
            r == restoring(old(self).value(), vi_mode),
            final(self).value() == restored(old(self).value(), vi_mode),
    {
        let restore: Option<(Point, i32)> = if vi_mode {
            Some((self.origin, self.display_offset_delta))
        } else {
            None
        };
        self.focused_match = None;
        if vi_mode {
            self.display_offset_delta = 0;
        }
        SearchStep::Reset { restore }
    }

    /// The pattern changed: an empty one ends the search. `compiles` tells
    /// whether the terminal accepts the pattern.
    pub fn update_search(&mut self, vi_mode: bool, compiles: bool) -> (r: SearchStep)
        ensures
            r == update_step(old(self).value(), vi_mode),
            final(self).value() == updated(old(self).value(), vi_mode, compiles),
    {
        let is_empty: bool = match self.regex() {
            Some(p) => p.as_str().is_empty(),
            None => return SearchStep::Rest,
        };
        if is_empty {
            let r = self.search_reset_state(vi_mode);
            self.compiled = false;
            r
        } else {
            self.compiled = compiles;
            SearchStep::Search
        }
    }

    /// A match was found, and the viewport moved to it.
    pub fn match_found(&mut self, m: Match, old_offset: i32, new_offset: i32)
        requires
            i32::MIN <= old_offset - new_offset <= i32::MAX,
            i32::MIN <= old(self).display_offset_delta + (old_offset - new_offset) <= i32::MAX,
        ensures
            final(self).value() == found(old(self).value(), m, old_offset - new_offset),
    {
        self.focused_match = Some(m);
        self.display_offset_delta = self.display_offset_delta + (old_offset - new_offset);
    }

    /// No match was found. The viewport is reset only where there is none at all.
    pub fn match_missed(&mut self, vi_mode: bool, limited: bool, scheduled: bool) -> (r: SearchStep)
        ensures
            r == missed_step(old(self).value(), vi_mode, limited, scheduled),
            final(self).value() == missed(old(self).value(), vi_mode, limited),
    {
        if !limited {
            return self.search_reset_state(vi_mode);
        }
        self.focused_match = None;
        if scheduled {
            SearchStep::Rest
        } else {
            SearchStep::SearchLater
        }
    }

    /// The user scrolled during the search.
    pub fn scrolled(&mut self, lines_changed: i32)
        requires
            i32::MIN <= old(self).display_offset_delta + lines_changed <= i32::MAX,
        ensures
            final(self).value() == (SearchValue {
                display_offset_delta: if old(self).value().active() {
                    (old(self).display_offset_delta + lines_changed) as i32
                } else {
                    old(self).display_offset_delta
                },
                ..old(self).value()
            }),
    {
        if self.search_active() {
            self.display_offset_delta = self.display_offset_delta + lines_changed;
        }
    }

    /// Leaves the search.
    pub fn exit_search(&mut self)
        ensures
            final(self).value() == left(old(self).value()),
    {
        self.history_index = None;
        self.focused_match = None;
    }

    /// Cancels the search: in vi mode everything returns to where it was, else
    /// the focused match is selected.
    pub fn cancel_search(&mut self, vi_mode: bool) -> (r: SearchStep)
        ensures
            r == cancel_step(old(self).value(), vi_mode),
            final(self).value() == cancelled(old(self).value(), vi_mode),
    {
        let r = if vi_mode {
            self.search_reset_state(vi_mode)
        } else {
            match self.focused_match {
                Some(m) => SearchStep::Select(m),
                None => SearchStep::Rest,
            }
        };
        self.compiled = false;
        self.exit_search();
        r
    }

    /// Confirms the search, which is the same as to cancel it outside of vi mode.
    /// A search that was put off is to be done first; its result is reported
    /// before the search is left.
    pub fn confirm_search(&mut self, vi_mode: bool, delayed: bool) -> (r: SearchStep)
        ensures
            r == confirm_step(old(self).value(), vi_mode, delayed),
            final(self).value() == (if !vi_mode {
                cancelled(old(self).value(), vi_mode)
            } else if delayed {
                old(self).value()
            } else {
                left(old(self).value())
            }),
    {
        if !vi_mode {
            return self.cancel_search(vi_mode);
        }
        if delayed {
            return SearchStep::SearchAll;
        }
        self.exit_search();
        SearchStep::Rest
    }

    /// Moves the origin to the neighbour of the focused match, where there is
    /// one: the cell behind it when searching to the right, else the one before
    /// it.
    pub fn advance_search_origin(&mut self, direction: Direction, before: Point, behind: Point)
        ensures
            final(self).value() == (if old(self).focused_match is Some {
                SearchValue {
                    origin: match direction {
                        Direction::Right => behind,
                        Direction::Left => before,
                    },
                    display_offset_delta: 0,
                    ..old(self).value()
                }
            } else {
                old(self).value()
            }),
    {
        if self.focused_match.is_some() {
            self.display_offset_delta = 0;
            self.origin =
            match direction {
                Direction::Right => behind,
                Direction::Left => before,
            };
        }
    }

    /// Where the origin goes after an advance, right in front of the focused
    /// match: then the match stays where it is while the pattern is modified.
    pub fn origin_at_match(&self) -> (r: Option<Point>)
        ensures
            r == match self.focused_match {
                Some(m) => match self.direction {
                    Direction::Right => Some(m.start),
                    Direction::Left => Some(m.end),
                },
                None => None,
            },
    {
        match self.focused_match {
            Some(m) => match self.direction {
                Direction::Right => Some(m.start),
                Direction::Left => Some(m.end),
            },
            None => None,
        }
    }

    /// Stores the origin, with how far the viewport had to be scrolled to it.
    /// Returns how far it has to be scrolled back.
    pub fn set_origin(&mut self, origin: Point, old_offset: i32, new_offset: i32) -> (r: i32)
        requires
            i32::MIN < new_offset - old_offset <= i32::MAX,
        ensures
            final(self).value() == (SearchValue {
                origin,
                display_offset_delta: (new_offset - old_offset) as i32,
                ..old(self).value()
            }),
            r == old_offset - new_offset,
    {
        self.display_offset_delta = new_offset - old_offset;
        self.origin = origin;
        -self.display_offset_delta
    }
}

/// How many lines a search is limited to.
pub fn search_limit(limit: Option<usize>, total_lines: usize) -> (r: Option<usize>)
    ensures
        r == limit_of(limit, total_lines),
{
    match limit {
        Some(l) => if l <= total_lines {
            Some(l)
        } else {
            None
        },
        None => None,
    }
}

/// Vi inline search state.
#[derive(Debug, Clone, Copy, PartialEq, Eq, Structural)]
pub struct InlineSearchState {
    /// Whether inline search is currently waiting for search character input.
    pub char_pending: bool,
    pub character: Option<char>,
    pub direction: Direction,
    pub stop_short: bool,
}

impl Default for InlineSearchState {
    fn default() -> (r: InlineSearchState)
        ensures
            r == (InlineSearchState {
                char_pending: false,
                character: None,
                direction: Direction::Right,
                stop_short: false,
            }),
    {
        InlineSearchState {
            char_pending: false,
            character: None,
            direction: Direction::Right,
            stop_short: false,
        }
    }
}

pub open spec fn opposite(d: Direction) -> Direction {
    match d {
        Direction::Left => Direction::Right,
        Direction::Right => Direction::Left,
    }
}

impl InlineSearchState {
    /// Starts an inline search, which waits for its character.
    pub fn start_inline_search(&mut self, direction: Direction, stop_short: bool)
        ensures
            *final(self) == (InlineSearchState {
                char_pending: true,
                character: None,
                direction,
                stop_short,
            }),
    {
        self.stop_short = stop_short;
        self.direction = direction;
        self.char_pending = true;
        self.character = None;
    }

    /// Takes the character to search for. Input without text is ignored. Returns
    /// whether a search has to be done.
    pub fn inline_search_input(&mut self, text: &str) -> (r: bool)
        ensures
            r == (text@.len() > 0),
            *final(self) == (if text@.len() > 0 {
                InlineSearchState {
                    char_pending: false,
                    character: Some(text@[0]),
                    ..*old(self)
                }
            } else {
                *old(self)
            }),
    {
        let v = text::chars_of(text);
        if v.len() == 0 {
            return false;
        }
        self.char_pending = false;
        self.character = Some(v[0]);
        true
    }

    /// Where the next matching character is looked for, if one is known.
    pub fn inline_search_next(&self) -> (r: Option<(char, Direction)>)
        ensures
            r == match self.character {
                Some(c) => Some((c, self.direction)),
                None => None,
            },
    {
        match self.character {
            Some(c) => Some((c, self.direction)),
            None => None,
        }
    }

    /// Where the previous matching character is looked for, if one is known.
    pub fn inline_search_previous(&self) -> (r: Option<(char, Direction)>)
        ensures
            r == match self.character {
                Some(c) => Some((c, opposite(self.direction))),
                None => None,
            },
    {
        match self.character {
            Some(c) => match self.direction {
                Direction::Left => Some((c, Direction::Right)),
                Direction::Right => Some((c, Direction::Left)),
            },
            None => None,
        }
    }
}

/// Whatever is done, an active search shows a pattern of the history, and the
/// history stays short.
pub proof fn law_searches_stay_well_formed(
    s: SearchValue,
    g: GridView,
    direction: Direction,
    c: char,
    vi_mode: bool,
    compiles: bool,
)
    requires
        s.wf(),
    ensures
        started(s, g, direction).wf(),
        started(s, g, direction).pattern() == Some(Seq::<char>::empty()),
        typed(s, c).wf(),
        updated(s, vi_mode, compiles).wf(),
        missed(s, vi_mode, true).wf(),
        missed(s, vi_mode, false).wf(),
        left(s).wf(),
        cancelled(s, vi_mode).wf(),
{
    assert(fresh_history(s.history)[0] =~= Seq::<char>::empty());
}

/// Backspace undoes a typed character.
pub proof fn law_backspace_undoes_typing(s: SearchValue, c: char)
    requires
        s.wf(),
        s.history_index == Some(0usize),
        is_typable(c),
    ensures
        typed(typed(s, c), '\x08') == s,
{
    let p = s.history[0];
    assert(p.push(c).drop_last() =~= p);
    assert(typed(typed(s, c), '\x08').history =~= s.history);
    assert(typed(typed(s, c), '\x08') =~= s);
}

/// Previewing a pattern of the history leaves the history alone; only typing
/// replaces the current input, and then with the pattern that was shown.
pub proof fn law_history_is_kept_until_typing(s: SearchValue, i: usize, c: char)
    requires
        s.wf(),
        s.history_index == Some(i),
        is_typable(c),
    ensures
        typed(s, c).pattern() == Some(s.pattern()->0.push(c)),
        forall|j: int|
            1 <= j < s.history.len() ==> #[trigger] typed(s, c).history[j] == s.history[j],
{
}

/// A search that starts anew keeps the earlier patterns behind its own, unless
/// the history is full.
pub proof fn law_starting_keeps_the_history(s: SearchValue, g: GridView, direction: Direction)
    requires
        s.wf(),
        0 < s.history.len() < MAX_SEARCH_HISTORY_SIZE,
        s.history[0].len() > 0,
    ensures
        started(s, g, direction).history.skip(1) == s.history,
{
    assert(fresh_history(s.history).skip(1) =~= s.history);
}

/// Cancelling a search in vi mode asks to put the cursor and the viewport back to
/// where they were when it started.
pub proof fn law_cancelling_restores(s: SearchValue)
    ensures
        cancel_step(s, true) == (SearchStep::Reset {
            restore: Some((s.origin, s.display_offset_delta)),
        }),
        !cancelled(s, true).active(),
        cancelled(s, true).display_offset_delta == 0,
{
}

/// Typing a printable text into an empty search bar enters it.
pub proof fn law_typing_enters_the_text(s: SearchValue, text: Seq<char>)
    requires
        s.wf(),
        s.history_index == Some(0usize),
        s.history[0].len() == 0,
        forall|i: int| 0 <= i < text.len() ==> is_typable(#[trigger] text[i]),
    ensures
        typed_text(s, text) == with_pattern(s, 0, text),
    decreases text.len(),
{
    if text.len() == 0 {
        assert(with_pattern(s, 0, text).history =~= s.history) by {
            assert(s.history[0] =~= text);
        }
        assert(with_pattern(s, 0, text) =~= s);
    } else {
        let front = text.drop_last();
        assert forall|i: int| 0 <= i < front.len() implies is_typable(#[trigger] front[i]) by {
            assert(front[i] == text[i]);
        }
        law_typing_enters_the_text(s, front);
        let t = with_pattern(s, 0, front);
        assert(front.push(text.last()) =~= text);
        assert(typed(t, text.last()).history =~= with_pattern(s, 0, text).history);
        assert(typed(t, text.last()) =~= with_pattern(s, 0, text));
    }
}

/// What a pattern that was made to match a text matches.
pub open spec fn unescaped(p: Seq<char>) -> Seq<char>
    decreases p.len(),
{
    if p.len() == 0 {
        p
    } else if p.len() >= 2 && p[p.len() - 2] == '\\' && is_special(p.last()) {
        unescaped(p.take(p.len() - 2)).push(p.last())
    } else {
        unescaped(p.drop_last()).push(p.last())
    }
}

/// A seed is read back as the text it was made from.
pub proof fn law_seeds_read_back(text: Seq<char>)
    ensures
        unescaped(escaped(text)) == text,
    decreases text.len(),
{
    if text.len() > 0 {
        let front = text.drop_last();
        let before = escaped(front);
        let c = text.last();
        law_seeds_read_back(front);
        if is_special(c) {
            let p = before.push('\\').push(c);
            assert(p.take(p.len() - 2) =~= before);
        } else {
            let p = before.push(c);
            assert(p.drop_last() =~= before);
        }
        assert(front.push(c) =~= text);
    }
}

} // verus!
