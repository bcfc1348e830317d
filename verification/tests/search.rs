use nebula::display::overlay::Direction;
use nebula::event::search::{
    search_limit, GridView, InlineSearchState, Match, Point, SearchState, SearchStep,
    MAX_SEARCH_HISTORY_SIZE,
};

fn view() -> GridView {
    GridView {
        vi_mode: false,
        vi_cursor: Point { line: 3, column: 4 },
        cursor_line: 9,
        screen_lines: 24,
        display_offset: 5,
        bottommost_line: 23,
        last_column: 79,
    }
}

fn started() -> SearchState {
    let mut s = SearchState::default();
    s.start_search(Direction::Right, &view());
    s
}

fn pattern(s: &SearchState) -> Option<&str> {
    s.regex().map(|p| p.as_str())
}

#[test]
fn searches_start_at_the_edge_of_the_viewport() {
    let mut s = SearchState::default();
    assert!(!s.search_active());
    assert_eq!(pattern(&s), None);
    s.start_search(Direction::Right, &view());
    assert_eq!(s.origin, Point { line: -6, column: 0 });
    assert_eq!(pattern(&s), Some(""));
    s.start_search(Direction::Left, &view());
    assert_eq!(s.origin, Point { line: 17, column: 79 });
    assert_eq!(s.direction(), Direction::Left);
    assert_eq!(s.history.len(), 1);
}

#[test]
fn searches_in_vi_mode_start_at_the_cursor() {
    let mut s = SearchState::default();
    s.start_search(Direction::Right, &GridView { vi_mode: true, ..view() });
    assert_eq!(s.origin, Point { line: 3, column: 4 });
    s.start_search(Direction::Right, &GridView { vi_mode: true, cursor_line: 23, ..view() });
    assert_eq!(s.origin, Point { line: 2, column: 4 });
}

#[test]
fn typing_edits_the_pattern() {
    let mut s = started();
    assert!(s.search_input('a'));
    assert!(s.search_input('é'));
    assert!(!s.search_input('\n'));
    assert_eq!(pattern(&s), Some("aé"));
    assert!(s.search_input('\x08'));
    assert!(s.search_input('\x7f'));
    assert!(s.search_input('\x7f'));
    assert_eq!(pattern(&s), Some(""));
    let mut closed = SearchState::default();
    assert!(!closed.search_input('a'));
}

#[test]
fn typing_in_the_history_takes_the_pattern_over() {
    let mut s = started();
    assert!(s.search_input_text("one"));
    s.exit_search();
    s.start_search(Direction::Right, &view());
    assert!(s.search_input_text("two"));
    assert!(s.search_history_previous());
    assert_eq!(pattern(&s), Some("one"));
    assert!(!s.search_history_previous());
    assert!(s.search_history_next());
    assert!(!s.search_history_next());
    assert_eq!(pattern(&s), Some("two"));
    s.search_history_previous();
    s.search_input('!');
    assert_eq!(pattern(&s), Some("one!"));
    assert_eq!(s.history, vec!["one!".to_string(), "one".to_string()]);
}

#[test]
fn history_drops_the_oldest_pattern() {
    let mut s = SearchState::default();
    for i in 0..MAX_SEARCH_HISTORY_SIZE + 5 {
        s.start_search(Direction::Right, &view());
        s.search_input_text(&format!("p{i}"));
        s.exit_search();
    }
    assert_eq!(s.history.len(), MAX_SEARCH_HISTORY_SIZE);
    assert_eq!(s.history[0], format!("p{}", MAX_SEARCH_HISTORY_SIZE + 4));
}

#[test]
fn words_are_erased_up_to_a_space() {
    let mut s = started();
    s.search_input_text("foo bar  ");
    assert!(s.search_pop_word());
    assert_eq!(pattern(&s), Some("foo "));
    s.search_pop_word();
    assert_eq!(pattern(&s), Some(""));
    assert!(!SearchState::default().search_pop_word());
}

#[test]
fn seeds_are_escaped() {
    let mut s = started();
    s.seed("a+b[c]$ x.y");
    assert_eq!(pattern(&s), Some("a\\+b\\[c\\]\\$ x.y"));
}

#[test]
fn empty_patterns_end_the_search() {
    let mut s = started();
    assert_eq!(
        s.update_search(false, true),
        SearchStep::Reset { restore: None }
    );
    s.search_input('x');
    assert_eq!(s.update_search(false, true), SearchStep::Search);
    assert!(s.compiled);
    s.search_input('\x08');
    s.display_offset_delta = 4;
    assert_eq!(
        s.update_search(true, true),
        SearchStep::Reset { restore: Some((s.origin, 4)) }
    );
    assert!(!s.compiled);
    assert_eq!(s.display_offset_delta, 0);
    assert_eq!(SearchState::default().update_search(true, true), SearchStep::Rest);
}

fn a_match() -> Match {
    Match { start: Point { line: 1, column: 2 }, end: Point { line: 1, column: 5 } }
}

#[test]
fn matches_are_focused_until_one_is_missed() {
    let mut s = started();
    s.match_found(a_match(), 5, 2);
    assert_eq!(s.focused_match(), Some(a_match()));
    assert_eq!(s.display_offset_delta, 3);
    assert_eq!(s.match_missed(false, true, false), SearchStep::SearchLater);
    assert_eq!(s.focused_match(), None);
    assert_eq!(s.match_missed(false, true, true), SearchStep::Rest);
    assert_eq!(
        s.match_missed(true, false, false),
        SearchStep::Reset { restore: Some((s.origin, 3)) }
    );
}

#[test]
fn limits_count_only_where_they_can_be_reached() {
    assert_eq!(search_limit(Some(1000), 999), None);
    assert_eq!(search_limit(Some(1000), 1000), Some(1000));
    assert_eq!(search_limit(None, 5), None);
}

#[test]
fn cancelling_selects_the_match_or_restores() {
    let mut s = started();
    s.match_found(a_match(), 0, 0);
    assert_eq!(s.cancel_search(false), SearchStep::Select(a_match()));
    assert!(!s.search_active());
    let mut s = started();
    assert_eq!(s.cancel_search(false), SearchStep::Rest);
    let mut s = started();
    s.scrolled(-2);
    assert_eq!(s.cancel_search(true), SearchStep::Reset { restore: Some((s.origin, -2)) });
}

#[test]
fn confirming_finishes_a_delayed_search_first() {
    let mut s = started();
    assert_eq!(s.confirm_search(true, true), SearchStep::SearchAll);
    assert!(s.search_active());
    assert_eq!(s.confirm_search(true, false), SearchStep::Rest);
    assert!(!s.search_active());
}

#[test]
fn scrolling_counts_during_a_search_only() {
    let mut s = SearchState::default();
    s.scrolled(3);
    assert_eq!(s.display_offset_delta, 0);
    let mut s = started();
    s.scrolled(3);
    assert_eq!(s.display_offset_delta, 3);
}

#[test]
fn advancing_moves_the_origin_past_the_match() {
    let mut s = started();
    let before = Point { line: 1, column: 1 };
    let behind = Point { line: 1, column: 6 };
    let origin = s.origin;
    s.advance_search_origin(Direction::Right, before, behind);
    assert_eq!(s.origin, origin);
    s.match_found(a_match(), 0, 0);
    s.advance_search_origin(Direction::Right, before, behind);
    assert_eq!(s.origin, behind);
    s.advance_search_origin(Direction::Left, before, behind);
    assert_eq!(s.origin, before);
    assert_eq!(s.origin_at_match(), Some(a_match().start));
    assert_eq!(s.set_origin(a_match().start, 2, 7), -5);
    assert_eq!(s.display_offset_delta, 5);
    s.clear_focused_match();
    assert_eq!(s.origin_at_match(), None);
}

#[test]
fn inline_search_waits_for_a_character() {
    let mut s = InlineSearchState::default();
    assert_eq!(s.inline_search_next(), None);
    s.start_inline_search(Direction::Left, true);
    assert!(s.char_pending);
    assert!(!s.inline_search_input(""));
    assert!(s.char_pending);
    assert!(s.inline_search_input("xy"));
    assert!(!s.char_pending);
    assert_eq!(s.inline_search_next(), Some(('x', Direction::Left)));
    assert_eq!(s.inline_search_previous(), Some(('x', Direction::Right)));
}
