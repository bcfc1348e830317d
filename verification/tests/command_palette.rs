use nebula::display::command_palette::{fuzzy_score, palette_item, CommandPalette, PaletteAction, ITEM_COUNT, RECENT_MAX};
use nebula::display::theme::NebulaTheme;

#[test]
fn empty_query_lists_all_in_declaration_order() {
    let palette = CommandPalette::new();
    assert_eq!(palette.filtered.len(), ITEM_COUNT);
    assert_eq!(palette.filtered[0], 0, "first declared item leads by default");
}

#[test]
fn recent_actions_surface_first_on_empty_query() {
    let mut palette = CommandPalette::new();
    palette.record_recent(3);
    palette.record_recent(7);
    palette.refilter();
    // Most-recent first, then the previous recent, then the declared rest.
    assert_eq!(palette.filtered[0], 7);
    assert_eq!(palette.filtered[1], 3);
    assert_eq!(palette.filtered[2], 0);
}

#[test]
fn record_recent_dedups_and_caps() {
    let mut palette = CommandPalette::new();
    for i in 0..(RECENT_MAX + 3) {
        palette.record_recent(i);
    }
    assert_eq!(palette.recent.len(), RECENT_MAX);
    // Re-running an existing action moves it to the front without growing.
    palette.record_recent(2);
    assert_eq!(palette.recent.first(), Some(&2));
    assert_eq!(palette.recent.len(), RECENT_MAX);
}

#[test]
fn fuzzy_matches_subsequence_and_rejects_the_rest() {
    assert!(fuzzy_score("nt", "new tab").is_some());
    assert!(fuzzy_score("newtab", "new tab").is_some());
    assert!(fuzzy_score("xyz", "new tab").is_none());
    assert!(fuzzy_score("", "anything").is_some(), "empty query matches everything");
}

#[test]
fn fuzzy_rewards_consecutive_and_word_start() {
    // A consecutive run beats the same letters scattered across separators.
    let consecutive = fuzzy_score("tab", "xtab").unwrap();
    let scattered = fuzzy_score("tab", "t-a-b").unwrap();
    assert!(consecutive > scattered, "consecutive {consecutive} vs scattered {scattered}");
    // A word-start match beats a mid-word match of the same length.
    let word_start = fuzzy_score("t", "x t").unwrap();
    let mid_word = fuzzy_score("t", "xt").unwrap();
    assert!(word_start > mid_word, "word-start {word_start} vs mid-word {mid_word}");
}

#[test]
fn confirm_records_recent_and_closes() {
    let mut palette = CommandPalette::new();
    palette.open();
    palette.selected = 2;
    let picked = palette.filtered[2];
    let action = palette.confirm();
    assert!(action.is_some());
    assert!(!palette.is_open());
    assert_eq!(palette.recent.first(), Some(&picked));
}

#[test]
fn typing_filters_then_backspace_restores() {
    let mut palette = CommandPalette::new();
    palette.open();
    let full = palette.filtered.len();
    for ch in "zqxjk".chars() {
        palette.input_char(ch);
    }
    assert!(palette.filtered.len() < full, "gibberish should filter most out");
    for _ in 0.."zqxjk".len() {
        palette.backspace();
    }
    assert_eq!(palette.filtered.len(), full, "clearing the query restores the full list");
}

#[test]
fn move_selection_wraps_both_ends() {
    let mut palette = CommandPalette::new();
    palette.open();
    assert_eq!(palette.selected, 0);
    palette.move_selection(-1);
    assert_eq!(palette.selected, palette.filtered.len() - 1, "up from top wraps to bottom");
    palette.move_selection(1);
    assert_eq!(palette.selected, 0, "down from bottom wraps to top");
}

#[test]
fn visible_window_scrolls_to_keep_selection_in_view() {
    let mut palette = CommandPalette::new();
    palette.open();
    let max = 5;
    // Selection at the top: window starts at 0, selection on row 0.
    let (rows, sel) = palette.visible(max);
    assert_eq!(rows.len(), max);
    assert_eq!(sel, Some(0));
    // Move past the window; the selection pins to the bottom visible row.
    for _ in 0..7 {
        palette.move_selection(1);
    }
    assert_eq!(palette.selected, 7);
    let (rows, sel) = palette.visible(max);
    assert_eq!(rows.len(), max);
    assert_eq!(sel, Some(max - 1), "selection pinned to bottom row when scrolled");
    // The bottom visible row is the actually-selected item.
    assert_eq!(rows[max - 1].0, palette_item(palette.filtered[7]).label);
}

#[test]
fn fuzzy_scores_are_exact() {
    // Word start, then a run of three: (1 + 4) + 6 + 11.
    assert_eq!(fuzzy_score("new", "new tab"), Some(22));
    assert_eq!(fuzzy_score("NT", "new tab"), Some(10));
    assert_eq!(fuzzy_score("nt", "next"), Some(6));
    assert_eq!(fuzzy_score("", "anything"), Some(0));
}

#[test]
fn nt_prefers_new_tab_over_next() {
    assert!(fuzzy_score("nt", "new tab") > fuzzy_score("nt", "next"));
}

#[test]
fn profiles_come_last_and_launch_by_index() {
    let mut palette = CommandPalette::new();
    palette.set_profiles(&["prod".to_string(), "Lab".to_string()]);
    palette.open();
    assert_eq!(palette.filtered.len(), ITEM_COUNT + 2);
    palette.open_profiles();
    assert_eq!(palette.filtered, vec![ITEM_COUNT, ITEM_COUNT + 1]);
    let (rows, _) = palette.visible(8);
    assert_eq!(rows[0], ("启动：prod".to_string(), String::new()));
    for c in "lab".chars() {
        palette.input_char(c);
    }
    assert_eq!(palette.confirm(), Some(PaletteAction::LaunchProfile(1)));
    assert!(palette.recent.is_empty());
    assert!(!palette.profiles_only);
}

#[test]
fn clicking_a_row_confirms_it() {
    let mut palette = CommandPalette::new();
    palette.open();
    assert_eq!(palette.click(30, 8), None);
    assert_eq!(palette.click(0, 0), None);
    assert!(palette.is_open());
    assert_eq!(palette.click(1, 8), Some(PaletteAction::CloseTab));
    assert!(!palette.is_open());
    assert_eq!(palette.recent, vec![1]);
}

#[test]
fn query_reaches_a_theme() {
    let mut palette = CommandPalette::new();
    palette.toggle();
    for c in "moss".chars() {
        palette.input_char(c);
    }
    palette.input_char('\n');
    assert_eq!(palette.query(), "moss");
    assert!(!palette.is_empty());
    assert_eq!(palette.confirm(), Some(PaletteAction::SelectTheme(NebulaTheme::MossDark)));
}

#[test]
fn nothing_selected_confirms_nothing() {
    let mut palette = CommandPalette::new();
    palette.open();
    for c in "zqxjk".chars() {
        palette.input_char(c);
    }
    assert_eq!(palette.confirm(), None);
    assert!(palette.is_open());
    palette.move_selection(3);
    assert_eq!(palette.visible(5), (Vec::new(), None));
    palette.toggle();
    assert!(!palette.is_open());
}

#[test]
fn scores_ignore_case_and_what_follows() {
    let score = fuzzy_score("nt", "new tab");
    assert_eq!(fuzzy_score("nt", "new tab and more"), score);
    assert_eq!(fuzzy_score("NT", "new tab"), score);
    assert_eq!(fuzzy_score("nt", "NEW TAB"), score);
}

#[test]
fn word_starts_follow_anything_but_letters_and_digits() {
    assert_eq!(fuzzy_score("t", "1t"), Some(1));
    assert_eq!(fuzzy_score("t", "at"), Some(1));
    assert_eq!(fuzzy_score("t", "_t"), Some(5));
    assert_eq!(fuzzy_score("t", "-t"), Some(5));
}

#[test]
fn typing_narrows_the_list() {
    let mut palette = CommandPalette::new();
    palette.open();
    for c in "new tab".chars() {
        let before = palette.filtered.clone();
        palette.input_char(c);
        assert!(palette.filtered.iter().all(|row| before.contains(row)));
    }
    assert!(palette.filtered.len() < ITEM_COUNT);
    assert!(!palette.filtered.is_empty());
}
