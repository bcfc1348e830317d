use nebula::completions::file::{DirEntry, DirKey, DirListing, DirSnapshot};
use nebula::completions::path::PathStyle;
use nebula::display::confirm::{confirm_text, draw_confirm_modal, NebulaConfirm};
use nebula::display::frame::{
    caret_blink_on, reserved_lines, DisplayUpdate, FrameTimer, RendererUpdate, ResizeState,
    SizeInfo, UpdateInput,
};
use nebula::display::grid_input::{
    nebula_input_from_raw_grid, nebula_raw_grid_row_preview, GridCell, GridRow,
};
use nebula::display::overlay::{
    format_search, ime_layout, line_indicator, link_tooltip, pad_to, resize_hud, search_room, Cell,
    Direction, Preedit,
};
use nebula::display::pane::{
    nebula_clamp_ghost, NebulaInlineImage, NebulaPaneState, PathSources, SuggestionSources,
};
use nebula::config::color::Colors;
use nebula::display::color::Rgb;
use nebula::display::pane_view::{
    draw_pane, ghost_ink, ghost_text, icon_color, message_colors, prune_images,
    take_powerline_icons, DrawnCell, MessageType, PaneInput, PlacedIcon, PowerlineIcon, ViCursor,
};
use nebula::display::theme::NebulaTheme;

#[test]
fn typed_lines_are_edited() {
    let mut p = NebulaPaneState::default();
    p.nebula_input_text("git com");
    p.nebula_input_char('m');
    assert_eq!(p.line_buf, "git comm");
    p.nebula_input_backspace();
    p.nebula_input_delete_word();
    assert_eq!(p.line_buf, "git ");
    assert!(p.touched);
    p.nebula_input_text("a\nb");
    assert_eq!(p.line_buf, "");
}

#[test]
fn enter_commits_what_the_grid_shows() {
    let mut p = NebulaPaneState::default();
    p.line_buf = "cargcargo tes".to_string();
    p.screen_line = " cargo test ".to_string();
    assert_eq!(p.nebula_commit_line(true), "cargo test");
    assert_eq!(p.last_committed, "cargo test");
    assert_eq!((p.line_buf.as_str(), p.screen_line.as_str()), ("", ""));
    p.line_buf = "ls".to_string();
    assert_eq!(p.nebula_commit_line(true), "");
    assert_eq!(p.last_committed, "ls");
    p.line_buf = "ls".to_string();
    assert_eq!(p.nebula_commit_line(false), "ls");
}

fn sources<'a>(commands: &'a Vec<String>, history: Option<&'a str>) -> SuggestionSources<'a> {
    SuggestionSources { enabled: true, history, dir_history: None, commands, ignore_case: false }
}

#[test]
fn history_beats_commands() {
    let commands = vec!["cargo".to_string()];
    let mut p = NebulaPaneState::default();
    p.line_buf = "ca".to_string();
    assert_eq!(p.begin_suggestion(None, &sources(&commands, Some("t notes"))), None);
    assert_eq!(p.suggestion, "t notes");
    p.line_buf = "car".to_string();
    assert_eq!(p.begin_suggestion(None, &sources(&commands, None)), None);
    assert_eq!(p.suggestion, "go");
    p.begin_suggestion(Some(""), &sources(&commands, None));
    assert_eq!(p.suggestion, "");
}

#[test]
fn paths_are_suggested_one_segment_deep() {
    let commands = vec![];
    let dirs = DirSnapshot {
        listings: vec![DirListing {
            key: DirKey { cwd: "/w".to_string(), parts: vec![] },
            entries: Some(vec![DirEntry { name: "source".to_string(), is_dir: true }]),
        }],
    };
    let paths = PathSources { style: PathStyle::Unix, home: None, dirs: &dirs };
    let mut p = NebulaPaneState::default();
    p.cwd = "/w".to_string();
    p.line_buf = "cat so".to_string();
    assert!(p.nebula_update_suggestion(None, &sources(&commands, None), &paths).is_ok());
    assert_eq!(p.suggestion, "urce/");
}

#[test]
fn suggestions_are_refreshed_for_each_frame() {
    let commands = vec![];
    let dirs = DirSnapshot {
        listings: vec![DirListing {
            key: DirKey { cwd: "/w".to_string(), parts: vec![] },
            entries: Some(vec![DirEntry { name: "source".to_string(), is_dir: true }]),
        }],
    };
    let paths = PathSources { style: PathStyle::Unix, home: None, dirs: &dirs };
    let s = sources(&commands, None);
    let mut p = NebulaPaneState::default();
    p.cwd = "/w".to_string();
    p.line_buf = "typed".to_string();
    assert!(p.refresh_suggestion(true, true, Some("cat so"), &s, &paths).is_ok());
    assert_eq!((p.screen_line.as_str(), p.suggestion.as_str()), ("cat so", "urce/"));
    assert!(p.refresh_suggestion(false, true, Some("x"), &s, &paths).is_ok());
    assert_eq!((p.screen_line.as_str(), p.suggestion.as_str()), ("cat so", ""));
    assert!(p.refresh_suggestion(true, true, None, &s, &paths).is_ok());
    assert_eq!((p.screen_line.as_str(), p.suggestion_key.as_str()), ("", ""));
    p.line_buf = "cat so".to_string();
    assert!(p.refresh_suggestion(true, false, None, &s, &paths).is_ok());
    assert_eq!((p.screen_line.as_str(), p.suggestion.as_str()), ("", "urce/"));
}

#[test]
fn ghost_text_is_bounded() {
    assert_eq!(nebula_clamp_ghost("abc"), "abc");
    assert_eq!(nebula_clamp_ghost(&"é".repeat(200)).chars().count(), 96);
    assert_eq!(ghost_text("abcdef", 4), "abcd");
}

fn row(text: &str, wraps: bool) -> GridRow {
    GridRow { cells: text.chars().map(|c| GridCell { c, spacer: false }).collect(), wraps }
}

#[test]
fn input_is_read_behind_the_arrow() {
    let rows = vec![row("~ \u{276F} git st  ", false)];
    assert_eq!(nebula_input_from_raw_grid(&rows, 10).as_deref(), Some("git st"));
    assert_eq!(nebula_input_from_raw_grid(&rows, 6), None);
    assert_eq!(nebula_input_from_raw_grid(&vec![row("no prompt", false)], 9), None);
    let wrapped = vec![row("\u{276F} lon", true), row("g cmd", false)];
    assert_eq!(nebula_input_from_raw_grid(&wrapped, 5).as_deref(), Some("long cmd"));
    let preview = nebula_raw_grid_row_preview(&rows[0]);
    assert_eq!(preview.arrows, vec![2]);
    assert_eq!(preview.text, "~ \u{276F} git st");
}

#[test]
fn confirmations_name_what_is_at_stake() {
    let close = NebulaConfirm::ClosePane { pane_id: 1, process: "vim".to_string() };
    let t = confirm_text(&close);
    assert_eq!(t.title, "关闭此分栏？");
    assert_eq!(t.body, "vim 仍在运行，关闭会中止它。");
    assert!(t.danger);
    let paste = NebulaConfirm::Paste { text: "a\nb".to_string(), bracketed: true, lines: 12 };
    assert_eq!(confirm_text(&paste).title, "粘贴 12 行文本？");
    let modal = draw_confirm_modal(&close, NebulaTheme::Nebula);
    assert!(!modal.fills.is_empty());
}

#[test]
fn search_bar_shows_label_and_query() {
    assert_eq!(format_search("abc", Direction::Right, 40), "Search: abc ");
    assert_eq!(search_room(Direction::Right, 5), None);
    assert_eq!(pad_to("ab", 4), "ab  ");
    assert_eq!(pad_to("abcd", 2), "abcd");
}

#[test]
fn tooltips_stay_in_view() {
    let tip = link_tooltip("file:///C:/a", Cell { line: 3, column: 70 }, 40, 10);
    assert!(tip.label.starts_with("C:/a"));
    assert_eq!(tip.at.line, 4);
    assert!(tip.at.column < 40);
    let last = link_tooltip("x", Cell { line: 9, column: 0 }, 40, 10);
    assert_eq!(last.at.line, 8);
}

#[test]
fn indicators_do_not_cover_the_cursor() {
    let i = line_indicator(5, 101, 20, None);
    assert_eq!(i.text, "[5/100]");
    assert_eq!(i.column, 13);
    assert!(i.visible);
    assert!(!line_indicator(5, 101, 20, Some(15)).visible);
    assert!(resize_hud(120, 30, 80, 24).text.contains("120"));
}

#[test]
fn composed_text_is_laid_out_in_its_row() {
    let p = Preedit::new("你好".to_string(), Some((3, 6)));
    assert_eq!(p.cursor_end_offset, Some((2, 0)));
    let l = ime_layout(78, 4, 80, p.cursor_end_offset);
    assert_eq!((l.start, l.end), (76, 79));
    assert_eq!((l.cursor, l.block_width), (Some(78), Some(2)));
    let hidden = ime_layout(10, 4, 80, None);
    assert_eq!((hidden.start, hidden.end, hidden.popup), (10, 13, 13));
}

#[test]
fn carets_blink_twice_a_second() {
    assert!(caret_blink_on(0) && caret_blink_on(499));
    assert!(!caret_blink_on(500));
    assert!(caret_blink_on(1000));
}

#[test]
fn reserved_lines_leave_one() {
    let mut size = SizeInfo {
        width: 10,
        height: 10,
        cell_width: 1,
        cell_height: 1,
        padding_x: 0,
        padding_right: 0,
        padding_y: 0,
        screen_lines: 3,
        columns: 10,
    };
    size.reserve_lines(2);
    assert_eq!(size.screen_lines, 1);
    size.reserve_lines(5);
    assert_eq!(size.screen_lines, 1);
    assert_eq!(reserved_lines(2, true), 3);
}

#[test]
fn pending_updates_collect() {
    let mut u: DisplayUpdate<u8> = DisplayUpdate::new();
    assert!(!u.dirty);
    u.set_font(7);
    u.set_dimensions((800, 600));
    u.set_cursor_dirty();
    assert!(u.dirty && u.cursor_dirty());
    assert_eq!((u.font(), u.dimensions()), (Some(&7), Some((800, 600))));
}

#[test]
fn first_resize_shows_nothing() {
    let mut s = ResizeState {
        pty_resize_pending: false,
        hud: None,
        hud_armed: false,
        renderer_update: None,
    };
    let u = UpdateInput {
        font_changed: false,
        cursor_dirty: false,
        old_lines: 24,
        old_columns: 80,
        new_lines: 30,
        new_columns: 80,
        size_changed: true,
        now: 5,
    };
    let r = s.handle_update(&u);
    assert!(r.resize_terminal && r.clear_focused_match);
    assert_eq!(s.hud, None);
    assert_eq!(s.renderer_update, Some(RendererUpdate { resize: true, clear_font_cache: false }));
    s.handle_update(&UpdateInput { old_lines: 30, new_lines: 31, now: 9, ..u });
    assert_eq!(s.hud, Some((80, 31, 9)));
}

#[test]
fn frames_keep_the_refresh_rate() {
    let mut t = FrameTimer::new(0);
    assert_eq!(t.compute_timeout(1_000_000, 16_000_000), 16_000_000);
    assert_eq!(t.compute_timeout(5_000_000, 16_000_000), 12_000_000);
    assert_eq!(t.compute_timeout(90_000_000, 16_000_000), 0);
}

fn pane() -> PaneInput {
    PaneInput {
        alt_screen: false,
        vi_cursor: None,
        search: None,
        search_len: 1,
        ime_enabled: true,
        composing: false,
        display_offset: 0,
        screen_lines: 24,
        columns: 80,
        total_lines: 100,
        cursor: Some(Cell { line: 3, column: 10 }),
        has_message: false,
        padded: true,
        has_hint: false,
    }
}

#[test]
fn plain_panes_suggest_behind_the_cursor() {
    let p = draw_pane(&pane(), "rgo");
    assert!(p.suggests && !p.search_bar && !p.scrollbar && !p.fills_margins);
    assert_eq!(p.ghost_at, Some(Cell { line: 3, column: 10 }));
    assert_eq!(p.ghost_columns, 70);
    assert_eq!(draw_pane(&pane(), "").ghost_at, None);
    assert_eq!(draw_pane(&PaneInput { composing: true, ..pane() }, "x").ghost_at, None);
}

#[test]
fn searches_move_the_input_method_into_the_bar() {
    let searching = PaneInput {
        search: Some(Direction::Right),
        search_len: 12,
        display_offset: 7,
        has_message: true,
        ..pane()
    };
    let p = draw_pane(&searching, "");
    assert!(p.search_bar && p.search_cursor && p.scrollbar && !p.suggests);
    assert_eq!(p.ime_position, Some(Cell { line: 24, column: 11 }));
    assert_eq!(p.indicator_line, Some(7));
    assert_eq!(p.message_line, Some(25));
}

#[test]
fn vi_cursors_are_counted_from_the_bottom() {
    let vi = ViCursor { line: -5, column: 9, viewport: Some(Cell { line: 0, column: 9 }) };
    let p = draw_pane(&PaneInput { vi_cursor: Some(vi), display_offset: 5, ..pane() }, "");
    assert_eq!(p.indicator_line, Some(28));
    assert_eq!(p.obstructed_column, Some(9));
    assert!(!p.suggests);
}

#[test]
fn placeholders_become_icons() {
    let at = Cell { line: 0, column: 0 };
    let mut cells = vec![DrawnCell { c: 'a', at }, DrawnCell { c: 'b', at }];
    assert!(take_powerline_icons(&mut cells, 24).is_empty());
    assert_eq!(cells[0].c, 'a');
    let below = Cell { line: 24, column: 3 };
    let mut cells = vec![
        DrawnCell { c: '\u{E100}', at },
        DrawnCell { c: '\u{E101}', at },
        DrawnCell { c: '\u{E101}', at: below },
    ];
    assert_eq!(
        take_powerline_icons(&mut cells, 24),
        [
            PlacedIcon { icon: PowerlineIcon::Folder, at },
            PlacedIcon { icon: PowerlineIcon::GitBranch, at },
        ]
    );
    assert!(cells.iter().all(|cell| cell.c == ' '));
}

#[test]
fn images_that_scrolled_out_are_dropped() {
    let image = |id: u64, abs_line: usize| NebulaInlineImage {
        id,
        abs_line,
        rows: 2,
        px_w: 1,
        px_h: 1,
    };
    let mut images = vec![image(1, 0), image(2, 10)];
    prune_images(&mut images, 5);
    assert_eq!(images.len(), 1);
    assert_eq!(images[0].id, 2);
}

#[test]
fn panes_are_inked_by_theme_and_configuration() {
    let colors = Colors::default();
    let error = message_colors(MessageType::Error, &colors);
    assert_eq!(error.bar, Rgb::new(0xff, 0x6b, 0x81));
    assert_eq!(error.ink, Rgb::new(0x08, 0x0a, 0x18));
    let warning = message_colors(MessageType::Warning, &colors);
    assert_eq!(warning.bar, Rgb::new(0xf5, 0xc8, 0x4c));
    assert_eq!(warning.ink, error.ink);
    assert_eq!(ghost_ink(NebulaTheme::Nebula), Rgb::new(118, 124, 148));
    assert_eq!(ghost_ink(NebulaTheme::LinenLight), Rgb::new(148, 153, 163));
    assert_eq!(icon_color(PowerlineIcon::Folder, NebulaTheme::Nebula), Rgb::new(125, 178, 194));
    assert_eq!(icon_color(PowerlineIcon::GitBranch, NebulaTheme::Nebula), Rgb::new(169, 152, 188));
}
