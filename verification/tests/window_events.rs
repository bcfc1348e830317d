use nebula::display::confirm::NebulaConfirm;
use nebula::display::frame::SizeInfo;
use nebula::display::hints::{clip_bounds, CursorChange, Hint, HintBounds, HintHighlights, HintSources, HintedCell};
use nebula::display::overlay::{Ime, Preedit};
use nebula::display::pane::{NebulaInlineImage, NebulaPaneState};
use nebula::display::side_panel::panel::SidePanel;
use nebula::display::tabs::TabBar;
use nebula::display::tabs::ChromeHit;
use nebula::event::handle::{handle_event, EventState, EventStep, HandledEvent};
use nebula::event::word::{search_end_offset, SemanticWord, WordCell, WordStep};
use nebula::event::mouse::{
    copy_selection, scroll_redraws, scroll_selection, selection_point, toggle_selection,
    ClickState, CopyTargets, Mouse, ScrollSelection, SelectionStep, SelectionType, ViewCell,
};
use nebula::event::paste::{dropped_text, InputFocus, Paste};
use nebula::event::search::Point;
use nebula::event::spawn::{inherited_args, trigger_hint, FileOpener, HintAction, HintStep};
use nebula::event::terminal::{requested_color, Notification, TitleStep};
use nebula::event::window::{
    ime_commit, takes_size, BlinkSources, BlinkStep, TypingStep, WindowFlags,
};
use nebula::display::color::Rgb;
use nebula::event::window::{skip_window_event, window_event, WindowEventKind, WindowEventStep};

fn shell() -> InputFocus {
    InputFocus { search_active: false, char_pending: false, confirming: false }
}

fn written(p: Paste) -> String {
    match p {
        Paste::Write(s) => s,
        _ => panic!("not written"),
    }
}

#[test]
fn bracketed_pastes_are_filtered_and_wrapped() {
    let mut pane = NebulaPaneState::default();
    let out = written(pane.paste_now("a\x1b[201~b\x03", true, true, shell()));
    assert_eq!(out, "\x1b[200~a[201~b\x1b[201~");
    assert_eq!(pane.line_buf, "a[201~b");
}

#[test]
fn plain_pastes_send_returns_for_line_breaks() {
    let mut pane = NebulaPaneState::default();
    let out = written(pane.paste_now("a\r\nb\nc\rd", true, false, shell()));
    assert_eq!(out, "a\rb\rc\rd");
    assert_eq!(pane.line_buf, "");
    let out = written(pane.paste_now("ls", true, false, shell()));
    assert_eq!(out, "ls");
    assert_eq!(pane.line_buf, "ls");
}

#[test]
fn unbracketed_input_is_passed_as_is() {
    let mut pane = NebulaPaneState::default();
    assert_eq!(written(pane.paste_now("\x1b[A\n", false, true, shell())), "\x1b[A\n");
    assert_eq!(pane.line_buf, "");
}

#[test]
fn multi_line_pastes_are_confirmed() {
    let mut pane = NebulaPaneState::default();
    match pane.paste("a\nb\nc", true, true, shell()) {
        Paste::Confirm(NebulaConfirm::Paste { text, bracketed, lines }) => {
            assert_eq!((text.as_str(), bracketed, lines), ("a\nb\nc", true, 3));
        },
        other => panic!("{other:?}"),
    }
    match pane.paste("a\r", false, true, shell()) {
        Paste::Confirm(NebulaConfirm::Paste { lines, .. }) => assert_eq!(lines, 2),
        other => panic!("{other:?}"),
    }
    let confirming = InputFocus { confirming: true, ..shell() };
    assert!(matches!(pane.paste("a\nb", true, true, confirming), Paste::Write(_)));
    let searching = InputFocus { search_active: true, ..shell() };
    assert!(matches!(pane.paste("a\nb", true, true, searching), Paste::Search));
    let pending = InputFocus { char_pending: true, ..shell() };
    assert!(matches!(pane.paste("a\nb", true, true, pending), Paste::InlineSearch));
}

#[test]
fn dropped_files_end_with_a_blank() {
    assert_eq!(dropped_text("/tmp/x y"), "/tmp/x y ");
}

#[test]
fn committed_text_goes_to_the_open_box() {
    let mut bar = TabBar::new();
    let mut side = SidePanel::new();
    let mut pane = NebulaPaneState::default();
    bar.rename = Some((0, "old".to_string()));
    bar.rename_select_all = true;
    assert!(ime_commit("新", &mut bar, &mut side, &mut pane, true, shell()).is_none());
    assert_eq!(bar.rename.as_ref().map(|r| r.1.as_str()), Some("新"));
    bar.rename = None;
    side.search_focus = true;
    assert!(ime_commit("ab", &mut bar, &mut side, &mut pane, true, shell()).is_none());
    assert_eq!(side.search, "ab");
    side.search_focus = false;
    side.commit_focus = true;
    assert!(ime_commit("m\u{1}", &mut bar, &mut side, &mut pane, true, shell()).is_none());
    assert_eq!(side.commit_msg, "m");
    side.commit_focus = false;
    let one = ime_commit("x", &mut bar, &mut side, &mut pane, true, shell()).unwrap();
    assert_eq!(written(one), "x");
    let two = ime_commit("xy", &mut bar, &mut side, &mut pane, true, shell()).unwrap();
    assert_eq!(written(two), "\x1b[200~xy\x1b[201~");
}

#[test]
fn titles_report_directory_branch_and_program() {
    let mut pane = NebulaPaneState::default();
    pane.running_program = Some("vim".to_string());
    assert_eq!(pane.title("NEBULA|/src|main", false, true), TitleStep::Redraw);
    assert_eq!((pane.cwd.as_str(), pane.branch.as_str()), ("/src", "main"));
    assert_eq!(pane.running_program.as_deref(), Some("vim"));
    pane.title("NEBULA|/src|main|cargo|x", false, true);
    assert_eq!(pane.running_program.as_deref(), Some("cargo|x"));
    pane.title("NEBULA|/src|main|", false, true);
    assert_eq!(pane.running_program, None);
    pane.title("NEBULA|/only", false, true);
    assert_eq!((pane.cwd.as_str(), pane.branch.as_str()), ("/only", ""));
}

#[test]
fn other_titles_are_the_window_s() {
    let mut pane = NebulaPaneState::default();
    assert_eq!(pane.title("bash", false, true), TitleStep::SetTitle);
    assert_eq!(pane.title("bash", true, true), TitleStep::Rest);
    assert_eq!(pane.title("bash", false, false), TitleStep::Rest);
    assert_eq!(pane.cwd, "");
}

#[test]
fn directory_reports_keep_the_branch() {
    let mut pane = NebulaPaneState::default();
    pane.title("NEBULA|/a|main", false, true);
    assert!(pane.cwd_report("/b".to_string()));
    assert!(!pane.cwd_report("/b".to_string()));
    assert_eq!((pane.cwd.as_str(), pane.branch.as_str()), ("/b", "main"));
}

#[test]
fn panes_keep_the_newest_images() {
    let mut pane = NebulaPaneState::default();
    for id in 0..20 {
        pane.inline_image(NebulaInlineImage { id, abs_line: 0, rows: 1, px_w: 1, px_h: 1 });
    }
    assert_eq!(pane.inline_images.len(), 16);
    assert_eq!(pane.inline_images[0].id, 4);
    assert_eq!(pane.inline_images[15].id, 19);
}

#[test]
fn long_commands_notify_in_the_background() {
    let mut pane = NebulaPaneState::default();
    pane.last_committed = "cargo build".to_string();
    pane.command_start(1000);
    assert_eq!(pane.running_program.as_deref(), Some("cargo"));
    match pane.command_done(12000, 10000, false) {
        Some(Notification::CommandDone { duration, program }) => {
            assert_eq!((duration, program.as_deref()), (11000, Some("cargo")));
        },
        other => panic!("{other:?}"),
    }
    assert!(pane.finished_unseen);
    assert_eq!(pane.running_program, None);
    assert!(pane.command_done(99999, 10000, false).is_none());
}

#[test]
fn quick_commands_stay_silent() {
    let mut pane = NebulaPaneState::default();
    pane.command_start(1000);
    assert!(pane.command_done(1500, 10000, false).is_none());
    assert!(!pane.finished_unseen);
    pane.command_start(1000);
    assert!(pane.command_done(20000, 10000, true).is_none());
    assert!(pane.finished_unseen);
}

#[test]
fn bells_mark_a_program_as_waiting() {
    let mut pane = NebulaPaneState::default();
    let step = pane.bell(false, true, Some(950), 1000);
    assert!(matches!(step.notification, Some(Notification::Bell { program: None })));
    assert!(!step.command);
    assert!(!pane.awaiting_input);
    pane.running_program = Some("aider".to_string());
    let step = pane.bell(true, true, Some(900), 1000);
    assert!(step.notification.is_none());
    assert!(step.command);
    assert!(pane.awaiting_input);
    assert!(!pane.bell(true, false, None, 1000).command);
}

#[test]
fn texts_notify_where_nobody_looks() {
    let pane = NebulaPaneState::default();
    assert!(pane.notify("done".to_string(), true).is_none());
    match pane.notify("done".to_string(), false) {
        Some(Notification::Text { body, program }) => {
            assert_eq!((body.as_str(), program), ("done", None));
        },
        other => panic!("{other:?}"),
    }
}

#[test]
fn cursor_color_is_told_only_when_changed() {
    let black = Rgb::new(0, 0, 0);
    let red = Rgb::new(255, 0, 0);
    assert!(requested_color(258, 258, None, black).is_none());
    assert!(requested_color(258, 258, Some(red), black) == Some(red));
    assert!(requested_color(1, 258, None, black) == Some(black));
}

fn flags() -> WindowFlags {
    WindowFlags {
        dirty: false,
        occluded: true,
        has_frame: false,
        is_focused: true,
        hold: true,
        cursor_hidden: false,
        blink_timed_out: false,
        mouse_visible: true,
        hint_highlight_dirty: false,
    }
}

fn blinking() -> BlinkSources {
    BlinkSources {
        style: Some(true),
        has_vi_style: false,
        vi_style: None,
        vi_mode: false,
        terminal: false,
        shows_cursor: true,
        composing: false,
        timeout: 5000,
    }
}

#[test]
fn cursor_blinks_until_the_timeout() {
    let mut w = flags();
    assert_eq!(w.update_cursor_blinking(&blinking()), BlinkStep::Start { timeout: Some(5000) });
    w.blink_cursor();
    assert!(w.cursor_hidden && w.dirty);
    w.blink_cursor_timeout();
    assert!(!w.cursor_hidden && w.blink_timed_out);
    w.blink_cursor();
    assert!(!w.cursor_hidden);
}

#[test]
fn cursor_rests_while_composing_or_hidden() {
    let mut w = flags();
    let composing = BlinkSources { composing: true, ..blinking() };
    assert_eq!(w.update_cursor_blinking(&composing), BlinkStep::Stop);
    let hidden = BlinkSources { shows_cursor: false, ..blinking() };
    assert_eq!(w.update_cursor_blinking(&hidden), BlinkStep::Stop);
    let vi = BlinkSources { vi_mode: true, timeout: 0, ..hidden };
    assert_eq!(w.update_cursor_blinking(&vi), BlinkStep::Start { timeout: None });
    let vi_still = BlinkSources { has_vi_style: true, vi_style: Some(false), ..vi };
    assert_eq!(w.update_cursor_blinking(&vi_still), BlinkStep::Stop);
    let terminal = BlinkSources { style: None, terminal: true, ..blinking() };
    assert_eq!(w.update_cursor_blinking(&terminal), BlinkStep::Start { timeout: Some(5000) });
}

#[test]
fn typing_shows_the_cursor_and_hides_the_mouse() {
    let mut w = WindowFlags { cursor_hidden: true, ..flags() };
    assert_eq!(w.on_typing_start(&blinking(), true, true), TypingStep::Restart);
    assert!(!w.cursor_hidden && w.dirty && !w.mouse_visible && w.hint_highlight_dirty);
    let mut w = WindowFlags { blink_timed_out: true, ..flags() };
    assert_eq!(
        w.on_typing_start(&blinking(), false, false),
        TypingStep::Update(BlinkStep::Start { timeout: Some(5000) })
    );
    assert!(w.mouse_visible);
    let mut w = flags();
    assert_eq!(w.on_typing_start(&blinking(), false, false), TypingStep::Keep);
    assert_eq!(w, flags());
}

#[test]
fn losing_focus_ends_chrome_editing() {
    let mut w = flags();
    let mut bar = TabBar::new();
    let mut side = SidePanel::new();
    bar.rename = Some((0, "x".to_string()));
    bar.rename_select_all = true;
    side.search_focus = true;
    side.commit_focus = true;
    assert_eq!(w.focus_changed(false, &mut bar, &mut side, &blinking()), BlinkStep::Stop);
    assert!(bar.rename.is_none() && !bar.rename_select_all);
    assert!(!side.search_focus && !side.commit_focus);
    assert!(w.dirty && w.occluded);
    w.focus_changed(true, &mut bar, &mut side, &blinking());
    assert!(!w.occluded && w.has_frame && w.is_focused);
}

#[test]
fn windows_are_drawn_when_shown_again() {
    let mut w = flags();
    w.occlusion_changed(true);
    assert!(!w.dirty);
    w.occlusion_changed(false);
    assert!(w.dirty && !w.occluded);
    w.close_requested();
    assert!(!w.hold);
}

#[test]
fn tiny_sizes_are_ignored() {
    assert!(!takes_size(237, 39));
    assert!(!takes_size(99, 100));
    assert!(takes_size(100, 100));
}

#[test]
fn composed_text_counts_only_when_changed() {
    let mut ime = Ime::default();
    assert!(!ime.compose(None));
    assert!(ime.compose(Some(Preedit::new("ni".to_string(), Some((2, 2))))));
    assert!(!ime.compose(Some(Preedit::new("ni".to_string(), Some((2, 2))))));
    assert!(ime.compose(Some(Preedit::new("ni".to_string(), None))));
    assert!(ime.compose(None));
}

fn size() -> SizeInfo<usize> {
    SizeInfo {
        width: 820,
        height: 500,
        cell_width: 10,
        cell_height: 20,
        padding_x: 10,
        padding_right: 10,
        padding_y: 10,
        screen_lines: 24,
        columns: 80,
    }
}

#[test]
fn mouse_points_to_the_nearest_cell() {
    let at = |x: usize, y: usize| Mouse { x, y, ..Mouse::default() }.point(&size());
    assert_eq!(at(0, 0), ViewCell { line: 0, column: 0 });
    assert_eq!(at(25, 51), ViewCell { line: 2, column: 1 });
    assert_eq!(at(9999, 9999), ViewCell { line: 23, column: 79 });
}

#[test]
fn clicks_choose_the_selection_type() {
    let with = |click_state: ClickState| Mouse { click_state, ..Mouse::default() };
    assert_eq!(with(ClickState::Idle).expanded_type(true), None);
    assert_eq!(with(ClickState::Click).expanded_type(false), Some(SelectionType::Simple));
    assert_eq!(with(ClickState::DoubleClick).expanded_type(false), Some(SelectionType::Semantic));
    assert_eq!(with(ClickState::TripleClick).expanded_type(false), Some(SelectionType::Lines));
    assert_eq!(with(ClickState::TripleClick).expanded_type(true), Some(SelectionType::Block));
}

#[test]
fn selections_toggle_by_type() {
    let simple = SelectionType::Simple;
    let lines = SelectionType::Lines;
    assert_eq!(toggle_selection(Some(simple), simple), SelectionStep::Clear);
    assert_eq!(toggle_selection(Some(simple), lines), SelectionStep::Retype(lines));
    assert_eq!(toggle_selection(None, lines), SelectionStep::Start(lines));
}

#[test]
fn selections_stop_at_the_last_line() {
    let p = Point { line: 30, column: 4 };
    assert_eq!(selection_point(p, 23), Point { line: 23, column: 4 });
    assert_eq!(selection_point(p, 40), p);
}

#[test]
fn scrolling_expands_the_selection() {
    let mouse = Mouse::default();
    let pressed = Mouse { right_pressed: true, ..mouse };
    assert_eq!(scroll_selection(true, true, &mouse), ScrollSelection::ToViCursor);
    assert_eq!(scroll_selection(true, false, &pressed), ScrollSelection::ToMouse);
    assert_eq!(scroll_selection(false, true, &mouse), ScrollSelection::Keep);
    let a = Point { line: 0, column: 0 };
    let b = Point { line: 0, column: 1 };
    assert!(scroll_redraws(1, false, a, a));
    assert!(scroll_redraws(0, true, a, b));
    assert!(!scroll_redraws(0, false, a, b));
}

#[test]
fn copies_go_where_they_are_configured() {
    let both = CopyTargets { clipboard: true, selection: true };
    let neither = CopyTargets { clipboard: false, selection: false };
    assert_eq!(copy_selection(true, true, "x"), both);
    assert_eq!(copy_selection(true, false, "x"), CopyTargets { clipboard: false, ..both });
    assert_eq!(copy_selection(false, false, "x"), CopyTargets { selection: false, ..both });
    assert_eq!(copy_selection(true, true, ""), neither);
}

fn strings(v: &[&str]) -> Vec<String> {
    v.iter().map(|s| s.to_string()).collect()
}

#[test]
fn new_instances_do_not_inherit_the_command() {
    let args = strings(&["--hold", "--working-directory", "/x", "-v", "-e", "top"]);
    assert_eq!(inherited_args(&args, false), strings(&["--hold", "-v"]));
    assert_eq!(
        inherited_args(&args, true),
        strings(&["--hold", "--working-directory", "/x", "-v"])
    );
    assert_eq!(inherited_args(&strings(&["--working-directory"]), false), strings(&[]));
    assert_eq!(inherited_args(&strings(&["--command", "top"]), true), strings(&[]));
}

#[test]
fn hints_launch_copy_and_paste() {
    let command = HintAction::Command { program: "open".to_string(), args: strings(&["-n"]) };
    let plain = FileOpener { explorer: false, computer_name: None, drives: &[] };
    match trigger_hint(&command, Some("file:///C:/a"), false, &plain) {
        HintStep::Launch { program, args } => {
            assert_eq!((program.as_str(), args), ("open", strings(&["-n", "file:///C:/a"])));
        },
        other => panic!("{other:?}"),
    }
    let explorer = FileOpener { explorer: true, computer_name: None, drives: &['C'] };
    match trigger_hint(&command, Some("file:///C:/a%20b"), false, &explorer) {
        HintStep::Launch { program, args } => {
            assert_eq!((program.as_str(), args), ("explorer.exe", strings(&["C:\\a b"])));
        },
        other => panic!("{other:?}"),
    }
    assert!(matches!(trigger_hint(&command, Some("x"), true, &plain), HintStep::Rest));
    assert!(matches!(trigger_hint(&command, None, false, &plain), HintStep::Rest));
    assert!(matches!(
        trigger_hint(&HintAction::Copy, Some("x"), false, &plain),
        HintStep::Copy(t) if t == "x"
    ));
    assert!(matches!(
        trigger_hint(&HintAction::Paste, Some("x"), false, &plain),
        HintStep::Paste(t) if t == "x"
    ));
}

#[test]
fn hints_follow_the_mouse() {
    let mut h = HintHighlights::new();
    let over = HintSources {
        vi: None,
        follows_mouse: true,
        mouse: Some(Hint { id: 1 }),
        line: 3,
    };
    let u = h.update_highlighted_hints(&over);
    assert!(u.dirty && u.damaged);
    assert_eq!(u.cursor, CursorChange::Pointer);
    assert!(!h.update_highlighted_hints(&over).dirty);
    assert!(h.update_highlighted_hints(&HintSources { line: 4, ..over }).dirty);
    let vi = HintSources { vi: Some(Hint { id: 7 }), line: 4, ..over };
    let u = h.update_highlighted_hints(&vi);
    assert!(u.dirty && u.damaged);
    assert!(!h.update_highlighted_hints(&vi).dirty);
    let off = h.update_highlighted_hints(&HintSources { mouse: None, ..over });
    assert_eq!(off.cursor, CursorChange::Arrow);
    h.update_highlighted_hints(&over);
    assert_eq!(h.vi, None);
    assert_eq!(h.validate_hint_highlights(true, true), (false, false));
    assert_eq!(h.validate_hint_highlights(true, true), (true, true));
    assert_eq!(h.mouse, None);
}

#[test]
fn hints_are_clipped_to_the_viewport() {
    let inside = ViewCell { line: 2, column: 5 };
    let below = ViewCell { line: 30, column: 5 };
    let b = HintBounds { start: None, end: Some(below) };
    let all = (ViewCell { line: 0, column: 0 }, ViewCell { line: 23, column: 79 });
    assert_eq!(clip_bounds(b, 24, 80), all);
    let c = HintBounds { start: Some(inside), end: Some(inside) };
    assert_eq!(clip_bounds(c, 24, 80), (inside, inside));
}

#[test]
fn irrelevant_events_are_skipped() {
    assert!(skip_window_event(&WindowEventKind::KeyboardInput { is_synthetic: true }));
    assert!(!skip_window_event(&WindowEventKind::KeyboardInput { is_synthetic: false }));
    assert!(skip_window_event(&WindowEventKind::Moved));
    assert!(!skip_window_event(&WindowEventKind::Other));
    let redraw = WindowEventKind::RedrawRequested;
    assert_eq!(window_event(&redraw, true), WindowEventStep::HandleAndDraw);
    assert_eq!(window_event(&redraw, false), WindowEventStep::Ignore);
    assert_eq!(window_event(&WindowEventKind::Destroyed, true), WindowEventStep::Ignore);
    assert_eq!(window_event(&WindowEventKind::Other, true), WindowEventStep::Handle);
}

#[test]
fn long_compositions_show_their_end() {
    let mut ime = Ime::default();
    ime.set_enabled(true);
    ime.set_preedit(Some(Preedit::new("abcdef".to_string(), Some((4, 4)))));
    let preedit = ime.preedit().unwrap();
    assert_eq!(preedit.visible_part(10).0, "abcdef");
    assert_eq!(preedit.visible_part(1).0, "ef");
    ime.set_enabled(false);
    assert!(ime.preedit().is_none());
}

#[test]
fn cells_of_highlighted_hints_are_underlined() {
    let cell = |ids: &[u64], underlined: bool| HintedCell {
        hints: ids.iter().map(|id| Hint { id: *id }).collect(),
        underlined,
    };
    let cells = || vec![cell(&[], false), cell(&[1, 2], false), cell(&[3], false), cell(&[2], true)];
    let mut h = HintHighlights::new();
    let (drawn, at) = h.underline_hints(cells());
    assert_eq!(drawn.iter().map(|c| c.underlined).collect::<Vec<_>>(), [false, false, false, true]);
    assert!(at.is_empty());
    h.mouse = Some(Hint { id: 2 });
    h.vi = Some(Hint { id: 3 });
    let (drawn, at) = h.underline_hints(cells());
    assert_eq!(drawn.iter().map(|c| c.underlined).collect::<Vec<_>>(), [false, true, true, true]);
    assert_eq!(at, [1, 2, 3]);
}

fn event_state() -> EventState {
    EventState {
        flags: flags(),
        inside_text_area: true,
        hover: ChromeHit::Outside,
        settings_hovered: false,
        hint_lit: false,
        update_pending: false,
        hide_when_typing: true,
        preserve_title: false,
        dynamic_title: true,
    }
}

fn step(s: &mut EventState, event: HandledEvent) -> EventStep {
    handle_event(s, &mut Ime::default(), &event, &blinking())
}

#[test]
fn the_clipboard_needs_focus() {
    let mut s = event_state();
    assert_eq!(step(&mut s, HandledEvent::ClipboardStore), EventStep::StoreClipboard);
    assert_eq!(step(&mut s, HandledEvent::ClipboardLoad), EventStep::LoadClipboard);
    s.flags.is_focused = false;
    assert_eq!(step(&mut s, HandledEvent::ClipboardStore), EventStep::Rest);
    assert_eq!(step(&mut s, HandledEvent::ClipboardLoad), EventStep::Rest);
}

#[test]
fn keys_hide_the_pointer_and_the_mouse_shows_it() {
    let press = || HandledEvent::KeyboardInput { is_synthetic: false, pressed: true };
    let uses: [(HandledEvent, EventStep); 3] = [
        (HandledEvent::MouseInput, EventStep::MouseButton),
        (HandledEvent::CursorMoved, EventStep::MouseMoved),
        (HandledEvent::MouseWheel, EventStep::MouseWheel),
    ];
    let mut s = event_state();
    for (event, expected) in uses {
        assert_eq!(step(&mut s, press()), EventStep::Key);
        assert!(!s.flags.mouse_visible && !s.flags.hint_highlight_dirty);
        assert_eq!(step(&mut s, event), expected);
        assert!(s.flags.mouse_visible);
    }
    let release = HandledEvent::KeyboardInput { is_synthetic: false, pressed: false };
    assert_eq!(step(&mut s, release), EventStep::Key);
    let synthetic = HandledEvent::KeyboardInput { is_synthetic: true, pressed: true };
    assert_eq!(step(&mut s, synthetic), EventStep::Rest);
    s.hide_when_typing = false;
    assert_eq!(step(&mut s, press()), EventStep::Key);
    assert!(s.flags.mouse_visible);
}

#[test]
fn leaving_clears_what_is_hovered() {
    let mut s = EventState { hover: ChromeHit::NewTab, hint_lit: true, ..event_state() };
    assert_eq!(step(&mut s, HandledEvent::CursorLeft), EventStep::Rest);
    assert_eq!(s.hover, ChromeHit::Outside);
    assert!(!s.inside_text_area && s.update_pending && s.flags.dirty);
    let mut s = event_state();
    step(&mut s, HandledEvent::CursorLeft);
    assert!(!s.update_pending && !s.flags.dirty);
    let mut s = EventState { settings_hovered: true, ..event_state() };
    step(&mut s, HandledEvent::CursorLeft);
    assert!(!s.settings_hovered && s.update_pending);
}

#[test]
fn empty_composed_texts_count_as_none() {
    let mut s = event_state();
    let mut ime = Ime::default();
    let none = HandledEvent::ImePreedit(String::new(), Some((9, 9)));
    assert_eq!(handle_event(&mut s, &mut ime, &none, &blinking()), EventStep::Rest);
    assert_eq!(s, event_state());
    let text = HandledEvent::ImePreedit("字".to_string(), Some((0, 3)));
    assert_eq!(
        handle_event(&mut s, &mut ime, &text, &blinking()),
        EventStep::Blink(BlinkStep::Stop)
    );
    assert!(s.flags.dirty);
    assert_eq!(ime.preedit().unwrap().text, "字");
    assert_eq!(ime.preedit().unwrap().cursor_end_offset, Some((2, 0)));
    s.flags.dirty = false;
    assert_eq!(handle_event(&mut s, &mut ime, &text, &blinking()), EventStep::Rest);
    assert!(!s.flags.dirty);
    assert_eq!(
        handle_event(&mut s, &mut ime, &HandledEvent::CursorBlinkingChange, &blinking()),
        EventStep::Blink(BlinkStep::Stop)
    );
    assert_eq!(
        handle_event(&mut s, &mut ime, &none, &blinking()),
        EventStep::Blink(BlinkStep::Start { timeout: Some(5000) })
    );
    assert!(ime.preedit().is_none() && s.flags.dirty);
    handle_event(&mut s, &mut ime, &HandledEvent::ImeEnabled, &blinking());
    assert!(ime.is_enabled());
    handle_event(&mut s, &mut ime, &text, &blinking());
    handle_event(&mut s, &mut ime, &HandledEvent::ImeDisabled, &blinking());
    assert!(!ime.is_enabled() && ime.preedit().is_none());
}

#[test]
fn events_are_told_apart() {
    let mut s = event_state();
    assert_eq!(step(&mut s, HandledEvent::SearchNext), EventStep::GotoMatch);
    assert_eq!(step(&mut s, HandledEvent::Scroll(-3)), EventStep::Scroll(-3));
    assert_eq!(step(&mut s, HandledEvent::Message { queued: true }), EventStep::Rest);
    assert!(!s.update_pending);
    assert_eq!(step(&mut s, HandledEvent::Message { queued: false }), EventStep::PushMessage);
    assert!(s.update_pending);
    assert_eq!(step(&mut s, HandledEvent::ResetTitle), EventStep::SetDefaultTitle);
    s.preserve_title = true;
    assert_eq!(step(&mut s, HandledEvent::ResetTitle), EventStep::Rest);
    let small = HandledEvent::Resized { width: 237, height: 39 };
    assert_eq!(step(&mut s, small), EventStep::Rest);
    let large = HandledEvent::Resized { width: 800, height: 600 };
    assert_eq!(step(&mut s, large), EventStep::Resize { width: 800, height: 600 });
    assert_eq!(step(&mut s, HandledEvent::BlinkCursor), EventStep::Rest);
    assert!(s.flags.cursor_hidden && s.flags.dirty);
    assert_eq!(step(&mut s, HandledEvent::BlinkCursorTimeout), EventStep::StopBlinkTimer);
    assert!(!s.flags.cursor_hidden && s.flags.blink_timed_out);
    assert_eq!(step(&mut s, HandledEvent::CloseRequested), EventStep::CloseWindow);
    assert!(!s.flags.hold);
    assert_eq!(step(&mut s, HandledEvent::Occluded(false)), EventStep::Rest);
    assert!(!s.flags.occluded);
    assert_eq!(step(&mut s, HandledEvent::ImeCommit), EventStep::CommitText);
    assert_eq!(step(&mut s, HandledEvent::Focused(true)), EventStep::FocusChanged(true));
}

#[test]
fn words_are_walked_to() {
    let cell = |c: char| WordCell { c, wide: false, wide_spacer: false, leading_spacer: false };
    let at = |column: usize| Point { line: 0, column };
    assert_eq!(search_end_offset(&cell('a')), 0);
    assert_eq!(search_end_offset(&WordCell { wide: true, ..cell('字') }), 1);
    assert_eq!(search_end_offset(&WordCell { leading_spacer: true, ..cell(' ') }), 2);

    let mut walk = SemanticWord::new(at(0));
    assert_eq!(walk.step(at(0), &cell(' '), 'x', " ,"), WordStep::Next);
    assert_eq!(walk.step(at(1), &cell(','), 'x', " ,"), WordStep::Next);
    assert_eq!(walk.step(at(4), &cell('d'), ',', " ,"), WordStep::Word);

    let mut walk = SemanticWord::new(at(0));
    assert_eq!(walk.step(at(0), &cell(' '), 'x', " "), WordStep::Next);
    assert_eq!(walk.step(at(0), &cell(' '), 'x', " "), WordStep::Empty);

    let spacer = WordCell { wide_spacer: true, ..cell(' ') };
    let mut walk = SemanticWord::new(at(0));
    assert_eq!(walk.step(at(1), &spacer, '字', " "), WordStep::Word);
    assert_eq!(walk.step(at(1), &spacer, ' ', " "), WordStep::Next);
}
