use nebula::display::chrome::{
    active_title, chrome_hit_with_tabs, control_label, draw_chrome, draw_chrome_text, resize_edge,
    shows_sidebar_text, tab_label, ChromeSpot, ChromeView, ResizeDirection, Surface,
};
use nebula::display::chrome::{rename_anchor, rename_fills, RenameBox, RenameFill, RenamePart};
use nebula::display::color::{Rgb, Rgba};
use nebula::display::commands::{
    nebula_collect_commands, nebula_command_hint, nebula_command_name,
    nebula_is_command_position, nebula_path_commands, nebula_path_wants_directory,
    nebula_pathexts, read_command_list, Lookup, PathEntry,
};
use nebula::display::options::{AcceptKey, NebulaShell};
use nebula::display::command_palette::ITEM_COUNT;
use nebula::display::chrome::{shows_panel_text, LabelSpot};
use nebula::display::palette_view;
use nebula::display::palette_view::{draw_text, push_quads};
use nebula::display::program::{
    ai_logo, ai_logo_pixels, extract_program, logo_follows_ink, program_icon, strip_file_scheme,
    AiLogo,
};
use nebula::display::side_panel::panel::PanelView;
use nebula::display::state::Display;
use nebula::display::tabs::{tab_shift, ChromeHit, SplitNav, TabBar, TabDropAction};
use nebula::display::theme::NebulaTheme;
use nebula::display::width::{fit_tail, label_columns, truncate_tab_label};

fn strings(v: &[&str]) -> Vec<String> {
    v.iter().map(|s| s.to_string()).collect()
}

#[test]
fn labels_are_cut_by_columns() {
    assert_eq!(truncate_tab_label("project", 7), "project");
    assert_eq!(truncate_tab_label("project", 5), "proj…");
    assert_eq!(truncate_tab_label("目录名", 4), "目…");
    assert_eq!(truncate_tab_label("project", 1), "…");
    assert_eq!(truncate_tab_label("project", 0), "");
    assert_eq!(truncate_tab_label("", 0), "");
}

#[test]
fn tails_are_kept_by_columns() {
    assert_eq!(fit_tail("/a/b/c", 6), "/a/b/c");
    assert_eq!(fit_tail("/a/b/c", 4), "…b/c");
    assert_eq!(fit_tail("/a/目录", 5), "…目录");
    assert_eq!(fit_tail("/a/b", 0), "");
}

#[test]
fn wide_characters_take_two_columns() {
    assert_eq!(label_columns("ab"), 2);
    assert_eq!(label_columns("目录"), 4);
    assert_eq!(label_columns("e\u{301}"), 1);
}

#[test]
fn programs_are_read_off_the_command_line() {
    assert_eq!(extract_program("D:\\tools\\Cargo.EXE build").as_deref(), Some("cargo"));
    assert_eq!(extract_program("\"/usr/bin/vim\" x").as_deref(), Some("vim"));
    assert_eq!(extract_program("   "), None);
}

#[test]
fn logos_and_icons_follow_the_program() {
    assert_eq!(ai_logo("agent", "agent", true), Some(AiLogo::Claude));
    assert_eq!(ai_logo("codex", "agent", true), Some(AiLogo::OpenAi));
    assert_eq!(ai_logo("agent", "agent", false), None);
    assert_eq!(ai_logo("vim", "agent", true), None);
    assert_eq!(program_icon("agent", "agent"), "\u{f0ce5}");
    assert_eq!(program_icon("cargo", "agent"), "\u{e7a8}");
    assert_eq!(program_icon("unknown", "agent"), "\u{f04b}");
}

#[test]
fn logos_are_tinted_by_their_kind() {
    let ink = Rgb::new(100, 200, 50);
    let pixels = vec![255, 0, 0, 7, 51, 1, 2, 8, 9];
    assert_eq!(ai_logo_pixels(AiLogo::Claude, ink, &pixels), pixels);
    assert_eq!(
        ai_logo_pixels(AiLogo::OpenAi, ink, &pixels),
        vec![100, 200, 50, 7, 100, 200, 50, 8, 9]
    );
    assert_eq!(
        ai_logo_pixels(AiLogo::OpenCode, ink, &pixels),
        vec![100, 200, 50, 7, 20, 40, 10, 8, 9]
    );
    assert!(!logo_follows_ink(AiLogo::Claude) && logo_follows_ink(AiLogo::OpenAi));
}

#[test]
fn file_schemes_are_dropped() {
    assert_eq!(strip_file_scheme("file:///C:/a"), "C:/a");
    assert_eq!(strip_file_scheme("file://host/a"), "host/a");
    assert_eq!(strip_file_scheme("https://x"), "https://x");
}

#[test]
fn accept_keys_cycle() {
    let k = AcceptKey::Right;
    assert_eq!(k.cycle().cycle().cycle(), k);
    assert!(AcceptKey::Both.accepts_right() && AcceptKey::Both.accepts_tab());
    assert!(!AcceptKey::Tab.accepts_right());
}

#[test]
fn shell_settings_are_read() {
    assert_eq!(NebulaShell::from_settings(" PwSh "), Some(NebulaShell::PowerShell));
    assert_eq!(NebulaShell::from_settings("bash"), Some(NebulaShell::Bash));
    assert_eq!(NebulaShell::from_settings("fish"), None);
    assert_eq!(
        NebulaShell::from_settings(NebulaShell::Bash.settings_value()),
        Some(NebulaShell::Bash)
    );
}

#[test]
fn extensions_are_normalized() {
    assert_eq!(nebula_pathexts(Some(".EXE; cmd;;")), strings(&[".exe", ".cmd"]));
    assert_eq!(nebula_pathexts(None)[0], ".com");
}

fn file(name: &str, executable: bool) -> PathEntry {
    PathEntry { name: name.to_string(), is_file: true, executable }
}

#[test]
fn commands_are_named_by_extension_or_permission() {
    let windows = Lookup { by_extension: true, pathexts: strings(&[".exe"]) };
    let unix = Lookup { by_extension: false, pathexts: vec![] };
    assert_eq!(nebula_command_name(&file("Git.EXE", false), &windows).as_deref(), Some("Git"));
    assert_eq!(nebula_command_name(&file("notes.txt", true), &windows), None);
    assert_eq!(nebula_command_name(&file("git", true), &unix).as_deref(), Some("git"));
    assert_eq!(nebula_command_name(&file("git", false), &unix), None);
    let dir = PathEntry { is_file: false, ..file("bin", true) };
    assert_eq!(nebula_command_name(&dir, &unix), None);
}

#[test]
fn commands_are_merged_and_sorted() {
    let unix = Lookup { by_extension: false, pathexts: vec![] };
    let entries = vec![file("vim", true), file("ls", true), file("vim", true)];
    assert_eq!(nebula_path_commands(&entries, &unix), strings(&["ls", "vim"]));
    let merged =
        nebula_collect_commands(&strings(&["ls", "Git"]), &strings(&["git", "cd"]), true);
    assert_eq!(merged.len(), 3);
    assert_eq!(read_command_list(" a \r\n\n b\n"), strings(&["a", "b"]));
}

#[test]
fn commands_are_hinted_by_prefix() {
    let commands = strings(&["cargo", "cat"]);
    assert_eq!(nebula_command_hint(&commands, "ca", false).as_deref(), Some("rgo"));
    assert_eq!(nebula_command_hint(&commands, "CAT", true), None);
    assert_eq!(nebula_command_hint(&commands, "CA", true).as_deref(), Some("rgo"));
    assert_eq!(nebula_command_hint(&commands, "CA", false), None);
    assert_eq!(nebula_command_hint(&commands, "", true), None);
}

#[test]
fn command_words_hold_no_path() {
    assert!(nebula_is_command_position("car"));
    assert!(!nebula_is_command_position("cd s"));
    assert!(!nebula_is_command_position("./x"));
    assert!(!nebula_is_command_position("C:"));
    assert!(nebula_path_wants_directory("CD src"));
    assert!(!nebula_path_wants_directory("cat src"));
}

fn bar(labels: &[&str]) -> TabBar {
    let mut bar = TabBar::new();
    let n = labels.len();
    bar.set_chrome_tabs(strings(labels), vec![false; n], vec![], vec![], 0, true);
    bar
}

#[test]
fn tab_flags_follow_the_tabs() {
    let mut b = bar(&["a", "b"]);
    assert_eq!(b.running, vec![false, false]);
    assert!(!b.any_tab_running());
    b.set_chrome_tabs(strings(&["a"]), vec![true, true], vec![true], vec![], 9, false);
    assert_eq!((b.active, b.bells.len()), (0, 1));
    assert!(b.any_tab_running());
    b.set_chrome_tabs(vec![], vec![], vec![], vec![], 0, true);
    assert_eq!(b.labels, strings(&["."]));
}

#[test]
fn short_drags_are_clicks() {
    let mut b = bar(&["a", "b", "c"]);
    b.arm_tab_drag(1);
    assert!(b.tab_drag_armed());
    assert!(!b.update_tab_drag(false, None));
    assert_eq!(b.end_tab_drag(2), Some(TabDropAction::Click(1)));
    assert_eq!(b.end_tab_drag(2), None);
}

#[test]
fn drags_reorder_or_dock() {
    let mut b = bar(&["a", "b", "c"]);
    b.arm_tab_drag(0);
    b.update_tab_drag(true, None);
    assert_eq!(b.tab_drop_index(9), 2);
    assert_eq!(b.end_tab_drag(2), Some(TabDropAction::Reorder { from: 0, to: 2 }));
    b.arm_tab_drag(1);
    b.update_tab_drag(true, Some(SplitNav::Left));
    assert_eq!(
        b.end_tab_drag(0),
        Some(TabDropAction::Dock { source: 1, nav: SplitNav::Left })
    );
}

#[test]
fn rows_make_way_for_a_drag() {
    assert_eq!(tab_shift(0, 2, 1), -1);
    assert_eq!(tab_shift(2, 0, 1), 1);
    assert_eq!(tab_shift(2, 0, 2), 0);
}

#[test]
fn renames_are_edited_at_the_caret() {
    let mut b = bar(&["a"]);
    b.rename = Some((0, "old".to_string()));
    b.rename_select_all = true;
    b.tab_rename_insert("新x");
    assert_eq!(b.rename.as_ref().unwrap().1, "新x");
    assert_eq!(b.rename_caret, 2);
    b.tab_rename_move_caret(-1);
    b.tab_rename_insert("-");
    assert_eq!(b.rename.as_ref().unwrap().1, "新-x");
    b.tab_rename_backspace();
    assert_eq!(b.rename.as_ref().unwrap().1, "新x");
    b.tab_rename_caret_edge(true);
    assert_eq!(b.rename_caret, 2);
    b.tab_rename_click(2);
    assert_eq!(b.rename_caret, 1);
}

#[test]
fn hovering_and_folding_redraw() {
    let mut b = bar(&["a"]);
    b.dirty = false;
    b.set_chrome_hover(ChromeHit::Outside);
    assert!(!b.dirty);
    b.set_chrome_hover(ChromeHit::NewTab);
    assert!(b.dirty);
    b.toggle_sidebar();
    assert!(b.collapsed);
}

fn spot() -> ChromeSpot {
    ChromeSpot {
        on_toggle: false,
        on_plus: false,
        close: None,
        tab: None,
        in_bar: false,
        control: None,
    }
}

#[test]
fn chrome_hits_come_in_order() {
    assert_eq!(chrome_hit_with_tabs(spot()), ChromeHit::Outside);
    let bar = ChromeSpot { in_bar: true, ..spot() };
    assert_eq!(chrome_hit_with_tabs(bar), ChromeHit::TitleBar);
    let close = ChromeSpot { control: Some(ChromeHit::Close), ..bar };
    assert_eq!(chrome_hit_with_tabs(close), ChromeHit::Close);
    let tab = ChromeSpot { tab: Some(1), close: Some(1), ..spot() };
    assert_eq!(chrome_hit_with_tabs(tab), ChromeHit::TabClose(1));
    assert_eq!(
        chrome_hit_with_tabs(ChromeSpot { on_toggle: true, ..tab }),
        ChromeHit::SidebarToggle
    );
}

#[test]
fn corners_resize_in_two_directions() {
    assert_eq!(resize_edge(true, false, true, false), Some(ResizeDirection::NorthWest));
    assert_eq!(resize_edge(false, true, false, true), Some(ResizeDirection::SouthEast));
    assert_eq!(resize_edge(false, false, false, true), Some(ResizeDirection::East));
    assert_eq!(resize_edge(false, false, false, false), None);
}

fn view() -> ChromeView {
    ChromeView {
        theme: NebulaTheme::Nebula,
        background: Rgb::new(0, 0, 0),
        settings_open: false,
        settings_hovered: false,
        sidebar_visible: true,
        rows: 2,
        panel: None,
        millis: 0,
        blink: true,
    }
}

#[test]
fn chrome_paints_a_fill_for_each_tab_state() {
    let mut b = bar(&["a", "b"]);
    let plain = draw_chrome(&b, &view());
    assert!(plain.iter().any(|f| f.surface == Surface::Sidebar));
    assert!(plain.iter().any(|f| f.surface == Surface::Tab(0)));
    assert!(!plain.iter().any(|f| matches!(f.surface, Surface::Spinner(_, _))));
    b.running = vec![false, true];
    let busy = draw_chrome(&b, &view());
    assert!(busy.iter().any(|f| matches!(f.surface, Surface::Spinner(1, _))));
    let folded = draw_chrome(&b, &ChromeView { sidebar_visible: false, ..view() });
    assert!(!folded.iter().any(|f| f.surface == Surface::Sidebar));
}

#[test]
fn chrome_labels_name_tabs_and_controls() {
    let b = bar(&["a-long-project", "b"]);
    assert_eq!(tab_label(&b, &view(), 0, 6).label, "a-lon…");
    assert_eq!(active_title(&b, 20), "a-long-project");
    assert!(shows_sidebar_text(&view()));
    assert!(!shows_sidebar_text(&ChromeView { settings_open: true, ..view() }));
    let close = control_label(ChromeHit::Close, ChromeHit::Close, &view());
    let calm = control_label(ChromeHit::Outside, ChromeHit::Close, &view());
    assert_eq!(close.icon, calm.icon);
    assert!(close.ink != calm.ink);
}

#[test]
fn overlays_redraw_the_window() {
    let mut d = Display::new();
    assert!(!d.dirty);
    d.dismiss_settings();
    assert!(!d.dirty);
    d.toggle_settings();
    assert!(d.settings_open() && d.dirty);
    assert!(d.select_settings_section(2));
    assert!(!d.select_settings_section(2));
    assert_eq!(d.settings_section(), 2);
    d.dismiss_settings();
    assert!(!d.settings_open());
    d.toggle_side_panel(PanelView::Git);
    assert!(d.side_panel.open);
    assert!(d.side_panel_sync(Some("/w".to_string()), 5));
    assert!(!d.side_panel_sync(Some("/w".to_string()), 6));
    assert!(!d.chrome_editor_active());
    d.side_panel.commit_focus = true;
    assert!(d.chrome_editor_active());
}

#[test]
fn palette_is_driven_through_the_display() {
    let mut d = Display::new();
    d.toggle_command_palette(&strings(&["box"]));
    assert!(d.command_palette_open());
    d.palette_input_char('n');
    d.palette_backspace();
    d.palette_move(1);
    assert!(d.palette_confirm().is_some());
    assert!(!d.command_palette_open());
    d.open_profile_menu(&strings(&["box", "dev"]));
    assert!(d.palette_click(1, 5).is_some());
    d.toggle_command_palette(&[]);
    assert!(d.palette_click(0, 0).is_none());
    d.close_command_palette();
    assert!(!d.command_palette_open());
}

#[test]
fn open_palettes_are_drawn() {
    let mut d = Display::new();
    assert!(push_quads(&d.palette, NebulaTheme::Nebula).is_empty());
    assert!(draw_text(&d.palette, NebulaTheme::Nebula).is_empty());
    d.toggle_command_palette(&[]);
    let fills = push_quads(&d.palette, NebulaTheme::Nebula);
    assert_eq!(fills.len(), 6);
    assert_eq!(fills[5].surface, palette_view::Surface::Row(0));
    let texts = draw_text(&d.palette, NebulaTheme::Nebula);
    assert!(texts[0].text.starts_with("输入命令进行搜索"));
    assert_eq!(texts[1].place, palette_view::Place::Row(0));
    for c in "zzzz".chars() {
        d.palette_input_char(c);
    }
    let texts = draw_text(&d.palette, NebulaTheme::Nebula);
    assert_eq!(texts.len(), 2);
    assert_eq!(texts[0].text, "zzzz▏");
    assert_eq!(texts[1].text, "无匹配命令");
    assert_eq!(push_quads(&d.palette, NebulaTheme::Nebula).len(), 5);
}

#[test]
fn new_chrome_lists_every_action() {
    let d = Display::new();
    assert!(!d.palette.is_open() && !d.palette.profiles_only);
    assert_eq!(d.palette.query(), "");
    let all: Vec<usize> = (0..ITEM_COUNT).collect();
    assert_eq!(d.palette.filtered, all);
    assert_eq!(d.palette.selected, 0);
    assert!(d.palette.recent.is_empty() && d.palette.profiles.is_empty());
    assert!(!d.settings_open() && d.settings_section() == 0 && !d.dirty);
}

#[test]
fn chrome_texts_follow_tabs_and_settings() {
    let mut b = bar(&["a-long-project", "b"]);
    b.hover = ChromeHit::TabClose(1);
    let labels = draw_chrome_text(&b, &view(), &vec![6, 9], 20);
    let shown: Vec<(LabelSpot, &str)> = labels.iter().map(|l| (l.spot, l.text.as_str())).collect();
    assert_eq!(shown[0], (LabelSpot::Settings, "\u{eb51}"));
    assert_eq!(shown[1], (LabelSpot::NewTab, "\u{ea60}"));
    assert_eq!(shown[6], (LabelSpot::Control(ChromeHit::Close), "\u{eab8}"));
    assert_eq!(
        shown[7..],
        [
            (LabelSpot::Caption, "TABS"),
            (LabelSpot::Tab(0), "a-lon…"),
            (LabelSpot::Tab(1), "b"),
            (LabelSpot::TabClose(1), "\u{ea76}"),
        ]
    );
    assert_eq!(labels[10].ink, NebulaTheme::Nebula.skin().icon_hover);
    let veiled = ChromeView { settings_open: true, settings_hovered: true, ..view() };
    let labels = draw_chrome_text(&b, &veiled, &vec![6, 9], 20);
    assert_eq!(labels.len(), 7);
    assert_eq!(labels[0].ink, NebulaTheme::Nebula.skin().icon_hover);
    assert_eq!((labels[6].spot, labels[6].text.as_str()), (LabelSpot::Title, "a-long-project"));
    assert_eq!(labels[6].ink, NebulaTheme::Nebula.skin().ink_strong);
    assert!(shows_panel_text(&view(), true));
    assert!(!shows_panel_text(&view(), false) && !shows_panel_text(&veiled, true));
}

#[test]
fn rename_boxes_are_filled_from_the_bottom_up() {
    let white = Rgba::new(255, 255, 255, 250);
    let plain = vec![
        RenameFill { part: RenamePart::Base, color: white },
        RenameFill { part: RenamePart::Ring, color: Rgba::new(125, 178, 194, 120) },
        RenameFill { part: RenamePart::Inner, color: white },
    ];
    let dark = RenameBox {
        select_all: false,
        text_columns: 7,
        caret_columns: 3,
        caret_visible: false,
    };
    assert_eq!(rename_fills(&dark, NebulaTheme::Nebula), plain);
    assert_eq!(rename_anchor(&dark), 3);
    let bright = RenameBox { caret_visible: true, ..dark };
    let fills = rename_fills(&bright, NebulaTheme::Nebula);
    assert_eq!(fills[..3], plain[..]);
    assert_eq!(
        fills[3..],
        [RenameFill {
            part: RenamePart::Caret { column: 3 },
            color: Rgba::new(125, 178, 194, 255),
        }]
    );
    let selected = RenameBox { select_all: true, ..dark };
    let fills = rename_fills(&selected, NebulaTheme::Nebula);
    assert_eq!(fills[..3], plain[..]);
    assert_eq!(
        fills[3..],
        [RenameFill {
            part: RenamePart::Selection { columns: 7 },
            color: Rgba::new(38, 120, 220, 235),
        }]
    );
    assert_eq!(rename_anchor(&selected), 0);
}
