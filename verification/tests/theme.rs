use nebula::config::color::{Colors, IndexedColor};
use nebula::config::mouse::{Mouse, MouseBindings};
use nebula::config::selection::Selection;
use nebula::display::color::{List, Rgb, BACKGROUND, FOREGROUND};
use nebula::display::options::{AcceptKey, NebulaShell};
use nebula::display::settings::{background_image_path, NebulaSettings};
use nebula::display::theme::{NebulaTheme, POWERLINE_SLOT0};

const THEMES: [NebulaTheme; 7] = [
    NebulaTheme::Nebula,
    NebulaTheme::SilverLight,
    NebulaTheme::SteelDark,
    NebulaTheme::LimestoneLight,
    NebulaTheme::CoalDark,
    NebulaTheme::LinenLight,
    NebulaTheme::MossDark,
];

#[test]
fn prompt_names_read_back() {
    for theme in THEMES {
        assert_eq!(NebulaTheme::from_prompt_name(theme.prompt_name()), Some(theme));
        assert!(!theme.label().is_empty() && !theme.short_label().is_empty());
    }
    assert_eq!(NebulaTheme::from_prompt_name("Sepia"), None);
}

#[test]
fn default_theme_has_its_colors() {
    let theme = NebulaTheme::default();
    assert_eq!(theme, NebulaTheme::Nebula);
    assert!(theme.accent() == Rgb::new(82, 168, 255));
    let p = theme.palette();
    assert_eq!((p.panel.r, p.panel.g, p.panel.b, p.panel.a), (34, 38, 48, 224));
    assert!(!p.is_light);
    assert!(theme.powerline_colors()[0] == Rgb::new(57, 75, 112));
}

#[test]
fn light_themes_are_light_throughout() {
    for theme in THEMES {
        let light = theme.prompt_name().ends_with("Light");
        assert_eq!(theme.palette().is_light, light);
        assert_eq!(theme.skin().is_light, light);
    }
}

#[test]
fn themes_restyle_the_color_table() {
    let gray = Rgb::new(1, 2, 3);
    let defaults = List::filled(gray);
    let mut colors = List::filled(Rgb::new(9, 9, 9));
    NebulaTheme::SilverLight.apply_term_colors(&mut colors, &defaults);
    let p = NebulaTheme::SilverLight.palette();
    assert!(colors.get(BACKGROUND) == p.term_bg);
    assert!(colors.get(FOREGROUND) != p.term_bg);
    let band = NebulaTheme::SilverLight.powerline_colors();
    assert!(colors.get(POWERLINE_SLOT0) == band[0]);
    assert!(colors.get(200) == gray);
}

#[test]
fn color_slots_are_set_one_by_one() {
    let mut list = List::filled(Rgb::new(0, 0, 0));
    list.set(5, Rgb::new(1, 1, 1));
    assert!(list.get(5) == Rgb::new(1, 1, 1));
    assert!(list.get(6) == Rgb::new(0, 0, 0));
    let mut other = List::filled(Rgb::new(7, 7, 7));
    other.copy_from(&list);
    assert!(other.get(5) == Rgb::new(1, 1, 1));
}

#[test]
fn footer_bar_inverts_the_primary_colors() {
    let mut colors = Colors::default();
    assert!(colors.footer_bar_foreground() == colors.primary.background);
    assert!(colors.footer_bar_background() == colors.primary.foreground);
    colors.footer_bar.foreground = Some(Rgb::new(1, 2, 3));
    assert!(colors.footer_bar_foreground() == Rgb::new(1, 2, 3));
}

#[test]
fn named_indices_are_refused() {
    let red = Rgb::new(255, 0, 0);
    assert!(IndexedColor::new(red, 15).is_err());
    assert_eq!(IndexedColor::new(red, 16).ok().map(|c| c.index()), Some(16));
}

#[test]
fn platform_decides_where_selections_go() {
    assert!(Selection::for_platform(",", false).save_to_clipboard);
    assert!(!Selection::for_platform(",", true).save_to_clipboard);
    let mouse = Mouse::with_bindings(MouseBindings(vec![1u8]));
    assert!(mouse.hide_when_typing && !mouse.focus_follows_mouse);
}

fn settings() -> NebulaSettings {
    NebulaSettings {
        theme: NebulaTheme::Nebula,
        suggest: true,
        accept: AcceptKey::Right,
        shell: NebulaShell::PowerShell,
        fetch: false,
        powerline: true,
        keep_session: true,
        background: None,
        background_image: None,
        background_index: 0,
        unsaved: false,
        dirty: false,
    }
}

#[test]
fn settings_changes_are_saved_and_drawn() {
    let mut s = settings();
    s.toggle_ghost();
    assert!(!s.suggest && s.unsaved && s.dirty);
    s.cycle_accept();
    assert_eq!(s.accept, AcceptKey::Tab);
    s.cycle_shell();
    assert_eq!(s.shell, NebulaShell::Bash);
    s.toggle_fetch();
    s.toggle_powerline();
    s.toggle_keep_session();
    assert!(s.fetch && !s.powerline && !s.keep_session);
}

#[test]
fn backgrounds_come_round_after_six() {
    let mut s = settings();
    s.cycle_background_color();
    assert!(s.background == Some(Rgb::new(0, 43, 54)));
    for _ in 0..5 {
        s.cycle_background_color();
    }
    assert!(s.background == Some(Rgb::new(8, 10, 24)));
    assert_eq!(s.background_index, 0);
}

#[test]
fn choosing_a_theme_takes_its_background() {
    let defaults = List::filled(Rgb::new(1, 2, 3));
    let mut colors = List::filled(Rgb::new(9, 9, 9));
    let mut s = settings();
    s.select_nebula_theme(NebulaTheme::CoalDark, &mut colors, &defaults);
    assert!(s.background == Some(NebulaTheme::CoalDark.palette().term_bg));
    s.pick_background_image("/w/x.png".to_string());
    s.reset_appearance_settings(&mut colors, &defaults);
    assert_eq!(s.theme, NebulaTheme::Nebula);
    assert!(s.background.is_none() && s.background_image.is_none());
}

#[test]
fn reloading_tells_whether_the_image_changed() {
    let defaults = List::filled(Rgb::new(1, 2, 3));
    let mut colors = List::filled(Rgb::new(9, 9, 9));
    let mut s = settings();
    assert!(!s.reload(settings(), &mut colors, &defaults));
    let mut loaded = settings();
    loaded.background_image = Some("/w/y.png".to_string());
    assert!(s.reload(loaded, &mut colors, &defaults));
    assert_eq!(s.background_image.as_deref(), Some("/w/y.png"));
}

#[test]
fn image_paths_lose_their_quotes() {
    assert_eq!(background_image_path(" \"/w/a b.png\" ").as_deref(), Some("/w/a b.png"));
    assert_eq!(background_image_path("  \"\" "), None);
}
