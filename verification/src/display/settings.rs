//! The settings that the panel changes: each change is persisted and drawn.

use vstd::prelude::*;

use crate::display::color::{List, Rgb};
use crate::display::color;
use crate::display::options::{AcceptKey, NebulaShell};
use crate::display::theme;
use crate::display::theme::NebulaTheme;
use crate::text;
use crate::unicode;

verus! {

/// Number of backgrounds to cycle through.
pub const BACKGROUND_COUNT: usize = 6;

/// The settings, as far as they are not fractions.
#[derive(Debug)]
pub struct NebulaSettings {
    pub theme: NebulaTheme,
    /// Whether inline suggestions are shown at all.
    pub suggest: bool,
    /// Which key accepts a suggestion.
    pub accept: AcceptKey,
    /// Default executor used by new sessions.
    pub shell: NebulaShell,
    /// Whether new sessions print the welcome screen.
    pub fetch: bool,
    /// Whether the prompt uses powerline segments.
    pub powerline: bool,
    /// Whether closing a window keeps its shells for re-attaching.
    pub keep_session: bool,
    /// Optional background color.
    pub background: Option<Rgb>,
    /// Optional background image path.
    pub background_image: Option<String>,
    /// Where cycling through the backgrounds stands.
    pub background_index: usize,
    /// Whether the settings have to be written.
    pub unsaved: bool,
    /// Whether something changed that has to be drawn.
    pub dirty: bool,
}

/// The settings as a value.
#[verifier::ext_equal]
pub struct Settings {
    pub theme: NebulaTheme,
    pub suggest: bool,
    pub accept: AcceptKey,
    pub shell: NebulaShell,
    pub fetch: bool,
    pub powerline: bool,
    pub keep_session: bool,
    pub background: Option<Rgb>,
    pub background_image: Option<Seq<char>>,
    pub background_index: nat,
    pub unsaved: bool,
    pub dirty: bool,
}

pub open spec fn optional_text(s: Option<String>) -> Option<Seq<char>> {
    match s {
        Some(s) => Some(s@),
        None => None,
    }
}

impl NebulaSettings {
    pub open spec fn value(self) -> Settings {
        Settings {
            theme: self.theme,
            suggest: self.suggest,
            accept: self.accept,
            shell: self.shell,
            fetch: self.fetch,
            powerline: self.powerline,
            keep_session: self.keep_session,
            background: self.background,
            background_image: optional_text(self.background_image),
            background_index: self.background_index as nat,
            unsaved: self.unsaved,
            dirty: self.dirty,
        }
    }
}

/// The settings after a change by the user.
pub open spec fn changed(s: Settings) -> Settings {
    Settings { unsaved: true, dirty: true, ..s }
}

/// A background to cycle through.
pub open spec fn background_at(i: nat) -> Rgb {
    if i == 0 {
        theme::rgb(8, 10, 24)
    } else if i == 1 {
        theme::rgb(0, 43, 54)
    } else if i == 2 {
        theme::rgb(24, 24, 37)
    } else if i == 3 {
        theme::rgb(12, 16, 28)
    } else if i == 4 {
        theme::rgb(18, 14, 32)
    } else {
        theme::rgb(6, 26, 28)
    }
}

/// The settings with the next background.
pub open spec fn next_background(s: Settings) -> Settings {
    let i = (s.background_index + 1) % (BACKGROUND_COUNT as nat);
    changed(Settings { background_index: i, background: Some(background_at(i)), ..s })
}

/// The settings after a theme was chosen. A theme carries its background:
/// choosing it overwrites a custom color by design.
pub open spec fn with_theme(s: Settings, theme: NebulaTheme) -> Settings {
    changed(Settings { theme, background: Some(theme.chrome().term_bg), ..s })
}

/// The settings with the looks reset.
pub open spec fn reset(s: Settings) -> Settings {
    changed(
        Settings { theme: NebulaTheme::Nebula, background: None, background_image: None, ..s },
    )
}

fn background_color(i: usize) -> (r: Rgb)
    ensures
        r == background_at(i as nat),
{
    match i {
        0 => Rgb::new(8, 10, 24),
        1 => Rgb::new(0, 43, 54),
        2 => Rgb::new(24, 24, 37),
        3 => Rgb::new(12, 16, 28),
        4 => Rgb::new(18, 14, 32),
        _ => Rgb::new(6, 26, 28),
    }
}

impl NebulaSettings {
    fn touch(&mut self)
        ensures
            final(self).value() == changed(old(self).value()),
    {
        self.unsaved = true;
        self.dirty = true;
    }

    /// Chooses a theme, and restyles the terminal's color table with it.
    pub fn select_nebula_theme(&mut self, theme: NebulaTheme, colors: &mut List, defaults: &List)
        requires
            defaults.wf(),
        ensures
            final(self).value() == with_theme(old(self).value(), theme),
            forall|i: int|
                0 <= i < color::COLOR_COUNT ==> #[trigger] final(colors)@[i] == theme.slot(
                    defaults@,
                    i,
                ),
    {
        self.theme = theme;
        self.background = Some(theme.palette().term_bg);
        theme.apply_term_colors(colors, defaults);
        self.touch();
    }

    pub fn toggle_ghost(&mut self)
        ensures
            final(self).value() == changed(
                (Settings { suggest: !old(self).suggest, ..old(self).value() }),
            ),
    {
        self.suggest = !self.suggest;
        self.touch();
    }

    pub fn cycle_accept(&mut self)
        ensures
            final(self).value() == changed(
                (Settings { accept: old(self).accept.next(), ..old(self).value() }),
            ),
    {
        self.accept = self.accept.cycle();
        self.touch();
    }

    pub fn cycle_shell(&mut self)
        ensures
            final(self).value() == changed(
                (Settings { shell: old(self).shell.next(), ..old(self).value() }),
            ),
    {
        self.shell = self.shell.cycle();
        self.touch();
    }

    pub fn toggle_fetch(&mut self)
        ensures
            final(self).value() == changed(
                (Settings { fetch: !old(self).fetch, ..old(self).value() }),
            ),
    {
        self.fetch = !self.fetch;
        self.touch();
    }

    pub fn toggle_powerline(&mut self)
        ensures
            final(self).value() == changed(
                (Settings { powerline: !old(self).powerline, ..old(self).value() }),
            ),
    {
        self.powerline = !self.powerline;
        self.touch();
    }

    /// Whether closing a window keeps its shells or kills them outright.
    pub fn toggle_keep_session(&mut self)
        ensures
            final(self).value() == changed(
                (Settings { keep_session: !old(self).keep_session, ..old(self).value() }),
            ),
    {
        self.keep_session = !self.keep_session;
        self.touch();
    }

    pub fn cycle_background_color(&mut self)
        requires
            old(self).background_index < BACKGROUND_COUNT,
        ensures
            final(self).value() == next_background(old(self).value()),
            final(self).background_index < BACKGROUND_COUNT,
    {
        self.background_index = (self.background_index + 1) % BACKGROUND_COUNT;
        self.background = Some(background_color(self.background_index));
        self.touch();
    }

    /// Takes the background image that the user picked.
    pub fn pick_background_image(&mut self, path: String)
        ensures
            final(self).value() == changed(
                (Settings { background_image: Some(path@), ..old(self).value() }),
            ),
    {
        self.background_image = Some(path);
        self.touch();
    }

    /// Resets the looks to the default theme.
    pub fn reset_appearance_settings(&mut self, colors: &mut List, defaults: &List)
        requires
            defaults.wf(),
        ensures
            final(self).value() == reset(old(self).value()),
            forall|i: int|
                0 <= i < color::COLOR_COUNT ==> #[trigger] final(colors)@[i]
                    == NebulaTheme::Nebula.slot(defaults@, i),
    {
        self.theme = NebulaTheme::Nebula;
        self.theme.apply_term_colors(colors, defaults);
        self.background = None;
        self.background_image = None;
        self.touch();
    }

    /// Takes settings that were edited in their file. Returns whether the
    /// background image changed.
    pub fn reload(&mut self, loaded: NebulaSettings, colors: &mut List, defaults: &List) -> (r:
        bool)
        requires
            defaults.wf(),
        ensures
            final(self).value() == (Settings {
                background_index: old(self).background_index as nat,
                unsaved: old(self).unsaved,
                dirty: true,
                ..loaded.value()
            }),
            r == (optional_text(loaded.background_image) != optional_text(
                old(self).background_image,
            )),
            loaded.theme == old(self).theme ==> final(colors)@ == old(colors)@,
            loaded.theme != old(self).theme ==> forall|i: int|
                0 <= i < color::COLOR_COUNT ==> #[trigger] final(colors)@[i] == loaded.theme.slot(
                    defaults@,
                    i,
                ),
    {
        let image_changed: bool = match (&loaded.background_image, &self.background_image) {
            (Some(a), Some(b)) => !text::str_eq(a.as_str(), b.as_str()),
            (None, None) => false,
            _ => true,
        };
        if loaded.theme != self.theme {
            loaded.theme.apply_term_colors(colors, defaults);
        }
        self.theme = loaded.theme;
        self.suggest = loaded.suggest;
        self.accept = loaded.accept;
        self.shell = loaded.shell;
        self.fetch = loaded.fetch;
        self.powerline = loaded.powerline;
        self.keep_session = loaded.keep_session;
        self.background = loaded.background;
        self.background_image = loaded.background_image;
        self.dirty = true;
        image_changed
    }
}

/// `s` without the quotation marks around it.
pub open spec fn unquoted_start(s: Seq<char>) -> Seq<char>
    decreases s.len(),
{
    if s.len() > 0 && s[0] == '"' {
        unquoted_start(s.drop_first())
    } else {
        s
    }
}

pub open spec fn unquoted_end(s: Seq<char>) -> Seq<char>
    decreases s.len(),
{
    if s.len() > 0 && s.last() == '"' {
        unquoted_end(s.drop_last())
    } else {
        s
    }
}

/// The file that a background image setting names.
pub open spec fn image_path(setting: Seq<char>) -> Option<Seq<char>> {
    let path = unquoted_end(unquoted_start(unicode::trimmed(setting)));
    if path.len() == 0 {
        None
    } else {
        Some(path)
    }
}

/// The file that a background image setting names, without the white space and
/// the quotation marks around it.
pub fn background_image_path(setting: &str) -> (r: Option<String>)
    ensures
        optional_text(r) == image_path(setting@),
{
    let v = text::chars_of(unicode::trim(setting).as_str());
    let mut from: usize = 0;
    let mut to: usize = v.len();
    assert(v@.skip(0) =~= v@);
    while from < to && v[from] == '"'
        invariant
            from <= to == v@.len(),
            unquoted_start(v@) == unquoted_start(v@.skip(from as int)),
        decreases to - from,
    {
        assert(v@.skip(from as int).drop_first() =~= v@.skip(from + 1));
        from += 1;
    }
    let ghost start = unquoted_start(v@);
    assert(start == v@.skip(from as int));
    assert(v@.subrange(from as int, to as int) =~= start);
    while from < to && v[to - 1] == '"'
        invariant
            from <= to <= v@.len(),
            unquoted_end(start) == unquoted_end(v@.subrange(from as int, to as int)),
        decreases to - from,
    {
        assert(v@.subrange(from as int, to as int).drop_last() =~= v@.subrange(
            from as int,
            to - 1,
        ));
        to -= 1;
    }
    if from == to {
        return None;
    }
    Some(text::string_of_range(v.as_slice(), from, to))
}

pub open spec fn cycled(s: Settings, n: nat) -> Settings
    decreases n,
{
    if n == 0 {
        s
    } else {
        next_background(cycled(s, (n - 1) as nat))
    }
}

/// Cycling through the backgrounds comes back after six steps.
pub proof fn law_backgrounds_come_round(s: Settings)
    requires
        s.background_index < BACKGROUND_COUNT,
        s.background == Some(background_at(s.background_index)),
    ensures
        cycled(s, 6).background == s.background,
        cycled(s, 6).background_index == s.background_index,
{
    reveal_with_fuel(cycled, 7);
}

} // verus!
