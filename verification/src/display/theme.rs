//! Nebula theme system: the single source of truth for every chrome color.
//!
//! Everything visual that is NOT terminal-grid content reads from here:
//! the seven built-in themes (the deep-blue default plus three light/dark
//! low-saturation pairs), each theme's chrome palette ([`NebulaPalette`]) and
//! its full overlay ink set ([`Skin`]). No component keeps a private color
//! constant, so a theme switch (including light to dark) restyles every surface
//! at once.
//!
//! Design language: low-saturation surfaces, hierarchy by brightness not
//! borders, ONE accent per theme, semantic red reserved for destructive
//! actions. Light themes flip the whole ink set to dark-on-light rather than
//! dimming the dark inks.

use vstd::prelude::*;

use crate::display::color::{List, Rgb, Rgba, BACKGROUND, FOREGROUND};
use crate::text;

verus! {

/// First 256-color palette slot claimed for the powerline prompt chips
/// (16..=23: icon bg/fg, path bg/fg, branch bg/fg, time bg/fg). Chosen at the
/// very start of the 6x6x6 cube: the darkest corner, rarely load-bearing for
/// TUIs, so hijacking eight slots stays invisible in practice.
pub const POWERLINE_SLOT0: usize = 16;

/// Number of palette slots that the powerline prompt uses.
pub const POWERLINE_SLOTS: usize = 8;

/// Built-in Nebula chrome themes exposed from the settings panel.
#[derive(Debug, Clone, Copy, PartialEq, Eq, Structural)]
pub enum NebulaTheme {
    Nebula,
    SilverLight,
    SteelDark,
    LimestoneLight,
    CoalDark,
    LinenLight,
    MossDark,
}

impl Default for NebulaTheme {
    fn default() -> (r: Self)
        ensures
            r == NebulaTheme::Nebula,
    {
        NebulaTheme::Nebula
    }
}

/// Per-theme chrome palette: the translucent panels, tab pills, edge accents
/// and glows painted by the chrome, plus the terminal background the theme
/// applies on selection.
#[derive(Debug, Clone, Copy, PartialEq, Eq, Structural)]
pub struct NebulaPalette {
    pub panel: Rgba,
    pub pill: Rgba,
    pub tab_stroke_l: Rgba,
    pub tab_bg_l: Rgba,
    pub tab_bg_r: Rgba,
    pub edge_l: Rgba,
    pub edge_r: Rgba,
    pub edge_glow_l: Rgba,
    pub glow_l: Rgba,
    pub glow_r: Rgba,
    /// Light chrome theme: flips the chrome ink set (labels/icons) to dark
    /// text so it stays readable on the pale surfaces.
    pub is_light: bool,
    /// The theme's default terminal background, applied on selection.
    pub term_bg: Rgb,
}

/// Theme-derived skin for every floating chrome layer: the settings modal,
/// confirm dialogs, the command palette, the resize HUD, scrollbar and the
/// chrome ink set.
///
/// Naming: `ink*` are text colors (strong > ink > dim > faint), `panel` /
/// `input` / `surface` are fills from back to front, `hover*` are transient
/// washes stacked on top, and `accent` / `danger` are the only saturated
/// voices (selection/primary vs destructive).
#[derive(Debug, Clone, Copy, PartialEq, Eq, Structural)]
pub struct Skin {
    /// Near-opaque panel surface (kills the see-through bleed where the
    /// shell's own powerline used to collide with overlay labels).
    pub panel: Rgba,
    /// Inset/input surface (command palette query box and friends).
    pub input: Rgba,
    /// Far end of the tall-panel gradient (command palette). Same as `panel`
    /// on light themes : the depth cue is dark-theme only.
    pub panel_grad_to: Rgba,
    /// Primary label ink.
    pub ink: Rgb,
    /// Secondary / sub-label ink.
    pub ink_dim: Rgb,
    /// Titles, active nav row, selected list rows.
    pub ink_strong: Rgb,
    /// Placeholder / hint text (weakest voice).
    pub ink_faint: Rgb,
    /// Ink on top of an `accent`-filled control (primary buttons).
    pub ink_on_accent: Rgb,
    /// Chrome glyph icons (sidebar toggle, settings gear, tab x, ...).
    pub icon: Rgb,
    pub icon_hover: Rgb,
    /// The theme's single accent (selection ring, toggle-on, slider fill).
    pub accent: Rgb,
    /// Soft accent wash for the active nav pill and selected card fill.
    pub accent_soft: Rgba,
    /// Destructive primary actions (close-busy-pane confirm). Same on both
    /// light and dark : semantic red doesn't flip.
    pub danger: Rgba,
    /// Edges, separators and quiet control borders.
    pub hairline: Rgba,
    /// Faint lift for interactive rows and cards.
    pub surface: Rgba,
    /// Hover wash on rows and cards.
    pub hover: Rgba,
    /// Stronger hover wash for small icon targets.
    pub hover_strong: Rgba,
    /// Toggle-off track / slider rail.
    pub track_off: Rgba,
    /// Toggle knob when off / on (chosen to contrast the track).
    pub knob_off: Rgba,
    pub knob_on: Rgba,
    /// Scrollbar thumb base color; alpha applied at the call site (drag
    /// feedback brightens it).
    pub scrollbar_thumb: Rgba,
    /// True on the pale themes : lets renderers pick a brighter bevel and the
    /// right slider-thumb ink without re-deriving it from the palette.
    pub is_light: bool,
}

/// An opaque color.
pub open spec fn rgb(r: u8, g: u8, b: u8) -> Rgb {
    Rgb { r, g, b }
}

/// A translucent color.
pub open spec fn rgba(r: u8, g: u8, b: u8, a: u8) -> Rgba {
    Rgba { r, g, b, a }
}

/// The ANSI color `i` of the light themes: deep ink hues tuned for a
/// pure-white ground. Bright white is a gray on purpose, since true white would
/// vanish on the white terminal.
pub open spec fn light_ansi(i: int) -> Rgb {
    if i == 0 {
        rgb(36, 41, 47)
    } else if i == 1 {
        rgb(207, 34, 46)
    } else if i == 2 {
        rgb(26, 127, 55)
    } else if i == 3 {
        rgb(154, 103, 0)
    } else if i == 4 {
        rgb(9, 105, 218)
    } else if i == 5 {
        rgb(130, 80, 223)
    } else if i == 6 {
        rgb(27, 124, 131)
    } else if i == 7 {
        rgb(110, 119, 129)
    } else if i == 8 {
        rgb(87, 96, 106)
    } else if i == 9 {
        rgb(164, 14, 38)
    } else if i == 10 {
        rgb(45, 164, 78)
    } else if i == 11 {
        rgb(191, 135, 0)
    } else if i == 12 {
        rgb(33, 139, 255)
    } else if i == 13 {
        rgb(164, 117, 249)
    } else if i == 14 {
        rgb(49, 146, 170)
    } else {
        rgb(140, 149, 159)
    }
}

fn light_ansi_color(i: usize) -> (r: Rgb)
    requires
        i < 16,
    ensures
        r == light_ansi(i as int),
{
    match i {
        0 => Rgb::new(36, 41, 47),
        1 => Rgb::new(207, 34, 46),
        2 => Rgb::new(26, 127, 55),
        3 => Rgb::new(154, 103, 0),
        4 => Rgb::new(9, 105, 218),
        5 => Rgb::new(130, 80, 223),
        6 => Rgb::new(27, 124, 131),
        7 => Rgb::new(110, 119, 129),
        8 => Rgb::new(87, 96, 106),
        9 => Rgb::new(164, 14, 38),
        10 => Rgb::new(45, 164, 78),
        11 => Rgb::new(191, 135, 0),
        12 => Rgb::new(33, 139, 255),
        13 => Rgb::new(164, 117, 249),
        14 => Rgb::new(49, 146, 170),
        _ => Rgb::new(140, 149, 159),
    }
}

/// The foreground of the light themes.
pub open spec fn light_foreground() -> Rgb {
    rgb(36, 41, 47)
}

impl NebulaTheme {
    pub open spec fn label_text(self) -> Seq<char> {
        match self {
            NebulaTheme::Nebula => "Nebula"@,
            NebulaTheme::SilverLight => "Silver Light"@,
            NebulaTheme::SteelDark => "Steel Dark"@,
            NebulaTheme::LimestoneLight => "Limestone"@,
            NebulaTheme::CoalDark => "Coal Dark"@,
            NebulaTheme::LinenLight => "Linen Light"@,
            NebulaTheme::MossDark => "Moss Dark"@,
        }
    }

    /// The name shown for the theme.
    pub fn label(self) -> (r: &'static str)
        ensures
            r@ == self.label_text(),
    {
        match self {
            NebulaTheme::Nebula => "Nebula",
            NebulaTheme::SilverLight => "Silver Light",
            NebulaTheme::SteelDark => "Steel Dark",
            NebulaTheme::LimestoneLight => "Limestone",
            NebulaTheme::CoalDark => "Coal Dark",
            NebulaTheme::LinenLight => "Linen Light",
            NebulaTheme::MossDark => "Moss Dark",
        }
    }

    pub open spec fn prompt_text(self) -> Seq<char> {
        match self {
            NebulaTheme::Nebula => "Nebula"@,
            NebulaTheme::SilverLight => "SilverLight"@,
            NebulaTheme::SteelDark => "SteelDark"@,
            NebulaTheme::LimestoneLight => "LimestoneLight"@,
            NebulaTheme::CoalDark => "CoalDark"@,
            NebulaTheme::LinenLight => "LinenLight"@,
            NebulaTheme::MossDark => "MossDark"@,
        }
    }

    /// The name under which the theme is persisted and published.
    pub fn prompt_name(self) -> (r: &'static str)
        ensures
            r@ == self.prompt_text(),
    {
        match self {
            NebulaTheme::Nebula => "Nebula",
            NebulaTheme::SilverLight => "SilverLight",
            NebulaTheme::SteelDark => "SteelDark",
            NebulaTheme::LimestoneLight => "LimestoneLight",
            NebulaTheme::CoalDark => "CoalDark",
            NebulaTheme::LinenLight => "LinenLight",
            NebulaTheme::MossDark => "MossDark",
        }
    }

    pub open spec fn short_text(self) -> Seq<char> {
        match self {
            NebulaTheme::SilverLight => "Silver"@,
            NebulaTheme::LimestoneLight => "Limestone"@,
            NebulaTheme::LinenLight => "Linen"@,
            NebulaTheme::SteelDark => "Steel"@,
            NebulaTheme::CoalDark => "Coal"@,
            NebulaTheme::MossDark => "Moss"@,
            _ => self.label_text(),
        }
    }

    /// Shorter label for theme cards so long names fit within a single card.
    pub fn short_label(self) -> (r: &'static str)
        ensures
            r@ == self.short_text(),
    {
        match self {
            NebulaTheme::SilverLight => "Silver",
            NebulaTheme::LimestoneLight => "Limestone",
            NebulaTheme::LinenLight => "Linen",
            NebulaTheme::SteelDark => "Steel",
            NebulaTheme::CoalDark => "Coal",
            NebulaTheme::MossDark => "Moss",
            _ => self.label(),
        }
    }

    /// The theme published under `name`.
    pub open spec fn named(name: Seq<char>) -> Option<NebulaTheme> {
        if name == "Nebula"@ {
            Some(NebulaTheme::Nebula)
        } else if name == "SilverLight"@ {
            Some(NebulaTheme::SilverLight)
        } else if name == "SteelDark"@ {
            Some(NebulaTheme::SteelDark)
        } else if name == "LimestoneLight"@ {
            Some(NebulaTheme::LimestoneLight)
        } else if name == "CoalDark"@ {
            Some(NebulaTheme::CoalDark)
        } else if name == "LinenLight"@ {
            Some(NebulaTheme::LinenLight)
        } else if name == "MossDark"@ {
            Some(NebulaTheme::MossDark)
        } else {
            None
        }
    }

    /// Inverse of [`prompt_name`](Self::prompt_name); used to restore the
    /// persisted theme from `nebula_settings.txt`.
    pub fn from_prompt_name(name: &str) -> (r: Option<Self>)
        ensures
            r == NebulaTheme::named(name@),
    {
        if text::str_eq(name, "Nebula") {
            Some(NebulaTheme::Nebula)
        } else if text::str_eq(name, "SilverLight") {
            Some(NebulaTheme::SilverLight)
        } else if text::str_eq(name, "SteelDark") {
            Some(NebulaTheme::SteelDark)
        } else if text::str_eq(name, "LimestoneLight") {
            Some(NebulaTheme::LimestoneLight)
        } else if text::str_eq(name, "CoalDark") {
            Some(NebulaTheme::CoalDark)
        } else if text::str_eq(name, "LinenLight") {
            Some(NebulaTheme::LinenLight)
        } else if text::str_eq(name, "MossDark") {
            Some(NebulaTheme::MossDark)
        } else {
            None
        }
    }

    pub open spec fn accent_color(self) -> Rgb {
        match self {
            NebulaTheme::Nebula => rgb(82, 168, 255),
            NebulaTheme::SilverLight => rgb(73, 80, 87),
            NebulaTheme::SteelDark => rgb(148, 163, 184),
            NebulaTheme::LimestoneLight => rgb(88, 85, 76),
            NebulaTheme::CoalDark => rgb(212, 212, 212),
            NebulaTheme::LinenLight => rgb(95, 99, 95),
            NebulaTheme::MossDark => rgb(163, 179, 163),
        }
    }

    /// The theme's single accent color: selection rings, toggles-on, slider
    /// fill and the prompt caret. Each value is chosen to contrast its own theme
    /// surface (light themes get a dark accent, dark themes a light one).
    pub fn accent(self) -> (r: Rgb)
        ensures
            r == self.accent_color(),
    {
        match self {
            NebulaTheme::Nebula => Rgb::new(82, 168, 255),
            NebulaTheme::SilverLight => Rgb::new(73, 80, 87),
            NebulaTheme::SteelDark => Rgb::new(148, 163, 184),
            NebulaTheme::LimestoneLight => Rgb::new(88, 85, 76),
            NebulaTheme::CoalDark => Rgb::new(212, 212, 212),
            NebulaTheme::LinenLight => Rgb::new(95, 99, 95),
            NebulaTheme::MossDark => Rgb::new(163, 179, 163),
        }
    }

    pub open spec fn powerline(self) -> Seq<Rgb> {
        match self {
            NebulaTheme::Nebula => seq![
                rgb(57, 75, 112),
                rgb(192, 202, 245),
                rgb(41, 52, 82),
                rgb(169, 177, 214),
                rgb(47, 79, 79),
                rgb(139, 213, 202),
                rgb(29, 33, 46),
                rgb(100, 116, 139),
            ],
            NebulaTheme::SilverLight => seq![
                rgb(229, 231, 235),
                rgb(55, 65, 81),
                rgb(243, 244, 246),
                rgb(55, 65, 81),
                rgb(224, 242, 254),
                rgb(3, 105, 161),
                rgb(249, 250, 251),
                rgb(107, 114, 128),
            ],
            NebulaTheme::SteelDark => seq![
                rgb(71, 85, 105),
                rgb(241, 245, 249),
                rgb(51, 65, 85),
                rgb(203, 213, 225),
                rgb(59, 82, 73),
                rgb(163, 184, 153),
                rgb(40, 44, 56),
                rgb(148, 163, 184),
            ],
            NebulaTheme::LimestoneLight => seq![
                rgb(214, 211, 209),
                rgb(250, 250, 249),
                rgb(231, 229, 228),
                rgb(68, 64, 60),
                rgb(200, 198, 167),
                rgb(41, 37, 36),
                rgb(235, 233, 230),
                rgb(163, 160, 151),
            ],
            NebulaTheme::CoalDark => seq![
                rgb(82, 82, 82),
                rgb(245, 245, 245),
                rgb(64, 64, 64),
                rgb(212, 212, 212),
                rgb(74, 79, 65),
                rgb(181, 181, 166),
                rgb(48, 48, 48),
                rgb(115, 115, 115),
            ],
            NebulaTheme::LinenLight => seq![
                rgb(212, 212, 208),
                rgb(255, 255, 255),
                rgb(229, 229, 223),
                rgb(63, 63, 63),
                rgb(181, 196, 177),
                rgb(45, 45, 45),
                rgb(236, 236, 230),
                rgb(176, 179, 176),
            ],
            NebulaTheme::MossDark => seq![
                rgb(75, 85, 72),
                rgb(240, 253, 244),
                rgb(59, 66, 56),
                rgb(220, 252, 231),
                rgb(60, 79, 60),
                rgb(187, 247, 208),
                rgb(42, 47, 42),
                rgb(107, 114, 107),
            ],
        }
    }

    /// Segment colors for the injected powerline prompt, published into the
    /// 256-color palette at [`POWERLINE_SLOT0`]`..+8` by [`Self::apply_term_colors`].
    /// Order: icon bg/fg, path bg/fg, branch bg/fg, time bg/fg: one flat color
    /// per chip.
    pub fn powerline_colors(self) -> (r: [Rgb; 8])
        ensures
            r@ == self.powerline(),
    {
        let r: [Rgb; 8] = match self {
            NebulaTheme::Nebula => [
                Rgb::new(57, 75, 112),
                Rgb::new(192, 202, 245),
                Rgb::new(41, 52, 82),
                Rgb::new(169, 177, 214),
                Rgb::new(47, 79, 79),
                Rgb::new(139, 213, 202),
                Rgb::new(29, 33, 46),
                Rgb::new(100, 116, 139),
            ],
            NebulaTheme::SilverLight => [
                Rgb::new(229, 231, 235),
                Rgb::new(55, 65, 81),
                Rgb::new(243, 244, 246),
                Rgb::new(55, 65, 81),
                Rgb::new(224, 242, 254),
                Rgb::new(3, 105, 161),
                Rgb::new(249, 250, 251),
                Rgb::new(107, 114, 128),
            ],
            NebulaTheme::SteelDark => [
                Rgb::new(71, 85, 105),
                Rgb::new(241, 245, 249),
                Rgb::new(51, 65, 85),
                Rgb::new(203, 213, 225),
                Rgb::new(59, 82, 73),
                Rgb::new(163, 184, 153),
                Rgb::new(40, 44, 56),
                Rgb::new(148, 163, 184),
            ],
            NebulaTheme::LimestoneLight => [
                Rgb::new(214, 211, 209),
                Rgb::new(250, 250, 249),
                Rgb::new(231, 229, 228),
                Rgb::new(68, 64, 60),
                Rgb::new(200, 198, 167),
                Rgb::new(41, 37, 36),
                Rgb::new(235, 233, 230),
                Rgb::new(163, 160, 151),
            ],
            NebulaTheme::CoalDark => [
                Rgb::new(82, 82, 82),
                Rgb::new(245, 245, 245),
                Rgb::new(64, 64, 64),
                Rgb::new(212, 212, 212),
                Rgb::new(74, 79, 65),
                Rgb::new(181, 181, 166),
                Rgb::new(48, 48, 48),
                Rgb::new(115, 115, 115),
            ],
            NebulaTheme::LinenLight => [
                Rgb::new(212, 212, 208),
                Rgb::new(255, 255, 255),
                Rgb::new(229, 229, 223),
                Rgb::new(63, 63, 63),
                Rgb::new(181, 196, 177),
                Rgb::new(45, 45, 45),
                Rgb::new(236, 236, 230),
                Rgb::new(176, 179, 176),
            ],
            NebulaTheme::MossDark => [
                Rgb::new(75, 85, 72),
                Rgb::new(240, 253, 244),
                Rgb::new(59, 66, 56),
                Rgb::new(220, 252, 231),
                Rgb::new(60, 79, 60),
                Rgb::new(187, 247, 208),
                Rgb::new(42, 47, 42),
                Rgb::new(107, 114, 107),
            ],
        };
        assert(r@ =~= self.powerline());
        r
    }

    pub open spec fn chrome(self) -> NebulaPalette {
        match self {
            NebulaTheme::Nebula => NebulaPalette {
                panel: rgba(34, 38, 48, 224),
                pill: rgba(43, 48, 59, 218),
                tab_stroke_l: rgba(150, 157, 188, 132),
                tab_bg_l: rgba(65, 72, 88, 230),
                tab_bg_r: rgba(48, 54, 67, 226),
                edge_l: rgba(169, 152, 188, 180),
                edge_r: rgba(125, 178, 194, 180),
                edge_glow_l: rgba(169, 152, 188, 24),
                glow_l: rgba(169, 152, 188, 14),
                glow_r: rgba(125, 178, 194, 14),
                is_light: false,
                term_bg: rgb(15, 17, 26),
            },
            NebulaTheme::SilverLight => NebulaPalette {
                panel: rgba(243, 244, 246, 236),
                pill: rgba(229, 231, 235, 230),
                tab_stroke_l: rgba(173, 181, 189, 150),
                tab_bg_l: rgba(255, 255, 255, 242),
                tab_bg_r: rgba(249, 250, 251, 236),
                edge_l: rgba(73, 80, 87, 170),
                edge_r: rgba(82, 168, 255, 180),
                edge_glow_l: rgba(82, 168, 255, 18),
                glow_l: rgba(82, 168, 255, 0),
                glow_r: rgba(73, 80, 87, 0),
                is_light: true,
                term_bg: rgb(255, 255, 255),
            },
            NebulaTheme::LimestoneLight => NebulaPalette {
                panel: rgba(240, 239, 235, 236),
                pill: rgba(231, 229, 224, 230),
                tab_stroke_l: rgba(163, 160, 151, 150),
                tab_bg_l: rgba(255, 255, 255, 242),
                tab_bg_r: rgba(247, 246, 242, 236),
                edge_l: rgba(88, 85, 76, 160),
                edge_r: rgba(206, 178, 126, 190),
                edge_glow_l: rgba(206, 178, 126, 20),
                glow_l: rgba(206, 178, 126, 0),
                glow_r: rgba(88, 85, 76, 0),
                is_light: true,
                term_bg: rgb(255, 255, 255),
            },
            NebulaTheme::LinenLight => NebulaPalette {
                panel: rgba(242, 242, 236, 236),
                pill: rgba(233, 233, 227, 230),
                tab_stroke_l: rgba(176, 179, 176, 150),
                tab_bg_l: rgba(255, 255, 255, 242),
                tab_bg_r: rgba(251, 251, 246, 236),
                edge_l: rgba(95, 99, 95, 160),
                edge_r: rgba(149, 175, 149, 190),
                edge_glow_l: rgba(149, 175, 149, 20),
                glow_l: rgba(149, 175, 149, 0),
                glow_r: rgba(95, 99, 95, 0),
                is_light: true,
                term_bg: rgb(255, 255, 255),
            },
            NebulaTheme::SteelDark => NebulaPalette {
                panel: rgba(22, 24, 30, 224),
                pill: rgba(30, 33, 41, 218),
                tab_stroke_l: rgba(148, 163, 184, 124),
                tab_bg_l: rgba(52, 58, 72, 230),
                tab_bg_r: rgba(38, 43, 54, 226),
                edge_l: rgba(148, 163, 184, 170),
                edge_r: rgba(82, 168, 255, 168),
                edge_glow_l: rgba(148, 163, 184, 20),
                glow_l: rgba(148, 163, 184, 12),
                glow_r: rgba(82, 168, 255, 12),
                is_light: false,
                term_bg: rgb(26, 28, 36),
            },
            NebulaTheme::CoalDark => NebulaPalette {
                panel: rgba(22, 22, 22, 224),
                pill: rgba(30, 30, 30, 218),
                tab_stroke_l: rgba(186, 186, 182, 120),
                tab_bg_l: rgba(56, 56, 54, 230),
                tab_bg_r: rgba(41, 41, 40, 226),
                edge_l: rgba(206, 178, 126, 172),
                edge_r: rgba(212, 212, 212, 148),
                edge_glow_l: rgba(206, 178, 126, 22),
                glow_l: rgba(206, 178, 126, 12),
                glow_r: rgba(212, 212, 212, 12),
                is_light: false,
                term_bg: rgb(23, 23, 23),
            },
            NebulaTheme::MossDark => NebulaPalette {
                panel: rgba(25, 28, 25, 224),
                pill: rgba(33, 37, 33, 218),
                tab_stroke_l: rgba(163, 179, 163, 124),
                tab_bg_l: rgba(54, 61, 54, 230),
                tab_bg_r: rgba(40, 46, 40, 226),
                edge_l: rgba(149, 175, 149, 172),
                edge_r: rgba(163, 179, 163, 158),
                edge_glow_l: rgba(149, 175, 149, 22),
                glow_l: rgba(149, 175, 149, 12),
                glow_r: rgba(163, 179, 163, 12),
                is_light: false,
                term_bg: rgb(30, 33, 30),
            },
        }
    }

    /// The theme's chrome palette.
    pub fn palette(self) -> (r: NebulaPalette)
        ensures
            r == self.chrome(),
    {
        match self {
            NebulaTheme::Nebula => NebulaPalette {
                panel: Rgba::new(34, 38, 48, 224),
                pill: Rgba::new(43, 48, 59, 218),
                tab_stroke_l: Rgba::new(150, 157, 188, 132),
                tab_bg_l: Rgba::new(65, 72, 88, 230),
                tab_bg_r: Rgba::new(48, 54, 67, 226),
                edge_l: Rgba::new(169, 152, 188, 180),
                edge_r: Rgba::new(125, 178, 194, 180),
                edge_glow_l: Rgba::new(169, 152, 188, 24),
                glow_l: Rgba::new(169, 152, 188, 14),
                glow_r: Rgba::new(125, 178, 194, 14),
                is_light: false,
                term_bg: Rgb::new(15, 17, 26),
            },
            NebulaTheme::SilverLight => NebulaPalette {
                panel: Rgba::new(243, 244, 246, 236),
                pill: Rgba::new(229, 231, 235, 230),
                tab_stroke_l: Rgba::new(173, 181, 189, 150),
                tab_bg_l: Rgba::new(255, 255, 255, 242),
                tab_bg_r: Rgba::new(249, 250, 251, 236),
                edge_l: Rgba::new(73, 80, 87, 170),
                edge_r: Rgba::new(82, 168, 255, 180),
                edge_glow_l: Rgba::new(82, 168, 255, 18),
                glow_l: Rgba::new(82, 168, 255, 0),
                glow_r: Rgba::new(73, 80, 87, 0),
                is_light: true,
                term_bg: Rgb::new(255, 255, 255),
            },
            NebulaTheme::LimestoneLight => NebulaPalette {
                panel: Rgba::new(240, 239, 235, 236),
                pill: Rgba::new(231, 229, 224, 230),
                tab_stroke_l: Rgba::new(163, 160, 151, 150),
                tab_bg_l: Rgba::new(255, 255, 255, 242),
                tab_bg_r: Rgba::new(247, 246, 242, 236),
                edge_l: Rgba::new(88, 85, 76, 160),
                edge_r: Rgba::new(206, 178, 126, 190),
                edge_glow_l: Rgba::new(206, 178, 126, 20),
                glow_l: Rgba::new(206, 178, 126, 0),
                glow_r: Rgba::new(88, 85, 76, 0),
                is_light: true,
                term_bg: Rgb::new(255, 255, 255),
            },
            NebulaTheme::LinenLight => NebulaPalette {
                panel: Rgba::new(242, 242, 236, 236),
                pill: Rgba::new(233, 233, 227, 230),
                tab_stroke_l: Rgba::new(176, 179, 176, 150),
                tab_bg_l: Rgba::new(255, 255, 255, 242),
                tab_bg_r: Rgba::new(251, 251, 246, 236),
                edge_l: Rgba::new(95, 99, 95, 160),
                edge_r: Rgba::new(149, 175, 149, 190),
                edge_glow_l: Rgba::new(149, 175, 149, 20),
                glow_l: Rgba::new(149, 175, 149, 0),
                glow_r: Rgba::new(95, 99, 95, 0),
                is_light: true,
                term_bg: Rgb::new(255, 255, 255),
            },
            NebulaTheme::SteelDark => NebulaPalette {
                panel: Rgba::new(22, 24, 30, 224),
                pill: Rgba::new(30, 33, 41, 218),
                tab_stroke_l: Rgba::new(148, 163, 184, 124),
                tab_bg_l: Rgba::new(52, 58, 72, 230),
                tab_bg_r: Rgba::new(38, 43, 54, 226),
                edge_l: Rgba::new(148, 163, 184, 170),
                edge_r: Rgba::new(82, 168, 255, 168),
                edge_glow_l: Rgba::new(148, 163, 184, 20),
                glow_l: Rgba::new(148, 163, 184, 12),
                glow_r: Rgba::new(82, 168, 255, 12),
                is_light: false,
                term_bg: Rgb::new(26, 28, 36),
            },
            NebulaTheme::CoalDark => NebulaPalette {
                panel: Rgba::new(22, 22, 22, 224),
                pill: Rgba::new(30, 30, 30, 218),
                tab_stroke_l: Rgba::new(186, 186, 182, 120),
                tab_bg_l: Rgba::new(56, 56, 54, 230),
                tab_bg_r: Rgba::new(41, 41, 40, 226),
                edge_l: Rgba::new(206, 178, 126, 172),
                edge_r: Rgba::new(212, 212, 212, 148),
                edge_glow_l: Rgba::new(206, 178, 126, 22),
                glow_l: Rgba::new(206, 178, 126, 12),
                glow_r: Rgba::new(212, 212, 212, 12),
                is_light: false,
                term_bg: Rgb::new(23, 23, 23),
            },
            NebulaTheme::MossDark => NebulaPalette {
                panel: Rgba::new(25, 28, 25, 224),
                pill: Rgba::new(33, 37, 33, 218),
                tab_stroke_l: Rgba::new(163, 179, 163, 124),
                tab_bg_l: Rgba::new(54, 61, 54, 230),
                tab_bg_r: Rgba::new(40, 46, 40, 226),
                edge_l: Rgba::new(149, 175, 149, 172),
                edge_r: Rgba::new(163, 179, 163, 158),
                edge_glow_l: Rgba::new(149, 175, 149, 22),
                glow_l: Rgba::new(149, 175, 149, 12),
                glow_r: Rgba::new(163, 179, 163, 12),
                is_light: false,
                term_bg: Rgb::new(30, 33, 30),
            },
        }
    }

    pub open spec fn overlay(self) -> Skin {
        let p = self.chrome();
        let a = self.accent_color();
        let b = p.panel;
        let t = p.term_bg;
        if p.is_light {
            Skin {
                panel: rgba(b.r, b.g, b.b, 252),
                input: rgba(255, 255, 255, 240),
                panel_grad_to: rgba(b.r, b.g, b.b, 252),
                ink: rgb(55, 65, 81),
                ink_dim: rgb(107, 114, 128),
                ink_strong: rgb(18, 22, 30),
                ink_faint: rgb(148, 153, 163),
                ink_on_accent: rgb(248, 250, 252),
                icon: rgb(73, 80, 87),
                icon_hover: rgb(18, 22, 26),
                accent: a,
                accent_soft: rgba(a.r, a.g, a.b, 34),
                danger: rgba(196, 74, 88, 255),
                hairline: rgba(0, 0, 0, 20),
                surface: rgba(0, 0, 0, 12),
                hover: rgba(0, 0, 0, 20),
                hover_strong: rgba(0, 0, 0, 32),
                track_off: rgba(0, 0, 0, 48),
                knob_off: rgba(255, 255, 255, 255),
                knob_on: rgba(250, 250, 250, 255),
                scrollbar_thumb: rgba(60, 66, 80, 0),
                is_light: true,
            }
        } else {
            Skin {
                panel: rgba(b.r, b.g, b.b, 250),
                input: rgba(t.r, t.g, t.b, 220),
                panel_grad_to: rgba(t.r, t.g, t.b, 235),
                ink: rgb(228, 231, 246),
                ink_dim: rgb(158, 164, 188),
                ink_strong: rgb(255, 255, 255),
                ink_faint: rgb(118, 124, 148),
                ink_on_accent: rgb(12, 16, 22),
                icon: rgb(205, 210, 230),
                icon_hover: rgb(244, 246, 255),
                accent: a,
                accent_soft: rgba(a.r, a.g, a.b, 46),
                danger: rgba(196, 74, 88, 255),
                hairline: rgba(255, 255, 255, 22),
                surface: rgba(255, 255, 255, 11),
                hover: rgba(255, 255, 255, 26),
                hover_strong: rgba(255, 255, 255, 40),
                track_off: rgba(255, 255, 255, 34),
                knob_off: rgba(210, 214, 228, 255),
                knob_on: rgba(12, 16, 22, 255),
                scrollbar_thumb: rgba(180, 184, 200, 0),
                is_light: false,
            }
        }
    }

    /// Theme-derived ink/surface tokens for every floating chrome layer.
    pub fn skin(self) -> (r: Skin)
        ensures
            r == self.overlay(),
    {
        let p = self.palette();
        let a = self.accent();
        let b = p.panel;
        let t = p.term_bg;
        if p.is_light {
            Skin {
                panel: Rgba::new(b.r, b.g, b.b, 252),
                input: Rgba::new(255, 255, 255, 240),
                panel_grad_to: Rgba::new(b.r, b.g, b.b, 252),
                ink: Rgb::new(55, 65, 81),
                ink_dim: Rgb::new(107, 114, 128),
                ink_strong: Rgb::new(18, 22, 30),
                ink_faint: Rgb::new(148, 153, 163),
                ink_on_accent: Rgb::new(248, 250, 252),
                icon: Rgb::new(73, 80, 87),
                icon_hover: Rgb::new(18, 22, 26),
                accent: a,
                accent_soft: Rgba::new(a.r, a.g, a.b, 34),
                danger: Rgba::new(196, 74, 88, 255),
                hairline: Rgba::new(0, 0, 0, 20),
                surface: Rgba::new(0, 0, 0, 12),
                hover: Rgba::new(0, 0, 0, 20),
                hover_strong: Rgba::new(0, 0, 0, 32),
                track_off: Rgba::new(0, 0, 0, 48),
                knob_off: Rgba::new(255, 255, 255, 255),
                knob_on: Rgba::new(250, 250, 250, 255),
                scrollbar_thumb: Rgba::new(60, 66, 80, 0),
                is_light: true,
            }
        } else {
            Skin {
                panel: Rgba::new(b.r, b.g, b.b, 250),
                input: Rgba::new(t.r, t.g, t.b, 220),
                panel_grad_to: Rgba::new(t.r, t.g, t.b, 235),
                ink: Rgb::new(228, 231, 246),
                ink_dim: Rgb::new(158, 164, 188),
                ink_strong: Rgb::new(255, 255, 255),
                ink_faint: Rgb::new(118, 124, 148),
                ink_on_accent: Rgb::new(12, 16, 22),
                icon: Rgb::new(205, 210, 230),
                icon_hover: Rgb::new(244, 246, 255),
                accent: a,
                accent_soft: Rgba::new(a.r, a.g, a.b, 46),
                danger: Rgba::new(196, 74, 88, 255),
                hairline: Rgba::new(255, 255, 255, 22),
                surface: Rgba::new(255, 255, 255, 11),
                hover: Rgba::new(255, 255, 255, 26),
                hover_strong: Rgba::new(255, 255, 255, 40),
                track_off: Rgba::new(255, 255, 255, 34),
                knob_off: Rgba::new(210, 214, 228, 255),
                knob_on: Rgba::new(12, 16, 22, 255),
                scrollbar_thumb: Rgba::new(180, 184, 200, 0),
                is_light: false,
            }
        }
    }

    /// The color of slot `i` of the terminal table under this theme.
    pub open spec fn slot(self, defaults: Seq<Rgb>, i: int) -> Rgb {
        if i == BACKGROUND {
            self.chrome().term_bg
        } else if POWERLINE_SLOT0 <= i < POWERLINE_SLOT0 + POWERLINE_SLOTS {
            self.powerline()[i - POWERLINE_SLOT0]
        } else if self.chrome().is_light && i == FOREGROUND {
            light_foreground()
        } else if self.chrome().is_light && 0 <= i < 16 {
            light_ansi(i)
        } else {
            defaults[i]
        }
    }

    /// Rebuild the terminal color table for this theme on top of the user's
    /// configured scheme (`defaults`).
    ///
    /// Every theme moves the default background: that is what OSC 11 reports,
    /// and TUIs key their light/dark mode off it. Light themes additionally
    /// replace the foreground and the ANSI-16 set with a low-saturation light
    /// scheme: the configured (dark-ground) colors are pale by design and
    /// unreadable on a pale background.
    ///
    /// The powerline prompt paints its segment chips with indexed colors
    /// instead of baked-in truecolor, so a theme switch remaps the palette and
    /// every chip already printed in scrollback recolors instantly.
    pub fn apply_term_colors(self, colors: &mut List, defaults: &List)
        requires
            defaults.wf(),
        ensures
            final(colors).wf(),
            final(colors)@ == Seq::new(defaults@.len(), |i: int| self.slot(defaults@, i)),
    {
        colors.copy_from(defaults);
        let p = self.palette();
        colors.set(BACKGROUND, p.term_bg);
        let chips = self.powerline_colors();
        let mut i: usize = 0;
        while i < 8
            invariant
                i <= 8,
                chips@ == self.powerline(),
                self.powerline().len() == 8,
                p == self.chrome(),
                colors.wf(),
                colors@.len() == defaults@.len(),
                forall|j: int|
                    0 <= j < colors@.len() ==> #[trigger] colors@[j] == if j == BACKGROUND {
                        p.term_bg
                    } else if 16 <= j < 16 + i {
                        self.powerline()[j - 16]
                    } else {
                        defaults@[j]
                    },
            decreases 8 - i,
        {
            colors.set(POWERLINE_SLOT0 + i, chips[i]);
            i += 1;
        }
        if p.is_light {
            colors.set(FOREGROUND, Rgb::new(36, 41, 47));
            let mut k: usize = 0;
            while k < 16
                invariant
                    k <= 16,
                    p == self.chrome(),
                    p.is_light,
                    colors.wf(),
                    colors@.len() == defaults@.len(),
                    forall|j: int|
                        k <= j < colors@.len() && j >= 16 ==> #[trigger] colors@[j] == self.slot(
                            defaults@,
                            j,
                        ),
                    forall|j: int| 0 <= j < k ==> #[trigger] colors@[j] == light_ansi(j),
                decreases 16 - k,
            {
                colors.set(k, light_ansi_color(k));
                k += 1;
            }
        }
        assert(colors@ =~= Seq::new(defaults@.len(), |i: int| self.slot(defaults@, i)));
    }
}

/// The persisted name of a theme reads back as that theme.
pub proof fn law_prompt_names_read_back(theme: NebulaTheme)
    ensures
        NebulaTheme::named(theme.prompt_text()) == Some(theme),
{
    reveal_strlit("Nebula");
    reveal_strlit("SilverLight");
    reveal_strlit("SteelDark");
    reveal_strlit("LimestoneLight");
    reveal_strlit("CoalDark");
    reveal_strlit("LinenLight");
    reveal_strlit("MossDark");
    assert("Nebula"@.len() == 6);
    assert("SilverLight"@.len() == 11);
    assert("SteelDark"@.len() == 9);
    assert("LimestoneLight"@.len() == 14);
    assert("CoalDark"@.len() == 8);
    assert("LinenLight"@.len() == 10);
    assert("MossDark"@.len() == 8);
    assert("CoalDark"@[0] != "MossDark"@[0]);
}

/// Only persisted names are read as themes.
pub proof fn law_named_themes_have_that_name(name: Seq<char>)
    ensures
        NebulaTheme::named(name) matches Some(theme) ==> theme.prompt_text() == name,
{
}

/// Light themes print dark on a pure white terminal without ambient glow.
pub proof fn law_light_themes_are_white_and_flat(theme: NebulaTheme)
    requires
        theme.chrome().is_light,
    ensures
        theme.chrome().term_bg == rgb(255, 255, 255),
        theme.chrome().glow_l.a == 0,
        theme.chrome().glow_r.a == 0,
        theme.overlay().panel_grad_to == theme.overlay().panel,
{
}

/// A theme's accent contrasts its surface: light themes get a dark accent,
/// dark themes a light one.
pub proof fn law_accents_contrast(theme: NebulaTheme)
    ensures
        theme.chrome().is_light ==> theme.accent_color().r < 128 && theme.accent_color().g < 128
            && theme.accent_color().b < 128,
        !theme.chrome().is_light ==> theme.accent_color().r as int + theme.accent_color().g as int
            + theme.accent_color().b as int > 384,
{
}

/// One accent per theme, and a skin that is light where the palette is;
/// semantic red does not flip.
pub proof fn law_skin_follows_theme(theme: NebulaTheme)
    ensures
        theme.overlay().accent == theme.accent_color(),
        theme.overlay().is_light == theme.chrome().is_light,
        theme.overlay().danger == rgba(196, 74, 88, 255),
        theme.overlay().accent_soft.r == theme.accent_color().r,
        theme.overlay().accent_soft.g == theme.accent_color().g,
        theme.overlay().accent_soft.b == theme.accent_color().b,
{
}

/// Switching themes leaves no trace of the theme before: the table depends on
/// the configured scheme alone, and dark themes keep its ANSI colors and
/// foreground.
pub proof fn law_dark_themes_keep_the_scheme(theme: NebulaTheme, defaults: Seq<Rgb>, i: int)
    requires
        !theme.chrome().is_light,
        0 <= i < defaults.len(),
        i != BACKGROUND,
        i < POWERLINE_SLOT0 || i >= POWERLINE_SLOT0 + POWERLINE_SLOTS,
    ensures
        theme.slot(defaults, i) == defaults[i],
{
}

} // verus!
