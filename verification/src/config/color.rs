//! Color configuration of the terminal and its overlays.

use vstd::prelude::*;

use crate::display::color::{CellRgb, Rgb};

verus! {

/// Colors of the terminal.
#[derive(Clone, Debug, PartialEq, Eq)]
pub struct Colors {
    pub primary: PrimaryColors,
    pub cursor: InvertedCellColors,
    pub vi_mode_cursor: InvertedCellColors,
    pub selection: InvertedCellColors,
    pub normal: NormalColors,
    pub bright: BrightColors,
    pub dim: Option<DimColors>,
    pub indexed_colors: Vec<IndexedColor>,
    pub search: SearchColors,
    pub line_indicator: LineIndicatorColors,
    pub hints: HintColors,
    pub transparent_background_colors: bool,
    pub draw_bold_text_with_bright_colors: bool,
    pub footer_bar: BarColors,
}

impl Default for Colors {
    /// Only the cursors differ from the defaults of their parts: the cursor
    /// keeps its own background without tinting selections, which share the
    /// type.
    fn default() -> (r: Self)
        ensures
            r.primary == PrimaryColors::initial(),
            r.cursor == default_cursor(),
            r.vi_mode_cursor == default_cursor(),
            r.selection == InvertedCellColors::initial(),
            r.normal == NormalColors::initial(),
            r.bright == BrightColors::initial(),
            r.dim is None,
            r.indexed_colors@.len() == 0,
            r.search == SearchColors::initial(),
            r.line_indicator == LineIndicatorColors::initial(),
            r.hints == HintColors::initial(),
            !r.transparent_background_colors,
            !r.draw_bold_text_with_bright_colors,
            r.footer_bar == BarColors::initial(),
    {
        let cursor = InvertedCellColors {
            foreground: CellRgb::CellBackground,
            background: CellRgb::Rgb(Rgb::new(0x49, 0x4d, 0x72)),
        };
        Colors {
            primary: PrimaryColors::default(),
            cursor,
            vi_mode_cursor: cursor,
            selection: InvertedCellColors::default(),
            normal: NormalColors::default(),
            bright: BrightColors::default(),
            dim: None,
            indexed_colors: Vec::new(),
            search: SearchColors::default(),
            line_indicator: LineIndicatorColors::default(),
            hints: HintColors::default(),
            transparent_background_colors: false,
            draw_bold_text_with_bright_colors: false,
            footer_bar: BarColors::default(),
        }
    }
}

/// The cursor colors of an unconfigured terminal.
pub open spec fn default_cursor() -> InvertedCellColors {
    InvertedCellColors {
        foreground: CellRgb::CellBackground,
        background: CellRgb::Rgb(Rgb { r: 0x49, g: 0x4d, b: 0x72 }),
    }
}

impl Colors {
    /// Foreground of the footer bar; the terminal background unless configured.
    pub fn footer_bar_foreground(&self) -> (r: Rgb)
        ensures
            r == match self.footer_bar.foreground {
                Some(color) => color,
                None => self.primary.background,
            },
    {
        self.footer_bar.foreground.unwrap_or(self.primary.background)
    }

    /// Background of the footer bar; the terminal foreground unless configured.
    pub fn footer_bar_background(&self) -> (r: Rgb)
        ensures
            r == match self.footer_bar.background {
                Some(color) => color,
                None => self.primary.foreground,
            },
    {
        self.footer_bar.background.unwrap_or(self.primary.foreground)
    }
}

/// A configured color of the 256-color palette.
#[derive(Copy, Clone, Debug, PartialEq, Eq, Structural)]
pub struct IndexedColor {
    pub color: Rgb,
    pub index: ColorIndex,
}

/// A slot of the 256-color palette.
#[derive(Copy, Clone, Debug, PartialEq, Eq, Structural)]
pub struct ColorIndex(pub u8);

/// Why an indexed color was refused: its index is one of the 16 named colors.
#[derive(Copy, Clone, Debug, PartialEq, Eq, Structural)]
pub struct NamedColorIndex;

impl NamedColorIndex {
    /// The message shown for the error.
    pub fn message(&self) -> (r: String)
        ensures
            r@ == "Config error: indexed_color's index is {}, but a value bigger than 15 was expected; ignoring setting"@,
    {
        "Config error: indexed_color's index is {}, but a value bigger than 15 was expected; ignoring setting".to_owned()
    }
}

impl IndexedColor {
    pub open spec fn index_of(&self) -> u8 {
        self.index.0
    }

    /// The indexed color for a configured slot, which must lie behind the 16
    /// named ones.
    pub fn new(color: Rgb, index: u8) -> (r: Result<IndexedColor, NamedColorIndex>)
        ensures
            index < 16 <==> r is Err,
            r matches Ok(c) ==> c.color == color && c.index_of() == index,
    {
        if index < 16 {
            Err(NamedColorIndex)
        } else {
            Ok(IndexedColor { color, index: ColorIndex(index) })
        }
    }

    pub fn index(&self) -> (r: u8)
        ensures
            r == self.index_of(),
    {
        self.index.0
    }
}

impl Default for IndexedColor {
    fn default() -> (r: Self)
        ensures
            r.color == (Rgb { r: 0, g: 0, b: 0 }),
            r.index_of() == 0,
    {
        IndexedColor { color: Rgb::new(0, 0, 0), index: ColorIndex(0) }
    }
}

/// Colors of the line indicator.
#[derive(Copy, Clone, Debug, PartialEq, Eq, Structural)]
pub struct LineIndicatorColors {
    pub foreground: Option<Rgb>,
    pub background: Option<Rgb>,
}

impl LineIndicatorColors {
    /// The value of an unconfigured terminal.
    pub open spec fn initial() -> LineIndicatorColors {
        LineIndicatorColors {
            foreground: None,
            background: None,
        }
    }
}

impl Default for LineIndicatorColors {
    fn default() -> (r: Self)
        ensures
            r == LineIndicatorColors::initial(),
    {
        LineIndicatorColors {
            foreground: None,
            background: None,
        }
    }
}

/// Colors of hint labels.
#[derive(Copy, Clone, Debug, PartialEq, Eq, Structural)]
pub struct HintColors {
    pub start: HintStartColors,
    pub end: HintEndColors,
}

impl HintColors {
    /// The value of an unconfigured terminal.
    pub open spec fn initial() -> HintColors {
        HintColors {
            start: HintStartColors::initial(),
            end: HintEndColors::initial(),
        }
    }
}

impl Default for HintColors {
    fn default() -> (r: Self)
        ensures
            r == HintColors::initial(),
    {
        HintColors {
            start: HintStartColors::default(),
            end: HintEndColors::default(),
        }
    }
}

/// Colors of the first character of a hint label.
#[derive(Copy, Clone, Debug, PartialEq, Eq, Structural)]
pub struct HintStartColors {
    pub foreground: CellRgb,
    pub background: CellRgb,
}

impl HintStartColors {
    /// The value of an unconfigured terminal.
    pub open spec fn initial() -> HintStartColors {
        HintStartColors {
            foreground: CellRgb::Rgb(Rgb { r: 0x18, g: 0x18, b: 0x18 }),
            background: CellRgb::Rgb(Rgb { r: 0xf4, g: 0xbf, b: 0x75 }),
        }
    }
}

impl Default for HintStartColors {
    fn default() -> (r: Self)
        ensures
            r == HintStartColors::initial(),
    {
        HintStartColors {
            foreground: CellRgb::Rgb(Rgb::new(0x18, 0x18, 0x18)),
            background: CellRgb::Rgb(Rgb::new(0xf4, 0xbf, 0x75)),
        }
    }
}

/// Colors of the other characters of a hint label.
#[derive(Copy, Clone, Debug, PartialEq, Eq, Structural)]
pub struct HintEndColors {
    pub foreground: CellRgb,
    pub background: CellRgb,
}

impl HintEndColors {
    /// The value of an unconfigured terminal.
    pub open spec fn initial() -> HintEndColors {
        HintEndColors {
            foreground: CellRgb::Rgb(Rgb { r: 0x18, g: 0x18, b: 0x18 }),
            background: CellRgb::Rgb(Rgb { r: 0xac, g: 0x42, b: 0x42 }),
        }
    }
}

impl Default for HintEndColors {
    fn default() -> (r: Self)
        ensures
            r == HintEndColors::initial(),
    {
        HintEndColors {
            foreground: CellRgb::Rgb(Rgb::new(0x18, 0x18, 0x18)),
            background: CellRgb::Rgb(Rgb::new(0xac, 0x42, 0x42)),
        }
    }
}

/// Colors that by default swap those of the cell.
#[derive(Copy, Clone, Debug, PartialEq, Eq, Structural)]
pub struct InvertedCellColors {
    pub foreground: CellRgb,
    pub background: CellRgb,
}

impl InvertedCellColors {
    /// The value of an unconfigured terminal.
    pub open spec fn initial() -> InvertedCellColors {
        InvertedCellColors {
            foreground: CellRgb::CellBackground,
            background: CellRgb::CellForeground,
        }
    }
}

impl Default for InvertedCellColors {
    fn default() -> (r: Self)
        ensures
            r == InvertedCellColors::initial(),
    {
        InvertedCellColors {
            foreground: CellRgb::CellBackground,
            background: CellRgb::CellForeground,
        }
    }
}

/// Colors of search matches.
#[derive(Copy, Clone, Debug, PartialEq, Eq, Structural)]
pub struct SearchColors {
    pub focused_match: FocusedMatchColors,
    pub matches: MatchColors,
}

impl SearchColors {
    /// The value of an unconfigured terminal.
    pub open spec fn initial() -> SearchColors {
        SearchColors {
            focused_match: FocusedMatchColors::initial(),
            matches: MatchColors::initial(),
        }
    }
}

impl Default for SearchColors {
    fn default() -> (r: Self)
        ensures
            r == SearchColors::initial(),
    {
        SearchColors {
            focused_match: FocusedMatchColors::default(),
            matches: MatchColors::default(),
        }
    }
}

/// Colors of the focused search match.
#[derive(Copy, Clone, Debug, PartialEq, Eq, Structural)]
pub struct FocusedMatchColors {
    pub foreground: CellRgb,
    pub background: CellRgb,
}

impl FocusedMatchColors {
    /// The value of an unconfigured terminal.
    pub open spec fn initial() -> FocusedMatchColors {
        FocusedMatchColors {
            foreground: CellRgb::Rgb(Rgb { r: 0x18, g: 0x18, b: 0x18 }),
            background: CellRgb::Rgb(Rgb { r: 0xf4, g: 0xbf, b: 0x75 }),
        }
    }
}

impl Default for FocusedMatchColors {
    fn default() -> (r: Self)
        ensures
            r == FocusedMatchColors::initial(),
    {
        FocusedMatchColors {
            foreground: CellRgb::Rgb(Rgb::new(0x18, 0x18, 0x18)),
            background: CellRgb::Rgb(Rgb::new(0xf4, 0xbf, 0x75)),
        }
    }
}

/// Colors of the other search matches.
#[derive(Copy, Clone, Debug, PartialEq, Eq, Structural)]
pub struct MatchColors {
    pub foreground: CellRgb,
    pub background: CellRgb,
}

impl MatchColors {
    /// The value of an unconfigured terminal.
    pub open spec fn initial() -> MatchColors {
        MatchColors {
            foreground: CellRgb::Rgb(Rgb { r: 0x18, g: 0x18, b: 0x18 }),
            background: CellRgb::Rgb(Rgb { r: 0xac, g: 0x42, b: 0x42 }),
        }
    }
}

impl Default for MatchColors {
    fn default() -> (r: Self)
        ensures
            r == MatchColors::initial(),
    {
        MatchColors {
            foreground: CellRgb::Rgb(Rgb::new(0x18, 0x18, 0x18)),
            background: CellRgb::Rgb(Rgb::new(0xac, 0x42, 0x42)),
        }
    }
}

/// Colors of the footer bar.
#[derive(Copy, Clone, Debug, PartialEq, Eq, Structural)]
pub struct BarColors {
    pub foreground: Option<Rgb>,
    pub background: Option<Rgb>,
}

impl BarColors {
    /// The value of an unconfigured terminal.
    pub open spec fn initial() -> BarColors {
        BarColors {
            foreground: None,
            background: None,
        }
    }
}

impl Default for BarColors {
    fn default() -> (r: Self)
        ensures
            r == BarColors::initial(),
    {
        BarColors {
            foreground: None,
            background: None,
        }
    }
}

/// The default foreground and background.
#[derive(Copy, Clone, Debug, PartialEq, Eq, Structural)]
pub struct PrimaryColors {
    pub foreground: Rgb,
    pub background: Rgb,
    pub bright_foreground: Option<Rgb>,
    pub dim_foreground: Option<Rgb>,
}

impl PrimaryColors {
    /// The value of an unconfigured terminal.
    pub open spec fn initial() -> PrimaryColors {
        PrimaryColors {
            foreground: Rgb { r: 0xd6, g: 0xda, b: 0xea },
            background: Rgb { r: 0x08, g: 0x0a, b: 0x18 },
            bright_foreground: None,
            dim_foreground: None,
        }
    }
}

impl Default for PrimaryColors {
    fn default() -> (r: Self)
        ensures
            r == PrimaryColors::initial(),
    {
        PrimaryColors {
            foreground: Rgb::new(0xd6, 0xda, 0xea),
            background: Rgb::new(0x08, 0x0a, 0x18),
            bright_foreground: None,
            dim_foreground: None,
        }
    }
}

/// The eight normal colors.
#[derive(Copy, Clone, Debug, PartialEq, Eq, Structural)]
pub struct NormalColors {
    pub black: Rgb,
    pub red: Rgb,
    pub green: Rgb,
    pub yellow: Rgb,
    pub blue: Rgb,
    pub magenta: Rgb,
    pub cyan: Rgb,
    pub white: Rgb,
}

impl NormalColors {
    /// The value of an unconfigured terminal.
    pub open spec fn initial() -> NormalColors {
        NormalColors {
            black: Rgb { r: 0x1a, g: 0x1d, b: 0x2e },
            red: Rgb { r: 0xff, g: 0x6b, b: 0x81 },
            green: Rgb { r: 0x65, g: 0xe8, b: 0x6e },
            yellow: Rgb { r: 0xf5, g: 0xc8, b: 0x4c },
            blue: Rgb { r: 0x38, g: 0xa8, b: 0xff },
            magenta: Rgb { r: 0xb4, g: 0x8c, b: 0xff },
            cyan: Rgb { r: 0x4f, g: 0xd6, b: 0xe0 },
            white: Rgb { r: 0xd6, g: 0xda, b: 0xea },
        }
    }
}

impl Default for NormalColors {
    fn default() -> (r: Self)
        ensures
            r == NormalColors::initial(),
    {
        NormalColors {
            black: Rgb::new(0x1a, 0x1d, 0x2e),
            red: Rgb::new(0xff, 0x6b, 0x81),
            green: Rgb::new(0x65, 0xe8, 0x6e),
            yellow: Rgb::new(0xf5, 0xc8, 0x4c),
            blue: Rgb::new(0x38, 0xa8, 0xff),
            magenta: Rgb::new(0xb4, 0x8c, 0xff),
            cyan: Rgb::new(0x4f, 0xd6, 0xe0),
            white: Rgb::new(0xd6, 0xda, 0xea),
        }
    }
}

/// The eight bright colors.
#[derive(Copy, Clone, Debug, PartialEq, Eq, Structural)]
pub struct BrightColors {
    pub black: Rgb,
    pub red: Rgb,
    pub green: Rgb,
    pub yellow: Rgb,
    pub blue: Rgb,
    pub magenta: Rgb,
    pub cyan: Rgb,
    pub white: Rgb,
}

impl BrightColors {
    /// The value of an unconfigured terminal.
    pub open spec fn initial() -> BrightColors {
        BrightColors {
            black: Rgb { r: 0x8d, g: 0x94, b: 0xaa },
            red: Rgb { r: 0xff, g: 0x8b, b: 0x9d },
            green: Rgb { r: 0x86, g: 0xf0, b: 0x90 },
            yellow: Rgb { r: 0xff, g: 0xda, b: 0x7a },
            blue: Rgb { r: 0x6c, g: 0xc0, b: 0xff },
            magenta: Rgb { r: 0xc9, g: 0xa8, b: 0xff },
            cyan: Rgb { r: 0x73, g: 0xe4, b: 0xec },
            white: Rgb { r: 0xf2, g: 0xf4, b: 0xfb },
        }
    }
}

impl Default for BrightColors {
    fn default() -> (r: Self)
        ensures
            r == BrightColors::initial(),
    {
        BrightColors {
            black: Rgb::new(0x8d, 0x94, 0xaa),
            red: Rgb::new(0xff, 0x8b, 0x9d),
            green: Rgb::new(0x86, 0xf0, 0x90),
            yellow: Rgb::new(0xff, 0xda, 0x7a),
            blue: Rgb::new(0x6c, 0xc0, 0xff),
            magenta: Rgb::new(0xc9, 0xa8, 0xff),
            cyan: Rgb::new(0x73, 0xe4, 0xec),
            white: Rgb::new(0xf2, 0xf4, 0xfb),
        }
    }
}

/// The eight dim colors.
#[derive(Copy, Clone, Debug, PartialEq, Eq, Structural)]
pub struct DimColors {
    pub black: Rgb,
    pub red: Rgb,
    pub green: Rgb,
    pub yellow: Rgb,
    pub blue: Rgb,
    pub magenta: Rgb,
    pub cyan: Rgb,
    pub white: Rgb,
}

impl DimColors {
    /// The value of an unconfigured terminal.
    pub open spec fn initial() -> DimColors {
        DimColors {
            black: Rgb { r: 0x0f, g: 0x0f, b: 0x0f },
            red: Rgb { r: 0x71, g: 0x2b, b: 0x2b },
            green: Rgb { r: 0x5f, g: 0x6f, b: 0x3a },
            yellow: Rgb { r: 0xa1, g: 0x7e, b: 0x4d },
            blue: Rgb { r: 0x45, g: 0x68, b: 0x77 },
            magenta: Rgb { r: 0x70, g: 0x4d, b: 0x68 },
            cyan: Rgb { r: 0x4d, g: 0x77, b: 0x70 },
            white: Rgb { r: 0x8e, g: 0x8e, b: 0x8e },
        }
    }
}

impl Default for DimColors {
    fn default() -> (r: Self)
        ensures
            r == DimColors::initial(),
    {
        DimColors {
            black: Rgb::new(0x0f, 0x0f, 0x0f),
            red: Rgb::new(0x71, 0x2b, 0x2b),
            green: Rgb::new(0x5f, 0x6f, 0x3a),
            yellow: Rgb::new(0xa1, 0x7e, 0x4d),
            blue: Rgb::new(0x45, 0x68, 0x77),
            magenta: Rgb::new(0x70, 0x4d, 0x68),
            cyan: Rgb::new(0x4d, 0x77, 0x70),
            white: Rgb::new(0x8e, 0x8e, 0x8e),
        }
    }
}

} // verus!
