//! What is drawn of a pane besides its cells: overlays, the inline suggestion,
//! prompt icons and inline images.

use vstd::prelude::*;

use crate::config::color::Colors;
use crate::display::color::Rgb;
use crate::display::overlay::{Cell, Direction};
use crate::display::pane::NebulaInlineImage;
use crate::display::theme::NebulaTheme;
use crate::text;

verus! {

/// The cursor of the vi mode.
#[derive(Debug, Clone, Copy, PartialEq, Eq, Structural)]
pub struct ViCursor {
    /// Its line: 0 is the topmost line of the screen, the history is negative.
    pub line: i32,
    pub column: usize,
    /// Where it stands in the viewport, if it does.
    pub viewport: Option<Cell>,
}

/// What a pane shows.
#[derive(Debug, Clone, Copy, PartialEq, Eq, Structural)]
pub struct PaneInput {
    /// Whether a full-screen program has the alternate screen.
    pub alt_screen: bool,
    pub vi_cursor: Option<ViCursor>,
    /// The direction of the search, while one is on.
    pub search: Option<Direction>,
    /// How many characters the search bar shows.
    pub search_len: usize,
    /// Whether the input method is enabled, and composes something.
    pub ime_enabled: bool,
    pub composing: bool,
    /// How far the view is scrolled back.
    pub display_offset: usize,
    pub screen_lines: usize,
    pub columns: usize,
    pub total_lines: usize,
    /// Where the terminal's cursor stands in the viewport, if it does.
    pub cursor: Option<Cell>,
    /// Whether a message is shown.
    pub has_message: bool,
    /// Whether the cells of the grid have a background of their own.
    pub padded: bool,
    /// Whether a link is highlighted.
    pub has_hint: bool,
}

/// Which colors the input method's preview uses.
#[derive(Debug, Clone, Copy, PartialEq, Eq, Structural)]
pub enum ImeInk {
    Grid,
    FooterBar,
}

/// What is drawn of a pane besides its cells.
#[derive(Debug, Clone, Copy, PartialEq, Eq, Structural)]
pub struct PanePlan {
    /// Whether suggestions are looked for.
    pub suggests: bool,
    /// The line that the indicator shows.
    pub indicator_line: Option<usize>,
    /// The column that the indicator must not cover.
    pub obstructed_column: Option<usize>,
    /// Whether the margins take the background of the grid.
    pub fills_margins: bool,
    /// Whether the search bar is drawn, and its own cursor.
    pub search_bar: bool,
    pub search_cursor: bool,
    /// Where the input method's preview goes.
    pub ime_position: Option<Cell>,
    pub ime_ink: ImeInk,
    /// The first line of the message bar.
    pub message_line: Option<usize>,
    /// Where the inline suggestion goes, and how many columns are left there.
    pub ghost_at: Option<Cell>,
    pub ghost_columns: usize,
    /// Whether the tooltip of a link is drawn.
    pub tooltip: bool,
    /// Whether the scrollbar is drawn: only while scrolled into the history.
    pub scrollbar: bool,
}

/// Whether suggestions are looked for: not on the alternate screen, and never
/// during vi mode or a search.
pub open spec fn suggests(i: PaneInput) -> bool {
    !i.alt_screen && i.vi_cursor is None && i.search is None
}

/// The line that the indicator shows: the vi cursor's, counted from the bottom;
/// in a search, how far the view is scrolled.
pub open spec fn indicator_line(i: PaneInput) -> Option<usize> {
    match i.vi_cursor {
        Some(vi) => Some((i.screen_lines - 1 - vi.line) as usize),
        None => if i.search is Some {
            Some(i.display_offset)
        } else {
            None
        },
    }
}

/// The column that the indicator must not cover: the vi cursor's, while it is on
/// the top line of the view.
pub open spec fn obstructed_column(i: PaneInput) -> Option<usize> {
    match i.vi_cursor {
        Some(vi) => if vi.line == -(i.display_offset as int) {
            Some(vi.column)
        } else {
            None
        },
        None => None,
    }
}

/// Where the input method's preview goes: into the search bar, to the vi cursor,
/// or to the terminal's cursor where that is in view.
pub open spec fn ime_position(i: PaneInput) -> Option<Cell> {
    if i.search is Some {
        Some(Cell { line: i.screen_lines, column: (i.search_len - 1) as usize })
    } else {
        let vi = match i.vi_cursor {
            Some(vi) => vi.viewport,
            None => None,
        };
        match vi {
            Some(at) => Some(at),
            None => match i.cursor {
                Some(at) => if at.line < i.screen_lines {
                    Some(at)
                } else {
                    None
                },
                None => None,
            },
        }
    }
}

/// Where the inline suggestion goes: behind the cursor, while nothing is being
/// composed there.
pub open spec fn ghost_cell(i: PaneInput, suggestion_len: nat) -> Option<Cell> {
    match i.cursor {
        Some(at) => if suggestion_len > 0 && !i.composing && at.line < i.screen_lines && at.column
            < i.columns {
            Some(at)
        } else {
            None
        },
        None => None,
    }
}

/// What is drawn of a pane besides its cells.
pub open spec fn plan(i: PaneInput, suggestion_len: nat) -> PanePlan {
    PanePlan {
        suggests: suggests(i),
        indicator_line: indicator_line(i),
        obstructed_column: obstructed_column(i),
        fills_margins: i.alt_screen && i.padded,
        search_bar: i.search is Some,
        search_cursor: i.search is Some && !i.composing,
        ime_position: if i.ime_enabled {
            ime_position(i)
        } else {
            None
        },
        ime_ink: if i.search is Some {
            ImeInk::FooterBar
        } else {
            ImeInk::Grid
        },
        message_line: if i.has_message {
            Some(
                (i.screen_lines + if i.search is Some {
                    1int
                } else {
                    0
                }) as usize,
            )
        } else {
            None
        },
        ghost_at: ghost_cell(i, suggestion_len),
        ghost_columns: match ghost_cell(i, suggestion_len) {
            Some(at) => (i.columns - at.column) as usize,
            None => 0,
        },
        tooltip: i.has_hint,
        scrollbar: i.display_offset != 0 && i.total_lines > i.screen_lines,
    }
}

/// What can be asked of a pane: its screen has a line, the vi cursor is on it or
/// in the history, and a search bar shows something.
pub open spec fn is_pane(i: PaneInput) -> bool {
    &&& 0 < i.screen_lines < usize::MAX
    &&& i.screen_lines <= i32::MAX
    &&& i.display_offset <= i32::MAX
    &&& i.search is Some ==> i.search_len > 0
    &&& i.vi_cursor matches Some(vi) ==> vi.line < i.screen_lines && i.screen_lines - 1 - vi.line
        <= i32::MAX
}

/// Plans what is drawn of a pane besides its cells.
pub fn draw_pane(i: &PaneInput, suggestion: &str) -> (r: PanePlan)
    requires
        is_pane(*i),
    ensures
        r == plan(*i, suggestion@.len()),
{
    let searching: bool = i.search.is_some();
    let vi_mode: bool = i.vi_cursor.is_some();
    let has_suggestion: bool = !suggestion.is_empty();
    let line: Option<usize> = match i.vi_cursor {
        Some(vi) => Some((i.screen_lines as i64 - 1 - vi.line as i64) as usize),
        None => if searching {
            Some(i.display_offset)
        } else {
            None
        },
    };
    let obstructed: Option<usize> = match i.vi_cursor {
        Some(vi) => if vi.line as i64 == -(i.display_offset as i64) {
            Some(vi.column)
        } else {
            None
        },
        None => None,
    };
    let cursor_in_view: Option<Cell> = match i.cursor {
        Some(at) => if at.line < i.screen_lines {
            Some(at)
        } else {
            None
        },
        None => None,
    };
    let position: Option<Cell> = if searching {
        Some(Cell { line: i.screen_lines, column: i.search_len - 1 })
    } else {
        let vi: Option<Cell> = match i.vi_cursor {
            Some(vi) => vi.viewport,
            None => None,
        };
        match vi {
            Some(at) => Some(at),
            None => cursor_in_view,
        }
    };
    let ghost_at: Option<Cell> = match cursor_in_view {
        Some(at) => if has_suggestion && !i.composing && at.column < i.columns {
            Some(at)
        } else {
            None
        },
        None => None,
    };
    PanePlan {
        suggests: !i.alt_screen && !vi_mode && !searching,
        indicator_line: line,
        obstructed_column: obstructed,
        fills_margins: i.alt_screen && i.padded,
        search_bar: searching,
        search_cursor: searching && !i.composing,
        ime_position: if i.ime_enabled {
            position
        } else {
            None
        },
        ime_ink: if searching {
            ImeInk::FooterBar
        } else {
            ImeInk::Grid
        },
        message_line: if i.has_message {
            Some(
                if searching {
                    i.screen_lines + 1
                } else {
                    i.screen_lines
                },
            )
        } else {
            None
        },
        ghost_at,
        ghost_columns: match ghost_at {
            Some(at) => i.columns - at.column,
            None => 0,
        },
        tooltip: i.has_hint,
        scrollbar: i.display_offset != 0 && i.total_lines > i.screen_lines,
    }
}

/// What is shown of a suggestion in a number of columns.
pub open spec fn shown_ghost(suggestion: Seq<char>, columns: nat) -> Seq<char> {
    if suggestion.len() <= columns {
        suggestion
    } else {
        suggestion.take(columns as int)
    }
}

/// What is shown of a suggestion in a number of columns.
pub fn ghost_text(suggestion: &str, columns: usize) -> (r: String)
    ensures
        r@ == shown_ghost(suggestion@, columns as nat),
{
    let v = text::chars_of(suggestion);
    if v.len() <= columns {
        suggestion.to_owned()
    } else {
        let r = text::string_of_range(v.as_slice(), 0, columns);
        assert(r@ =~= shown_ghost(suggestion@, columns as nat));
        r
    }
}

/// An icon of the prompt.
#[derive(Debug, Clone, Copy, PartialEq, Eq, Structural)]
pub enum PowerlineIcon {
    Folder,
    GitBranch,
}

/// The icon that a private character of the prompt stands for.
pub open spec fn icon_of(c: char) -> Option<PowerlineIcon> {
    if c == '\u{E100}' {
        Some(PowerlineIcon::Folder)
    } else if c == '\u{E101}' {
        Some(PowerlineIcon::GitBranch)
    } else {
        None
    }
}

/// A cell whose character is drawn.
#[derive(Debug, Clone, Copy, PartialEq, Eq, Structural)]
pub struct DrawnCell {
    pub c: char,
    pub at: Cell,
}

/// What a message tells of.
#[derive(Debug, Clone, Copy, PartialEq, Eq, Structural)]
pub enum MessageType {
    Error,
    Warning,
}

/// The colors of a message: those of its text and of the bar behind it.
#[derive(Debug, Clone, Copy, PartialEq, Eq, Structural)]
pub struct MessageColors {
    pub ink: Rgb,
    pub bar: Rgb,
}

/// The colors of a message: errors stand on red, warnings on yellow, and the text
/// has the color of the terminal's background.
pub fn message_colors(ty: MessageType, colors: &Colors) -> (r: MessageColors)
    ensures
        r == (MessageColors {
            ink: colors.primary.background,
            bar: match ty {
                MessageType::Error => colors.normal.red,
                MessageType::Warning => colors.normal.yellow,
            },
        }),
{
    let bar = match ty {
        MessageType::Error => colors.normal.red,
        MessageType::Warning => colors.normal.yellow,
    };
    MessageColors { ink: colors.primary.background, bar }
}

/// The ink of the inline suggestion: the theme's faintest, so that it stays weaker
/// than what was typed.
pub fn ghost_ink(theme: NebulaTheme) -> (r: Rgb)
    ensures
        r == theme.overlay().ink_faint,
{
    theme.skin().ink_faint
}

/// The color of an icon of the prompt: an edge of the theme's palette.
pub open spec fn icon_ink(icon: PowerlineIcon, theme: NebulaTheme) -> Rgb {
    let edge = match icon {
        PowerlineIcon::Folder => theme.chrome().edge_r,
        PowerlineIcon::GitBranch => theme.chrome().edge_l,
    };
    Rgb { r: edge.r, g: edge.g, b: edge.b }
}

/// The color of an icon of the prompt.
pub fn icon_color(icon: PowerlineIcon, theme: NebulaTheme) -> (r: Rgb)
    ensures
        r == icon_ink(icon, theme),
{
    let palette = theme.palette();
    let edge = match icon {
        PowerlineIcon::Folder => palette.edge_r,
        PowerlineIcon::GitBranch => palette.edge_l,
    };
    Rgb::new(edge.r, edge.g, edge.b)
}

/// An icon and the cell that it is drawn in.
#[derive(Debug, Clone, Copy, PartialEq, Eq, Structural)]
pub struct PlacedIcon {
    pub icon: PowerlineIcon,
    pub at: Cell,
}

pub open spec fn placed(icon: PowerlineIcon, at: Cell) -> PlacedIcon {
    PlacedIcon { icon, at }
}

pub open spec fn drawn(cell: DrawnCell) -> DrawnCell {
    if icon_of(cell.c) is Some {
        DrawnCell { c: ' ', at: cell.at }
    } else {
        cell
    }
}

/// The icons among cells: those on lines of the screen.
pub open spec fn icons_of(cells: Seq<DrawnCell>, screen_lines: nat) -> Seq<PlacedIcon>
    decreases cells.len(),
{
    if cells.len() == 0 {
        Seq::empty()
    } else {
        let before = icons_of(cells.drop_last(), screen_lines);
        match icon_of(cells.last().c) {
            Some(icon) => if cells.last().at.line < screen_lines {
                before.push(placed(icon, cells.last().at))
            } else {
                before
            },
            None => before,
        }
    }
}

/// Takes the icons of the prompt out of the cells: their placeholders become
/// spaces, and the icons are drawn on their own.
pub fn take_powerline_icons(cells: &mut Vec<DrawnCell>, screen_lines: usize) -> (icons: Vec<
    PlacedIcon,
>)
    ensures
        icons@ == icons_of(old(cells)@, screen_lines as nat),
        final(cells)@ == old(cells)@.map_values(|c: DrawnCell| drawn(c)),
{
    let ghost all = cells@;
    let mut icons: Vec<PlacedIcon> = Vec::new();
    let mut i: usize = 0;
    assert(all.take(0) =~= Seq::empty());
    while i < cells.len()
        invariant
            i <= cells@.len(),
            cells@.len() == all.len(),
            icons@ == icons_of(all.take(i as int), screen_lines as nat),
            forall|j: int| 0 <= j < i ==> #[trigger] cells@[j] == drawn(all[j]),
            forall|j: int| i <= j < all.len() ==> #[trigger] cells@[j] == all[j],
        decreases cells@.len() - i,
    {
        assert(all.take(i + 1).drop_last() =~= all.take(i as int));
        assert(all.take(i + 1).last() == all[i as int]);
        let cell: DrawnCell = cells[i];
        let icon: Option<PowerlineIcon> = if cell.c == '\u{E100}' {
            Some(PowerlineIcon::Folder)
        } else if cell.c == '\u{E101}' {
            Some(PowerlineIcon::GitBranch)
        } else {
            None
        };
        if let Some(icon) = icon {
            if cell.at.line < screen_lines {
                icons.push(PlacedIcon { icon, at: cell.at });
            }
            cells.set(i, DrawnCell { c: ' ', at: cell.at });
        }
        i += 1;
    }
    assert(all.take(i as int) =~= all);
    assert(cells@ =~= all.map_values(|c: DrawnCell| drawn(c)));
    icons
}

/// Whether an image is still in the history: its last row has not scrolled out
/// for good.
pub open spec fn is_kept(image: NebulaInlineImage, scrolled_out: nat) -> bool {
    image.abs_line + image.rows >= scrolled_out
}

/// Drops the images whose rows scrolled out of the history for good.
pub fn prune_images(images: &mut Vec<NebulaInlineImage>, scrolled_out: usize)
    ensures
        final(images)@ == old(images)@.filter(
            |i: NebulaInlineImage| is_kept(i, scrolled_out as nat),
        ),
{
    let ghost all = images@;
    let ghost keep = |i: NebulaInlineImage| is_kept(i, scrolled_out as nat);
    let mut kept: Vec<NebulaInlineImage> = Vec::new();
    let mut i: usize = 0;
    proof {
        reveal(Seq::filter);
        assert(all.take(0).filter(keep) =~= Seq::empty());
    }
    while i < images.len()
        invariant
            i <= images@.len(),
            all == images@,
            keep == (|i: NebulaInlineImage| is_kept(i, scrolled_out as nat)),
            kept@ == all.take(i as int).filter(keep),
        decreases images@.len() - i,
    {
        proof {
            assert(all.take(i + 1).drop_last() =~= all.take(i as int));
            assert(all.take(i + 1).last() == all[i as int]);
            reveal(Seq::filter);
        }
        let image: NebulaInlineImage = images[i];
        if image.abs_line >= scrolled_out || image.rows >= scrolled_out - image.abs_line {
            kept.push(image);
        }
        i += 1;
    }
    assert(all.take(i as int) =~= all);
    *images = kept;
}

/// Suggestions, the search bar and the vi cursor's indicator never show
/// together.
pub proof fn law_overlays_exclude_suggestions(i: PaneInput, suggestion_len: nat)
    ensures
        plan(i, suggestion_len).suggests ==> !plan(i, suggestion_len).search_bar && plan(
            i,
            suggestion_len,
        ).indicator_line is None && !plan(i, suggestion_len).fills_margins,
{
}

/// The inline suggestion stays in its row.
pub proof fn law_ghost_stays_in_its_row(i: PaneInput, suggestion: Seq<char>)
    ensures
        plan(i, suggestion.len()).ghost_at matches Some(at) ==> at.column + shown_ghost(
            suggestion,
            plan(i, suggestion.len()).ghost_columns as nat,
        ).len() <= i.columns && at.line < i.screen_lines,
{
}

/// No placeholder of an icon is ever drawn as a character.
pub proof fn law_placeholders_are_not_drawn(cell: DrawnCell)
    ensures
        icon_of(drawn(cell).c) is None,
        drawn(cell).at == cell.at,
{
}

} // verus!
