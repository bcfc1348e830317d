//! The mouse: the cell that it points to, clicks, and the selection that it makes.

use crate::display::frame::SizeInfo;
use crate::event::search::Point;
use vstd::prelude::*;

verus! {

/// How many clicks came in a row.
#[derive(Debug, Clone, Copy, PartialEq, Eq, Structural)]
pub enum ClickState {
    Idle,
    Click,
    DoubleClick,
    TripleClick,
}

/// What a selection takes in.
#[derive(Debug, Clone, Copy, PartialEq, Eq, Structural)]
pub enum SelectionType {
    Simple,
    Block,
    Semantic,
    Lines,
}

/// A half of a cell.
#[derive(Debug, Clone, Copy, PartialEq, Eq, Structural)]
pub enum Side {
    Left,
    Right,
}

/// A cell of the viewport.
#[derive(Debug, Clone, Copy, PartialEq, Eq, Structural)]
pub struct ViewCell {
    pub line: usize,
    pub column: usize,
}

/// A selection that a press armed, but no drag started yet.
#[derive(Debug, Clone, Copy, PartialEq, Eq, Structural)]
pub struct PendingSelection {
    pub ty: SelectionType,
    pub point: Point,
    pub side: Side,
}

/// State of the mouse.
#[derive(Debug, Clone, Copy, PartialEq, Eq, Structural)]
pub struct Mouse {
    pub left_pressed: bool,
    pub middle_pressed: bool,
    pub right_pressed: bool,
    pub click_state: ClickState,
    pub cell_side: Side,
    pub block_hint_launcher: bool,
    pub hint_highlight_dirty: bool,
    pub inside_text_area: bool,
    /// Whether the current press crossed the drag threshold.
    pub drag_active: bool,
    /// Selection armed by the left press but not yet started. A click never
    /// creates a selection: only a drag past the threshold does, from the cell
    /// of the press.
    pub pending_selection: Option<PendingSelection>,
    pub x: usize,
    pub y: usize,
}

impl Default for Mouse {
    fn default() -> (r: Mouse)
        ensures
            r == (Mouse {
                left_pressed: false,
                middle_pressed: false,
                right_pressed: false,
                click_state: ClickState::Idle,
                cell_side: Side::Left,
                block_hint_launcher: false,
                hint_highlight_dirty: false,
                inside_text_area: false,
                drag_active: false,
                pending_selection: None,
                x: 0,
                y: 0,
            }),
    {
        Mouse {
            left_pressed: false,
            middle_pressed: false,
            right_pressed: false,
            click_state: ClickState::Idle,
            cell_side: Side::Left,
            block_hint_launcher: false,
            hint_highlight_dirty: false,
            inside_text_area: false,
            drag_active: false,
            pending_selection: None,
            x: 0,
            y: 0,
        }
    }
}

/// The index of the cell that holds a pixel, along one axis, where there are
/// `count` cells of `size` pixels behind a padding. Outside of them the nearest
/// cell counts.
pub open spec fn cell_at(pixel: int, padding: int, size: int, count: int) -> int {
    let inside = if pixel < padding {
        0
    } else {
        (pixel - padding) / size
    };
    if inside < count - 1 {
        inside
    } else {
        count - 1
    }
}

fn cell_index(pixel: usize, padding: usize, size: usize, count: usize) -> (r: usize)
    requires
        size > 0,
        count > 0,
    ensures
        r == cell_at(pixel as int, padding as int, size as int, count as int),
{
    let inside: usize = if pixel < padding {
        0
    } else {
        (pixel - padding) / size
    };
    if inside < count - 1 {
        inside
    } else {
        count - 1
    }
}

impl Mouse {
    /// Converts the pixel position to a cell of the viewport. Positions outside
    /// of the grid, like those inside the padding, are clamped to the closest
    /// cell.
    pub fn point(&self, size: &SizeInfo<usize>) -> (r: ViewCell)
        requires
            size.cell_width > 0,
            size.cell_height > 0,
            size.columns > 0,
            size.screen_lines > 0,
        ensures
            r.column == cell_at(
                self.x as int,
                size.padding_x as int,
                size.cell_width as int,
                size.columns as int,
            ),
            r.line == cell_at(
                self.y as int,
                size.padding_y as int,
                size.cell_height as int,
                size.screen_lines as int,
            ),
    {
        ViewCell {
            line: cell_index(self.y, size.padding_y, size.cell_height, size.screen_lines),
            column: cell_index(self.x, size.padding_x, size.cell_width, size.columns),
        }
    }

    /// The type that a selection gets when it is expanded to the mouse: none
    /// before the first click.
    pub fn expanded_type(&self, control: bool) -> (r: Option<SelectionType>)
        ensures
            r == expansion(self.click_state, control),
    {
        match self.click_state {
            ClickState::Idle => None,
            ClickState::Click => if control {
                Some(SelectionType::Block)
            } else {
                Some(SelectionType::Simple)
            },
            ClickState::DoubleClick => if control {
                Some(SelectionType::Block)
            } else {
                Some(SelectionType::Semantic)
            },
            ClickState::TripleClick => if control {
                Some(SelectionType::Block)
            } else {
                Some(SelectionType::Lines)
            },
        }
    }
}

/// The type of selection that clicks make.
pub open spec fn expansion(clicks: ClickState, control: bool) -> Option<SelectionType> {
    match clicks {
        ClickState::Idle => None,
        _ => if control {
            Some(SelectionType::Block)
        } else {
            Some(
                match clicks {
                    ClickState::Click => SelectionType::Simple,
                    ClickState::DoubleClick => SelectionType::Semantic,
                    _ => SelectionType::Lines,
                },
            )
        },
    }
}

/// What toggling a selection asks for.
#[derive(Debug, Clone, Copy, PartialEq, Eq, Structural)]
pub enum SelectionStep {
    /// Drop the selection.
    Clear,
    /// Give the selection another type, and copy it.
    Retype(SelectionType),
    /// Start a selection, and copy it.
    Start(SelectionType),
}

/// Toggles a selection: the same type again drops it, another type changes it.
/// `current` is the type of the selection, where one is there that is not empty.
pub fn toggle_selection(current: Option<SelectionType>, ty: SelectionType) -> (r: SelectionStep)
    ensures
        r == (match current {
            Some(t) => if t == ty {
                SelectionStep::Clear
            } else {
                SelectionStep::Retype(ty)
            },
            None => SelectionStep::Start(ty),
        }),
{
    match current {
        Some(t) => if t == ty {
            SelectionStep::Clear
        } else {
            SelectionStep::Retype(ty)
        },
        None => SelectionStep::Start(ty),
    }
}

/// The point that a selection is updated to: motion over the message bar counts
/// as motion over the last line.
pub fn selection_point(point: Point, bottommost_line: i32) -> (r: Point)
    ensures
        r == (Point {
            line: if point.line < bottommost_line {
                point.line
            } else {
                bottommost_line
            },
            column: point.column,
        }),
{
    Point {
        line: if point.line < bottommost_line {
            point.line
        } else {
            bottommost_line
        },
        column: point.column,
    }
}

/// What scrolling does to the selection.
#[derive(Debug, Clone, Copy, PartialEq, Eq, Structural)]
pub enum ScrollSelection {
    /// Expand it to the vi cursor.
    ToViCursor,
    /// Expand it to the mouse.
    ToMouse,
    Keep,
}

/// What scrolling does to the selection.
pub fn scroll_selection(vi_mode: bool, has_selection: bool, mouse: &Mouse) -> (r: ScrollSelection)
    ensures
        r == (if vi_mode && has_selection {
            ScrollSelection::ToViCursor
        } else if mouse.left_pressed || mouse.right_pressed {
            ScrollSelection::ToMouse
        } else {
            ScrollSelection::Keep
        }),
{
    if vi_mode && has_selection {
        ScrollSelection::ToViCursor
    } else if mouse.left_pressed || mouse.right_pressed {
        ScrollSelection::ToMouse
    } else {
        ScrollSelection::Keep
    }
}

/// Whether scrolling changed something: the viewport, or the cursor of vi mode.
pub fn scroll_redraws(lines_changed: i32, vi_mode: bool, cursor_before: Point, cursor_after: Point) ->
    (r: bool)
    ensures
        r == (lines_changed != 0 || (vi_mode && cursor_before != cursor_after)),
{
    lines_changed != 0 || (vi_mode && cursor_before != cursor_after)
}

/// Where a selected text is copied to: nowhere, one clipboard or both.
#[derive(Debug, Clone, Copy, PartialEq, Eq, Structural)]
pub struct CopyTargets {
    pub clipboard: bool,
    pub selection: bool,
}

/// Where a selected text is copied to. An empty text is not copied. The primary
/// selection may be configured to be saved to the clipboard, too.
pub fn copy_selection(to_primary: bool, save_to_clipboard: bool, text: &str) -> (r: CopyTargets)
    ensures
        r == (CopyTargets {
            clipboard: text@.len() > 0 && (!to_primary || save_to_clipboard),
            selection: text@.len() > 0 && to_primary,
        }),
{
    let any: bool = !text.is_empty();
    CopyTargets {
        clipboard: any && (!to_primary || save_to_clipboard),
        selection: any && to_primary,
    }
}

/// The mouse always points into the grid.
pub proof fn law_mouse_points_into_the_grid(pixel: nat, padding: nat, size: nat, count: nat)
    requires
        size > 0,
        count > 0,
    ensures
        0 <= cell_at(pixel as int, padding as int, size as int, count as int) < count,
{
    if pixel >= padding {
        vstd::arithmetic::div_mod::lemma_div_pos_is_pos(pixel - padding, size as int);
    }
}

/// A pixel inside a cell points to that cell.
pub proof fn law_pixels_of_a_cell_point_to_it(
    cell: nat,
    offset: nat,
    padding: nat,
    size: nat,
    count: nat,
)
    requires
        offset < size,
        cell < count,
    ensures
        cell_at((padding + cell * size + offset) as int, padding as int, size as int, count as int)
            == cell,
{
    let d = (cell * size + offset) as int;
    assert((padding + cell * size + offset) - padding == d);
    vstd::arithmetic::div_mod::lemma_fundamental_div_mod_converse(
        d,
        size as int,
        cell as int,
        offset as int,
    );
    assert(cell * size >= 0) by (nonlinear_arith)
        requires
            cell >= 0,
            size >= 0,
    ;
}

/// With the control key every click selects a block, and without a click nothing
/// is selected.
pub proof fn law_control_selects_blocks(clicks: ClickState, control: bool)
    ensures
        expansion(clicks, control) is None == (clicks == ClickState::Idle),
        clicks != ClickState::Idle ==> (expansion(clicks, control) == Some(SelectionType::Block)
            <==> control),
{
}

} // verus!
