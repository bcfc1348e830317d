//! Highlighted hints: the one under the mouse, and the one under the cursor of vi
//! mode.
//!
//! A hint is found in the grid by the terminal. Here it is a number, the same for
//! the same hint, with the cells that it covers.

use crate::event::mouse::ViewCell;
use vstd::prelude::*;

verus! {

/// A hint in the grid.
#[derive(Debug, Clone, Copy, PartialEq, Eq, Structural)]
pub struct Hint {
    pub id: u64,
}

/// The highlighted hints, and for how many frames each has been.
#[derive(Debug, Clone, Copy, PartialEq, Eq, Structural)]
pub struct HintHighlights {
    pub mouse: Option<Hint>,
    pub mouse_age: usize,
    pub vi: Option<Hint>,
    pub vi_age: usize,
    /// Line of the grid in which the mouse was last over a hint.
    pub mouse_line: Option<i32>,
}

/// What an update asks for.
#[derive(Debug, Clone, Copy, PartialEq, Eq, Structural)]
pub struct HintUpdate {
    /// Whether something has to be drawn.
    pub dirty: bool,
    /// Whether everything has to be drawn.
    pub damaged: bool,
    pub cursor: CursorChange,
}

/// What happens to the shape of the mouse cursor.
#[derive(Debug, Clone, Copy, PartialEq, Eq, Structural)]
pub enum CursorChange {
    Pointer,
    Arrow,
    Keep,
}

/// What the terminal finds.
#[derive(Debug, Clone, Copy, PartialEq, Eq, Structural)]
pub struct HintSources {
    /// The hint under the cursor of vi mode, in that mode.
    pub vi: Option<Hint>,
    /// Whether hints under the mouse are highlighted now: the mouse is visible
    /// and inside the text, and nothing is selected.
    pub follows_mouse: bool,
    /// The hint under the mouse.
    pub mouse: Option<Hint>,
    /// Line of the grid under the mouse.
    pub line: i32,
}

/// The highlights after an update.
pub open spec fn updated(h: HintHighlights, s: HintSources) -> HintHighlights {
    let with_vi = HintHighlights { vi: s.vi, vi_age: 0, ..h };
    if !s.follows_mouse {
        HintHighlights { mouse: None, ..with_vi }
    } else {
        HintHighlights {
            mouse: s.mouse,
            mouse_age: 0,
            mouse_line: if s.mouse is Some {
                Some(s.line)
            } else if h.mouse is Some {
                None
            } else {
                h.mouse_line
            },
            ..with_vi
        }
    }
}

/// What an update asks for: something is drawn where one of the hints changed, or
/// where the mouse moved to another line of its hint, as the preview moves too.
pub open spec fn update_of(h: HintHighlights, s: HintSources) -> HintUpdate {
    let vi_changed = s.vi != h.vi;
    if !s.follows_mouse {
        HintUpdate {
            dirty: vi_changed || h.mouse is Some,
            damaged: vi_changed || h.mouse is Some,
            cursor: CursorChange::Keep,
        }
    } else {
        let mouse_changed = h.mouse != s.mouse;
        HintUpdate {
            dirty: vi_changed || mouse_changed || (s.mouse is Some && (h.mouse_line matches Some(l)
                && l != s.line)),
            damaged: vi_changed || mouse_changed,
            cursor: if s.mouse is Some {
                CursorChange::Pointer
            } else if h.mouse is Some {
                CursorChange::Arrow
            } else {
                CursorChange::Keep
            },
        }
    }
}

/// The cells of a hint in the viewport, as far as they are in it.
#[derive(Debug, Clone, Copy, PartialEq, Eq, Structural)]
pub struct HintBounds {
    pub start: Option<ViewCell>,
    pub end: Option<ViewCell>,
}

/// The cells that a hint covers in the viewport: what is cut off reaches to its
/// first or last cell.
pub open spec fn start_in_view(b: HintBounds, screen_lines: usize) -> ViewCell {
    match b.start {
        Some(c) if c.line < screen_lines => c,
        _ => ViewCell { line: 0, column: 0 },
    }
}

pub open spec fn end_in_view(b: HintBounds, screen_lines: usize, columns: usize) -> ViewCell {
    match b.end {
        Some(c) if c.line < screen_lines => c,
        _ => ViewCell { line: (screen_lines - 1) as usize, column: (columns - 1) as usize },
    }
}

/// Clips the cells of a hint to the viewport.
pub fn clip_bounds(b: HintBounds, screen_lines: usize, columns: usize) -> (r: (ViewCell, ViewCell))
    requires
        screen_lines > 0,
        columns > 0,
    ensures
        r.0 == start_in_view(b, screen_lines),
        r.1 == end_in_view(b, screen_lines, columns),
{
    let first = ViewCell { line: 0, column: 0 };
    let last = ViewCell { line: screen_lines - 1, column: columns - 1 };
    let start = match b.start {
        Some(c) => if c.line < screen_lines {
            c
        } else {
            first
        },
        None => first,
    };
    let end = match b.end {
        Some(c) => if c.line < screen_lines {
            c
        } else {
            last
        },
        None => last,
    };
    (start, end)
}

/// What is left of a hint after a frame, and its age. One that was highlighted in
/// this frame stays; another goes where something was drawn over it.
pub open spec fn aged(hint: Option<Hint>, age: usize, overdrawn: bool) -> (Option<Hint>, int) {
    if hint is None {
        (hint, age as int)
    } else if age > 0 && overdrawn {
        (None, age + 1)
    } else {
        (hint, age + 1)
    }
}

/// Whether a frame takes a hint away.
pub open spec fn is_lost(hint: Option<Hint>, age: usize, overdrawn: bool) -> bool {
    hint is Some && age > 0 && overdrawn
}

impl HintHighlights {
    pub fn new() -> (r: Self)
        ensures
            r == (HintHighlights {
                mouse: None,
                mouse_age: 0,
                vi: None,
                vi_age: 0,
                mouse_line: None,
            }),
    {
        HintHighlights { mouse: None, mouse_age: 0, vi: None, vi_age: 0, mouse_line: None }
    }

    /// Updates the hints that are highlighted.
    pub fn update_highlighted_hints(&mut self, s: &HintSources) -> (r: HintUpdate)
        ensures
            *final(self) == updated(*old(self), *s),
            r == update_of(*old(self), *s),
    {
        let vi_changed: bool = s.vi != self.vi;
        let mut dirty: bool = vi_changed;
        self.vi = s.vi;
        self.vi_age = 0;
        if !s.follows_mouse {
            let was: bool = self.mouse.is_some();
            self.mouse = None;
            return HintUpdate {
                dirty: dirty || was,
                damaged: vi_changed || was,
                cursor: CursorChange::Keep,
            };
        }
        let mut cursor = CursorChange::Keep;
        if s.mouse.is_some() {
            if let Some(l) = self.mouse_line {
                if l != s.line {
                    dirty = true;
                }
            }
            self.mouse_line = Some(s.line);
            cursor = CursorChange::Pointer;
        } else if self.mouse.is_some() {
            self.mouse_line = None;
            cursor = CursorChange::Arrow;
        }
        let mouse_changed: bool = self.mouse != s.mouse;
        self.mouse = s.mouse;
        self.mouse_age = 0;
        HintUpdate { dirty: dirty || mouse_changed, damaged: vi_changed || mouse_changed, cursor }
    }

    /// Ages the hints by a frame, and drops those that were drawn over. The flags
    /// tell whether that happened to the cells of each. Returns whether the mouse
    /// cursor becomes an arrow, and whether everything has to be drawn.
    pub fn validate_hint_highlights(&mut self, mouse_overdrawn: bool, vi_overdrawn: bool) -> (r: (
        bool,
        bool,
    ))
        requires
            old(self).mouse_age < usize::MAX,
            old(self).vi_age < usize::MAX,
        ensures
            (final(self).mouse, final(self).mouse_age as int) == aged(
                old(self).mouse,
                old(self).mouse_age,
                mouse_overdrawn,
            ),
            (final(self).vi, final(self).vi_age as int) == aged(
                old(self).vi,
                old(self).vi_age,
                vi_overdrawn,
            ),
            final(self).mouse_line == old(self).mouse_line,
            r.0 == is_lost(old(self).mouse, old(self).mouse_age, mouse_overdrawn),
            r.1 == (r.0 || is_lost(old(self).vi, old(self).vi_age, vi_overdrawn)),
    {
        let mut arrow = false;
        let mut damaged = false;
        if self.mouse.is_some() {
            self.mouse_age = self.mouse_age + 1;
            if self.mouse_age > 1 && mouse_overdrawn {
                arrow = true;
                damaged = true;
                self.mouse = None;
            }
        }
        if self.vi.is_some() {
            self.vi_age = self.vi_age + 1;
            if self.vi_age > 1 && vi_overdrawn {
                damaged = true;
                self.vi = None;
            }
        }
        (arrow, damaged)
    }
}

/// A cell of the grid that is drawn.
pub struct HintedCell {
    /// The hints that it is part of.
    pub hints: Vec<Hint>,
    pub underlined: bool,
}

/// A cell that is drawn, as a value.
#[verifier::ext_equal]
pub struct CellState {
    pub hints: Seq<Hint>,
    pub underlined: bool,
}

impl HintedCell {
    pub open spec fn value(self) -> CellState {
        CellState { hints: self.hints@, underlined: self.underlined }
    }
}

pub open spec fn cell_values(cells: Seq<HintedCell>) -> Seq<CellState> {
    cells.map_values(|c: HintedCell| c.value())
}

/// Whether a cell is part of a highlighted hint.
pub open spec fn is_highlighted(h: HintHighlights, cell: CellState) -> bool {
    (h.mouse matches Some(hint) && cell.hints.contains(hint)) || (h.vi matches Some(hint)
        && cell.hints.contains(hint))
}

/// A cell with the underline that a highlighted hint gives it.
pub open spec fn underlined(h: HintHighlights, cell: CellState) -> CellState {
    CellState { underlined: cell.underlined || is_highlighted(h, cell), ..cell }
}

/// Where the cells of highlighted hints stand.
pub open spec fn highlighted_at(h: HintHighlights, cells: Seq<CellState>) -> Seq<usize>
    decreases cells.len(),
{
    if cells.len() == 0 {
        Seq::empty()
    } else {
        let front = highlighted_at(h, cells.drop_last());
        if is_highlighted(h, cells.last()) {
            front.push((cells.len() - 1) as usize)
        } else {
            front
        }
    }
}

fn holds(hints: &Vec<Hint>, hint: Option<Hint>) -> (r: bool)
    ensures
        r == (hint matches Some(x) && hints@.contains(x)),
{
    let wanted = match hint {
        Some(wanted) => wanted,
        None => return false,
    };
    let mut i: usize = 0;
    while i < hints.len()
        invariant
            i <= hints@.len(),
            hint == Some(wanted),
            forall|j: int| 0 <= j < i ==> hints@[j] != wanted,
        decreases hints@.len() - i,
    {
        if hints[i] == wanted {
            return true;
        }
        i += 1;
    }
    false
}

impl HintHighlights {
    /// Underlines the cells of the hints that the mouse or the cursor of vi mode
    /// is over. Returns where these cells stand, which have to be drawn.
    pub fn underline_hints(&self, cells: Vec<HintedCell>) -> (r: (Vec<HintedCell>, Vec<usize>))
        ensures
            cell_values(r.0@) == cell_values(cells@).map_values(
                |c: CellState| underlined(*self, c),
            ),
            r.1@ == highlighted_at(*self, cell_values(cells@)),
    {
        let ghost all = cells@;
        let ghost values = cell_values(all);
        let total: usize = cells.len();
        let mut out: Vec<HintedCell> = Vec::new();
        let mut at: Vec<usize> = Vec::new();
        let mut i: usize = 0;
        assert(values.take(0) =~= Seq::empty());
        for cell in it: cells
            invariant
                it.seq() == all,
                total == all.len(),
                values == cell_values(all),
                i == it.index(),
                out@.len() == i,
                forall|j: int|
                    0 <= j < i ==> (#[trigger] out@[j]).value() == underlined(*self, values[j]),
                at@ == highlighted_at(*self, values.take(i as int)),
        {
            assert(cell == all[i as int]);
            assert(values[i as int] == cell.value());
            assert(values.take(i + 1).drop_last() =~= values.take(i as int));
            assert(values.take(i + 1).last() == cell.value());
            let lit = holds(&cell.hints, self.mouse) || holds(&cell.hints, self.vi);
            if lit {
                at.push(i);
            }
            let ghost value = cell.value();
            let under: bool = cell.underlined || lit;
            out.push(HintedCell { hints: cell.hints, underlined: under });
            assert(out@[i as int].value() =~= underlined(*self, value));
            assert(i < total);
            i += 1;
        }
        assert(values.take(total as int) =~= values);
        assert(cell_values(out@) =~= values.map_values(|c: CellState| underlined(*self, c)));
        (out, at)
    }
}

/// Without a highlighted hint, the cells are drawn as they are.
pub proof fn law_only_highlighted_hints_are_underlined(h: HintHighlights, cell: CellState)
    requires
        h.mouse is None,
        h.vi is None,
    ensures
        underlined(h, cell) == cell,
{
}

/// A hint that was just highlighted survives its first frame.
pub proof fn law_new_hints_survive_a_frame(h: HintHighlights, s: HintSources, overdrawn: bool)
    requires
        s.follows_mouse,
    ensures
        aged(updated(h, s).mouse, updated(h, s).mouse_age, overdrawn).0 == s.mouse,
        aged(updated(h, s).vi, updated(h, s).vi_age, overdrawn).0 == s.vi,
{
}

/// A change of a highlighted hint is always drawn, whatever the mouse is over.
pub proof fn law_changed_hints_are_drawn(h: HintHighlights, s: HintSources)
    requires
        updated(h, s).mouse != h.mouse || updated(h, s).vi != h.vi,
    ensures
        update_of(h, s).dirty,
        update_of(h, s).damaged,
{
}

/// Updating again with nothing changed asks for nothing.
pub proof fn law_unchanged_hints_are_not_drawn(h: HintHighlights, s: HintSources)
    ensures
        !update_of(updated(h, s), s).dirty,
        !update_of(updated(h, s), s).damaged,
{
}

} // verus!
