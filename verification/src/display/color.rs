//! Colors and the terminal's color table.

use vstd::prelude::*;

verus! {

/// An opaque color.
#[derive(Debug, Clone, Copy, PartialEq, Eq, Structural)]
pub struct Rgb {
    pub r: u8,
    pub g: u8,
    pub b: u8,
}

impl Rgb {
    pub fn new(r: u8, g: u8, b: u8) -> (color: Rgb)
        ensures
            color == (Rgb { r, g, b }),
    {
        Rgb { r, g, b }
    }
}

/// A translucent color.
#[derive(Debug, Clone, Copy, PartialEq, Eq, Structural)]
pub struct Rgba {
    pub r: u8,
    pub g: u8,
    pub b: u8,
    pub a: u8,
}

impl Rgba {
    pub fn new(r: u8, g: u8, b: u8, a: u8) -> (color: Rgba)
        ensures
            color == (Rgba { r, g, b, a }),
    {
        Rgba { r, g, b, a }
    }
}

/// A color given as a value, or taken from the cell it is applied to.
#[derive(Debug, Clone, Copy, PartialEq, Eq, Structural)]
pub enum CellRgb {
    CellForeground,
    CellBackground,
    Rgb(Rgb),
}

/// Number of slots in the terminal's color table: the 256 indexed colors and
/// the named ones behind them.
pub const COLOR_COUNT: usize = 269;

/// Slot of the default foreground.
pub const FOREGROUND: usize = 256;

/// Slot of the default background.
pub const BACKGROUND: usize = 257;

/// Slot of the cursor color.
pub const CURSOR: usize = 258;

/// The terminal's color table.
pub struct List {
    slots: Vec<Rgb>,
}

impl View for List {
    type V = Seq<Rgb>;

    closed spec fn view(&self) -> Seq<Rgb> {
        self.slots@
    }
}

impl List {
    pub open spec fn wf(&self) -> bool {
        self@.len() == COLOR_COUNT
    }

    /// A table with every slot set to `color`.
    pub fn filled(color: Rgb) -> (r: List)
        ensures
            r.wf(),
            r@ == Seq::new(COLOR_COUNT as nat, |i: int| color),
    {
        let mut slots: Vec<Rgb> = Vec::new();
        let mut i: usize = 0;
        while i < COLOR_COUNT
            invariant
                i <= COLOR_COUNT,
                slots@ == Seq::new(i as nat, |j: int| color),
            decreases COLOR_COUNT - i,
        {
            slots.push(color);
            i += 1;
            assert(slots@ =~= Seq::new(i as nat, |j: int| color));
        }
        List { slots }
    }

    pub fn get(&self, slot: usize) -> (r: Rgb)
        requires
            slot < self@.len(),
        ensures
            r == self@[slot as int],
    {
        self.slots[slot]
    }

    pub fn set(&mut self, slot: usize, color: Rgb)
        requires
            slot < old(self)@.len(),
        ensures
            final(self)@ == old(self)@.update(slot as int, color),
    {
        self.slots.set(slot, color);
    }

    /// Makes the table equal to `other`.
    pub fn copy_from(&mut self, other: &List)
        ensures
            final(self)@ == other@,
    {
        let mut slots: Vec<Rgb> = Vec::new();
        let mut i: usize = 0;
        while i < other.slots.len()
            invariant
                i <= other.slots@.len(),
                slots@ == other.slots@.take(i as int),
            decreases other.slots@.len() - i,
        {
            slots.push(other.slots[i]);
            i += 1;
            assert(slots@ =~= other.slots@.take(i as int));
        }
        assert(other.slots@.take(i as int) =~= other.slots@);
        self.slots = slots;
    }
}

} // verus!
