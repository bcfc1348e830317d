//! The word at a cell of the terminal, with which a search starts: the walk that
//! finds its end. Moving over the grid is left to the caller.

use crate::event::search::Point;
use crate::text;
use vstd::prelude::*;

verus! {

/// A cell of the grid, as far as the walk reads it.
#[derive(Debug, Clone, Copy, PartialEq, Eq, Structural)]
pub struct WordCell {
    pub c: char,
    /// Whether the cell holds a character that takes two cells.
    pub wide: bool,
    /// Whether the cell is the second one of such a character.
    pub wide_spacer: bool,
    /// Whether the cell is left free at the end of a line, because the next
    /// character takes two cells.
    pub leading_spacer: bool,
}

/// How many cells behind its start a walk is back at the start's character.
pub fn search_end_offset(start: &WordCell) -> (r: usize)
    ensures
        r == if start.leading_spacer {
            2usize
        } else if start.wide {
            1
        } else {
            0
        },
{
    if start.leading_spacer {
        2
    } else if start.wide {
        1
    } else {
        0
    }
}

/// The character that a cell shows, where `before` stands in the cell before it.
pub open spec fn shown_char(cell: WordCell, before: char) -> char {
    if cell.wide_spacer {
        before
    } else {
        cell.c
    }
}

/// What to do at a word boundary.
#[derive(Debug, Clone, Copy, PartialEq, Eq, Structural)]
pub enum WordStep {
    /// The word ends here: it goes from the boundary to the left of this cell up to
    /// the cell.
    Word,
    /// Go on to the boundary to the right of the next cell.
    Next,
    /// There are only separators: the word is empty.
    Empty,
}

/// A walk over the word boundaries to the right of a cell.
#[derive(Debug, Clone, Copy, PartialEq, Eq, Structural)]
pub struct SemanticWord {
    /// The cell at which the walk is back at its start.
    pub search_end: Point,
    /// Whether the walk went on from its first boundary.
    pub moved: bool,
}

/// What to do at a boundary: a walk that came back stops, a separator is skipped,
/// and anything else is a word.
pub open spec fn word_step(
    w: SemanticWord,
    end: Point,
    cell: WordCell,
    before: char,
    separators: Seq<char>,
) -> WordStep {
    if w.moved && end == w.search_end {
        WordStep::Empty
    } else if separators.contains(shown_char(cell, before)) {
        WordStep::Next
    } else {
        WordStep::Word
    }
}

impl SemanticWord {
    /// A walk that is back at its start at a cell.
    pub fn new(search_end: Point) -> (r: Self)
        ensures
            r == (SemanticWord { search_end, moved: false }),
    {
        SemanticWord { search_end, moved: false }
    }

    /// Decides at the boundary `end`. `before` is the character of the cell before
    /// it, which counts where the cell is the second one of a wide character.
    pub fn step(&mut self, end: Point, cell: &WordCell, before: char, separators: &str) -> (r:
        WordStep)
        ensures
            r == word_step(*old(self), end, *cell, before, separators@),
            *final(self) == (SemanticWord {
                moved: old(self).moved || r is Next,
                ..*old(self)
            }),
    {
        if self.moved && end.line == self.search_end.line && end.column == self.search_end.column {
            return WordStep::Empty;
        }
        let c: char = if cell.wide_spacer {
            before
        } else {
            cell.c
        };
        if text::contains_char(separators, c) {
            self.moved = true;
            WordStep::Next
        } else {
            WordStep::Word
        }
    }
}

/// A word never ends on a separator, and a walk that has not moved never gives up.
pub proof fn law_words_end_on_letters(
    w: SemanticWord,
    end: Point,
    cell: WordCell,
    before: char,
    separators: Seq<char>,
)
    ensures
        word_step(w, end, cell, before, separators) is Word ==> !separators.contains(
            shown_char(cell, before),
        ),
        !w.moved ==> !(word_step(w, end, cell, before, separators) is Empty),
{
}

/// A wide character decides alike in both of its cells.
pub proof fn law_wide_characters_count_once(
    w: SemanticWord,
    end: Point,
    first: WordCell,
    second: WordCell,
    other: char,
    separators: Seq<char>,
)
    requires
        !first.wide_spacer,
        second.wide_spacer,
    ensures
        word_step(w, end, second, first.c, separators) == word_step(
            w,
            end,
            first,
            other,
            separators,
        ),
{
}

} // verus!
