use vstd::prelude::*;

verus! {

/// A half-open range of positions in the input line.
#[derive(Clone, Copy, Debug, PartialEq, Eq, Structural)]
pub struct Span {
    pub start: usize,
    pub end: usize,
}

impl Span {
    pub fn new(start: usize, end: usize) -> (span: Span)
        ensures
            span == (Span { start, end }),
    {
        Span { start, end }
    }

    /// The span counted from `offset`; what lies before `offset` counts as 0.
    pub open spec fn shifted(self, offset: usize) -> Span {
        Span {
            start: if self.start >= offset {
                (self.start - offset) as usize
            } else {
                0
            },
            end: if self.end >= offset {
                (self.end - offset) as usize
            } else {
                0
            },
        }
    }

    /// The span counted from `offset`; what lies before `offset` counts as 0.
    pub fn shift(self, offset: usize) -> (r: Span)
        ensures
            r == self.shifted(offset),
    {
        Span::new(self.start.saturating_sub(offset), self.end.saturating_sub(offset))
    }
}

} // verus!
