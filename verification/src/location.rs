//! Dual-mode position tracking: a 1-based line and column together with a
//! monotonically increasing pair of absolute offsets (start and end of the
//! current span). The tracker is advanced once per consumed code unit and a
//! copy of it is attached to every emitted token and error.

use vstd::prelude::*;

verus! {

/// A position within the input: absolute start and end offsets of the current
/// span, and a 1-based line and column. All advances saturate instead of
/// wrapping.
#[derive(Debug, Copy, Clone, PartialEq, Eq, Structural)]
pub struct Location {
    pub start: usize,
    pub end: usize,
    pub column: usize,
    pub line: usize,
}

/// Addition on offsets that sticks at the greatest representable value
/// instead of wrapping around.
pub open spec fn spec_saturating_add(a: usize, b: usize) -> usize {
    if a + b > usize::MAX {
        usize::MAX
    } else {
        (a + b) as usize
    }
}

impl Location {
    /// The position at the very beginning of the input.
    pub open spec fn spec_new() -> Location {
        Location { start: 0, end: 0, column: 1, line: 1 }
    }

    pub fn new() -> (r: Self)
        ensures
            r == Location::spec_new(),
    {
        Self { start: 0, end: 0, column: 1, line: 1 }
    }

    /// Advances the column by one, and the end offset with it.
    pub fn increment_column(&mut self)
        ensures
            *final(self) == (Location {
                column: spec_saturating_add(old(self).column, 1),
                end: spec_saturating_add(old(self).end, 1),
                ..*old(self)
            }),
    {
        self.column = self.column.saturating_add(1);
        self.increment_end();
    }

    /// Advances the column by `n`, and the end offset with it.
    pub fn increment_column_by(&mut self, n: usize)
        ensures
            *final(self) == (Location {
                column: spec_saturating_add(old(self).column, n),
                end: spec_saturating_add(old(self).end, n),
                ..*old(self)
            }),
    {
        self.column = self.column.saturating_add(n);
        self.increment_end_by(n);
    }

    /// Moves a zeroed column to one; any other column is left alone.
    pub fn increment_column_if_zeroed(&mut self)
        ensures
            *final(self) == (Location {
                column: if old(self).column == 0 {
                    1usize
                } else {
                    old(self).column
                },
                ..*old(self)
            }),
    {
        if self.column == 0 {
            self.column = self.column.saturating_add(1);
        }
    }

    /// Advances the end offset by one.
    pub fn increment_end(&mut self)
        ensures
            *final(self) == (Location { end: spec_saturating_add(old(self).end, 1), ..*old(self) }),
    {
        self.end = self.end.saturating_add(1);
    }

    /// Advances the end offset by `n`.
    pub fn increment_end_by(&mut self, n: usize)
        ensures
            *final(self) == (Location { end: spec_saturating_add(old(self).end, n), ..*old(self) }),
    {
        self.end = self.end.saturating_add(n);
    }

    /// Advances the line by one, and the end offset with it.
    pub fn increment_line(&mut self)
        ensures
            *final(self) == (Location {
                line: spec_saturating_add(old(self).line, 1),
                end: spec_saturating_add(old(self).end, 1),
                ..*old(self)
            }),
    {
        self.line = self.line.saturating_add(1);
        self.increment_end();
    }

    /// Advances the line by `n`, and the end offset with it.
    pub fn increment_line_by(&mut self, n: usize)
        ensures
            *final(self) == (Location {
                line: spec_saturating_add(old(self).line, n),
                end: spec_saturating_add(old(self).end, n),
                ..*old(self)
            }),
    {
        self.line = self.line.saturating_add(n);
        self.increment_end_by(n);
    }

    /// Moves a zeroed line to one; any other line is left alone.
    pub fn increment_line_if_zeroed(&mut self)
        ensures
            *final(self) == (Location {
                line: if old(self).line == 0 {
                    1usize
                } else {
                    old(self).line
                },
                ..*old(self)
            }),
    {
        if self.line == 0 {
            self.line = self.line.saturating_add(1);
        }
    }

    /// Puts the column back to the first position of a line.
    pub fn reset_column(&mut self)
        ensures
            *final(self) == (Location { column: 1usize, ..*old(self) }),
    {
        self.column = 1;
    }

    /// Opens a new span: the start offset catches up with the end offset, so
    /// that what is consumed from here on lies within `start..end`.
    pub fn begin_span(&mut self)
        ensures
            *final(self) == (Location { start: old(self).end, ..*old(self) }),
    {
        self.start = self.end;
    }
}

impl Default for Location {
    fn default() -> (r: Self)
        ensures
            r == Location::spec_new(),
    {
        Self { start: 0, end: 0, column: 1, line: 1 }
    }
}

} // verus!
