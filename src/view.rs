use vstd::prelude::*;

verus! {

/// A rectangle over the rendered buffer: the first visible line and column,
/// and the number of visible columns and lines.
#[derive(Clone, Copy, PartialEq, Eq, Structural, Debug)]
pub struct ViewGeometry {
    pub line: usize,
    pub col: usize,
    pub width: usize,
    pub height: usize,
}

/// The last index of a run of `len` indices starting at `first`, saturating
/// at the largest `usize`; an empty run ends where it starts.
pub open spec fn last_index(first: nat, len: nat) -> nat {
    if len == 0 {
        first
    } else if first + len - 1 > usize::MAX {
        usize::MAX as nat
    } else {
        (first + len - 1) as nat
    }
}

impl ViewGeometry {
    pub open spec fn last_line_spec(&self) -> nat {
        last_index(self.line as nat, self.height as nat)
    }

    pub open spec fn last_col_spec(&self) -> nat {
        last_index(self.col as nat, self.width as nat)
    }

    pub fn new(line: usize, col: usize, width: usize, height: usize) -> (r: Self)
        ensures
            r == (ViewGeometry { line, col, width, height }),
    {
        ViewGeometry { line, col, width, height }
    }

    /// The last visible line: `line + height - 1` (saturating), or `line`
    /// when the height is zero.
    pub fn last_line(&self) -> (r: usize)
        ensures
            r == self.last_line_spec(),
    {
        if self.height == 0 {
            self.line
        } else {
            self.line.saturating_add(self.height - 1)
        }
    }

    /// The last visible column: `col + width - 1` (saturating), or `col`
    /// when the width is zero.
    pub fn last_col(&self) -> (r: usize)
        ensures
            r == self.last_col_spec(),
    {
        if self.width == 0 {
            self.col
        } else {
            self.col.saturating_add(self.width - 1)
        }
    }
}

} // verus!
