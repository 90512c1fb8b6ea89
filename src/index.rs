//! Typed coordinates of the grid: lines, columns and the cursor.
use vstd::prelude::*;

verus! {

/// A row coordinate.
#[derive(Clone, Copy, Debug, PartialEq, Eq, PartialOrd, Ord, Hash, Default, Structural)]
pub struct Line(pub usize);

/// A column coordinate.
#[derive(Clone, Copy, Debug, PartialEq, Eq, PartialOrd, Ord, Hash, Default, Structural)]
pub struct Column(pub usize);

/// The write head of the terminal.
#[derive(Clone, Copy, Debug, PartialEq, Eq, Hash, Default, Structural)]
pub struct Cursor {
    pub line: Line,
    pub col: Column,
}

/// Subtraction on naturals that stops at zero.
pub open spec fn sat_sub(a: nat, b: nat) -> nat {
    if a >= b { (a - b) as nat } else { 0 }
}

/// Addition that stops at the largest `usize`.
pub open spec fn sat_add(a: nat, b: nat) -> nat {
    if a + b <= usize::MAX { a + b } else { usize::MAX as nat }
}

impl Line {
    /// `self + rhs`, saturating at the largest representable line.
    pub fn saturating_add(self, rhs: Line) -> (r: Line)
        ensures
            r.0 == sat_add(self.0 as nat, rhs.0 as nat),
    {
        Line(self.0.saturating_add(rhs.0))
    }

    /// `self - rhs`, clamped at zero.
    pub fn saturating_sub(self, rhs: Line) -> (r: Line)
        ensures
            r.0 == sat_sub(self.0 as nat, rhs.0 as nat),
    {
        Line(self.0.saturating_sub(rhs.0))
    }
}

impl Column {
    /// `self + rhs`, saturating at the largest representable column.
    pub fn saturating_add(self, rhs: Column) -> (r: Column)
        ensures
            r.0 == sat_add(self.0 as nat, rhs.0 as nat),
    {
        Column(self.0.saturating_add(rhs.0))
    }

    /// `self - rhs`, clamped at zero.
    pub fn saturating_sub(self, rhs: Column) -> (r: Column)
        ensures
            r.0 == sat_sub(self.0 as nat, rhs.0 as nat),
    {
        Column(self.0.saturating_sub(rhs.0))
    }
}

/// Coerces `val` into `[min, max]`.
pub fn limit(val: usize, min: usize, max: usize) -> (r: usize)
    requires
        min <= max,
    ensures
        r == if val < min { min } else if val > max { max } else { val },
{
    if val < min {
        min
    } else if val > max {
        max
    } else {
        val
    }
}

} // verus!
