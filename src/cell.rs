//! One character cell of the grid, with its colours and attribute flags.
use vstd::prelude::*;

verus! {

/// A colour given by its red, green and blue components.
#[derive(Clone, Copy, Debug, PartialEq, Eq, Hash, Default, Structural)]
pub struct Rgb {
    pub r: u8,
    pub g: u8,
    pub b: u8,
}

/// Attribute bits of a cell.
#[derive(Clone, Copy, Debug, PartialEq, Eq, Hash, Structural)]
pub struct Flags {
    pub bits: u32,
}

/// Foreground and background are drawn swapped.
pub const INVERSE: u32 = 0b0001;
/// Drawn in bold.
pub const BOLD: u32 = 0b0010;
/// Drawn in italics.
pub const ITALIC: u32 = 0b0100;
/// Drawn underlined.
pub const UNDERLINE: u32 = 0b1000;

impl Flags {
    /// No bit set.
    pub fn empty() -> (r: Flags)
        ensures
            r.bits == 0,
    {
        Flags { bits: 0 }
    }

    /// Whether every bit of the mask `m` is set.
    pub fn contains(&self, m: u32) -> (r: bool)
        ensures
            r == (self.bits & m == m),
    {
        self.bits & m == m
    }

    /// Sets the bits of the mask `m`.
    pub fn insert(&mut self, m: u32)
        ensures
            final(self).bits == old(self).bits | m,
    {
        self.bits = self.bits | m;
    }

    /// Clears the bits of the mask `m`.
    pub fn remove(&mut self, m: u32)
        ensures
            final(self).bits == old(self).bits & !m,
    {
        self.bits = self.bits & !m;
    }
}

/// A character with foreground and background colours and flags.
#[derive(Clone, Copy, Debug, PartialEq, Eq, Structural)]
pub struct Cell {
    pub c: char,
    pub fg: Rgb,
    pub bg: Rgb,
    pub flags: Flags,
}

/// The cell holding `c` with default colours and no flags.
pub open spec fn plain_cell(c: char) -> Cell {
    Cell { c, fg: Rgb { r: 0, g: 0, b: 0 }, bg: Rgb { r: 0, g: 0, b: 0 }, flags: Flags { bits: 0 } }
}

impl Cell {
    /// A cell holding `c`, with default colours and no flags.
    pub fn new(c: char) -> (r: Cell)
        ensures
            r == plain_cell(c),
    {
        Cell { c, bg: Rgb { r: 0, g: 0, b: 0 }, fg: Rgb { r: 0, g: 0, b: 0 }, flags: Flags::empty() }
    }

    /// Overwrites every field from `template`.
    pub fn reset(&mut self, template: &Cell)
        ensures
            *final(self) == *template,
    {
        *self = *template;
    }
}

} // verus!
