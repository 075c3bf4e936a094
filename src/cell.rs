//! A single cell of the grid: alive or dead.
use vstd::prelude::*;

verus! {

/// The state of one cell. Its view is `true` when the cell is alive.
#[derive(Clone, Copy, Default, Debug, PartialEq, Eq, Structural)]
pub struct Cell(bool);

impl View for Cell {
    type V = bool;

    closed spec fn view(&self) -> bool {
        self.0
    }
}

/// The character that stands for a cell in a rendered grid.
pub open spec fn glyph_of(alive: bool) -> char {
    if alive {
        '#'
    } else {
        ' '
    }
}

impl Cell {
    /// A live cell.
    pub fn alive() -> (r: Cell)
        ensures
            r@,
    {
        Cell(true)
    }

    /// A dead cell.
    pub fn dead() -> (r: Cell)
        ensures
            !r@,
    {
        Cell(false)
    }

    /// A cell in the given state.
    pub fn from_state(alive: bool) -> (r: Cell)
        ensures
            r@ == alive,
    {
        Cell(alive)
    }

    pub fn is_alive(&self) -> (r: bool)
        ensures
            r == self@,
    {
        self.0
    }

    /// `#` for a live cell, a space for a dead one.
    pub fn glyph(&self) -> (r: char)
        ensures
            r == glyph_of(self@),
    {
        if self.0 {
            '#'
        } else {
            ' '
        }
    }
}

} // verus!
