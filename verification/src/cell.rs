//! The atomic two-state cell value, the interaction mode of a grid, and the
//! read-only view record describing one grid position at a moment in time.

use vstd::prelude::*;

verus! {

/// One cell of the universe: either alive or dead.
#[derive(Clone, Copy, Debug, PartialEq, Eq, Structural)]
pub enum UniverseCell {
    Dead,
    Alive,
}

impl UniverseCell {
    /// Whether this cell is alive.
    pub fn is_alive(&self) -> (r: bool)
        ensures
            r == (*self == UniverseCell::Alive),
    {
        matches!(self, UniverseCell::Alive)
    }

    /// The logical inverse of this cell value, used by the "toggle" edit
    /// gesture: alive becomes dead and dead becomes alive.
    pub fn toggled(self) -> (r: UniverseCell)
        ensures
            r == self.spec_toggled(),
    {
        match self {
            UniverseCell::Alive => UniverseCell::Dead,
            UniverseCell::Dead => UniverseCell::Alive,
        }
    }

    /// The inverse of a cell value.
    pub open spec fn spec_toggled(self) -> UniverseCell {
        match self {
            UniverseCell::Alive => UniverseCell::Dead,
            UniverseCell::Dead => UniverseCell::Alive,
        }
    }
}

impl Default for UniverseCell {
    fn default() -> (r: Self)
        ensures
            r == UniverseCell::Dead,
    {
        UniverseCell::Dead
    }
}

/// Whether a grid accepts interactive edits.
#[derive(Clone, Copy, Debug, PartialEq, Eq, Structural)]
pub enum UniverseGridMode {
    /// The grid can receive interactive inputs, such as mouse clicks.
    Unlocked,
    /// The grid will not receive interactive inputs.
    Locked,
}

impl Default for UniverseGridMode {
    fn default() -> (r: Self)
        ensures
            r == UniverseGridMode::Locked,
    {
        UniverseGridMode::Locked
    }
}

/// A read-only record describing one grid position at a moment in time.
///
/// `corpse_heat` is a fade-out intensity in hundredths: `100` stands for full
/// intensity and `0` for none. It carries no simulation semantics of its own.
#[derive(Clone, Copy, Debug, PartialEq, Eq, Structural)]
pub struct UniversePoint {
    pub row: usize,
    pub column: usize,
    pub cell: UniverseCell,
    pub corpse_heat: u32,
}

impl UniversePoint {
    /// Builds the record for position `(row, column)` holding `cell` with the
    /// given corpse heat.
    pub fn new(row: usize, column: usize, cell: UniverseCell, corpse_heat: u32) -> (r: Self)
        ensures
            r == (UniversePoint { row, column, cell, corpse_heat }),
    {
        Self { row, column, cell, corpse_heat }
    }

    /// The zero-based row of this position.
    pub fn row(&self) -> (r: usize)
        ensures
            r == self.row,
    {
        self.row
    }

    /// The zero-based column of this position.
    pub fn column(&self) -> (r: usize)
        ensures
            r == self.column,
    {
        self.column
    }

    /// The cell value observed at this position.
    pub fn cell(&self) -> (r: &UniverseCell)
        ensures
            *r == self.cell,
    {
        &self.cell
    }

    /// Overwrites the cell value recorded in this view.
    pub fn set_cell(&mut self, value: UniverseCell)
        ensures
            *final(self) == (UniversePoint { cell: value, ..*old(self) }),
    {
        self.cell = value;
    }

    /// The corpse heat observed at this position, in hundredths.
    pub fn corpse_heat(&self) -> (r: u32)
        ensures
            r == self.corpse_heat,
    {
        self.corpse_heat
    }
}

} // verus!
