//! The universe simulation engine: a toroidal grid of cells that evolves
//! under Conway's rules, with a parallel corpse-heat map used to fade dead
//! cells visually, a generation counter and a per-tick delta of changed
//! cells.
//!
//! Corpse heat is kept in hundredths (an integer scale where `100` stands for
//! full intensity), so the decay arithmetic is exact and clamped at zero.

use vstd::prelude::*;
use vstd::arithmetic::div_mod::{
    lemma_div_pos_is_pos, lemma_fundamental_div_mod, lemma_fundamental_div_mod_converse,
    lemma_mod_bound, lemma_mod_multiples_vanish, lemma_mod_self_0, lemma_multiply_divide_lt,
    lemma_small_mod,
};
use vstd::arithmetic::mul::lemma_mul_is_commutative;

use crate::cell::UniverseCell;
use crate::cell::UniversePoint;

verus! {

/// Corpse heat assigned to a cell the moment it dies, in hundredths.
pub const INITIAL_CORPSE_HEAT: u32 = 65;

/// Default amount by which corpse heat decays each generation, in hundredths.
pub const DEFAULT_FREEZE_RATE: u32 = 30;

/// Default percentage of cells seeded alive by `Universe::new_random`.
pub const DEFAULT_ALIVE_PERCENT: u32 = 40;

/// A universe: a toroidal grid of cells evolving under Conway's rules.
///
/// The cell array and the corpse-heat array are row-major with
/// `rows * columns` entries each; position `(row, column)` lives at index
/// `row * columns + column`. Neighbour lookups wrap modulo the dimensions,
/// so edges connect to opposite edges.
#[derive(Debug)]
pub struct Universe {
    rows: usize,
    columns: usize,
    cells: Vec<UniverseCell>,
    death_heat: Vec<u32>,
    corpse_freeze_rate: u32,
    generations: u64,
    last_delta: Option<Vec<UniversePoint>>,
}

impl Universe {
    /// The number of rows, as seen by specifications.
    pub closed spec fn spec_rows(self) -> usize {
        self.rows
    }

    /// The number of columns, as seen by specifications.
    pub closed spec fn spec_columns(self) -> usize {
        self.columns
    }

    /// The row-major cell array, as seen by specifications.
    pub closed spec fn spec_cells(self) -> Seq<UniverseCell> {
        self.cells@
    }

    /// The row-major corpse-heat array, as seen by specifications.
    pub closed spec fn spec_heat(self) -> Seq<u32> {
        self.death_heat@
    }

    /// The decay applied to corpse heat each generation, in hundredths.
    pub closed spec fn spec_freeze_rate(self) -> u32 {
        self.corpse_freeze_rate
    }

    /// How many generations this universe has advanced through.
    pub closed spec fn spec_generations(self) -> u64 {
        self.generations
    }

    /// The stored delta of the most recent tick, or `None` if no tick has
    /// run since this universe was built.
    pub closed spec fn spec_last_delta(self) -> Option<Seq<UniversePoint>> {
        match self.last_delta {
            Some(d) => Some(d@),
            None => None,
        }
    }

    /// The structural invariant of a universe: at least one row and one
    /// column, and both arrays row-major of length `rows * columns`.
    ///
    /// The bound on `rows * columns` is a machine limit: it keeps index
    /// arithmetic and the 16-byte snapshot header within `usize`.
    pub open spec fn well_formed(self) -> bool {
        &&& self.spec_rows() >= 1
        &&& self.spec_columns() >= 1
        &&& self.spec_rows() * self.spec_columns() <= usize::MAX - 16
        &&& self.spec_cells().len() == self.spec_rows() * self.spec_columns()
        &&& self.spec_heat().len() == self.spec_cells().len()
    }

    /// Whether `(row, column)` lies inside the grid.
    pub open spec fn in_bounds(self, row: int, column: int) -> bool {
        0 <= row < self.spec_rows() && 0 <= column < self.spec_columns()
    }

    /// The row-major index of `(row, column)`.
    pub open spec fn spec_index_of(self, row: int, column: int) -> int {
        row * self.spec_columns() + column
    }

    /// The cell at `(row, column)`.
    pub open spec fn spec_cell_at(self, row: int, column: int) -> UniverseCell {
        self.spec_cells()[self.spec_index_of(row, column)]
    }

    /// The corpse heat at `(row, column)`, in hundredths.
    pub open spec fn spec_heat_at(self, row: int, column: int) -> u32 {
        self.spec_heat()[self.spec_index_of(row, column)]
    }
}

/// Row-major indices of in-bounds positions stay within the array:
/// `row * columns + column` lies below `rows * columns`.
pub proof fn lemma_index_bound(rows: int, columns: int, row: int, column: int)
    by (nonlinear_arith)
    requires
        0 <= row < rows,
        0 <= column < columns,
    ensures
        0 <= row * columns + column < rows * columns,
{
}

/// The row-major index determines the position: dividing the index by the
/// column count recovers the row, and the remainder recovers the column.
pub proof fn lemma_index_bijective(columns: int, row: int, column: int)
    requires
        columns >= 1,
        0 <= row,
        0 <= column < columns,
    ensures
        (row * columns + column) / columns == row,
        (row * columns + column) % columns == column,
{
    lemma_fundamental_div_mod_converse(row * columns + column, columns, row, column);
}

impl Universe {
    /// Builds the all-dead universe with zeroed heat: the common core of the
    /// public constructors.
    ///
    /// Invalid (zero) dimensions are a fatal configuration error and are
    /// excluded here; the product bound is a machine limit on the array
    /// length.
    fn create(rows: usize, columns: usize) -> (r: Universe)
        requires
            rows >= 1,
            columns >= 1,
            rows * columns <= usize::MAX - 16,
        ensures
            r.well_formed(),
            r.spec_rows() == rows,
            r.spec_columns() == columns,
            forall|i: int| 0 <= i < r.spec_cells().len() ==> r.spec_cells()[i] == UniverseCell::Dead,
            forall|i: int| 0 <= i < r.spec_heat().len() ==> r.spec_heat()[i] == 0,
            r.spec_freeze_rate() == DEFAULT_FREEZE_RATE,
            r.spec_generations() == 0,
            r.spec_last_delta() is None,
    {
        let size: usize = rows * columns;
        let mut cells: Vec<UniverseCell> = Vec::new();
        let mut death_heat: Vec<u32> = Vec::new();
        let mut i: usize = 0;
        while i < size
            invariant
                i <= size,
                cells@.len() == i,
                death_heat@.len() == i,
                forall|j: int| 0 <= j < i ==> cells@[j] == UniverseCell::Dead,
                forall|j: int| 0 <= j < i ==> death_heat@[j] == 0,
            decreases size - i,
        {
            cells.push(UniverseCell::Dead);
            death_heat.push(0);
            i = i + 1;
        }
        Universe {
            rows,
            columns,
            cells,
            death_heat,
            corpse_freeze_rate: DEFAULT_FREEZE_RATE,
            generations: 0,
            last_delta: None,
        }
    }

    /// Builds an all-dead universe with no stored delta, so that
    /// `last_delta` reports the full enumeration for a first paint.
    pub fn new_empty(rows: usize, columns: usize) -> (r: Universe)
        requires
            rows >= 1,
            columns >= 1,
            rows * columns <= usize::MAX - 16,
        ensures
            r.well_formed(),
            r.spec_rows() == rows,
            r.spec_columns() == columns,
            forall|i: int| 0 <= i < r.spec_cells().len() ==> r.spec_cells()[i] == UniverseCell::Dead,
            forall|i: int| 0 <= i < r.spec_heat().len() ==> r.spec_heat()[i] == 0,
            r.spec_freeze_rate() == DEFAULT_FREEZE_RATE,
            r.spec_generations() == 0,
            r.spec_last_delta() is None,
    {
        Self::create(rows, columns)
    }

    /// The number of rows of this universe.
    pub fn rows(&self) -> (r: usize)
        ensures
            r == self.spec_rows(),
    {
        self.rows
    }

    /// The number of columns of this universe.
    pub fn columns(&self) -> (r: usize)
        ensures
            r == self.spec_columns(),
    {
        self.columns
    }

    /// How many generations this universe has advanced through.
    pub fn generations(&self) -> (r: u64)
        ensures
            r == self.spec_generations(),
    {
        self.generations
    }

    /// The decay applied to corpse heat each generation, in hundredths.
    pub fn corpse_freeze_rate(&self) -> (r: u32)
        ensures
            r == self.spec_freeze_rate(),
    {
        self.corpse_freeze_rate
    }

    /// Sets the decay applied to corpse heat each generation, in hundredths.
    pub fn set_corpse_freeze_rate(&mut self, value: u32)
        ensures
            final(self).spec_freeze_rate() == value,
            final(self).spec_rows() == old(self).spec_rows(),
            final(self).spec_columns() == old(self).spec_columns(),
            final(self).spec_cells() == old(self).spec_cells(),
            final(self).spec_heat() == old(self).spec_heat(),
            final(self).spec_generations() == old(self).spec_generations(),
            final(self).spec_last_delta() == old(self).spec_last_delta(),
    {
        self.corpse_freeze_rate = value;
    }

    /// The row-major index of the in-bounds position `(row, column)`.
    fn get_index(&self, row: usize, column: usize) -> (r: usize)
        requires
            self.well_formed(),
            self.in_bounds(row as int, column as int),
        ensures
            r == self.spec_index_of(row as int, column as int),
            r < self.spec_cells().len(),
    {
        proof {
            lemma_index_bound(
                self.spec_rows() as int,
                self.spec_columns() as int,
                row as int,
                column as int,
            );
        }
        row * self.columns + column
    }

    /// The cell and corpse heat at the in-bounds position `(row, column)`.
    pub fn get_cell(&self, row: usize, column: usize) -> (r: (UniverseCell, u32))
        requires
            self.well_formed(),
            self.in_bounds(row as int, column as int),
        ensures
            r.0 == self.spec_cell_at(row as int, column as int),
            r.1 == self.spec_heat_at(row as int, column as int),
    {
        let idx = self.get_index(row, column);
        (self.cells[idx], self.death_heat[idx])
    }

    /// Overwrites the cell at the in-bounds position `(row, column)` with no
    /// rule checking; used by interactive editing. Heat, the generation
    /// counter and the stored delta are untouched.
    pub fn set_cell(&mut self, row: usize, column: usize, cell: UniverseCell)
        requires
            old(self).well_formed(),
            old(self).in_bounds(row as int, column as int),
        ensures
            final(self).well_formed(),
            final(self).spec_rows() == old(self).spec_rows(),
            final(self).spec_columns() == old(self).spec_columns(),
            final(self).spec_cells() == old(self).spec_cells().update(
                old(self).spec_index_of(row as int, column as int),
                cell,
            ),
            final(self).spec_cell_at(row as int, column as int) == cell,
            forall|r2: int, c2: int|
                old(self).in_bounds(r2, c2) && !(r2 == row && c2 == column)
                    ==> final(self).spec_cell_at(r2, c2) == old(self).spec_cell_at(r2, c2),
            final(self).spec_heat() == old(self).spec_heat(),
            final(self).spec_freeze_rate() == old(self).spec_freeze_rate(),
            final(self).spec_generations() == old(self).spec_generations(),
            final(self).spec_last_delta() == old(self).spec_last_delta(),
    {
        let idx = self.get_index(row, column);
        self.cells[idx] = cell;
        proof {
            let cols = self.spec_columns() as int;
            assert forall|r2: int, c2: int|
                old(self).in_bounds(r2, c2) && !(r2 == row && c2 == column)
                    implies final(self).spec_cell_at(r2, c2) == old(self).spec_cell_at(r2, c2) by {
                lemma_index_bound(self.spec_rows() as int, cols, r2, c2);
                if r2 * cols + c2 == row as int * cols + column as int {
                    lemma_index_bijective(cols, r2, c2);
                    lemma_index_bijective(cols, row as int, column as int);
                }
            }
        }
    }

    /// The point at `(row, column)`, or `None` when the position is out of
    /// bounds. Out-of-bounds access is never clamped.
    pub fn get(&self, row: usize, column: usize) -> (r: Option<UniversePoint>)
        requires
            self.well_formed(),
        ensures
            match r {
                Some(p) => {
                    &&& self.in_bounds(row as int, column as int)
                    &&& p.row == row
                    &&& p.column == column
                    &&& p.cell == self.spec_cell_at(row as int, column as int)
                    &&& p.corpse_heat == self.spec_heat_at(row as int, column as int)
                },
                None => !self.in_bounds(row as int, column as int),
            },
    {
        if row < self.rows && column < self.columns {
            let (cell, heat) = self.get_cell(row, column);
            Some(UniversePoint::new(row, column, cell, heat))
        } else {
            None
        }
    }

    /// Sets the cell at `(row, column)` and returns the altered point, or an
    /// error when the position is out of bounds; the universe is then
    /// unchanged.
    pub fn set(&mut self, row: usize, column: usize, value: UniverseCell) -> (r: Result<
        UniversePoint,
        (),
    >)
        requires
            old(self).well_formed(),
        ensures
            final(self).well_formed(),
            final(self).spec_rows() == old(self).spec_rows(),
            final(self).spec_columns() == old(self).spec_columns(),
            match r {
                Ok(p) => {
                    &&& old(self).in_bounds(row as int, column as int)
                    &&& p.row == row
                    &&& p.column == column
                    &&& p.cell == value
                    &&& p.corpse_heat == old(self).spec_heat_at(row as int, column as int)
                    &&& final(self).spec_cells() == old(self).spec_cells().update(
                        old(self).spec_index_of(row as int, column as int),
                        value,
                    )
                },
                Err(()) => {
                    &&& !old(self).in_bounds(row as int, column as int)
                    &&& final(self).spec_cells() == old(self).spec_cells()
                },
            },
            final(self).spec_heat() == old(self).spec_heat(),
            final(self).spec_freeze_rate() == old(self).spec_freeze_rate(),
            final(self).spec_generations() == old(self).spec_generations(),
            final(self).spec_last_delta() == old(self).spec_last_delta(),
    {
        if row < self.rows && column < self.columns {
            self.set_cell(row, column, value);
            let (cell, heat) = self.get_cell(row, column);
            Ok(UniversePoint::new(row, column, cell, heat))
        } else {
            Err(())
        }
    }
}

/// The row or column one step "up" on the torus: `(i + n - 1) % n`.
pub open spec fn wrap_dec(i: int, n: int) -> int {
    (i + n - 1) % n
}

/// The row or column one step "down" on the torus: `(i + 1) % n`.
pub open spec fn wrap_inc(i: int, n: int) -> int {
    (i + 1) % n
}

/// Stepping up from position `i` on a ring of size `n` lands on `i - 1`,
/// except from position 0, where it wraps to `n - 1`.
pub proof fn lemma_wrap_dec(i: int, n: int)
    requires
        0 <= i < n,
    ensures
        wrap_dec(i, n) == if i == 0 { n - 1 } else { i - 1 },
{
    if i == 0 {
        lemma_small_mod((n - 1) as nat, n as nat);
    } else {
        lemma_mod_multiples_vanish(1, i - 1, n);
        lemma_small_mod((i - 1) as nat, n as nat);
    }
}

/// Stepping down from position `i` on a ring of size `n` lands on `i + 1`,
/// except from position `n - 1`, where it wraps to 0.
pub proof fn lemma_wrap_inc(i: int, n: int)
    requires
        0 <= i < n,
    ensures
        wrap_inc(i, n) == if i == n - 1 { 0int } else { i + 1 },
{
    if i == n - 1 {
        lemma_mod_self_0(n);
    } else {
        lemma_small_mod((i + 1) as nat, n as nat);
    }
}

impl Universe {
    /// 1 when the cell at `(row, column)` is alive, 0 when it is dead.
    pub open spec fn spec_alive1(self, row: int, column: int) -> int {
        if self.spec_cell_at(row, column) == UniverseCell::Alive {
            1
        } else {
            0
        }
    }

    /// The number of living cells among the 8 toroidally wrapped neighbours
    /// of `(row, column)`, the position itself excluded. On a ring of size 1
    /// the wrapped offsets coincide, so a position can be counted more than
    /// once, exactly as the modular arithmetic dictates.
    pub open spec fn spec_neighbor_count(self, row: int, column: int) -> int {
        let up = wrap_dec(row, self.spec_rows() as int);
        let down = wrap_inc(row, self.spec_rows() as int);
        let left = wrap_dec(column, self.spec_columns() as int);
        let right = wrap_inc(column, self.spec_columns() as int);
        self.spec_alive1(up, left) + self.spec_alive1(up, column) + self.spec_alive1(up, right)
            + self.spec_alive1(row, left) + self.spec_alive1(row, right) + self.spec_alive1(
            down,
            left,
        ) + self.spec_alive1(down, column) + self.spec_alive1(down, right)
    }

    /// The classic Conway rule for the cell at `(row, column)`: a living
    /// cell survives exactly when it has 2 or 3 living neighbours, a dead
    /// cell comes alive exactly when it has 3; everything else is dead.
    pub open spec fn spec_next_state(self, row: int, column: int) -> UniverseCell {
        let n = self.spec_neighbor_count(row, column);
        match self.spec_cell_at(row, column) {
            UniverseCell::Alive => if n == 2 || n == 3 {
                UniverseCell::Alive
            } else {
                UniverseCell::Dead
            },
            UniverseCell::Dead => if n == 3 {
                UniverseCell::Alive
            } else {
                UniverseCell::Dead
            },
        }
    }

    /// Whether every cell of this universe is dead.
    pub open spec fn all_dead(self) -> bool {
        forall|i: int| 0 <= i < self.spec_cells().len() ==> self.spec_cells()[i] == UniverseCell::Dead
    }

    /// Whether the in-bounds position `(row, column)` holds a living cell.
    fn is_alive_at(&self, row: usize, column: usize) -> (r: bool)
        requires
            self.well_formed(),
            self.in_bounds(row as int, column as int),
        ensures
            r == (self.spec_cell_at(row as int, column as int) == UniverseCell::Alive),
    {
        let idx = self.get_index(row, column);
        matches!(self.cells[idx], UniverseCell::Alive)
    }

    /// Counts living cells among the 8 toroidally wrapped neighbours of the
    /// in-bounds position `(row, column)`.
    #[verifier::rlimit(60)]
    pub fn cell_living_neighbours_count(&self, row: usize, column: usize) -> (count: u8)
        requires
            self.well_formed(),
            self.in_bounds(row as int, column as int),
        ensures
            count == self.spec_neighbor_count(row as int, column as int),
            count <= 8,
    {
        let up = if row == 0 {
            self.rows - 1
        } else {
            row - 1
        };
        let down = if row == self.rows - 1 {
            0
        } else {
            row + 1
        };
        let left = if column == 0 {
            self.columns - 1
        } else {
            column - 1
        };
        let right = if column == self.columns - 1 {
            0
        } else {
            column + 1
        };
        proof {
            lemma_wrap_dec(row as int, self.spec_rows() as int);
            lemma_wrap_inc(row as int, self.spec_rows() as int);
            lemma_wrap_dec(column as int, self.spec_columns() as int);
            lemma_wrap_inc(column as int, self.spec_columns() as int);
        }
        let mut count: u8 = 0;
        if self.is_alive_at(up, left) {
            count = count + 1;
        }
        if self.is_alive_at(up, column) {
            count = count + 1;
        }
        if self.is_alive_at(up, right) {
            count = count + 1;
        }
        if self.is_alive_at(row, left) {
            count = count + 1;
        }
        if self.is_alive_at(row, right) {
            count = count + 1;
        }
        if self.is_alive_at(down, left) {
            count = count + 1;
        }
        if self.is_alive_at(down, column) {
            count = count + 1;
        }
        if self.is_alive_at(down, right) {
            count = count + 1;
        }
        count
    }

    /// Computes the next state of the in-bounds cell at `(row, column)` from
    /// its current state and the state of its neighbours, under the classic
    /// Conway rule.
    pub fn cell_next_state(&self, row: usize, column: usize) -> (r: UniverseCell)
        requires
            self.well_formed(),
            self.in_bounds(row as int, column as int),
        ensures
            r == self.spec_next_state(row as int, column as int),
    {
        let (cell, _) = self.get_cell(row, column);
        let alive_cells_around = self.cell_living_neighbours_count(row, column);
        match cell {
            UniverseCell::Alive => {
                if alive_cells_around < 2 || alive_cells_around > 3 {
                    UniverseCell::Dead
                } else {
                    UniverseCell::Alive
                }
            },
            UniverseCell::Dead => {
                if alive_cells_around == 3 {
                    UniverseCell::Alive
                } else {
                    UniverseCell::Dead
                }
            },
        }
    }
}

/// Neighbour counting wraps toroidally: the neighbours of any in-bounds
/// position lie at the wrapped coordinates. In particular a cell in row 0
/// has its three "row above" neighbours in row `rows - 1`, a cell in the
/// last row has its "row below" neighbours in row 0, and likewise for the
/// first and last columns.
pub proof fn lemma_neighbors_wrap_toroidally(u: Universe, row: int, column: int)
    requires
        u.well_formed(),
        u.in_bounds(row, column),
    ensures
        ({
            let above = if row == 0 { u.spec_rows() - 1 } else { row - 1 };
            let below = if row == u.spec_rows() - 1 { 0int } else { row + 1 };
            let left = if column == 0 { u.spec_columns() - 1 } else { column - 1 };
            let right = if column == u.spec_columns() - 1 { 0int } else { column + 1 };
            u.spec_neighbor_count(row, column) == u.spec_alive1(above, left) + u.spec_alive1(
                above,
                column,
            ) + u.spec_alive1(above, right) + u.spec_alive1(row, left) + u.spec_alive1(row, right)
                + u.spec_alive1(below, left) + u.spec_alive1(below, column) + u.spec_alive1(
                below,
                right,
            )
        }),
{
    lemma_wrap_dec(row, u.spec_rows() as int);
    lemma_wrap_inc(row, u.spec_rows() as int);
    lemma_wrap_dec(column, u.spec_columns() as int);
    lemma_wrap_inc(column, u.spec_columns() as int);
}

/// No spontaneous life: in a universe in which every cell is dead, the next
/// state of every in-bounds position is dead as well, so a tick of an
/// all-dead universe yields an all-dead universe.
pub proof fn lemma_no_spontaneous_life(u: Universe, row: int, column: int)
    requires
        u.well_formed(),
        u.all_dead(),
        u.in_bounds(row, column),
    ensures
        u.spec_next_state(row, column) == UniverseCell::Dead,
{
    let rows = u.spec_rows() as int;
    let cols = u.spec_columns() as int;
    lemma_mod_bound(row + rows - 1, rows);
    lemma_mod_bound(row + 1, rows);
    lemma_mod_bound(column + cols - 1, cols);
    lemma_mod_bound(column + 1, cols);
    let up = wrap_dec(row, rows);
    let down = wrap_inc(row, rows);
    let left = wrap_dec(column, cols);
    let right = wrap_inc(column, cols);
    lemma_index_bound(rows, cols, up, left);
    lemma_index_bound(rows, cols, up, column);
    lemma_index_bound(rows, cols, up, right);
    lemma_index_bound(rows, cols, row, left);
    lemma_index_bound(rows, cols, row, column);
    lemma_index_bound(rows, cols, row, right);
    lemma_index_bound(rows, cols, down, left);
    lemma_index_bound(rows, cols, down, column);
    lemma_index_bound(rows, cols, down, right);
    assert(u.spec_neighbor_count(row, column) == 0);
}

/// Splitting a row-major index by the column count recovers an in-bounds
/// position: the quotient is the row and the remainder is the column.
pub proof fn lemma_index_split(rows: int, columns: int, i: int)
    requires
        rows >= 1,
        columns >= 1,
        0 <= i < rows * columns,
    ensures
        0 <= i / columns < rows,
        0 <= i % columns < columns,
        (i / columns) * columns + (i % columns) == i,
{
    lemma_mod_bound(i, columns);
    lemma_fundamental_div_mod(i, columns);
    lemma_div_pos_is_pos(i, columns);
    lemma_mul_is_commutative(columns, rows);
    lemma_multiply_divide_lt(i, columns, rows);
    lemma_mul_is_commutative(columns, i / columns);
}

/// The first `k` positions of a row-major grid with the given column
/// count, each with its cell value and corpse heat.
pub open spec fn points_prefix(
    cells: Seq<UniverseCell>,
    heat: Seq<u32>,
    columns: int,
    k: int,
) -> Seq<UniversePoint>
    decreases k,
{
    if k <= 0 {
        Seq::empty()
    } else {
        let i = k - 1;
        points_prefix(cells, heat, columns, i).push(
            UniversePoint {
                row: (i / columns) as usize,
                column: (i % columns) as usize,
                cell: cells[i],
                corpse_heat: heat[i],
            },
        )
    }
}

/// The number of living cells in a row-major cell array.
pub open spec fn alive_count_of(s: Seq<UniverseCell>) -> int
    decreases s.len(),
{
    if s.len() == 0 {
        0
    } else {
        alive_count_of(s.drop_last()) + if s.last() == UniverseCell::Alive {
            1int
        } else {
            0int
        }
    }
}

/// Counting the living and the dead partitions a cell array: the two counts
/// always sum to its length.
pub proof fn lemma_alive_dead_partition(s: Seq<UniverseCell>)
    ensures
        0 <= alive_count_of(s) <= s.len(),
    decreases s.len(),
{
    if s.len() > 0 {
        lemma_alive_dead_partition(s.drop_last());
    }
}

impl Universe {
    /// The number of living cells of this universe.
    pub open spec fn spec_alive_count(self) -> int {
        alive_count_of(self.spec_cells())
    }

    /// The corpse heat of `(row, column)` after one tick: a cell that comes
    /// alive has its heat reset to 0; a cell that dies has it reset to
    /// `INITIAL_CORPSE_HEAT`; a cell that stays dead cools by the freeze
    /// rate, clamped at 0; a cell that stays alive keeps its heat.
    pub open spec fn spec_next_heat(self, row: int, column: int) -> u32 {
        let cur = self.spec_cell_at(row, column);
        let nxt = self.spec_next_state(row, column);
        if nxt != cur {
            if nxt == UniverseCell::Alive {
                0u32
            } else {
                INITIAL_CORPSE_HEAT
            }
        } else if cur == UniverseCell::Dead {
            if self.spec_heat_at(row, column) > self.spec_freeze_rate() {
                (self.spec_heat_at(row, column) - self.spec_freeze_rate()) as u32
            } else {
                0u32
            }
        } else {
            self.spec_heat_at(row, column)
        }
    }

    /// The point a tick publishes for position `(row, column)`: its new cell
    /// value and new corpse heat.
    pub open spec fn spec_tick_point(self, row: int, column: int) -> UniversePoint {
        UniversePoint {
            row: row as usize,
            column: column as usize,
            cell: self.spec_next_state(row, column),
            corpse_heat: self.spec_next_heat(row, column),
        }
    }

    /// The delta produced by scanning the first `k` positions in row-major
    /// order: exactly the points whose cell value changes, in scan order.
    pub open spec fn spec_delta_prefix(self, k: int) -> Seq<UniversePoint>
        decreases k,
    {
        if k <= 0 {
            Seq::empty()
        } else {
            let i = k - 1;
            let cols = self.spec_columns() as int;
            let row = i / cols;
            let column = i % cols;
            let rest = self.spec_delta_prefix(i);
            if self.spec_next_state(row, column) != self.spec_cell_at(row, column) {
                rest.push(self.spec_tick_point(row, column))
            } else {
                rest
            }
        }
    }

    /// The delta of one full tick of this universe: exactly the points whose
    /// cell value changes, in row-major order.
    pub open spec fn spec_tick_delta(self) -> Seq<UniversePoint> {
        self.spec_delta_prefix(self.spec_cells().len() as int)
    }

    /// Every position of this universe in row-major order, each with its
    /// current cell value and corpse heat.
    pub open spec fn spec_enumeration(self) -> Seq<UniversePoint> {
        points_prefix(
            self.spec_cells(),
            self.spec_heat(),
            self.spec_columns() as int,
            self.spec_cells().len() as int,
        )
    }

    /// Enumerates every position in row-major order with its current cell
    /// value and corpse heat; a fresh vector per call.
    pub fn iter_cells(&self) -> (r: Vec<UniversePoint>)
        requires
            self.well_formed(),
        ensures
            r@ == self.spec_enumeration(),
    {
        let n = self.cells.len();
        let mut out: Vec<UniversePoint> = Vec::new();
        let mut i: usize = 0;
        while i < n
            invariant
                self.well_formed(),
                n == self.spec_cells().len(),
                i <= n,
                out@ == points_prefix(
                    self.spec_cells(),
                    self.spec_heat(),
                    self.spec_columns() as int,
                    i as int,
                ),
            decreases n - i,
        {
            proof {
                lemma_index_split(self.spec_rows() as int, self.spec_columns() as int, i as int);
            }
            let row = i / self.columns;
            let column = i % self.columns;
            let (cell, heat) = self.get_cell(row, column);
            out.push(UniversePoint::new(row, column, cell, heat));
            i = i + 1;
        }
        out
    }

    /// The stored delta of the most recent tick or, if no tick has run yet,
    /// the full enumeration of all positions, so a freshly created universe
    /// can still be drawn incrementally on first paint.
    pub fn last_delta(&self) -> (r: Vec<UniversePoint>)
        requires
            self.well_formed(),
        ensures
            r@ == match self.spec_last_delta() {
                Some(d) => d,
                None => self.spec_enumeration(),
            },
    {
        match &self.last_delta {
            Some(delta) => {
                let mut out: Vec<UniversePoint> = Vec::new();
                let mut i: usize = 0;
                let n = delta.len();
                while i < n
                    invariant
                        n == delta@.len(),
                        i <= n,
                        out@ == delta@.take(i as int),
                    decreases n - i,
                {
                    out.push(delta[i]);
                    proof {
                        assert(out@ =~= delta@.take(i + 1 as int));
                    }
                    i = i + 1;
                }
                proof {
                    assert(out@ =~= delta@);
                }
                out
            },
            None => self.iter_cells(),
        }
    }

    /// Counts the living cells of this universe by a full scan.
    pub fn alive_cells_count(&self) -> (count: usize)
        ensures
            count == alive_count_of(self.spec_cells()),
    {
        let n = self.cells.len();
        let mut count: usize = 0;
        let mut i: usize = 0;
        while i < n
            invariant
                n == self.spec_cells().len(),
                i <= n,
                count == alive_count_of(self.spec_cells().take(i as int)),
                count <= i,
            decreases n - i,
        {
            proof {
                lemma_alive_dead_partition(self.spec_cells().take(i as int));
                assert(self.spec_cells().take(i + 1 as int).drop_last() =~= self.spec_cells().take(
                    i as int,
                ));
            }
            if matches!(self.cells[i], UniverseCell::Alive) {
                count = count + 1;
            }
            i = i + 1;
        }
        proof {
            assert(self.spec_cells().take(n as int) =~= self.spec_cells());
        }
        count
    }

    /// Counts the dead cells of this universe by a full scan: together with
    /// the living cells they make up the whole array.
    pub fn dead_cells_count(&self) -> (count: usize)
        ensures
            count == self.spec_cells().len() - alive_count_of(self.spec_cells()),
    {
        proof {
            lemma_alive_dead_partition(self.spec_cells());
        }
        let alive = self.alive_cells_count();
        self.cells.len() - alive
    }

    /// Advances this universe by one generation.
    ///
    /// Every cell's next state is computed from the current generation into
    /// freshly allocated buffers, which then replace the old ones, so no
    /// partially updated state is ever consulted. The stored delta holds
    /// exactly the points whose cell value changed, in row-major order;
    /// same-state cells never appear in it, even when their heat changed.
    /// The prior delta is never consulted.
    pub fn tick(&mut self)
        requires
            old(self).well_formed(),
            old(self).spec_generations() < u64::MAX,
        ensures
            final(self).well_formed(),
            final(self).spec_rows() == old(self).spec_rows(),
            final(self).spec_columns() == old(self).spec_columns(),
            final(self).spec_freeze_rate() == old(self).spec_freeze_rate(),
            final(self).spec_generations() == old(self).spec_generations() + 1,
            forall|row: int, column: int|
                old(self).in_bounds(row, column) ==> #[trigger] final(self).spec_cell_at(
                    row,
                    column,
                ) == old(self).spec_next_state(row, column),
            forall|row: int, column: int|
                old(self).in_bounds(row, column) ==> #[trigger] final(self).spec_heat_at(
                    row,
                    column,
                ) == old(self).spec_next_heat(row, column),
            final(self).spec_last_delta() == Some(old(self).spec_tick_delta()),
    {
        let ghost prev = *self;
        let rows = self.rows;
        let columns = self.columns;
        let n = self.cells.len();
        let mut new_cells: Vec<UniverseCell> = Vec::new();
        let mut new_heat: Vec<u32> = Vec::new();
        let mut delta: Vec<UniversePoint> = Vec::new();
        let mut i: usize = 0;
        while i < n
            invariant
                *self == prev,
                self.well_formed(),
                rows == self.spec_rows(),
                columns == self.spec_columns(),
                n == self.spec_cells().len(),
                i <= n,
                new_cells@.len() == i,
                new_heat@.len() == i,
                forall|j: int|
                    0 <= j < i ==> #[trigger] new_cells@[j] == self.spec_next_state(
                        j / columns as int,
                        j % columns as int,
                    ),
                forall|j: int|
                    0 <= j < i ==> #[trigger] new_heat@[j] == self.spec_next_heat(
                        j / columns as int,
                        j % columns as int,
                    ),
                delta@ == self.spec_delta_prefix(i as int),
            decreases n - i,
        {
            proof {
                lemma_index_split(rows as int, columns as int, i as int);
            }
            let row = i / columns;
            let column = i % columns;
            let next = self.cell_next_state(row, column);
            let (cur, cur_heat) = self.get_cell(row, column);
            let heat: u32 = if next != cur {
                if matches!(next, UniverseCell::Alive) {
                    0
                } else {
                    INITIAL_CORPSE_HEAT
                }
            } else if matches!(cur, UniverseCell::Dead) {
                if cur_heat > self.corpse_freeze_rate {
                    cur_heat - self.corpse_freeze_rate
                } else {
                    0
                }
            } else {
                cur_heat
            };
            new_cells.push(next);
            new_heat.push(heat);
            if next != cur {
                delta.push(UniversePoint::new(row, column, next, heat));
            }
            i = i + 1;
        }
        self.cells = new_cells;
        self.death_heat = new_heat;
        self.generations = self.generations + 1;
        self.last_delta = Some(delta);
        proof {
            let cols = prev.spec_columns() as int;
            assert forall|row: int, column: int| prev.in_bounds(row, column) implies #[trigger] (
            *self).spec_cell_at(row, column) == prev.spec_next_state(row, column) by {
                lemma_index_bound(prev.spec_rows() as int, cols, row, column);
                lemma_index_bijective(cols, row, column);
            }
            assert forall|row: int, column: int| prev.in_bounds(row, column) implies #[trigger] (
            *self).spec_heat_at(row, column) == prev.spec_next_heat(row, column) by {
                lemma_index_bound(prev.spec_rows() as int, cols, row, column);
                lemma_index_bijective(cols, row, column);
            }
        }
    }
}

impl Universe {
    /// Whether the cell value of `(row, column)` changes over one tick.
    pub open spec fn spec_changes(self, row: int, column: int) -> bool {
        self.spec_next_state(row, column) != self.spec_cell_at(row, column)
    }
}

/// Every entry of a row-major delta prefix records an in-bounds position
/// whose cell value changes, scanned before position `k`, with the new cell
/// value and heat; and a position scanned before `k` is recorded exactly
/// when its cell value changes.
proof fn lemma_delta_prefix_exact(u: Universe, k: int)
    requires
        u.well_formed(),
        0 <= k <= u.spec_cells().len(),
    ensures
        forall|j: int|
            0 <= j < u.spec_delta_prefix(k).len() ==> {
                let p = #[trigger] u.spec_delta_prefix(k)[j];
                &&& u.in_bounds(p.row as int, p.column as int)
                &&& u.spec_index_of(p.row as int, p.column as int) < k
                &&& u.spec_changes(p.row as int, p.column as int)
                &&& p == u.spec_tick_point(p.row as int, p.column as int)
            },
        forall|row: int, column: int|
            u.in_bounds(row, column) && u.spec_index_of(row, column) < k && u.spec_changes(
                row,
                column,
            ) ==> #[trigger] u.spec_delta_prefix(k).contains(u.spec_tick_point(row, column)),
    decreases k,
{
    if k > 0 {
        lemma_delta_prefix_exact(u, k - 1);
        let rows = u.spec_rows() as int;
        let cols = u.spec_columns() as int;
        let i = k - 1;
        lemma_index_split(rows, cols, i);
        let r0 = i / cols;
        let c0 = i % cols;
        let rest = u.spec_delta_prefix(i);
        let cur = u.spec_delta_prefix(k);
        assert(u.spec_index_of(r0, c0) == i);
        // Entries carried over from the shorter prefix keep their witnesses,
        // and positions recorded there stay recorded.
        assert forall|row: int, column: int|
            u.in_bounds(row, column) && u.spec_index_of(row, column) < k && u.spec_changes(
                row,
                column,
            ) implies #[trigger] cur.contains(u.spec_tick_point(row, column)) by {
            if u.spec_index_of(row, column) < i {
                let p = u.spec_tick_point(row, column);
                assert(rest.contains(p));
                let j = choose|j: int| 0 <= j < rest.len() && rest[j] == p;
                assert(cur[j] == p);
            } else {
                // The scanned position is exactly (r0, c0).
                lemma_index_bound(rows, cols, row, column);
                lemma_index_bijective(cols, row, column);
                assert(row == r0 && column == c0);
                assert(cur == rest.push(u.spec_tick_point(r0, c0)));
                assert(cur[rest.len() as int] == u.spec_tick_point(r0, c0));
            }
        }
    }
}

/// The delta of a tick is exact: it holds the point of an in-bounds
/// position if and only if that position's cell value changes over the
/// tick, so same-state cells never appear, even when their heat changed;
/// and every entry carries an in-bounds changed position together with its
/// new cell value and new corpse heat.
pub proof fn lemma_tick_delta_exact(u: Universe)
    requires
        u.well_formed(),
    ensures
        forall|j: int|
            0 <= j < u.spec_tick_delta().len() ==> {
                let p = #[trigger] u.spec_tick_delta()[j];
                &&& u.in_bounds(p.row as int, p.column as int)
                &&& u.spec_changes(p.row as int, p.column as int)
                &&& p == u.spec_tick_point(p.row as int, p.column as int)
            },
        forall|row: int, column: int|
            u.in_bounds(row, column) ==> (#[trigger] u.spec_tick_delta().contains(
                u.spec_tick_point(row, column),
            ) <==> u.spec_changes(row, column)),
{
    let n = u.spec_cells().len() as int;
    lemma_delta_prefix_exact(u, n);
    let delta = u.spec_tick_delta();
    assert forall|row: int, column: int| u.in_bounds(row, column) implies (#[trigger] delta.contains(
        u.spec_tick_point(row, column),
    ) <==> u.spec_changes(row, column)) by {
        lemma_index_bound(u.spec_rows() as int, u.spec_columns() as int, row, column);
        if delta.contains(u.spec_tick_point(row, column)) {
            // The recorded entry pins the position through its row and
            // column fields, so the change happened at (row, column).
            let j = choose|j: int|
                0 <= j < delta.len() && delta[j] == u.spec_tick_point(row, column);
            let p = delta[j];
            assert(p.row as int == row && p.column as int == column);
            assert(u.spec_changes(row, column));
        }
        if u.spec_changes(row, column) {
            assert(delta.contains(u.spec_tick_point(row, column)));
        }
    }
}

impl Default for Universe {
    /// A randomly seeded universe of 200 by 200 cells.
    fn default() -> (r: Universe)
        ensures
            r.well_formed(),
            r.spec_rows() == 200,
            r.spec_columns() == 200,
            r.spec_generations() == 0,
    {
        Universe::new_random(200, 200)
    }
}

/// Stores the full enumeration of a universe as its delta, so that a grid
/// on which no tick has run yet can still be painted incrementally.
fn compute_initial_delta(universe: &mut Universe)
    requires
        old(universe).well_formed(),
    ensures
        final(universe).well_formed(),
        final(universe).spec_rows() == old(universe).spec_rows(),
        final(universe).spec_columns() == old(universe).spec_columns(),
        final(universe).spec_cells() == old(universe).spec_cells(),
        final(universe).spec_heat() == old(universe).spec_heat(),
        final(universe).spec_freeze_rate() == old(universe).spec_freeze_rate(),
        final(universe).spec_generations() == old(universe).spec_generations(),
        final(universe).spec_last_delta() == Some(old(universe).spec_enumeration()),
{
    let points = universe.iter_cells();
    universe.last_delta = Some(points);
}

impl Universe {
    /// Builds an all-dead universe whose stored delta already enumerates
    /// every position, ready for a first incremental paint.
    pub fn new(rows: usize, columns: usize) -> (r: Universe)
        requires
            rows >= 1,
            columns >= 1,
            rows * columns <= usize::MAX - 16,
        ensures
            r.well_formed(),
            r.spec_rows() == rows,
            r.spec_columns() == columns,
            forall|i: int| 0 <= i < r.spec_cells().len() ==> r.spec_cells()[i] == UniverseCell::Dead,
            forall|i: int| 0 <= i < r.spec_heat().len() ==> r.spec_heat()[i] == 0,
            r.spec_freeze_rate() == DEFAULT_FREEZE_RATE,
            r.spec_generations() == 0,
            r.spec_last_delta() == Some(r.spec_enumeration()),
    {
        let mut universe = Self::create(rows, columns);
        compute_initial_delta(&mut universe);
        universe
    }

    /// Seeds this universe in place: each cell is independently set alive
    /// with probability `alive_percent` in 100, by a fresh draw from the
    /// thread-local random source. At the extremes the outcome is certain:
    /// 0 leaves every cell dead and 100 (or more) makes every cell alive.
    /// Heat, counters and the stored delta are untouched.
    pub fn random_seed(&mut self, alive_percent: u32)
        requires
            old(self).well_formed(),
        ensures
            final(self).well_formed(),
            final(self).spec_rows() == old(self).spec_rows(),
            final(self).spec_columns() == old(self).spec_columns(),
            final(self).spec_cells().len() == old(self).spec_cells().len(),
            alive_percent == 0 ==> forall|i: int|
                0 <= i < final(self).spec_cells().len() ==> final(self).spec_cells()[i]
                    == UniverseCell::Dead,
            alive_percent >= 100 ==> forall|i: int|
                0 <= i < final(self).spec_cells().len() ==> final(self).spec_cells()[i]
                    == UniverseCell::Alive,
            final(self).spec_heat() == old(self).spec_heat(),
            final(self).spec_freeze_rate() == old(self).spec_freeze_rate(),
            final(self).spec_generations() == old(self).spec_generations(),
            final(self).spec_last_delta() == old(self).spec_last_delta(),
    {
        let n = self.cells.len();
        let mut i: usize = 0;
        while i < n
            invariant
                self.well_formed(),
                self.spec_rows() == old(self).spec_rows(),
                self.spec_columns() == old(self).spec_columns(),
                self.spec_cells().len() == old(self).spec_cells().len(),
                n == self.spec_cells().len(),
                i <= n,
                alive_percent == 0 ==> forall|j: int|
                    0 <= j < i ==> self.spec_cells()[j] == UniverseCell::Dead,
                alive_percent >= 100 ==> forall|j: int|
                    0 <= j < i ==> self.spec_cells()[j] == UniverseCell::Alive,
                self.spec_heat() == old(self).spec_heat(),
                self.spec_freeze_rate() == old(self).spec_freeze_rate(),
                self.spec_generations() == old(self).spec_generations(),
                self.spec_last_delta() == old(self).spec_last_delta(),
            decreases n - i,
        {
            let draw = crate::rng::random_percent();
            let cell = if draw < alive_percent {
                UniverseCell::Alive
            } else {
                UniverseCell::Dead
            };
            self.cells[i] = cell;
            i = i + 1;
        }
    }

    /// Seeds this universe from an injected sequence of draws, one per
    /// cell: cell `i` becomes alive exactly when `draws[i] < alive_percent`.
    /// This is the reproducible twin of `random_seed`, for callers that
    /// bring their own random source.
    pub fn seed_from_draws(&mut self, draws: &Vec<u32>, alive_percent: u32)
        requires
            old(self).well_formed(),
            draws@.len() == old(self).spec_cells().len(),
        ensures
            final(self).well_formed(),
            final(self).spec_rows() == old(self).spec_rows(),
            final(self).spec_columns() == old(self).spec_columns(),
            final(self).spec_cells().len() == old(self).spec_cells().len(),
            forall|i: int|
                0 <= i < final(self).spec_cells().len() ==> final(self).spec_cells()[i] == (
                if draws@[i] < alive_percent {
                    UniverseCell::Alive
                } else {
                    UniverseCell::Dead
                }),
            final(self).spec_heat() == old(self).spec_heat(),
            final(self).spec_freeze_rate() == old(self).spec_freeze_rate(),
            final(self).spec_generations() == old(self).spec_generations(),
            final(self).spec_last_delta() == old(self).spec_last_delta(),
    {
        let n = self.cells.len();
        let mut i: usize = 0;
        while i < n
            invariant
                self.well_formed(),
                self.spec_rows() == old(self).spec_rows(),
                self.spec_columns() == old(self).spec_columns(),
                self.spec_cells().len() == old(self).spec_cells().len(),
                draws@.len() == self.spec_cells().len(),
                n == self.spec_cells().len(),
                i <= n,
                forall|j: int|
                    0 <= j < i ==> self.spec_cells()[j] == (if draws@[j] < alive_percent {
                        UniverseCell::Alive
                    } else {
                        UniverseCell::Dead
                    }),
                self.spec_heat() == old(self).spec_heat(),
                self.spec_freeze_rate() == old(self).spec_freeze_rate(),
                self.spec_generations() == old(self).spec_generations(),
                self.spec_last_delta() == old(self).spec_last_delta(),
            decreases n - i,
        {
            let cell = if draws[i] < alive_percent {
                UniverseCell::Alive
            } else {
                UniverseCell::Dead
            };
            self.cells[i] = cell;
            i = i + 1;
        }
    }

    /// Builds a randomly seeded universe: each cell alive with the default
    /// probability, heat zeroed, and the stored delta already enumerating
    /// every position for a first paint.
    pub fn new_random(rows: usize, columns: usize) -> (r: Universe)
        requires
            rows >= 1,
            columns >= 1,
            rows * columns <= usize::MAX - 16,
        ensures
            r.well_formed(),
            r.spec_rows() == rows,
            r.spec_columns() == columns,
            forall|i: int| 0 <= i < r.spec_heat().len() ==> r.spec_heat()[i] == 0,
            r.spec_freeze_rate() == DEFAULT_FREEZE_RATE,
            r.spec_generations() == 0,
            r.spec_last_delta() == Some(r.spec_enumeration()),
    {
        let mut universe = Self::create(rows, columns);
        universe.random_seed(DEFAULT_ALIVE_PERCENT);
        compute_initial_delta(&mut universe);
        universe
    }

    /// A fresh copy of the row-major cell array.
    pub(crate) fn clone_cells(&self) -> (r: Vec<UniverseCell>)
        ensures
            r@ == self.spec_cells(),
    {
        let n = self.cells.len();
        let mut out: Vec<UniverseCell> = Vec::new();
        let mut i: usize = 0;
        while i < n
            invariant
                n == self.spec_cells().len(),
                i <= n,
                out@ == self.spec_cells().take(i as int),
            decreases n - i,
        {
            out.push(self.cells[i]);
            proof {
                assert(out@ =~= self.spec_cells().take(i + 1 as int));
            }
            i = i + 1;
        }
        proof {
            assert(out@ =~= self.spec_cells());
        }
        out
    }

    /// Rebuilds a universe from dimensions and a cell array: heat zeroed,
    /// generation counter reset and no stored delta.
    pub(crate) fn from_parts(rows: usize, columns: usize, cells: Vec<UniverseCell>) -> (r: Universe)
        requires
            rows >= 1,
            columns >= 1,
            rows * columns <= usize::MAX - 16,
            cells@.len() == rows * columns,
        ensures
            r.well_formed(),
            r.spec_rows() == rows,
            r.spec_columns() == columns,
            r.spec_cells() == cells@,
            forall|i: int| 0 <= i < r.spec_heat().len() ==> r.spec_heat()[i] == 0,
            r.spec_freeze_rate() == DEFAULT_FREEZE_RATE,
            r.spec_generations() == 0,
            r.spec_last_delta() is None,
    {
        let n = cells.len();
        let mut death_heat: Vec<u32> = Vec::new();
        let mut i: usize = 0;
        while i < n
            invariant
                i <= n,
                death_heat@.len() == i,
                forall|j: int| 0 <= j < i ==> death_heat@[j] == 0,
            decreases n - i,
        {
            death_heat.push(0);
            i = i + 1;
        }
        Universe {
            rows,
            columns,
            cells,
            death_heat,
            corpse_freeze_rate: DEFAULT_FREEZE_RATE,
            generations: 0,
            last_delta: None,
        }
    }

    /// A deep copy of this universe: every observable part of the copy
    /// equals the original's.
    pub fn duplicate(&self) -> (r: Universe)
        ensures
            r.spec_rows() == self.spec_rows(),
            r.spec_columns() == self.spec_columns(),
            r.spec_cells() == self.spec_cells(),
            r.spec_heat() == self.spec_heat(),
            r.spec_freeze_rate() == self.spec_freeze_rate(),
            r.spec_generations() == self.spec_generations(),
            r.spec_last_delta() == self.spec_last_delta(),
    {
        let cells = self.clone_cells();
        let nh = self.death_heat.len();
        let mut death_heat: Vec<u32> = Vec::new();
        let mut i: usize = 0;
        while i < nh
            invariant
                nh == self.spec_heat().len(),
                i <= nh,
                death_heat@ == self.spec_heat().take(i as int),
            decreases nh - i,
        {
            death_heat.push(self.death_heat[i]);
            proof {
                assert(death_heat@ =~= self.spec_heat().take(i + 1 as int));
            }
            i = i + 1;
        }
        proof {
            assert(death_heat@ =~= self.spec_heat());
        }
        let last_delta: Option<Vec<UniversePoint>> = match &self.last_delta {
            Some(delta) => {
                let nd = delta.len();
                let mut points: Vec<UniversePoint> = Vec::new();
                let mut j: usize = 0;
                while j < nd
                    invariant
                        nd == delta@.len(),
                        j <= nd,
                        points@ == delta@.take(j as int),
                    decreases nd - j,
                {
                    points.push(delta[j]);
                    proof {
                        assert(points@ =~= delta@.take(j + 1 as int));
                    }
                    j = j + 1;
                }
                proof {
                    assert(points@ =~= delta@);
                }
                Some(points)
            },
            None => None,
        };
        Universe {
            rows: self.rows,
            columns: self.columns,
            cells,
            death_heat,
            corpse_freeze_rate: self.corpse_freeze_rate,
            generations: self.generations,
            last_delta,
        }
    }
}

} // verus!
