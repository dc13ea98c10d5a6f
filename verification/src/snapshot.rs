//! An immutable, serializable projection of a universe's state: dimensions
//! and cell array, without the transient corpse heat.
//!
//! The binary format is a fixed header of the row and column counts as
//! little-endian 64-bit values, followed by one byte per cell in row-major
//! order (0 for dead, 1 for alive). Deserialization rejects truncated,
//! corrupt or length-mismatched input instead of panicking.

use vstd::prelude::*;
use vstd::bytes::{
    lemma_auto_spec_u64_to_from_le_bytes, spec_u64_from_le_bytes, spec_u64_to_le_bytes,
    u64_from_le_bytes, u64_to_le_bytes,
};
use vstd::slice::slice_subrange;
use vstd::arithmetic::div_mod::{lemma_fundamental_div_mod, lemma_fundamental_div_mod_converse};
use vstd::arithmetic::mul::lemma_mul_is_commutative;

use crate::cell::UniverseCell;
use crate::cell::UniversePoint;
use crate::universe::lemma_index_bound;
use crate::universe::Universe;

verus! {

/// Why a byte buffer could not be read back as a snapshot.
#[derive(Clone, Copy, Debug, PartialEq, Eq, Structural)]
pub enum SnapshotError {
    /// The input is truncated, corrupt, or its length does not match its
    /// declared dimensions.
    InvalidFormat,
}

/// The byte a cell value is encoded as: 1 for alive, 0 for dead.
pub open spec fn spec_cell_byte(cell: UniverseCell) -> u8 {
    if cell == UniverseCell::Alive {
        1u8
    } else {
        0u8
    }
}

/// The cell value a valid byte decodes to: alive for 1, dead for 0.
pub open spec fn spec_byte_cell(byte: u8) -> UniverseCell {
    if byte == 1 {
        UniverseCell::Alive
    } else {
        UniverseCell::Dead
    }
}

/// Whether a byte buffer is a well-formed snapshot encoding: a full header
/// declaring at least one row and one column that both fit the machine,
/// exactly one byte per declared cell, and every cell byte 0 or 1.
pub open spec fn spec_valid_encoding(bytes: Seq<u8>) -> bool {
    &&& bytes.len() >= 16
    &&& {
        let rows = spec_u64_from_le_bytes(bytes.subrange(0, 8)) as int;
        let columns = spec_u64_from_le_bytes(bytes.subrange(8, 16)) as int;
        &&& rows >= 1
        &&& columns >= 1
        &&& rows <= usize::MAX
        &&& columns <= usize::MAX
        &&& rows * columns == bytes.len() - 16
        &&& forall|i: int| 16 <= i < bytes.len() ==> bytes[i] == 0 || bytes[i] == 1
    }
}

/// An immutable capture of a universe's dimensions and cell array.
///
/// Corpse heat is transient render state and is excluded from persistence
/// by design; a snapshot is a value, not a live simulation, so mutation
/// attempts fail with a read-only error.
#[derive(Debug)]
pub struct UniverseSnapshot {
    rows: usize,
    columns: usize,
    cells: Vec<UniverseCell>,
}

impl UniverseSnapshot {
    /// The number of rows, as seen by specifications.
    pub closed spec fn spec_rows(self) -> usize {
        self.rows
    }

    /// The number of columns, as seen by specifications.
    pub closed spec fn spec_columns(self) -> usize {
        self.columns
    }

    /// The row-major cell array, as seen by specifications.
    pub closed spec fn spec_cells(self) -> Seq<UniverseCell> {
        self.cells@
    }

    /// The structural invariant of a snapshot: at least one row and one
    /// column, and a row-major cell array of matching length. The product
    /// bound is a machine limit shared with `Universe`.
    pub open spec fn well_formed(self) -> bool {
        &&& self.spec_rows() >= 1
        &&& self.spec_columns() >= 1
        &&& self.spec_rows() * self.spec_columns() <= usize::MAX - 16
        &&& self.spec_cells().len() == self.spec_rows() * self.spec_columns()
    }

    /// The encoding of this snapshot: both dimensions as little-endian
    /// 64-bit values, then one byte per cell in row-major order.
    pub open spec fn spec_serialized(self) -> Seq<u8> {
        spec_u64_to_le_bytes(self.spec_rows() as u64) + spec_u64_to_le_bytes(
            self.spec_columns() as u64,
        ) + self.spec_cells().map_values(|cell: UniverseCell| spec_cell_byte(cell))
    }

    /// Projects a universe into a snapshot, deep-copying the cell array
    /// only; heat is excluded.
    pub fn from_grid(universe: &Universe) -> (r: UniverseSnapshot)
        requires
            universe.well_formed(),
        ensures
            r.well_formed(),
            r.spec_rows() == universe.spec_rows(),
            r.spec_columns() == universe.spec_columns(),
            r.spec_cells() == universe.spec_cells(),
    {
        UniverseSnapshot { rows: universe.rows(), columns: universe.columns(), cells: universe.clone_cells() }
    }

    /// The number of rows of this snapshot.
    pub fn rows(&self) -> (r: usize)
        ensures
            r == self.spec_rows(),
    {
        self.rows
    }

    /// The number of columns of this snapshot.
    pub fn columns(&self) -> (r: usize)
        ensures
            r == self.spec_columns(),
    {
        self.columns
    }

    /// The point at `(row, column)`, or `None` when the position is out of
    /// bounds. A snapshot carries no heat, so the point reports heat 0.
    pub fn get(&self, row: usize, column: usize) -> (r: Option<UniversePoint>)
        requires
            self.well_formed(),
        ensures
            match r {
                Some(p) => {
                    &&& 0 <= row < self.spec_rows()
                    &&& 0 <= column < self.spec_columns()
                    &&& p.row == row
                    &&& p.column == column
                    &&& p.cell == self.spec_cells()[row * self.spec_columns() + column]
                    &&& p.corpse_heat == 0
                },
                None => !(row < self.spec_rows() && column < self.spec_columns()),
            },
    {
        if row < self.rows && column < self.columns {
            proof {
                lemma_index_bound(
                    self.spec_rows() as int,
                    self.spec_columns() as int,
                    row as int,
                    column as int,
                );
            }
            let idx = row * self.columns + column;
            Some(UniversePoint::new(row, column, self.cells[idx], 0))
        } else {
            None
        }
    }

    /// A snapshot is read-only: every mutation attempt fails with a
    /// read-only error and leaves the snapshot untouched.
    pub fn set(&mut self, row: usize, column: usize, value: UniverseCell) -> (r: Result<
        UniversePoint,
        &'static str,
    >)
        ensures
            *final(self) == *old(self),
            r matches Err(m) && m@ == "UniverseSnapshot is readonly"@,
    {
        Err("UniverseSnapshot is readonly")
    }

    /// Rebuilds a universe from this snapshot: the same cell pattern with
    /// heat zero-filled and the generation counter reset to 0, so loading a
    /// snapshot always starts a fresh simulation.
    pub fn into_grid(self) -> (r: Universe)
        requires
            self.well_formed(),
        ensures
            r.well_formed(),
            r.spec_rows() == self.spec_rows(),
            r.spec_columns() == self.spec_columns(),
            r.spec_cells() == self.spec_cells(),
            forall|i: int| 0 <= i < r.spec_heat().len() ==> r.spec_heat()[i] == 0,
            r.spec_freeze_rate() == crate::universe::DEFAULT_FREEZE_RATE,
            r.spec_generations() == 0,
            r.spec_last_delta() is None,
    {
        Universe::from_parts(self.rows, self.columns, self.cells)
    }

    /// Encodes this snapshot into its stable binary form.
    pub fn serialize(&self) -> (r: Vec<u8>)
        requires
            self.well_formed(),
        ensures
            r@ == self.spec_serialized(),
            spec_valid_encoding(r@),
    {
        proof {
            lemma_serialize_round_trip(*self);
        }
        let mut out = u64_to_le_bytes(self.rows as u64);
        let mut columns_bytes = u64_to_le_bytes(self.columns as u64);
        out.append(&mut columns_bytes);
        let ghost header = out@;
        let n = self.cells.len();
        let mut i: usize = 0;
        while i < n
            invariant
                n == self.spec_cells().len(),
                i <= n,
                out@ == header + self.spec_cells().take(i as int).map_values(
                    |cell: UniverseCell| spec_cell_byte(cell),
                ),
            decreases n - i,
        {
            let byte: u8 = if matches!(self.cells[i], UniverseCell::Alive) {
                1
            } else {
                0
            };
            out.push(byte);
            proof {
                assert(self.spec_cells().take(i + 1 as int).map_values(
                    |cell: UniverseCell| spec_cell_byte(cell),
                ) =~= self.spec_cells().take(i as int).map_values(
                    |cell: UniverseCell| spec_cell_byte(cell),
                ).push(spec_cell_byte(self.spec_cells()[i as int])));
            }
            i = i + 1;
        }
        proof {
            assert(self.spec_cells().take(n as int) =~= self.spec_cells());
            assert(out@ =~= self.spec_serialized());
        }
        out
    }

    /// Decodes a snapshot from bytes, returning `InvalidFormat` on any
    /// truncated, corrupt or length-mismatched input; success and failure
    /// are decided exactly by `spec_valid_encoding`, and malformed input
    /// never panics.
    #[verifier::loop_isolation(false)]
    pub fn deserialize(bytes: &Vec<u8>) -> (r: Result<UniverseSnapshot, SnapshotError>)
        ensures
            match r {
                Ok(s) => {
                    &&& spec_valid_encoding(bytes@)
                    &&& s.well_formed()
                    &&& s.spec_rows() as u64 == spec_u64_from_le_bytes(bytes@.subrange(0, 8))
                    &&& s.spec_columns() as u64 == spec_u64_from_le_bytes(bytes@.subrange(8, 16))
                    &&& s.spec_cells().len() == bytes@.len() - 16
                    &&& forall|i: int|
                        0 <= i < s.spec_cells().len() ==> s.spec_cells()[i] == spec_byte_cell(
                            bytes@[16 + i],
                        )
                },
                Err(e) => {
                    &&& !spec_valid_encoding(bytes@)
                    &&& e == SnapshotError::InvalidFormat
                },
            },
    {
        if bytes.len() < 16 {
            return Err(SnapshotError::InvalidFormat);
        }
        let rows64 = u64_from_le_bytes(slice_subrange(bytes.as_slice(), 0, 8));
        let columns64 = u64_from_le_bytes(slice_subrange(bytes.as_slice(), 8, 16));
        if rows64 == 0 || columns64 == 0 {
            return Err(SnapshotError::InvalidFormat);
        }
        if rows64 > usize::MAX as u64 || columns64 > usize::MAX as u64 {
            return Err(SnapshotError::InvalidFormat);
        }
        let rows = rows64 as usize;
        let columns = columns64 as usize;
        let n = bytes.len() - 16;
        if n / columns != rows || n % columns != 0 {
            proof {
                lemma_fundamental_div_mod(n as int, columns as int);
                if rows as int * columns as int == n as int {
                    lemma_mul_is_commutative(rows as int, columns as int);
                    lemma_fundamental_div_mod_converse(n as int, columns as int, rows as int, 0);
                }
            }
            return Err(SnapshotError::InvalidFormat);
        }
        proof {
            lemma_fundamental_div_mod(n as int, columns as int);
            lemma_mul_is_commutative(rows as int, columns as int);
        }
        let mut cells: Vec<UniverseCell> = Vec::new();
        let mut i: usize = 0;
        while i < n
            invariant
                i <= n,
                cells@.len() == i,
                forall|j: int| 0 <= j < i ==> #[trigger] bytes@[16 + j] == 0 || bytes@[16 + j] == 1,
                forall|j: int| 0 <= j < i ==> cells@[j] == spec_byte_cell(bytes@[16 + j]),
            decreases n - i,
        {
            let byte = bytes[16 + i];
            if byte > 1 {
                return Err(SnapshotError::InvalidFormat);
            }
            cells.push(
                if byte == 1 {
                    UniverseCell::Alive
                } else {
                    UniverseCell::Dead
                },
            );
            i = i + 1;
        }
        proof {
            assert forall|j: int| 16 <= j < bytes@.len() implies bytes@[j] == 0 || bytes@[j] == 1 by {
                assert(bytes@[16 + (j - 16)] == 0 || bytes@[16 + (j - 16)] == 1);
            }
        }
        Ok(UniverseSnapshot { rows, columns, cells })
    }
}

/// The snapshot codec round-trips: the encoding of a well-formed snapshot
/// is itself a valid encoding, and decoding it recovers the dimensions and
/// the identical cell array. Heat and generation counters are not part of
/// a snapshot and so are not preserved, by design.
pub proof fn lemma_serialize_round_trip(s: UniverseSnapshot)
    requires
        s.well_formed(),
    ensures
        spec_valid_encoding(s.spec_serialized()),
        s.spec_serialized().len() == 16 + s.spec_cells().len(),
        spec_u64_from_le_bytes(s.spec_serialized().subrange(0, 8)) == s.spec_rows() as u64,
        spec_u64_from_le_bytes(s.spec_serialized().subrange(8, 16)) == s.spec_columns() as u64,
        forall|i: int|
            0 <= i < s.spec_cells().len() ==> spec_byte_cell(#[trigger] s.spec_serialized()[16 + i])
                == s.spec_cells()[i],
{
    lemma_auto_spec_u64_to_from_le_bytes();
    let ser = s.spec_serialized();
    let body = s.spec_cells().map_values(|cell: UniverseCell| spec_cell_byte(cell));
    assert(spec_u64_to_le_bytes(s.spec_rows() as u64).len() == 8);
    assert(spec_u64_to_le_bytes(s.spec_columns() as u64).len() == 8);
    assert(ser.subrange(0, 8) =~= spec_u64_to_le_bytes(s.spec_rows() as u64));
    assert(ser.subrange(8, 16) =~= spec_u64_to_le_bytes(s.spec_columns() as u64));
    assert forall|i: int| 16 <= i < ser.len() implies ser[i] == 0 || ser[i] == 1 by {
        assert(ser[i] == body[i - 16]);
    }
    assert forall|i: int| 0 <= i < s.spec_cells().len() implies spec_byte_cell(
        #[trigger] ser[16 + i],
    ) == s.spec_cells()[i] by {
        assert(ser[16 + i] == body[i]);
    }
}

impl Universe {
    /// Projects this universe into an immutable snapshot of its dimensions
    /// and cell array.
    pub fn snapshot(&self) -> (r: UniverseSnapshot)
        requires
            self.well_formed(),
        ensures
            r.well_formed(),
            r.spec_rows() == self.spec_rows(),
            r.spec_columns() == self.spec_columns(),
            r.spec_cells() == self.spec_cells(),
    {
        UniverseSnapshot::from_grid(self)
    }
}

} // verus!
