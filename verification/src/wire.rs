//! Wire addresses in the circuit's wire table.
//!
//! A generator names the wires it reads and writes by (row, column); the
//! surrounding framework resolves those addresses to witness values.

use vstd::prelude::*;

verus! {

/// The address of one wire slot: a row of the wire table and a column in it.
#[derive(Clone, Copy, Debug, PartialEq, Eq, Structural)]
pub struct WireId {
    pub row: usize,
    pub column: usize,
}

impl WireId {
    /// The wire at the given column of the given row.
    pub fn wire(row: usize, column: usize) -> (r: WireId)
        ensures
            r.row == row,
            r.column == column,
    {
        WireId { row, column }
    }
}

} // verus!
