//! Columns of the Memory table: one row per initialization entry or
//! runtime access of a memory location, ordered by address.

use vstd::prelude::*;
use crate::field::is_fe;

verus! {

/// Operation tag for a store-byte row.
pub const OPCODE_SB: u64 = 1;

/// Operation tag for a load-byte-unsigned row.
pub const OPCODE_LBU: u64 = 2;

/// One row of the Memory table.
#[derive(Clone, Copy, PartialEq, Eq, Structural, Debug, Default)]
pub struct Memory {
    /// Whether the row stands for a real entry rather than padding.
    pub is_executed: u64,
    /// Whether the address lies in the read-write region.
    pub is_writable: u64,
    /// Whether the row comes from the static memory image.
    pub is_init: u64,
    /// The address.
    pub addr: u64,
    /// The clock of the access; zero on initialization rows.
    pub clk: u64,
    /// The operation tag; zero on initialization rows.
    pub op: u64,
    /// The byte value.
    pub value: u64,
    /// Difference to the previous row's address.
    pub diff_addr: u64,
    /// Field inverse of `diff_addr`, or zero when it is zero.
    pub diff_addr_inv: u64,
    /// Clock difference to the previous row, while the address is
    /// unchanged.
    pub diff_clk: u64,
}

/// Well-formedness of a Memory row: every cell canonical.
pub open spec fn memory_row_wf(m: Memory) -> bool {
    &&& is_fe(m.is_executed)
    &&& is_fe(m.is_writable)
    &&& is_fe(m.is_init)
    &&& is_fe(m.addr)
    &&& is_fe(m.clk)
    &&& is_fe(m.op)
    &&& is_fe(m.value)
    &&& is_fe(m.diff_addr)
    &&& is_fe(m.diff_addr_inv)
    &&& is_fe(m.diff_clk)
}

/// The columns another table projects when it looks its memory
/// traffic up in the Memory table.
#[derive(Clone, Debug)]
pub struct MemoryCtl<T> {
    pub clk: T,
    pub is_store: T,
    pub is_load: T,
    pub value: T,
    pub addr: T,
}

} // verus!
