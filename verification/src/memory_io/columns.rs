//! Columns of the I/O-Memory tables: one row per tape transaction
//! header plus one row per transferred byte, linked to the CPU and
//! Memory tables by cross-table lookups.

use vstd::prelude::*;
use crate::cross_table_lookup::ColumnX;
use crate::field::{fe_add, fe_add_spec, is_fe};
use crate::memory::columns::MemoryCtl;

verus! {

/// Operations of an I/O-Memory row (one-hot encoded).
#[derive(Clone, Copy, PartialEq, Eq, Structural, Debug, Default)]
pub struct Ops {
    /// Binary filter column: the row stores one byte into memory.
    pub is_memory_store: u64,
    /// Binary filter column: the row is an I/O transaction header.
    pub is_io_store: u64,
}

/// One row of an I/O-Memory table.
#[derive(Clone, Copy, PartialEq, Eq, Structural, Debug, Default)]
pub struct InputOutputMemory {
    /// Clock at the access.
    pub clk: u64,
    /// Start address of the transaction, or the byte's own address.
    pub addr: u64,
    /// Remaining size of the transaction in bytes.
    pub size: u64,
    /// The byte value; zero on header rows.
    pub value: u64,
    /// The row's operation.
    pub ops: Ops,
    /// Helper flag to keep the constraint degree low: this row and
    /// the next are both byte rows.
    pub is_lv_and_nv_are_memory_rows: u64,
}

/// Well-formedness of an I/O-Memory row: every cell canonical.
pub open spec fn io_row_wf(r: InputOutputMemory) -> bool {
    &&& is_fe(r.clk)
    &&& is_fe(r.addr)
    &&& is_fe(r.size)
    &&& is_fe(r.value)
    &&& is_fe(r.ops.is_memory_store)
    &&& is_fe(r.ops.is_io_store)
    &&& is_fe(r.is_lv_and_nv_are_memory_rows)
}

impl InputOutputMemory {
    /// The filter column for I/O transaction headers.
    pub fn is_io(&self) -> (r: u64)
        ensures
            r == self.ops.is_io_store,
    {
        self.ops.is_io_store
    }

    /// The filter column for byte rows.
    pub fn is_memory(&self) -> (r: u64)
        ensures
            r == self.ops.is_memory_store,
    {
        self.ops.is_memory_store
    }

    /// Whether the row stands for anything at all: the sum of its
    /// one-hot operation flags.
    pub fn is_executed(&self) -> (r: u64)
        requires
            is_fe(self.ops.is_io_store),
            is_fe(self.ops.is_memory_store),
        ensures
            is_fe(r),
            r == fe_add_spec(self.ops.is_io_store as int, self.ops.is_memory_store as int),
    {
        fe_add(self.ops.is_io_store, self.ops.is_memory_store)
    }
}

/// The names of the I/O-Memory table's columns, for lookup
/// declarations.
#[derive(Clone, Copy, PartialEq, Eq, Structural, Debug)]
pub enum IoMemCol {
    Clk,
    Addr,
    Size,
    Value,
    IsMemoryStore,
    IsIoStore,
    IsLvAndNvAreMemoryRows,
}

/// Reads the named column out of a row.
pub fn io_col_value(row: &InputOutputMemory, col: IoMemCol) -> (r: u64)
    ensures
        r == io_col_spec(*row, col),
{
    match col {
        IoMemCol::Clk => row.clk,
        IoMemCol::Addr => row.addr,
        IoMemCol::Size => row.size,
        IoMemCol::Value => row.value,
        IoMemCol::IsMemoryStore => row.ops.is_memory_store,
        IoMemCol::IsIoStore => row.ops.is_io_store,
        IoMemCol::IsLvAndNvAreMemoryRows => row.is_lv_and_nv_are_memory_rows,
    }
}

/// The named column of a row, as a mathematical function.
pub open spec fn io_col_spec(row: InputOutputMemory, col: IoMemCol) -> u64 {
    match col {
        IoMemCol::Clk => row.clk,
        IoMemCol::Addr => row.addr,
        IoMemCol::Size => row.size,
        IoMemCol::Value => row.value,
        IoMemCol::IsMemoryStore => row.ops.is_memory_store,
        IoMemCol::IsIoStore => row.ops.is_io_store,
        IoMemCol::IsLvAndNvAreMemoryRows => row.is_lv_and_nv_are_memory_rows,
    }
}

/// The columns the CPU looks up when it retires an I/O transaction.
#[derive(Clone, Copy, PartialEq, Eq, Structural, Debug, Default)]
pub struct InputOutputMemoryCtl {
    pub clk: u64,
    pub addr: u64,
    pub size: u64,
    pub is_io_store: u64,
}

/// Columns of the data which the CPU looks up in an I/O-Memory table.
pub fn data_for_cpu() -> (r: Vec<ColumnX<IoMemCol>>)
    ensures
        r@.len() == 4,
        r@[0].terms@ =~= seq![(IoMemCol::Clk, 1u64)],
        r@[1].terms@ =~= seq![(IoMemCol::Addr, 1u64)],
        r@[2].terms@ =~= seq![(IoMemCol::Size, 1u64)],
        r@[3].terms@ =~= seq![(IoMemCol::IsIoStore, 1u64)],
        forall|i: int| 0 <= i < 4 ==> (#[trigger] r@[i]).constant == 0u64,
{
    let mut out: Vec<ColumnX<IoMemCol>> = Vec::new();
    out.push(ColumnX::single(IoMemCol::Clk));
    out.push(ColumnX::single(IoMemCol::Addr));
    out.push(ColumnX::single(IoMemCol::Size));
    out.push(ColumnX::single(IoMemCol::IsIoStore));
    out
}

/// The binary filter for the CPU-side lookup: transaction headers.
pub fn filter_for_cpu() -> (r: ColumnX<IoMemCol>)
    ensures
        r.terms@ =~= seq![(IoMemCol::IsIoStore, 1u64)],
        r.constant == 0u64,
{
    ColumnX::single(IoMemCol::IsIoStore)
}

/// The columns an I/O-Memory table projects into the Memory table:
/// each byte row is a store of its value at its address.
pub fn data_for_memory() -> (r: MemoryCtl<ColumnX<IoMemCol>>)
    ensures
        r.clk.terms@ =~= seq![(IoMemCol::Clk, 1u64)],
        r.is_store.terms@ =~= seq![(IoMemCol::IsMemoryStore, 1u64)],
        r.is_load.terms@ =~= Seq::<(IoMemCol, u64)>::empty(),
        r.is_load.constant == 0u64,
        r.value.terms@ =~= seq![(IoMemCol::Value, 1u64)],
        r.addr.terms@ =~= seq![(IoMemCol::Addr, 1u64)],
{
    MemoryCtl {
        clk: ColumnX::single(IoMemCol::Clk),
        is_store: ColumnX::single(IoMemCol::IsMemoryStore),
        is_load: ColumnX::constant(0),
        value: ColumnX::single(IoMemCol::Value),
        addr: ColumnX::single(IoMemCol::Addr),
    }
}

/// The binary filter for the Memory-side lookup: byte rows.
pub fn filter_for_memory() -> (r: ColumnX<IoMemCol>)
    ensures
        r.terms@ =~= seq![(IoMemCol::IsMemoryStore, 1u64)],
        r.constant == 0u64,
{
    ColumnX::single(IoMemCol::IsMemoryStore)
}

} // verus!
