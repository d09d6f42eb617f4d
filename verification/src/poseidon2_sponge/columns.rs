//! Columns of the sponge table: one row per permutation invocation,
//! with its preimage, output and addressing, linked to the CPU,
//! permutation and Memory tables by cross-table lookups.

use vstd::prelude::*;
use crate::cross_table_lookup::{ColumnX, TableKind, TableNamed};
use crate::field::{fe_add, fe_add_spec, is_fe};
use crate::memory::columns::MemoryCtl;
use crate::poseidon2::columns::Poseidon2StateCtl;

verus! {

/// Operations of a sponge row (one-hot encoded).
#[derive(Clone, Copy, PartialEq, Eq, Structural, Debug, Default)]
pub struct Ops {
    /// The row starts a new sponge.
    pub is_init_permute: u64,
    /// The row continues a running sponge.
    pub is_permute: u64,
}

/// One row of the sponge table.
#[derive(Clone, Copy, Debug)]
pub struct Poseidon2Sponge {
    pub clk: u64,
    pub ops: Ops,
    pub input_addr: u64,
    pub output_addr: u64,
    pub input_len: u64,
    pub preimage: [u64; 12],
    pub output: [u64; 12],
    pub gen_output: u64,
}

/// Well-formedness of a sponge row: every cell canonical.
pub open spec fn sponge_row_wf(r: Poseidon2Sponge) -> bool {
    &&& is_fe(r.clk)
    &&& is_fe(r.ops.is_init_permute)
    &&& is_fe(r.ops.is_permute)
    &&& is_fe(r.input_addr)
    &&& is_fe(r.output_addr)
    &&& is_fe(r.input_len)
    &&& forall|i: int| 0 <= i < 12 ==> is_fe(#[trigger] r.preimage@[i])
    &&& forall|i: int| 0 <= i < 12 ==> is_fe(#[trigger] r.output@[i])
    &&& is_fe(r.gen_output)
}

impl Poseidon2Sponge {
    /// Whether the row stands for a real permutation invocation: the
    /// sum of its one-hot operation flags.
    pub fn is_executed(&self) -> (r: u64)
        requires
            is_fe(self.ops.is_init_permute),
            is_fe(self.ops.is_permute),
        ensures
            is_fe(r),
            r == fe_add_spec(self.ops.is_init_permute as int, self.ops.is_permute as int),
    {
        fe_add(self.ops.is_init_permute, self.ops.is_permute)
    }
}

/// The names of the sponge table's columns, for lookup declarations.
#[derive(Clone, Copy, PartialEq, Eq, Structural, Debug)]
pub enum SpongeCol {
    Clk,
    IsInitPermute,
    IsPermute,
    InputAddr,
    OutputAddr,
    InputLen,
    Preimage(usize),
    Output(usize),
    GenOutput,
}

/// The columns the CPU looks up when it retires a sponge call.
#[derive(Clone, Debug)]
pub struct Poseidon2SpongeCtl<T> {
    pub clk: T,
    pub input_addr: T,
    pub input_len: T,
}

/// The columns an output-bytes table looks up.
#[derive(Clone, Debug)]
pub struct Poseidon2OutputBytesCtl<T> {
    pub clk: T,
    pub output_addr: T,
    pub output_fields: [T; 4],
}

/// The declaration by which the CPU looks sponge calls up: clock,
/// input address and length, filtered to rows that start a sponge.
pub fn lookup_for_cpu() -> (r: TableNamed<Poseidon2SpongeCtl<ColumnX<SpongeCol>>, SpongeCol>)
    ensures
        r.kind == TableKind::Poseidon2Sponge,
        r.columns.clk.terms@ =~= seq![(SpongeCol::Clk, 1u64)],
        r.columns.input_addr.terms@ =~= seq![(SpongeCol::InputAddr, 1u64)],
        r.columns.input_len.terms@ =~= seq![(SpongeCol::InputLen, 1u64)],
        r.filter_column.terms@ =~= seq![(SpongeCol::IsInitPermute, 1u64)],
        r.filter_column.constant == 0u64,
{
    TableNamed {
        kind: TableKind::Poseidon2Sponge,
        columns: Poseidon2SpongeCtl {
            clk: ColumnX::single(SpongeCol::Clk),
            input_addr: ColumnX::single(SpongeCol::InputAddr),
            input_len: ColumnX::single(SpongeCol::InputLen),
        },
        filter_column: ColumnX::single(SpongeCol::IsInitPermute),
    }
}

/// The declaration by which the sponge looks each invocation up in
/// the permutation table: the full input and output state, filtered
/// to executed rows (the sum of the one-hot operation flags).
pub fn lookup_for_poseidon2() -> (r: TableNamed<Poseidon2StateCtl<ColumnX<SpongeCol>>, SpongeCol>)
    ensures
        r.kind == TableKind::Poseidon2Sponge,
        forall|i: int|
            0 <= i < 12 ==> (#[trigger] r.columns.input@[i]).terms@ =~= seq![
                (SpongeCol::Preimage(i as usize), 1u64),
            ],
        forall|i: int|
            0 <= i < 12 ==> (#[trigger] r.columns.output@[i]).terms@ =~= seq![
                (SpongeCol::Output(i as usize), 1u64),
            ],
        r.filter_column.terms@ =~= seq![(SpongeCol::IsInitPermute, 1u64), (SpongeCol::IsPermute, 1u64)],
        r.filter_column.constant == 0u64,
{
    let mut filter_cols: Vec<SpongeCol> = Vec::new();
    filter_cols.push(SpongeCol::IsInitPermute);
    filter_cols.push(SpongeCol::IsPermute);
    let filter = ColumnX::many(&filter_cols);
    proof {
        assert(filter.terms@ =~= seq![
            (SpongeCol::IsInitPermute, 1u64),
            (SpongeCol::IsPermute, 1u64),
        ]);
    }
    let input = state_columns(true);
    let output = state_columns(false);
    TableNamed {
        kind: TableKind::Poseidon2Sponge,
        columns: Poseidon2StateCtl { input, output },
        filter_column: filter,
    }
}

/// Builds the twelve state columns, over the preimage or the output.
fn state_columns(preimage: bool) -> (r: [ColumnX<SpongeCol>; 12])
    ensures
        preimage ==> forall|i: int|
            0 <= i < 12 ==> (#[trigger] r@[i]).terms@ =~= seq![
                (SpongeCol::Preimage(i as usize), 1u64),
            ],
        !preimage ==> forall|i: int|
            0 <= i < 12 ==> (#[trigger] r@[i]).terms@ =~= seq![
                (SpongeCol::Output(i as usize), 1u64),
            ],
{
    if preimage {
        [
            ColumnX::single(SpongeCol::Preimage(0)),
            ColumnX::single(SpongeCol::Preimage(1)),
            ColumnX::single(SpongeCol::Preimage(2)),
            ColumnX::single(SpongeCol::Preimage(3)),
            ColumnX::single(SpongeCol::Preimage(4)),
            ColumnX::single(SpongeCol::Preimage(5)),
            ColumnX::single(SpongeCol::Preimage(6)),
            ColumnX::single(SpongeCol::Preimage(7)),
            ColumnX::single(SpongeCol::Preimage(8)),
            ColumnX::single(SpongeCol::Preimage(9)),
            ColumnX::single(SpongeCol::Preimage(10)),
            ColumnX::single(SpongeCol::Preimage(11)),
        ]
    } else {
        [
            ColumnX::single(SpongeCol::Output(0)),
            ColumnX::single(SpongeCol::Output(1)),
            ColumnX::single(SpongeCol::Output(2)),
            ColumnX::single(SpongeCol::Output(3)),
            ColumnX::single(SpongeCol::Output(4)),
            ColumnX::single(SpongeCol::Output(5)),
            ColumnX::single(SpongeCol::Output(6)),
            ColumnX::single(SpongeCol::Output(7)),
            ColumnX::single(SpongeCol::Output(8)),
            ColumnX::single(SpongeCol::Output(9)),
            ColumnX::single(SpongeCol::Output(10)),
            ColumnX::single(SpongeCol::Output(11)),
        ]
    }
}

/// The declaration by which the sponge looks one byte lane of its
/// preimage up in the Memory table: a load of preimage element
/// `limb_index` at `input_addr + limb_index`, on every executed row.
pub fn lookup_for_input_memory(limb_index: u8) -> (r: TableNamed<
    MemoryCtl<ColumnX<SpongeCol>>,
    SpongeCol,
>)
    requires
        limb_index < 8,
    ensures
        r.kind == TableKind::Poseidon2Sponge,
        r.columns.clk.terms@ =~= seq![(SpongeCol::Clk, 1u64)],
        r.columns.is_store.terms@ =~= Seq::<(SpongeCol, u64)>::empty(),
        r.columns.is_store.constant == 0u64,
        r.columns.is_load.terms@ =~= Seq::<(SpongeCol, u64)>::empty(),
        r.columns.is_load.constant == 1u64,
        r.columns.value.terms@ =~= seq![(SpongeCol::Preimage(limb_index as usize), 1u64)],
        r.columns.addr.terms@ =~= seq![(SpongeCol::InputAddr, 1u64)],
        r.columns.addr.constant == limb_index as u64,
        r.filter_column.terms@ =~= seq![(SpongeCol::IsInitPermute, 1u64), (SpongeCol::IsPermute, 1u64)],
        r.filter_column.constant == 0u64,
{
    let mut filter_cols: Vec<SpongeCol> = Vec::new();
    filter_cols.push(SpongeCol::IsInitPermute);
    filter_cols.push(SpongeCol::IsPermute);
    let filter = ColumnX::many(&filter_cols);
    proof {
        assert(filter.terms@ =~= seq![
            (SpongeCol::IsInitPermute, 1u64),
            (SpongeCol::IsPermute, 1u64),
        ]);
    }
    TableNamed {
        kind: TableKind::Poseidon2Sponge,
        columns: data_for_input_memory(limb_index),
        filter_column: filter,
    }
}

/// The projected columns of `lookup_for_input_memory`, on their own.
pub fn data_for_input_memory(limb_index: u8) -> (r: MemoryCtl<ColumnX<SpongeCol>>)
    requires
        limb_index < 8,
    ensures
        r.clk.terms@ =~= seq![(SpongeCol::Clk, 1u64)],
        r.is_store.terms@ =~= Seq::<(SpongeCol, u64)>::empty(),
        r.is_store.constant == 0u64,
        r.is_load.terms@ =~= Seq::<(SpongeCol, u64)>::empty(),
        r.is_load.constant == 1u64,
        r.value.terms@ =~= seq![(SpongeCol::Preimage(limb_index as usize), 1u64)],
        r.addr.terms@ =~= seq![(SpongeCol::InputAddr, 1u64)],
        r.addr.constant == limb_index as u64,
{
    MemoryCtl {
        clk: ColumnX::single(SpongeCol::Clk),
        is_store: ColumnX::constant(0),
        is_load: ColumnX::constant(1),
        value: ColumnX::single(SpongeCol::Preimage(limb_index as usize)),
        addr: ColumnX::single_plus(SpongeCol::InputAddr, limb_index as u64),
    }
}

/// The filter of `lookup_for_input_memory`, on its own: every
/// executed sponge row.
pub fn filter_for_input_memory() -> (r: ColumnX<SpongeCol>)
    ensures
        r.terms@ =~= seq![(SpongeCol::IsInitPermute, 1u64), (SpongeCol::IsPermute, 1u64)],
        r.constant == 0u64,
{
    let mut filter_cols: Vec<SpongeCol> = Vec::new();
    filter_cols.push(SpongeCol::IsInitPermute);
    filter_cols.push(SpongeCol::IsPermute);
    let filter = ColumnX::many(&filter_cols);
    proof {
        assert(filter.terms@ =~= seq![
            (SpongeCol::IsInitPermute, 1u64),
            (SpongeCol::IsPermute, 1u64),
        ]);
    }
    filter
}

} // verus!
