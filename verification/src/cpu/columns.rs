//! Columns of the CPU table: one row per retired instruction, with
//! the decoded instruction, the register file, and the helper columns
//! of the comparison, bitwise, shift, divide and multiply gadgets.

use vstd::prelude::*;
use crate::bitshift::columns::Bitshift;
use crate::cross_table_lookup::ColumnX;
use crate::field::{all_fe, fe_sum, fe_add_spec, fe_mul_spec, fe_sub_spec, is_fe, fe_sum_vec};
use crate::xor::columns::{xor_view_wf, XorView};

verus! {

/// One word wrap of the 32-bit machine: 2^32, as a field element.
pub const WORD_WRAP: u64 = 0x1_0000_0000;

/// The one-hot instruction-class selectors of a CPU row.
#[derive(Clone, Copy, PartialEq, Eq, Structural, Debug, Default)]
pub struct OpSelectorView {
    pub add: u64,
    pub sub: u64,
    pub xor: u64,
    pub or: u64,
    pub and: u64,
    pub divu: u64,
    pub remu: u64,
    pub mul: u64,
    pub mulhu: u64,
    pub sll: u64,
    pub slt: u64,
    pub sltu: u64,
    pub srl: u64,
    pub jalr: u64,
    pub beq: u64,
    pub bne: u64,
    pub blt: u64,
    pub bltu: u64,
    pub bge: u64,
    pub bgeu: u64,
    pub ecall: u64,
}

/// The selectors as one column, in declaration order.
pub open spec fn ops_seq(o: OpSelectorView) -> Seq<u64> {
    seq![
        o.add, o.sub, o.xor, o.or, o.and, o.divu, o.remu, o.mul, o.mulhu, o.sll, o.slt,
        o.sltu, o.srl, o.jalr, o.beq, o.bne, o.blt, o.bltu, o.bge, o.bgeu, o.ecall,
    ]
}

/// Well-formedness of the selectors: every flag canonical.
pub open spec fn ops_wf(o: OpSelectorView) -> bool {
    all_fe(ops_seq(o))
}

/// The selector classes whose result goes through the Xor table.
pub open spec fn xor_ops_seq(o: OpSelectorView) -> Seq<u64> {
    seq![o.xor, o.or, o.and, o.srl, o.sll]
}

/// The selector classes that shift.
pub open spec fn shift_ops_seq(o: OpSelectorView) -> Seq<u64> {
    seq![o.sll, o.srl]
}

/// The selector classes whose next program counter is the bumped one.
pub open spec fn straightline_ops_seq(o: OpSelectorView) -> Seq<u64> {
    seq![
        o.add, o.sub, o.and, o.or, o.xor, o.divu, o.mul, o.mulhu, o.remu, o.sll, o.slt,
        o.sltu, o.srl,
    ]
}

impl OpSelectorView {
    /// The selectors of the instruction classes that are implemented
    /// through the Xor table.
    pub fn ops_that_use_xor(&self) -> (r: [u64; 5])
        ensures
            r@ =~= xor_ops_seq(*self),
    {
        [self.xor, self.or, self.and, self.srl, self.sll]
    }

    /// The selectors of the instruction classes that shift.
    pub fn ops_that_shift(&self) -> (r: [u64; 2])
        ensures
            r@ =~= shift_ops_seq(*self),
    {
        [self.sll, self.srl]
    }

    /// The sum of the selectors of all straight-line instruction
    /// classes: those whose next program counter is `pc + 4`.
    pub fn is_straightline(&self) -> (r: u64)
        requires
            ops_wf(*self),
        ensures
            is_fe(r),
            r == fe_sum(straightline_ops_seq(*self)),
    {
        let mut v: Vec<u64> = Vec::new();
        v.push(self.add);
        v.push(self.sub);
        v.push(self.and);
        v.push(self.or);
        v.push(self.xor);
        v.push(self.divu);
        v.push(self.mul);
        v.push(self.mulhu);
        v.push(self.remu);
        v.push(self.sll);
        v.push(self.slt);
        v.push(self.sltu);
        v.push(self.srl);
        proof {
            assert(v@ =~= straightline_ops_seq(*self));
            assert(all_fe(v@)) by {
                assert(ops_seq(*self)[0] == self.add && ops_seq(*self)[1] == self.sub
                    && ops_seq(*self)[2] == self.xor && ops_seq(*self)[3] == self.or
                    && ops_seq(*self)[4] == self.and && ops_seq(*self)[5] == self.divu
                    && ops_seq(*self)[6] == self.remu && ops_seq(*self)[7] == self.mul
                    && ops_seq(*self)[8] == self.mulhu && ops_seq(*self)[9] == self.sll
                    && ops_seq(*self)[10] == self.slt && ops_seq(*self)[11] == self.sltu
                    && ops_seq(*self)[12] == self.srl);
            }
        }
        fe_sum_vec(&v)
    }
}

/// The decoded-instruction columns of a CPU row.
#[derive(Clone, Copy, Debug)]
pub struct InstructionView {
    /// The program counter, used for the program cross-table lookup.
    pub pc: u64,
    pub ops: OpSelectorView,
    pub rs1_select: [u64; 32],
    pub rs2_select: [u64; 32],
    pub rd_select: [u64; 32],
    pub imm_value: u64,
    pub branch_target: u64,
}

/// Well-formedness of the instruction columns: every cell canonical.
pub open spec fn inst_wf(v: InstructionView) -> bool {
    &&& is_fe(v.pc)
    &&& ops_wf(v.ops)
    &&& all_fe(v.rs1_select@)
    &&& all_fe(v.rs2_select@)
    &&& all_fe(v.rd_select@)
    &&& is_fe(v.imm_value)
    &&& is_fe(v.branch_target)
}

/// One row of the CPU table.
#[derive(Clone, Copy, Debug)]
pub struct CpuColumnsView {
    pub clk: u64,
    pub inst: InstructionView,
    pub halt: u64,
    pub op1_value: u64,
    pub op2_value: u64,
    pub dst_value: u64,
    pub regs: [u64; 32],
    pub op1_sign: u64,
    pub op2_sign: u64,
    pub op1_val_fixed: u64,
    pub op2_val_fixed: u64,
    pub cmp_abs_diff: u64,
    pub cmp_diff_inv: u64,
    pub less_than: u64,
    pub normalised_diff: u64,
    pub xor: XorView,
    pub bitshift: Bitshift,
    pub quotient: u64,
    pub remainder: u64,
    pub remainder_slack: u64,
    pub divisor_inv: u64,
    pub divisor: u64,
    pub multiplier: u64,
    pub product_low_bits: u64,
    pub product_high_bits: u64,
    pub product_high_diff_inv: u64,
}

/// Well-formedness of a CPU row: every cell canonical.
pub open spec fn cpu_row_wf(r: CpuColumnsView) -> bool {
    &&& is_fe(r.clk)
    &&& inst_wf(r.inst)
    &&& is_fe(r.halt)
    &&& is_fe(r.op1_value)
    &&& is_fe(r.op2_value)
    &&& is_fe(r.dst_value)
    &&& all_fe(r.regs@)
    &&& is_fe(r.op1_sign)
    &&& is_fe(r.op2_sign)
    &&& is_fe(r.op1_val_fixed)
    &&& is_fe(r.op2_val_fixed)
    &&& is_fe(r.cmp_abs_diff)
    &&& is_fe(r.cmp_diff_inv)
    &&& is_fe(r.less_than)
    &&& is_fe(r.normalised_diff)
    &&& xor_view_wf(r.xor)
    &&& is_fe(r.bitshift.amount)
    &&& is_fe(r.bitshift.multiplier)
    &&& is_fe(r.quotient)
    &&& is_fe(r.remainder)
    &&& is_fe(r.remainder_slack)
    &&& is_fe(r.divisor_inv)
    &&& is_fe(r.divisor)
    &&& is_fe(r.multiplier)
    &&& is_fe(r.product_low_bits)
    &&& is_fe(r.product_high_bits)
    &&& is_fe(r.product_high_diff_inv)
}

/// The signed difference the comparison gadget works on: the fixed
/// first operand minus the fixed second operand.
pub open spec fn signed_diff_spec(r: CpuColumnsView) -> int {
    fe_sub_spec(r.op1_val_fixed as int, r.op2_val_fixed as int)
}

/// The CPU columns that lookup declarations may project.
#[derive(Clone, Copy, PartialEq, Eq, Structural, Debug)]
pub enum CpuCol {
    DstValue,
    OpAdd,
    XorA,
    XorB,
    XorOut,
    OpXor,
    OpOr,
    OpAnd,
    OpSrl,
    OpSll,
    BitshiftAmount,
    BitshiftMultiplier,
}

/// Reads the named lookup-facing column out of a row.
pub fn cpu_col_value(row: &CpuColumnsView, col: CpuCol) -> (r: u64)
    ensures
        r == cpu_col_spec(*row, col),
{
    match col {
        CpuCol::DstValue => row.dst_value,
        CpuCol::OpAdd => row.inst.ops.add,
        CpuCol::XorA => row.xor.a,
        CpuCol::XorB => row.xor.b,
        CpuCol::XorOut => row.xor.out,
        CpuCol::OpXor => row.inst.ops.xor,
        CpuCol::OpOr => row.inst.ops.or,
        CpuCol::OpAnd => row.inst.ops.and,
        CpuCol::OpSrl => row.inst.ops.srl,
        CpuCol::OpSll => row.inst.ops.sll,
        CpuCol::BitshiftAmount => row.bitshift.amount,
        CpuCol::BitshiftMultiplier => row.bitshift.multiplier,
    }
}

/// The named lookup-facing column of a row, as a mathematical
/// function.
pub open spec fn cpu_col_spec(row: CpuColumnsView, col: CpuCol) -> u64 {
    match col {
        CpuCol::DstValue => row.dst_value,
        CpuCol::OpAdd => row.inst.ops.add,
        CpuCol::XorA => row.xor.a,
        CpuCol::XorB => row.xor.b,
        CpuCol::XorOut => row.xor.out,
        CpuCol::OpXor => row.inst.ops.xor,
        CpuCol::OpOr => row.inst.ops.or,
        CpuCol::OpAnd => row.inst.ops.and,
        CpuCol::OpSrl => row.inst.ops.srl,
        CpuCol::OpSll => row.inst.ops.sll,
        CpuCol::BitshiftAmount => row.bitshift.amount,
        CpuCol::BitshiftMultiplier => row.bitshift.multiplier,
    }
}

/// The binary filter for the range-check lookup on the CPU side.
pub fn filter_for_rangecheck() -> (r: ColumnX<CpuCol>)
    ensures
        r.terms@ =~= seq![(CpuCol::OpAdd, 1u64)],
        r.constant == 0u64,
{
    ColumnX::single(CpuCol::OpAdd)
}

/// The column holding the data to be range checked on the CPU side.
pub fn data_for_rangecheck() -> (r: Vec<ColumnX<CpuCol>>)
    ensures
        r@.len() == 1,
        r@[0].terms@ =~= seq![(CpuCol::DstValue, 1u64)],
        r@[0].constant == 0u64,
{
    let mut out: Vec<ColumnX<CpuCol>> = Vec::new();
    out.push(ColumnX::single(CpuCol::DstValue));
    out
}

/// The columns matched against the Xor table.
pub fn data_for_bitwise() -> (r: Vec<ColumnX<CpuCol>>)
    ensures
        r@.len() == 3,
        r@[0].terms@ =~= seq![(CpuCol::XorA, 1u64)],
        r@[1].terms@ =~= seq![(CpuCol::XorB, 1u64)],
        r@[2].terms@ =~= seq![(CpuCol::XorOut, 1u64)],
        forall|i: int| 0 <= i < 3 ==> (#[trigger] r@[i]).constant == 0u64,
{
    let mut out: Vec<ColumnX<CpuCol>> = Vec::new();
    out.push(ColumnX::single(CpuCol::XorA));
    out.push(ColumnX::single(CpuCol::XorB));
    out.push(ColumnX::single(CpuCol::XorOut));
    out
}

/// The binary filter for the Xor-table lookup: the sum of the
/// selectors of all classes that go through that table.
pub fn filter_for_bitwise() -> (r: ColumnX<CpuCol>)
    ensures
        r.terms@ =~= seq![
            (CpuCol::OpXor, 1u64), (CpuCol::OpOr, 1u64), (CpuCol::OpAnd, 1u64),
            (CpuCol::OpSrl, 1u64), (CpuCol::OpSll, 1u64),
        ],
        r.constant == 0u64,
{
    let mut cols: Vec<CpuCol> = Vec::new();
    cols.push(CpuCol::OpXor);
    cols.push(CpuCol::OpOr);
    cols.push(CpuCol::OpAnd);
    cols.push(CpuCol::OpSrl);
    cols.push(CpuCol::OpSll);
    let r = ColumnX::many(&cols);
    proof {
        assert(r.terms@ =~= seq![
            (CpuCol::OpXor, 1u64), (CpuCol::OpOr, 1u64), (CpuCol::OpAnd, 1u64),
            (CpuCol::OpSrl, 1u64), (CpuCol::OpSll, 1u64),
        ]);
    }
    r
}

/// The columns matched against the Shift-Amount table.
pub fn data_for_shift_amount() -> (r: Vec<ColumnX<CpuCol>>)
    ensures
        r@.len() == 2,
        r@[0].terms@ =~= seq![(CpuCol::BitshiftAmount, 1u64)],
        r@[1].terms@ =~= seq![(CpuCol::BitshiftMultiplier, 1u64)],
        forall|i: int| 0 <= i < 2 ==> (#[trigger] r@[i]).constant == 0u64,
{
    let mut out: Vec<ColumnX<CpuCol>> = Vec::new();
    out.push(ColumnX::single(CpuCol::BitshiftAmount));
    out.push(ColumnX::single(CpuCol::BitshiftMultiplier));
    out
}

/// The binary filter for the Shift-Amount lookup: the sum of the
/// selectors of the shifting classes.
pub fn filter_for_shift_amount() -> (r: ColumnX<CpuCol>)
    ensures
        r.terms@ =~= seq![(CpuCol::OpSll, 1u64), (CpuCol::OpSrl, 1u64)],
        r.constant == 0u64,
{
    let mut cols: Vec<CpuCol> = Vec::new();
    cols.push(CpuCol::OpSll);
    cols.push(CpuCol::OpSrl);
    let r = ColumnX::many(&cols);
    proof {
        assert(r.terms@ =~= seq![(CpuCol::OpSll, 1u64), (CpuCol::OpSrl, 1u64)]);
    }
    r
}

} // verus!
