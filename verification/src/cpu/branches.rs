//! Constraints of the comparison gadget and of the conditional
//! branches built on it.
//!
//! The gadget produces `less_than` (whether the first operand is
//! below the second) and `normalised_diff` (zero exactly when the
//! operands are equal), from the signed difference, its absolute
//! value, and a stored candidate inverse of the difference.

use vstd::prelude::*;
use crate::cpu::columns::{signed_diff_spec, CpuColumnsView};
use crate::field::{
    fe_add, fe_add_spec, fe_mul, fe_mul_spec, fe_sub, fe_sub_spec, FIELD_ORDER,
};

verus! {

/// The comparison gadget's constraint terms, all of which must be
/// zero on every row:
/// - `less_than` and `normalised_diff` are boolean;
/// - unless `less_than` is set, the absolute difference equals the
///   signed difference, and if it is set, their sum vanishes;
/// - the signed difference times the stored candidate inverse equals
///   `normalised_diff`, and the difference vanishes unless
///   `normalised_diff` is set;
/// - at most one of `less_than` and the complement of
///   `normalised_diff` is set.
pub open spec fn comparison_constraints_ok(lv: CpuColumnsView) -> bool {
    let lt = lv.less_than as int;
    let nd = lv.normalised_diff as int;
    let sd = signed_diff_spec(lv);
    &&& fe_mul_spec(lt, fe_sub_spec(1, lt)) == 0
    &&& fe_mul_spec(fe_sub_spec(1, lt), fe_sub_spec(lv.cmp_abs_diff as int, sd)) == 0
    &&& fe_mul_spec(lt, fe_add_spec(lv.cmp_abs_diff as int, sd)) == 0
    &&& fe_mul_spec(nd, fe_sub_spec(1, nd)) == 0
    &&& fe_mul_spec(sd, fe_sub_spec(1, nd)) == 0
    &&& fe_sub_spec(fe_mul_spec(sd, lv.cmp_diff_inv as int), nd) == 0
    &&& fe_mul_spec(lt, fe_sub_spec(1, nd)) == 0
}

/// Evaluates the comparison gadget's constraints on a row.
pub fn comparison_constraints(lv: &CpuColumnsView) -> (r: bool)
    requires
        crate::cpu::columns::cpu_row_wf(*lv),
    ensures
        r == comparison_constraints_ok(*lv),
{
    let lt = lv.less_than;
    let nd = lv.normalised_diff;
    let sd = fe_sub(lv.op1_val_fixed, lv.op2_val_fixed);
    let one: u64 = 1;
    let c1 = fe_mul(lt, fe_sub(one, lt));
    let c2 = fe_mul(fe_sub(one, lt), fe_sub(lv.cmp_abs_diff, sd));
    let c3 = fe_mul(lt, fe_add(lv.cmp_abs_diff, sd));
    let c4 = fe_mul(nd, fe_sub(one, nd));
    let c5 = fe_mul(sd, fe_sub(one, nd));
    let c6 = fe_sub(fe_mul(sd, lv.cmp_diff_inv), nd);
    let c7 = fe_mul(lt, fe_sub(one, nd));
    c1 == 0 && c2 == 0 && c3 == 0 && c4 == 0 && c5 == 0 && c6 == 0 && c7 == 0
}

/// The branch constraints between a row and its successor: for each
/// branch kind, if its condition holds the next program counter is
/// the branch target (the immediate), else the bumped counter
/// `pc + 4`. BLT and BLTU branch on `less_than`, BGE and BGEU on its
/// complement, BEQ on the complement of `normalised_diff`, BNE on
/// `normalised_diff` itself.
pub open spec fn branch_constraints_ok(lv: CpuColumnsView, nv: CpuColumnsView) -> bool {
    let lt = lv.less_than as int;
    let nd = lv.normalised_diff as int;
    let bumped = fe_add_spec(lv.inst.pc as int, 4);
    let branched = lv.inst.imm_value as int;
    let next_pc = nv.inst.pc as int;
    let is_blt = fe_add_spec(lv.inst.ops.blt as int, lv.inst.ops.bltu as int);
    let is_bge = fe_add_spec(lv.inst.ops.bge as int, lv.inst.ops.bgeu as int);
    &&& fe_mul_spec(is_blt, fe_mul_spec(lt, fe_sub_spec(next_pc, branched))) == 0
    &&& fe_mul_spec(is_blt, fe_mul_spec(fe_sub_spec(1, lt), fe_sub_spec(next_pc, bumped))) == 0
    &&& fe_mul_spec(is_bge, fe_mul_spec(lt, fe_sub_spec(next_pc, bumped))) == 0
    &&& fe_mul_spec(is_bge, fe_mul_spec(fe_sub_spec(1, lt), fe_sub_spec(next_pc, branched))) == 0
    &&& fe_mul_spec(
        lv.inst.ops.beq as int,
        fe_mul_spec(fe_sub_spec(1, nd), fe_sub_spec(next_pc, branched)),
    ) == 0
    &&& fe_mul_spec(lv.inst.ops.beq as int, fe_mul_spec(nd, fe_sub_spec(next_pc, bumped))) == 0
    &&& fe_mul_spec(lv.inst.ops.bne as int, fe_mul_spec(nd, fe_sub_spec(next_pc, branched))) == 0
    &&& fe_mul_spec(
        lv.inst.ops.bne as int,
        fe_mul_spec(fe_sub_spec(1, nd), fe_sub_spec(next_pc, bumped)),
    ) == 0
}

/// Evaluates the branch constraints between a row and its successor.
pub fn constraints(lv: &CpuColumnsView, nv: &CpuColumnsView) -> (r: bool)
    requires
        crate::cpu::columns::cpu_row_wf(*lv),
        crate::cpu::columns::cpu_row_wf(*nv),
    ensures
        r == branch_constraints_ok(*lv, *nv),
{
    let lt = lv.less_than;
    let nd = lv.normalised_diff;
    let one: u64 = 1;
    let bumped = fe_add(lv.inst.pc, 4);
    let branched = lv.inst.imm_value;
    let next_pc = nv.inst.pc;
    let is_blt = fe_add(lv.inst.ops.blt, lv.inst.ops.bltu);
    let is_bge = fe_add(lv.inst.ops.bge, lv.inst.ops.bgeu);
    let c1 = fe_mul(is_blt, fe_mul(lt, fe_sub(next_pc, branched)));
    let c2 = fe_mul(is_blt, fe_mul(fe_sub(one, lt), fe_sub(next_pc, bumped)));
    let c3 = fe_mul(is_bge, fe_mul(lt, fe_sub(next_pc, bumped)));
    let c4 = fe_mul(is_bge, fe_mul(fe_sub(one, lt), fe_sub(next_pc, branched)));
    let c5 = fe_mul(lv.inst.ops.beq, fe_mul(fe_sub(one, nd), fe_sub(next_pc, branched)));
    let c6 = fe_mul(lv.inst.ops.beq, fe_mul(nd, fe_sub(next_pc, bumped)));
    let c7 = fe_mul(lv.inst.ops.bne, fe_mul(nd, fe_sub(next_pc, branched)));
    let c8 = fe_mul(lv.inst.ops.bne, fe_mul(fe_sub(one, nd), fe_sub(next_pc, bumped)));
    c1 == 0 && c2 == 0 && c3 == 0 && c4 == 0 && c5 == 0 && c6 == 0 && c7 == 0 && c8 == 0
}

/// The law a taken BLT row obeys: when the BLT selector and
/// `less_than` are set and the branch constraints hold, the next
/// program counter is exactly the branch target.
pub proof fn lemma_blt_taken_sets_pc(lv: CpuColumnsView, nv: CpuColumnsView)
    requires
        crate::cpu::columns::cpu_row_wf(lv),
        crate::cpu::columns::cpu_row_wf(nv),
        branch_constraints_ok(lv, nv),
        lv.inst.ops.blt == 1,
        lv.inst.ops.bltu == 0,
        lv.less_than == 1,
    ensures
        nv.inst.pc == lv.inst.imm_value,
{
    let branched = lv.inst.imm_value as int;
    let next_pc = nv.inst.pc as int;
    let d = fe_sub_spec(next_pc, branched);
    assert(fe_add_spec(1, 0) == 1);
    assert(fe_mul_spec(1, fe_mul_spec(1, d)) == 0 ==> d == 0) by (nonlinear_arith)
        requires 0 <= d < FIELD_ORDER;
    assert(d == 0);
    assert((next_pc - branched) % (FIELD_ORDER as int) == 0);
    assert(next_pc == branched) by (nonlinear_arith)
        requires
            (next_pc - branched) % (FIELD_ORDER as int) == 0,
            0 <= next_pc < FIELD_ORDER,
            0 <= branched < FIELD_ORDER;
}

/// The law a not-taken BLT row obeys: when the BLT selector is set,
/// `less_than` is clear and the branch constraints hold, the next
/// program counter is the bumped one, `pc + 4`.
pub proof fn lemma_blt_not_taken_bumps_pc(lv: CpuColumnsView, nv: CpuColumnsView)
    requires
        crate::cpu::columns::cpu_row_wf(lv),
        crate::cpu::columns::cpu_row_wf(nv),
        branch_constraints_ok(lv, nv),
        lv.inst.ops.blt == 1,
        lv.inst.ops.bltu == 0,
        lv.less_than == 0,
    ensures
        nv.inst.pc as int == fe_add_spec(lv.inst.pc as int, 4),
{
    let bumped = fe_add_spec(lv.inst.pc as int, 4);
    let next_pc = nv.inst.pc as int;
    let d = fe_sub_spec(next_pc, bumped);
    assert(fe_add_spec(1, 0) == 1);
    assert(fe_sub_spec(1, 0) == 1);
    assert(fe_mul_spec(1, fe_mul_spec(1, d)) == 0 ==> d == 0) by (nonlinear_arith)
        requires -(FIELD_ORDER as int) < d < FIELD_ORDER;
    assert(d == 0);
    assert(next_pc == bumped) by (nonlinear_arith)
        requires
            (next_pc - bumped) % (FIELD_ORDER as int) == 0,
            0 <= next_pc < FIELD_ORDER,
            0 <= bumped < FIELD_ORDER;
}

/// The law a BGE row obeys: with the comparison bit boolean and the
/// branch constraints holding, the next program counter is the
/// branch target when the first operand is not below the second, and
/// the bumped counter when it is.
pub proof fn lemma_bge_sets_pc(lv: CpuColumnsView, nv: CpuColumnsView)
    requires
        crate::cpu::columns::cpu_row_wf(lv),
        crate::cpu::columns::cpu_row_wf(nv),
        branch_constraints_ok(lv, nv),
        lv.inst.ops.bge == 1,
        lv.inst.ops.bgeu == 0,
        lv.less_than == 0 || lv.less_than == 1,
    ensures
        lv.less_than == 0 ==> nv.inst.pc == lv.inst.imm_value,
        lv.less_than == 1 ==> nv.inst.pc as int == fe_add_spec(lv.inst.pc as int, 4),
{
    let branched = lv.inst.imm_value as int;
    let bumped = fe_add_spec(lv.inst.pc as int, 4);
    let next_pc = nv.inst.pc as int;
    assert(fe_add_spec(1, 0) == 1);
    assert(fe_sub_spec(1, 0) == 1);
    if lv.less_than == 0 {
        let d = fe_sub_spec(next_pc, branched);
        assert(fe_mul_spec(1, fe_mul_spec(1, d)) == 0 ==> d == 0) by (nonlinear_arith)
            requires -(FIELD_ORDER as int) < d < FIELD_ORDER;
        assert(d == 0);
        assert(next_pc == branched) by (nonlinear_arith)
            requires
                (next_pc - branched) % (FIELD_ORDER as int) == 0,
                0 <= next_pc < FIELD_ORDER,
                0 <= branched < FIELD_ORDER;
    } else {
        let d = fe_sub_spec(next_pc, bumped);
        assert(fe_mul_spec(1, fe_mul_spec(1, d)) == 0 ==> d == 0) by (nonlinear_arith)
            requires -(FIELD_ORDER as int) < d < FIELD_ORDER;
        assert(d == 0);
        assert(next_pc == bumped) by (nonlinear_arith)
            requires
                (next_pc - bumped) % (FIELD_ORDER as int) == 0,
                0 <= next_pc < FIELD_ORDER,
                0 <= bumped < FIELD_ORDER;
    }
}

/// The law a BEQ row obeys: with `normalised_diff` boolean and the
/// branch constraints holding, equal operands branch and unequal
/// ones bump.
pub proof fn lemma_beq_sets_pc(lv: CpuColumnsView, nv: CpuColumnsView)
    requires
        crate::cpu::columns::cpu_row_wf(lv),
        crate::cpu::columns::cpu_row_wf(nv),
        branch_constraints_ok(lv, nv),
        lv.inst.ops.beq == 1,
        lv.normalised_diff == 0 || lv.normalised_diff == 1,
    ensures
        lv.normalised_diff == 0 ==> nv.inst.pc == lv.inst.imm_value,
        lv.normalised_diff == 1 ==> nv.inst.pc as int == fe_add_spec(lv.inst.pc as int, 4),
{
    let branched = lv.inst.imm_value as int;
    let bumped = fe_add_spec(lv.inst.pc as int, 4);
    let next_pc = nv.inst.pc as int;
    assert(fe_sub_spec(1, 0) == 1);
    if lv.normalised_diff == 0 {
        let d = fe_sub_spec(next_pc, branched);
        assert(fe_mul_spec(1, fe_mul_spec(1, d)) == 0 ==> d == 0) by (nonlinear_arith)
            requires -(FIELD_ORDER as int) < d < FIELD_ORDER;
        assert(d == 0);
        assert(next_pc == branched) by (nonlinear_arith)
            requires
                (next_pc - branched) % (FIELD_ORDER as int) == 0,
                0 <= next_pc < FIELD_ORDER,
                0 <= branched < FIELD_ORDER;
    } else {
        let d = fe_sub_spec(next_pc, bumped);
        assert(fe_mul_spec(1, fe_mul_spec(1, d)) == 0 ==> d == 0) by (nonlinear_arith)
            requires -(FIELD_ORDER as int) < d < FIELD_ORDER;
        assert(d == 0);
        assert(next_pc == bumped) by (nonlinear_arith)
            requires
                (next_pc - bumped) % (FIELD_ORDER as int) == 0,
                0 <= next_pc < FIELD_ORDER,
                0 <= bumped < FIELD_ORDER;
    }
}

/// The law a BNE row obeys: with `normalised_diff` boolean and the
/// branch constraints holding, unequal operands branch and equal
/// ones bump.
pub proof fn lemma_bne_sets_pc(lv: CpuColumnsView, nv: CpuColumnsView)
    requires
        crate::cpu::columns::cpu_row_wf(lv),
        crate::cpu::columns::cpu_row_wf(nv),
        branch_constraints_ok(lv, nv),
        lv.inst.ops.bne == 1,
        lv.normalised_diff == 0 || lv.normalised_diff == 1,
    ensures
        lv.normalised_diff == 1 ==> nv.inst.pc == lv.inst.imm_value,
        lv.normalised_diff == 0 ==> nv.inst.pc as int == fe_add_spec(lv.inst.pc as int, 4),
{
    let branched = lv.inst.imm_value as int;
    let bumped = fe_add_spec(lv.inst.pc as int, 4);
    let next_pc = nv.inst.pc as int;
    assert(fe_sub_spec(1, 0) == 1);
    if lv.normalised_diff == 1 {
        let d = fe_sub_spec(next_pc, branched);
        assert(fe_mul_spec(1, fe_mul_spec(1, d)) == 0 ==> d == 0) by (nonlinear_arith)
            requires -(FIELD_ORDER as int) < d < FIELD_ORDER;
        assert(d == 0);
        assert(next_pc == branched) by (nonlinear_arith)
            requires
                (next_pc - branched) % (FIELD_ORDER as int) == 0,
                0 <= next_pc < FIELD_ORDER,
                0 <= branched < FIELD_ORDER;
    } else {
        let d = fe_sub_spec(next_pc, bumped);
        assert(fe_mul_spec(1, fe_mul_spec(1, d)) == 0 ==> d == 0) by (nonlinear_arith)
            requires -(FIELD_ORDER as int) < d < FIELD_ORDER;
        assert(d == 0);
        assert(next_pc == bumped) by (nonlinear_arith)
            requires
                (next_pc - bumped) % (FIELD_ORDER as int) == 0,
                0 <= next_pc < FIELD_ORDER,
                0 <= bumped < FIELD_ORDER;
    }
}

} // verus!
