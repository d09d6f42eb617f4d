//! Constraints of the JALR gadget: the destination receives the
//! return address `pc + 4` and the next program counter becomes
//! `op1 + imm`, each modulo one word wrap, stated as a disjunction
//! because the field is wider than a machine word.

use vstd::prelude::*;
use crate::cpu::columns::{CpuColumnsView, WORD_WRAP};
use crate::field::{fe_add, fe_add_spec, fe_mul, fe_mul_spec, fe_sub, fe_sub_spec};

verus! {

/// The JALR return-address constraint term, which must be zero on
/// every row: gated by the JALR selector, the destination equals
/// `pc + 4`, possibly less one word wrap.
pub open spec fn jalr_return_term(lv: CpuColumnsView) -> int {
    let ra = fe_add_spec(lv.inst.pc as int, 4);
    fe_mul_spec(
        lv.inst.ops.jalr as int,
        fe_mul_spec(
            fe_sub_spec(lv.dst_value as int, ra),
            fe_sub_spec(lv.dst_value as int, fe_sub_spec(ra, WORD_WRAP as int)),
        ),
    )
}

/// The JALR jump-target constraint term, which must be zero between
/// a row and its successor: gated by the JALR selector, the next
/// program counter equals `imm + op1`, possibly less one word wrap.
pub open spec fn jalr_target_term(lv: CpuColumnsView, nv: CpuColumnsView) -> int {
    let target = fe_add_spec(lv.inst.imm_value as int, lv.op1_value as int);
    fe_mul_spec(
        lv.inst.ops.jalr as int,
        fe_mul_spec(
            fe_sub_spec(nv.inst.pc as int, target),
            fe_sub_spec(nv.inst.pc as int, fe_sub_spec(target, WORD_WRAP as int)),
        ),
    )
}

/// Whether the JALR gadget holds between a row and its successor.
pub open spec fn jalr_constraints_ok(lv: CpuColumnsView, nv: CpuColumnsView) -> bool {
    jalr_return_term(lv) == 0 && jalr_target_term(lv, nv) == 0
}

/// Evaluates the JALR gadget's constraints between a row and its
/// successor.
pub fn constraints(lv: &CpuColumnsView, nv: &CpuColumnsView) -> (r: bool)
    requires
        crate::cpu::columns::cpu_row_wf(*lv),
        crate::cpu::columns::cpu_row_wf(*nv),
    ensures
        r == jalr_constraints_ok(*lv, *nv),
{
    let ra = fe_add(lv.inst.pc, 4);
    let c1 = fe_mul(
        lv.inst.ops.jalr,
        fe_mul(fe_sub(lv.dst_value, ra), fe_sub(lv.dst_value, fe_sub(ra, WORD_WRAP))),
    );
    let target = fe_add(lv.inst.imm_value, lv.op1_value);
    let c2 = fe_mul(
        lv.inst.ops.jalr,
        fe_mul(
            fe_sub(nv.inst.pc, target),
            fe_sub(nv.inst.pc, fe_sub(target, WORD_WRAP)),
        ),
    );
    c1 == 0 && c2 == 0
}

} // verus!
