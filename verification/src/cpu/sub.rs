//! Constraints of the SUB gadget: on rows whose SUB selector is set,
//! the destination equals the difference of the operands, or that
//! difference plus one word wrap.

use vstd::prelude::*;
use crate::cpu::columns::{CpuColumnsView, WORD_WRAP};
use crate::field::{fe_add, fe_add_spec, fe_mul, fe_mul_spec, fe_sub, fe_sub_spec};

verus! {

/// The SUB gadget's constraint term, which must be zero on every row.
pub open spec fn sub_constraint_term(lv: CpuColumnsView) -> int {
    fe_mul_spec(
        lv.inst.ops.sub as int,
        fe_mul_spec(
            fe_sub_spec(
                lv.dst_value as int,
                fe_sub_spec(lv.op1_value as int, lv.op2_value as int),
            ),
            fe_sub_spec(
                lv.dst_value as int,
                fe_add_spec(
                    fe_sub_spec(lv.op1_value as int, lv.op2_value as int),
                    WORD_WRAP as int,
                ),
            ),
        ),
    )
}

/// Whether the SUB gadget holds on a row.
pub open spec fn sub_constraints_ok(lv: CpuColumnsView) -> bool {
    sub_constraint_term(lv) == 0
}

/// Evaluates the SUB gadget's constraint on a row.
pub fn constraints(lv: &CpuColumnsView) -> (r: bool)
    requires
        crate::cpu::columns::cpu_row_wf(*lv),
    ensures
        r == sub_constraints_ok(*lv),
{
    let expected = fe_sub(lv.op1_value, lv.op2_value);
    let wrapped = fe_add(expected, WORD_WRAP);
    let term = fe_mul(
        lv.inst.ops.sub,
        fe_mul(fe_sub(lv.dst_value, expected), fe_sub(lv.dst_value, wrapped)),
    );
    term == 0
}

} // verus!
