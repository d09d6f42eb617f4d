//! Constraints of the ADD gadget: on rows whose ADD selector is set,
//! the destination equals the sum of the operands, or that sum less
//! one word wrap, since the field is wider than a machine word.

use vstd::prelude::*;
use crate::cpu::columns::{CpuColumnsView, WORD_WRAP};
use crate::field::{fe_add, fe_add_spec, fe_mul, fe_mul_spec, fe_sub, fe_sub_spec};

verus! {

/// The ADD gadget's constraint term, which must be zero on every row.
pub open spec fn add_constraint_term(lv: CpuColumnsView) -> int {
    fe_mul_spec(
        lv.inst.ops.add as int,
        fe_mul_spec(
            fe_sub_spec(
                lv.dst_value as int,
                fe_add_spec(lv.op1_value as int, lv.op2_value as int),
            ),
            fe_sub_spec(
                lv.dst_value as int,
                fe_sub_spec(
                    fe_add_spec(lv.op1_value as int, lv.op2_value as int),
                    WORD_WRAP as int,
                ),
            ),
        ),
    )
}

/// Whether the ADD gadget holds on a row.
pub open spec fn add_constraints_ok(lv: CpuColumnsView) -> bool {
    add_constraint_term(lv) == 0
}

/// Evaluates the ADD gadget's constraint on a row.
pub fn constraints(lv: &CpuColumnsView) -> (r: bool)
    requires
        crate::cpu::columns::cpu_row_wf(*lv),
    ensures
        r == add_constraints_ok(*lv),
{
    let expected = fe_add(lv.op1_value, lv.op2_value);
    let wrapped = fe_sub(expected, WORD_WRAP);
    let term = fe_mul(
        lv.inst.ops.add,
        fe_mul(fe_sub(lv.dst_value, expected), fe_sub(lv.dst_value, wrapped)),
    );
    term == 0
}

} // verus!
