//! Columns of the Xor table: one evaluated bitwise operation per row,
//! with both operands and the result decomposed into binary limbs.

use vstd::prelude::*;
use crate::field::is_fe;

verus! {

/// One bitwise-operation triple: the two operands and the result.
#[derive(Clone, Copy, PartialEq, Eq, Structural, Debug, Default)]
pub struct XorView {
    pub a: u64,
    pub b: u64,
    pub out: u64,
}

/// Well-formedness of a triple: all three values canonical.
pub open spec fn xor_view_wf(v: XorView) -> bool {
    is_fe(v.a) && is_fe(v.b) && is_fe(v.out)
}

/// A row of the Xor table: the operation triple and the binary limbs
/// of each of its three values.
#[derive(Clone, Copy, Debug)]
pub struct XorColumnsView {
    pub execution: XorView,
    pub limbs_a: [u64; 32],
    pub limbs_b: [u64; 32],
    pub limbs_out: [u64; 32],
}

/// Well-formedness of an Xor-table row: every cell canonical.
pub open spec fn xor_row_wf(r: XorColumnsView) -> bool {
    &&& xor_view_wf(r.execution)
    &&& forall|i: int| 0 <= i < 32 ==> is_fe(#[trigger] r.limbs_a@[i])
    &&& forall|i: int| 0 <= i < 32 ==> is_fe(#[trigger] r.limbs_b@[i])
    &&& forall|i: int| 0 <= i < 32 ==> is_fe(#[trigger] r.limbs_out@[i])
}

} // verus!
