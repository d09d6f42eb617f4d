//! The Xor table's constraint set: the bit limbs of both operands
//! and the result are boolean, each value is the weighted sum of its
//! bits, and on every bit the output is the xor of the inputs by the
//! identity `a + b - 2ab`.

use vstd::prelude::*;
use crate::field::{fe_add, fe_add_spec, fe_mul, fe_mul_spec, fe_sub, fe_sub_spec, is_fe};
use crate::xor::columns::{xor_row_wf, XorColumnsView};

verus! {

/// The weighted sum of a tail of bit limbs, lowest bit first.
pub open spec fn bit_sum_spec(limbs: Seq<u64>, i: int) -> int
    decreases limbs.len() - i,
{
    if i < 0 || i >= limbs.len() {
        0int
    } else {
        fe_add_spec(limbs[i] as int, fe_mul_spec(2, bit_sum_spec(limbs, i + 1)))
    }
}

/// The boolean constraint term of one bit.
pub open spec fn xor_binary_term(x: int) -> int {
    fe_mul_spec(x, fe_sub_spec(1, x))
}

/// The xor identity term of one bit: `a + b - 2ab - out`.
pub open spec fn xor_bit_term(a: int, b: int, out: int) -> int {
    fe_sub_spec(fe_sub_spec(fe_add_spec(a, b), fe_mul_spec(2, fe_mul_spec(a, b))), out)
}

/// Whether one Xor-table row satisfies its constraints.
pub open spec fn xor_row_ok(r: XorColumnsView) -> bool {
    &&& forall|i: int| 0 <= i < 32 ==> xor_binary_term(#[trigger] r.limbs_a@[i] as int) == 0
    &&& forall|i: int| 0 <= i < 32 ==> xor_binary_term(#[trigger] r.limbs_b@[i] as int) == 0
    &&& forall|i: int| 0 <= i < 32 ==> xor_binary_term(#[trigger] r.limbs_out@[i] as int) == 0
    &&& r.execution.a as int == bit_sum_spec(r.limbs_a@, 0)
    &&& r.execution.b as int == bit_sum_spec(r.limbs_b@, 0)
    &&& r.execution.out as int == bit_sum_spec(r.limbs_out@, 0)
    &&& forall|i: int|
        0 <= i < 32 ==> xor_bit_term(
            #[trigger] r.limbs_a@[i] as int,
            r.limbs_b@[i] as int,
            r.limbs_out@[i] as int,
        ) == 0
}

/// The Xor table.
#[derive(Clone, Copy, Debug, Default)]
pub struct XorStark {
}

/// Computes the weighted bit sum of one limb array.
fn bit_sum(limbs: &[u64; 32]) -> (r: u64)
    requires
        forall|i: int| 0 <= i < 32 ==> is_fe(#[trigger] limbs@[i]),
    ensures
        is_fe(r),
        r == bit_sum_spec(limbs@, 0),
{
    let mut acc: u64 = 0;
    let mut k: usize = 32;
    while k > 0
        invariant
            k <= 32,
            limbs@.len() == 32,
            forall|i: int| 0 <= i < 32 ==> is_fe(#[trigger] limbs@[i]),
            is_fe(acc),
            acc == bit_sum_spec(limbs@, k as int),
        decreases k,
    {
        k = k - 1;
        acc = fe_add(limbs[k], fe_mul(2, acc));
    }
    acc
}

impl XorStark {
    /// Evaluates the Xor table's constraints on one row.
    pub fn eval_row(&self, r: &XorColumnsView) -> (ok: bool)
        requires
            xor_row_wf(*r),
        ensures
            ok == xor_row_ok(*r),
    {
        let mut bits_ok: bool = true;
        let mut k: usize = 0;
        while k < 32
            invariant
                k <= 32,
                xor_row_wf(*r),
                bits_ok == ((forall|i: int|
                    0 <= i < k ==> xor_binary_term(#[trigger] r.limbs_a@[i] as int) == 0) && (
                forall|i: int|
                    0 <= i < k ==> xor_binary_term(#[trigger] r.limbs_b@[i] as int) == 0) && (
                forall|i: int|
                    0 <= i < k ==> xor_binary_term(#[trigger] r.limbs_out@[i] as int) == 0) && (
                forall|i: int|
                    0 <= i < k ==> xor_bit_term(
                        #[trigger] r.limbs_a@[i] as int,
                        r.limbs_b@[i] as int,
                        r.limbs_out@[i] as int,
                    ) == 0)),
            decreases 32 - k,
        {
            let a = r.limbs_a[k];
            let b = r.limbs_b[k];
            let o = r.limbs_out[k];
            let ba = fe_mul(a, fe_sub(1, a));
            let bb = fe_mul(b, fe_sub(1, b));
            let bo = fe_mul(o, fe_sub(1, o));
            let xt = fe_sub(fe_sub(fe_add(a, b), fe_mul(2, fe_mul(a, b))), o);
            if !(ba == 0 && bb == 0 && bo == 0 && xt == 0) {
                bits_ok = false;
            }
            k = k + 1;
        }
        let sa = bit_sum(&r.limbs_a);
        let sb = bit_sum(&r.limbs_b);
        let so = bit_sum(&r.limbs_out);
        bits_ok && sa == r.execution.a && sb == r.execution.b && so == r.execution.out
    }
}

} // verus!
