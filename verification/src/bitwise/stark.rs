//! The Bitwise table's constraint set: byte-limb decomposition of
//! each operand and the result, the compressed triples, and the
//! permutation lookups that check every limb against the fixed byte
//! range and every compressed triple against the fixed xor table.

use vstd::prelude::*;
use crate::bitwise::columns::BitwiseTrace;
use crate::field::{fe_add, fe_add_spec, fe_mul, fe_mul_spec, is_fe, FIELD_ORDER};
use crate::lookup::{eval_lookups, lookup_disjunction_ok};
use crate::trace::is_pow2;

verus! {

/// The weighted sum of four byte limbs, in base 256.
pub open spec fn reduce4_spec(l0: int, l1: int, l2: int, l3: int) -> int {
    fe_add_spec(l0, fe_mul_spec(256, fe_add_spec(l1, fe_mul_spec(256, fe_add_spec(l2, fe_mul_spec(256, l3))))))
}

/// The compression of one limb triple: `a + 256*b + 65536*c`.
pub open spec fn compress3_spec(a: int, b: int, c: int) -> int {
    fe_add_spec(a, fe_mul_spec(256, fe_add_spec(b, fe_mul_spec(256, c))))
}

/// Every cell of the trace is a canonical field element.
pub open spec fn bitwise_trace_wf(t: BitwiseTrace) -> bool {
    let n = t.op1@.len() as int;
    &&& forall|i: int| 0 <= i < n ==> is_fe(#[trigger] t.op1@[i])
    &&& forall|i: int| 0 <= i < n ==> is_fe(#[trigger] t.op2@[i])
    &&& forall|i: int| 0 <= i < n ==> is_fe(#[trigger] t.res@[i])
    &&& forall|k: int, i: int|
        0 <= k < 4 && 0 <= i < n ==> is_fe(#[trigger] (t.op1_limbs@[k]@)[i])
    &&& forall|k: int, i: int|
        0 <= k < 4 && 0 <= i < n ==> is_fe(#[trigger] (t.op2_limbs@[k]@)[i])
    &&& forall|k: int, i: int|
        0 <= k < 4 && 0 <= i < n ==> is_fe(#[trigger] (t.res_limbs@[k]@)[i])
    &&& forall|k: int, i: int|
        0 <= k < 4 && 0 <= i < n ==> is_fe(#[trigger] (t.compress_limbs@[k]@)[i])
}

/// The shape of a well-built trace: every column has the same
/// power-of-two height.
pub open spec fn bitwise_trace_shape(t: BitwiseTrace) -> bool {
    let n = t.op1@.len() as int;
    &&& is_pow2(n)
    &&& t.op2@.len() == n
    &&& t.res@.len() == n
    &&& forall|k: int| 0 <= k < 4 ==> (#[trigger] t.op1_limbs@[k]@).len() == n
    &&& forall|k: int| 0 <= k < 4 ==> (#[trigger] t.op2_limbs@[k]@).len() == n
    &&& forall|k: int| 0 <= k < 4 ==> (#[trigger] t.res_limbs@[k]@).len() == n
    &&& forall|k: int| 0 <= k < 4 ==> (#[trigger] t.op1_limbs_permuted@[k]@).len() == n
    &&& forall|k: int| 0 <= k < 4 ==> (#[trigger] t.op2_limbs_permuted@[k]@).len() == n
    &&& forall|k: int| 0 <= k < 4 ==> (#[trigger] t.res_limbs_permuted@[k]@).len() == n
    &&& forall|k: int| 0 <= k < 4 ==> (#[trigger] t.compress_limbs@[k]@).len() == n
    &&& forall|k: int| 0 <= k < 4 ==> (#[trigger] t.compress_permuted@[k]@).len() == n
    &&& t.fix_range_check_u8@.len() == n
    &&& forall|k: int| 0 <= k < 12 ==> (#[trigger] t.fix_range_check_u8_permuted@[k]@).len() == n
    &&& t.fix_bitwise_op1@.len() == n
    &&& t.fix_bitwise_op2@.len() == n
    &&& t.fix_bitwise_res@.len() == n
    &&& t.fix_compress@.len() == n
    &&& forall|k: int| 0 <= k < 4 ==> (#[trigger] t.fix_compress_permuted@[k]@).len() == n
}

/// Whether a Bitwise trace satisfies the table's whole constraint
/// set: the shape, the byte-limb decomposition of the three value
/// columns, the compression identity on every lane, and the sixteen
/// permutation-lookup disjunctions.
#[verifier::opaque]
pub open spec fn bitwise_trace_ok(t: BitwiseTrace) -> bool {
    let n = t.op1@.len() as int;
    &&& bitwise_trace_shape(t)
    &&& forall|i: int|
        0 <= i < n ==> #[trigger] t.op1@[i] as int == reduce4_spec(
            (t.op1_limbs@[0]@)[i] as int,
            (t.op1_limbs@[1]@)[i] as int,
            (t.op1_limbs@[2]@)[i] as int,
            (t.op1_limbs@[3]@)[i] as int,
        )
    &&& forall|i: int|
        0 <= i < n ==> #[trigger] t.op2@[i] as int == reduce4_spec(
            (t.op2_limbs@[0]@)[i] as int,
            (t.op2_limbs@[1]@)[i] as int,
            (t.op2_limbs@[2]@)[i] as int,
            (t.op2_limbs@[3]@)[i] as int,
        )
    &&& forall|i: int|
        0 <= i < n ==> #[trigger] t.res@[i] as int == reduce4_spec(
            (t.res_limbs@[0]@)[i] as int,
            (t.res_limbs@[1]@)[i] as int,
            (t.res_limbs@[2]@)[i] as int,
            (t.res_limbs@[3]@)[i] as int,
        )
    &&& forall|k: int, i: int|
        0 <= k < 4 && 0 <= i < n ==> #[trigger] (t.compress_limbs@[k]@)[i] as int
            == compress3_spec(
            (t.op1_limbs@[k]@)[i] as int,
            (t.op2_limbs@[k]@)[i] as int,
            (t.res_limbs@[k]@)[i] as int,
        )
    &&& forall|k: int|
        0 <= k < 4 ==> lookup_disjunction_ok(
            (#[trigger] t.op1_limbs_permuted@[k]@),
            t.fix_range_check_u8_permuted@[k]@,
        )
    &&& forall|k: int|
        0 <= k < 4 ==> lookup_disjunction_ok(
            (#[trigger] t.op2_limbs_permuted@[k]@),
            t.fix_range_check_u8_permuted@[k + 4]@,
        )
    &&& forall|k: int|
        0 <= k < 4 ==> lookup_disjunction_ok(
            (#[trigger] t.res_limbs_permuted@[k]@),
            t.fix_range_check_u8_permuted@[k + 8]@,
        )
    &&& forall|k: int|
        0 <= k < 4 ==> lookup_disjunction_ok(
            (#[trigger] t.compress_permuted@[k]@),
            t.fix_compress_permuted@[k]@,
        )
}

/// The Bitwise table.
#[derive(Clone, Copy, Debug, Default)]
pub struct BitwiseStark {
}

/// Checks one value column against its four limb columns.
fn check_reduce(v: &Vec<u64>, l0: &Vec<u64>, l1: &Vec<u64>, l2: &Vec<u64>, l3: &Vec<u64>) -> (r:
    bool)
    requires
        l0@.len() == v@.len(),
        l1@.len() == v@.len(),
        l2@.len() == v@.len(),
        l3@.len() == v@.len(),
        forall|i: int| 0 <= i < v@.len() ==> is_fe(#[trigger] l0@[i]),
        forall|i: int| 0 <= i < v@.len() ==> is_fe(#[trigger] l1@[i]),
        forall|i: int| 0 <= i < v@.len() ==> is_fe(#[trigger] l2@[i]),
        forall|i: int| 0 <= i < v@.len() ==> is_fe(#[trigger] l3@[i]),
    ensures
        r == forall|i: int|
            0 <= i < v@.len() ==> #[trigger] v@[i] as int == reduce4_spec(
                l0@[i] as int,
                l1@[i] as int,
                l2@[i] as int,
                l3@[i] as int,
            ),
{
    let mut i: usize = 0;
    let mut ok: bool = true;
    while i < v.len()
        invariant
            i <= v@.len(),
            l0@.len() == v@.len(),
            l1@.len() == v@.len(),
            l2@.len() == v@.len(),
            l3@.len() == v@.len(),
            forall|t: int| 0 <= t < v@.len() ==> is_fe(#[trigger] l0@[t]),
            forall|t: int| 0 <= t < v@.len() ==> is_fe(#[trigger] l1@[t]),
            forall|t: int| 0 <= t < v@.len() ==> is_fe(#[trigger] l2@[t]),
            forall|t: int| 0 <= t < v@.len() ==> is_fe(#[trigger] l3@[t]),
            ok == forall|t: int|
                0 <= t < i ==> #[trigger] v@[t] as int == reduce4_spec(
                    l0@[t] as int,
                    l1@[t] as int,
                    l2@[t] as int,
                    l3@[t] as int,
                ),
        decreases v@.len() - i,
    {
        let s = fe_add(l0[i], fe_mul(256, fe_add(l1[i], fe_mul(256, fe_add(l2[i], fe_mul(256, l3[i]))))));
        if s != v[i] {
            ok = false;
        }
        i = i + 1;
    }
    ok
}

impl BitwiseStark {
    /// Evaluates the whole constraint set on a trace of canonical
    /// cells: the limb decompositions, the compression identity on
    /// every lane, and the sixteen permutation lookups.
    pub fn eval_trace(&self, t: &BitwiseTrace) -> (r: bool)
        requires
            bitwise_trace_shape(*t),
            bitwise_trace_wf(*t),
        ensures
            r == bitwise_trace_ok(*t),
    {
        proof {
            reveal(bitwise_trace_ok);
        }
        let n = t.op1.len();
        let r1 = check_reduce(
            &t.op1,
            &t.op1_limbs[0],
            &t.op1_limbs[1],
            &t.op1_limbs[2],
            &t.op1_limbs[3],
        );
        let r2 = check_reduce(
            &t.op2,
            &t.op2_limbs[0],
            &t.op2_limbs[1],
            &t.op2_limbs[2],
            &t.op2_limbs[3],
        );
        let r3 = check_reduce(
            &t.res,
            &t.res_limbs[0],
            &t.res_limbs[1],
            &t.res_limbs[2],
            &t.res_limbs[3],
        );
        let mut compress_ok: bool = true;
        let mut k: usize = 0;
        while k < 4
            invariant
                k <= 4,
                bitwise_trace_shape(*t),
                bitwise_trace_wf(*t),
                compress_ok == forall|w: int, i: int|
                    0 <= w < k && 0 <= i < t.op1@.len() ==> #[trigger] (t.compress_limbs@[w]@)[i]
                        as int == compress3_spec(
                        (t.op1_limbs@[w]@)[i] as int,
                        (t.op2_limbs@[w]@)[i] as int,
                        (t.res_limbs@[w]@)[i] as int,
                    ),
            decreases 4 - k,
        {
            let lane_ok = check_compress_lane(
                &t.compress_limbs[k],
                &t.op1_limbs[k],
                &t.op2_limbs[k],
                &t.res_limbs[k],
            );
            if !lane_ok {
                compress_ok = false;
            }
            k = k + 1;
        }
        let mut lookups_ok: bool = true;
        let mut w: usize = 0;
        while w < 4
            invariant
                w <= 4,
                bitwise_trace_shape(*t),
                lookups_ok == ((forall|k2: int|
                    0 <= k2 < w ==> lookup_disjunction_ok(
                        (#[trigger] t.op1_limbs_permuted@[k2]@),
                        t.fix_range_check_u8_permuted@[k2]@,
                    )) && (forall|k2: int|
                    0 <= k2 < w ==> lookup_disjunction_ok(
                        (#[trigger] t.op2_limbs_permuted@[k2]@),
                        t.fix_range_check_u8_permuted@[k2 + 4]@,
                    )) && (forall|k2: int|
                    0 <= k2 < w ==> lookup_disjunction_ok(
                        (#[trigger] t.res_limbs_permuted@[k2]@),
                        t.fix_range_check_u8_permuted@[k2 + 8]@,
                    )) && (forall|k2: int|
                    0 <= k2 < w ==> lookup_disjunction_ok(
                        (#[trigger] t.compress_permuted@[k2]@),
                        t.fix_compress_permuted@[k2]@,
                    ))),
            decreases 4 - w,
        {
            let a = eval_lookups(&t.op1_limbs_permuted[w], &t.fix_range_check_u8_permuted[w]);
            let b = eval_lookups(&t.op2_limbs_permuted[w], &t.fix_range_check_u8_permuted[w + 4]);
            let c = eval_lookups(&t.res_limbs_permuted[w], &t.fix_range_check_u8_permuted[w + 8]);
            let d = eval_lookups(&t.compress_permuted[w], &t.fix_compress_permuted[w]);
            if !(a && b && c && d) {
                lookups_ok = false;
            }
            w = w + 1;
        }
        r1 && r2 && r3 && compress_ok && lookups_ok
    }
}

/// Checks one compressed lane against its three limb columns.
fn check_compress_lane(c: &Vec<u64>, a: &Vec<u64>, b: &Vec<u64>, x: &Vec<u64>) -> (r: bool)
    requires
        a@.len() == c@.len(),
        b@.len() == c@.len(),
        x@.len() == c@.len(),
        forall|i: int| 0 <= i < c@.len() ==> is_fe(#[trigger] a@[i]),
        forall|i: int| 0 <= i < c@.len() ==> is_fe(#[trigger] b@[i]),
        forall|i: int| 0 <= i < c@.len() ==> is_fe(#[trigger] x@[i]),
    ensures
        r == forall|i: int|
            0 <= i < c@.len() ==> #[trigger] c@[i] as int == compress3_spec(
                a@[i] as int,
                b@[i] as int,
                x@[i] as int,
            ),
{
    let mut i: usize = 0;
    let mut ok: bool = true;
    while i < c.len()
        invariant
            i <= c@.len(),
            a@.len() == c@.len(),
            b@.len() == c@.len(),
            x@.len() == c@.len(),
            forall|t: int| 0 <= t < c@.len() ==> is_fe(#[trigger] a@[t]),
            forall|t: int| 0 <= t < c@.len() ==> is_fe(#[trigger] b@[t]),
            forall|t: int| 0 <= t < c@.len() ==> is_fe(#[trigger] x@[t]),
            ok == forall|t: int|
                0 <= t < i ==> #[trigger] c@[t] as int == compress3_spec(
                    a@[t] as int,
                    b@[t] as int,
                    x@[t] as int,
                ),
        decreases c@.len() - i,
    {
        let s = fe_add(a[i], fe_mul(256, fe_add(b[i], fe_mul(256, x[i]))));
        if s != c[i] {
            ok = false;
        }
        i = i + 1;
    }
    ok
}

} // verus!
