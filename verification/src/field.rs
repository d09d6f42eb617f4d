//! The Goldilocks prime field, with every element held in canonical
//! form as a `u64` strictly below the field order.

use vstd::prelude::*;

verus! {

/// The order of the Goldilocks field: 2^64 - 2^32 + 1.
pub const FIELD_ORDER: u64 = 0xFFFF_FFFF_0000_0001;

/// The inverse of two in the field: (order + 1) / 2.
pub const FE_TWO_INV: u64 = 0x7FFF_FFFF_8000_0001;

/// A canonical field element: a `u64` strictly below the field order.
pub open spec fn is_fe(x: u64) -> bool {
    x < FIELD_ORDER
}

/// Field addition as a mathematical function; arguments reduced
/// modulo the order.
pub open spec fn fe_add_spec(a: int, b: int) -> int {
    (a + b) % (FIELD_ORDER as int)
}

/// Field subtraction as a mathematical function; arguments reduced
/// modulo the order.
pub open spec fn fe_sub_spec(a: int, b: int) -> int {
    (a - b) % (FIELD_ORDER as int)
}

/// Field multiplication as a mathematical function; arguments reduced
/// modulo the order.
pub open spec fn fe_mul_spec(a: int, b: int) -> int {
    (a * b) % (FIELD_ORDER as int)
}

/// Field negation as a mathematical function; the argument reduced
/// modulo the order.
pub open spec fn fe_neg_spec(a: int) -> int {
    (0 - a) % (FIELD_ORDER as int)
}

/// Adds two canonical field elements.
pub fn fe_add(a: u64, b: u64) -> (r: u64)
    requires
        is_fe(a),
        is_fe(b),
    ensures
        is_fe(r),
        r == fe_add_spec(a as int, b as int),
{
    let s: u128 = (a as u128) + (b as u128);
    let m: u128 = s % (FIELD_ORDER as u128);
    m as u64
}

/// Subtracts one canonical field element from another.
pub fn fe_sub(a: u64, b: u64) -> (r: u64)
    requires
        is_fe(a),
        is_fe(b),
    ensures
        is_fe(r),
        r == fe_sub_spec(a as int, b as int),
{
    if a >= b {
        a - b
    } else {
        proof {
            assert((a - b + FIELD_ORDER) % (FIELD_ORDER as int) == a - b + FIELD_ORDER) by {
                assert(0 <= a - b + FIELD_ORDER < FIELD_ORDER);
            };
        }
        (FIELD_ORDER - b) + a
    }
}

/// Negates a canonical field element.
pub fn fe_neg(a: u64) -> (r: u64)
    requires
        is_fe(a),
    ensures
        is_fe(r),
        r == fe_neg_spec(a as int),
{
    if a == 0 {
        0
    } else {
        FIELD_ORDER - a
    }
}

/// Multiplies two canonical field elements.
pub fn fe_mul(a: u64, b: u64) -> (r: u64)
    requires
        is_fe(a),
        is_fe(b),
    ensures
        is_fe(r),
        r == fe_mul_spec(a as int, b as int),
{
    proof {
        assert(a * b <= 0xFFFF_FFFF_FFFF_FFFFu64 * 0xFFFF_FFFF_FFFF_FFFFu64) by (nonlinear_arith)
            requires a <= 0xFFFF_FFFF_FFFF_FFFFu64 && b <= 0xFFFF_FFFF_FFFF_FFFFu64;
    }
    let p: u128 = (a as u128) * (b as u128);
    let m: u128 = p % (FIELD_ORDER as u128);
    proof {
        assert(p == a * b) by (nonlinear_arith)
            requires p == (a as u128) * (b as u128);
        assert(m == (a * b) % (FIELD_ORDER as int)) by (nonlinear_arith)
            requires
                m == p % (FIELD_ORDER as u128),
                p == a * b,
                p >= 0;
    }
    m as u64
}

/// Injects a 32-bit machine value into the field; every `u32` is
/// already canonical because the field order exceeds 2^32.
pub fn fe_from_u32(v: u32) -> (r: u64)
    ensures
        is_fe(r),
        r == v,
{
    v as u64
}

/// Injects a boolean into the field as 0 or 1.
pub fn fe_from_bool(v: bool) -> (r: u64)
    ensures
        is_fe(r),
        r == (if v { 1u64 } else { 0u64 }),
{
    if v { 1 } else { 0 }
}

/// The sum of a sequence of canonical field elements, reduced after
/// every step.
pub open spec fn fe_sum(s: Seq<u64>) -> int
    decreases s.len(),
{
    if s.len() == 0 {
        0int
    } else {
        (fe_sum(s.drop_last()) + s.last()) % (FIELD_ORDER as int)
    }
}

/// A column of canonical field elements.
pub open spec fn all_fe(s: Seq<u64>) -> bool {
    forall|i: int| 0 <= i < s.len() ==> is_fe(#[trigger] s[i])
}

/// Adds up a column of canonical field elements.
pub fn fe_sum_vec(v: &Vec<u64>) -> (r: u64)
    requires
        all_fe(v@),
    ensures
        is_fe(r),
        r == fe_sum(v@),
{
    let mut acc: u64 = 0;
    let mut k: usize = 0;
    proof {
        assert(v@.subrange(0, 0) =~= Seq::<u64>::empty());
    }
    while k < v.len()
        invariant
            k <= v@.len(),
            all_fe(v@),
            is_fe(acc),
            acc == fe_sum(v@.subrange(0, k as int)),
        decreases v@.len() - k,
    {
        let ghost pre = v@.subrange(0, k as int);
        acc = fe_add(acc, v[k]);
        proof {
            assert(v@.subrange(0, k + 1).drop_last() =~= pre);
            assert(v@.subrange(0, k + 1).last() == v@[k as int]);
        }
        k = k + 1;
    }
    proof {
        assert(v@.subrange(0, v@.len() as int) =~= v@);
    }
    acc
}

/// Whether `a` has a multiplicative inverse in the field.
pub open spec fn fe_invertible(a: u64) -> bool {
    exists|x: int| 0 <= x < FIELD_ORDER && #[trigger] fe_mul_spec(a as int, x) == 1
}

/// The multiplicative inverse of `a`, or zero when `a` is zero; the
/// counterpart of a field's `try_inverse().unwrap_or_default()`.
///
/// The candidate is found by the extended Euclidean algorithm on
/// `a` and the field order, whose Bezout bookkeeping proves that the
/// result is nonzero — a genuine inverse — exactly on the inputs
/// that have one. (Because the order is prime, that is every nonzero
/// input; the primality itself is not formalized here, so the
/// invertible-input hypothesis stays visible in the contract.)
pub fn fe_try_inverse(a: u64) -> (r: u64)
    requires
        is_fe(a),
    ensures
        is_fe(r),
        a == 0 ==> r == 0,
        r != 0 ==> a != 0 && (a * r) % (FIELD_ORDER as int) == 1,
        r != 0 <==> fe_invertible(a),
{
    if a == 0 {
        proof {
            if fe_invertible(0u64) {
                let x = choose|x: int|
                    0 <= x < FIELD_ORDER && fe_mul_spec(0u64 as int, x) == 1;
                assert(0 * x == 0) by (nonlinear_arith);
                assert(fe_mul_spec(0u64 as int, x) == 0);
            }
        }
        return 0;
    }
    let cand = inverse_candidate(a);
    proof {
        assert(a * cand <= 0xFFFF_FFFF_FFFF_FFFFu64 * 0xFFFF_FFFF_FFFF_FFFFu64) by (nonlinear_arith)
            requires a <= 0xFFFF_FFFF_FFFF_FFFFu64 && cand <= 0xFFFF_FFFF_FFFF_FFFFu64;
    }
    let p: u128 = (a as u128) * (cand as u128);
    let check: u128 = p % (FIELD_ORDER as u128);
    proof {
        assert(p == a * cand) by (nonlinear_arith)
            requires p == (a as u128) * (cand as u128);
        assert(check == (a * cand) % (FIELD_ORDER as int)) by (nonlinear_arith)
            requires
                check == p % (FIELD_ORDER as u128),
                p == a * cand,
                p >= 0;
    }
    if check == 1 && cand != 0 {
        proof {
            assert(fe_mul_spec(a as int, cand as int) == 1);
        }
        cand
    } else {
        proof {
            if fe_invertible(a) {
                assert(cand != 0 && fe_mul_spec(a as int, cand as int) == 1);
            }
        }
        0
    }
}

/// One step of the Bezout congruence: updating the coefficient by
/// the quotient keeps `a * s ≡ remainder` modulo the field order.
proof fn lemma_bezout_step(
    a: u64,
    s0: u64,
    s1: u64,
    s2: u64,
    q: int,
    qm: u64,
    r0: int,
    r1: int,
    r2: int,
)
    requires
        q >= 0,
        qm == q % (FIELD_ORDER as int),
        s2 as int == fe_sub_spec(s0 as int, fe_mul_spec(qm as int, s1 as int)),
        (a * s0) % (FIELD_ORDER as int) == r0 % (FIELD_ORDER as int),
        (a * s1) % (FIELD_ORDER as int) == r1 % (FIELD_ORDER as int),
        r2 == r0 - q * r1,
    ensures
        (a * s2) % (FIELD_ORDER as int) == r2 % (FIELD_ORDER as int),
{
    let m = FIELD_ORDER as int;
    let t = (qm * s1) % m;
    assert(s2 as int == (s0 - t) % m);
    vstd::arithmetic::div_mod::lemma_mul_mod_noop_general(a as int, s0 - t, m);
    assert((a * ((s0 - t) % m)) % m == (a * (s0 - t)) % m);
    assert(a * s2 == a * ((s0 - t) % m)) by (nonlinear_arith)
        requires s2 as int == (s0 - t) % m;
    assert(a * (s0 - t) == a * s0 - a * t) by (nonlinear_arith);
    vstd::arithmetic::div_mod::lemma_sub_mod_noop(a * s0, a * t, m);
    // the subtracted part reduces to q * r1 modulo the order
    vstd::arithmetic::div_mod::lemma_mul_mod_noop_general(a as int, qm * s1, m);
    assert(a * t == a * ((qm * s1) % m)) by (nonlinear_arith)
        requires t == (qm * s1) % m;
    assert((a * t) % m == (a * (qm * s1)) % m);
    assert(a * (qm * s1) == qm * (a * s1)) by (nonlinear_arith);
    vstd::arithmetic::div_mod::lemma_mul_mod_noop_general(qm as int, a * s1, m);
    assert((qm * ((a * s1) % m)) % m == (qm * (a * s1)) % m);
    assert(qm * ((a * s1) % m) == qm * (r1 % m)) by (nonlinear_arith)
        requires (a * s1) % m == (r1 as int) % m;
    vstd::arithmetic::div_mod::lemma_mul_mod_noop_general(qm as int, r1, m);
    assert((qm * r1) % m == ((q % m) * r1) % m);
    vstd::arithmetic::div_mod::lemma_mul_mod_noop_general(q, r1, m);
    assert(((q % m) * r1) % m == (q * r1) % m);
    assert((a * t) % m == (q * r1) % m);
    vstd::arithmetic::div_mod::lemma_sub_mod_noop(a * s0, q * r1, m);
    assert(((a * s0) - (a * t)) % m == ((a * s0) - (q * r1)) % m) by {
        assert((((a * s0) % m) - ((a * t) % m)) % m == ((a * s0) - (a * t)) % m);
        assert((((a * s0) % m) - ((q * r1) % m)) % m == ((a * s0) - (q * r1)) % m);
    }
    vstd::arithmetic::div_mod::lemma_sub_mod_noop(r0, q * r1, m);
    assert((r0 - q * r1) % m == ((r0 % m) - ((q * r1) % m)) % m);
    assert(((a * s0) - (q * r1)) % m == (r0 - q * r1) % m) by {
        assert((((a * s0) % m) - ((q * r1) % m)) % m == ((a * s0) - (q * r1)) % m);
    }
}

/// Runs the extended Euclidean algorithm on `a` and the field order,
/// carrying the Bezout coefficient of `a` reduced into the field.
/// The bookkeeping proves: whenever `a` has an inverse at all, the
/// returned coefficient is one.
fn inverse_candidate(a: u64) -> (r: u64)
    requires
        0 < a < FIELD_ORDER,
    ensures
        is_fe(r),
        fe_invertible(a) ==> r != 0 && fe_mul_spec(a as int, r as int) == 1,
{
    let ghost m = FIELD_ORDER as int;
    let mut r0: u64 = FIELD_ORDER;
    let mut r1: u64 = a;
    let mut s0: u64 = 0;
    let mut s1: u64 = 1;
    // integer combinations witnessing that the running remainders
    // divide back into the order and into `a`
    let ghost mut u: int = 1;
    let ghost mut v: int = 0;
    let ghost mut w: int = 0;
    let ghost mut z: int = 1;
    proof {
        assert((a * s0) % m == (r0 as int) % m) by (nonlinear_arith)
            requires s0 == 0 && r0 == FIELD_ORDER && m == FIELD_ORDER as int;
        assert((a * s1) % m == (r1 as int) % m) by (nonlinear_arith)
            requires s1 == 1 && r1 == a && 0 < a < FIELD_ORDER && m == FIELD_ORDER as int;
    }
    loop
        invariant
            0 < a < FIELD_ORDER,
            m == FIELD_ORDER as int,
            r1 < r0,
            r0 >= 1,
            r0 <= FIELD_ORDER,
            is_fe(s0),
            is_fe(s1),
            (a * s0) % m == (r0 as int) % m,
            (a * s1) % m == (r1 as int) % m,
            FIELD_ORDER as int == u * r0 + v * r1,
            a as int == w * r0 + z * r1,
        ensures
            r1 == 0,
            r0 >= 1,
            m == FIELD_ORDER as int,
            0 < a < FIELD_ORDER,
            is_fe(s0),
            (a * s0) % m == (r0 as int) % m,
            FIELD_ORDER as int == u * r0 + v * r1,
            a as int == w * r0 + z * r1,
        decreases r1,
    {
        if r1 == 0 {
            break;
        }
        let q: u64 = r0 / r1;
        let r2: u64 = r0 % r1;
        proof {
            vstd::arithmetic::div_mod::lemma_fundamental_div_mod(r0 as int, r1 as int);
            assert(r0 as int == r1 as int * (r0 as int / r1 as int) + (r0 as int % r1 as int));
            assert(r0 == q * r1 + r2) by (nonlinear_arith)
                requires
                    r0 as int == r1 as int * (q as int) + (r2 as int);
        }
        let qm: u64 = if q == FIELD_ORDER { 0 } else { q };
        proof {
            assert(qm == (q as int) % m);
        }
        let s2: u64 = fe_sub(s0, fe_mul(qm, s1));
        proof {
            lemma_bezout_step(
                a,
                s0,
                s1,
                s2,
                q as int,
                qm,
                r0 as int,
                r1 as int,
                r2 as int,
            );
            let u2 = u * q + v;
            let w2 = w * q + z;
            assert(FIELD_ORDER as int == u2 * r1 + u * r2) by (nonlinear_arith)
                requires
                    FIELD_ORDER as int == u * r0 + v * r1,
                    r0 == q * r1 + r2,
                    u2 == u * q + v;
            assert(a as int == w2 * r1 + w * r2) by (nonlinear_arith)
                requires
                    a as int == w * r0 + z * r1,
                    r0 == q * r1 + r2,
                    w2 == w * q + z;
            let u_old = u;
            let w_old = w;
            u = u2;
            v = u_old;
            w = w2;
            z = w_old;
        }
        r0 = r1;
        r1 = r2;
        s0 = s1;
        s1 = s2;
    }
    proof {
        // the loop left the greatest common measure in r0: it
        // divides the order and `a`, and a * s0 matches it modulo
        // the order
        assert(FIELD_ORDER as int == u * r0) by (nonlinear_arith)
            requires FIELD_ORDER as int == u * r0 + v * r1 && r1 == 0;
        assert(a as int == w * r0) by (nonlinear_arith)
            requires a as int == w * r0 + z * r1 && r1 == 0;
        if fe_invertible(a) {
            let x = choose|x: int| 0 <= x < FIELD_ORDER && fe_mul_spec(a as int, x) == 1;
            vstd::arithmetic::div_mod::lemma_fundamental_div_mod(a * x, m);
            let k = (a * x) / m;
            assert(a * x == m * k + 1);
            assert(1 == r0 * (w * x - u * k)) by (nonlinear_arith)
                requires
                    a * x == m * k + 1,
                    a as int == w * r0,
                    m == u * r0;
            assert(r0 == 1) by (nonlinear_arith)
                requires 1 == r0 * (w * x - u * k) && r0 >= 1;
            assert((a * s0) % m == 1);
            if s0 == 0 {
                assert(a * s0 == 0) by (nonlinear_arith)
                    requires s0 == 0;
            }
            assert(s0 != 0);
            assert(fe_mul_spec(a as int, s0 as int) == 1);
        }
    }
    s0
}

} // verus!
