//! Cross-table lookup declarations: a declaration names a table, a
//! projection of its columns, and a boolean filter column, and claims
//! that the multiset of filtered projected tuples on one side equals
//! the multiset on the other.

use vstd::prelude::*;
use crate::field::{fe_mul, fe_mul_spec, fe_sub, fe_sub_spec, is_fe, all_fe, FIELD_ORDER};

verus! {

/// The tables of the proof system.
#[derive(Clone, Copy, PartialEq, Eq, Structural, Debug)]
pub enum TableKind {
    Cpu,
    RangeCheck,
    Bitwise,
    Xor,
    Shift,
    Program,
    Memory,
    IoMemoryPrivate,
    IoMemoryPublic,
    Poseidon2Sponge,
    Poseidon2,
    Poseidon2OutputBytes,
}

/// A linear combination of named columns of one table, plus a
/// constant; the building block of every lookup declaration.
#[derive(Clone, Debug)]
pub struct ColumnX<C> {
    /// Named columns with their coefficients, as canonical field
    /// elements.
    pub terms: Vec<(C, u64)>,
    /// The constant part, as a canonical field element.
    pub constant: u64,
}

/// Well-formedness of a linear combination: every coefficient and the
/// constant are canonical field elements.
pub open spec fn column_wf<C>(c: ColumnX<C>) -> bool {
    &&& is_fe(c.constant)
    &&& forall|i: int| 0 <= i < c.terms@.len() ==> is_fe((#[trigger] c.terms@[i]).1)
}

impl<C> ColumnX<C> {
    /// The single column `c`, with coefficient one.
    pub fn single(c: C) -> (r: ColumnX<C>)
        ensures
            r.terms@ =~= seq![(c, 1u64)],
            r.constant == 0u64,
            column_wf(r),
    {
        let mut terms: Vec<(C, u64)> = Vec::new();
        terms.push((c, 1));
        ColumnX { terms, constant: 0 }
    }

    /// The constant `k`, using no column at all.
    pub fn constant(k: u64) -> (r: ColumnX<C>)
        requires
            is_fe(k),
        ensures
            r.terms@ =~= Seq::<(C, u64)>::empty(),
            r.constant == k,
            column_wf(r),
    {
        ColumnX { terms: Vec::new(), constant: k }
    }

    /// The single column `c` shifted by the constant `k`.
    pub fn single_plus(c: C, k: u64) -> (r: ColumnX<C>)
        requires
            is_fe(k),
        ensures
            r.terms@ =~= seq![(c, 1u64)],
            r.constant == k,
            column_wf(r),
    {
        let mut terms: Vec<(C, u64)> = Vec::new();
        terms.push((c, 1));
        ColumnX { terms, constant: k }
    }

}

impl<C: Copy> ColumnX<C> {
    /// The sum of the given columns, each with coefficient one.
    pub fn many(cs: &Vec<C>) -> (r: ColumnX<C>)
        ensures
            r.terms@.len() == cs@.len(),
            forall|i: int| 0 <= i < cs@.len() ==> #[trigger] r.terms@[i] == (cs@[i], 1u64),
            r.constant == 0u64,
            column_wf(r),
    {
        let mut terms: Vec<(C, u64)> = Vec::new();
        let mut k: usize = 0;
        while k < cs.len()
            invariant
                k <= cs@.len(),
                terms@.len() == k,
                forall|i: int| 0 <= i < k ==> #[trigger] terms@[i] == (cs@[i], 1u64),
            decreases cs@.len() - k,
        {
            terms.push((cs[k], 1));
            k = k + 1;
        }
        ColumnX { terms, constant: 0 }
    }
}

/// One side of a cross-table lookup declaration: the table it reads,
/// the projected columns, and the filter that selects its rows.
#[derive(Clone, Debug)]
pub struct TableNamed<Data, C> {
    pub kind: TableKind,
    pub columns: Data,
    pub filter_column: ColumnX<C>,
}

/// The running grand product a table contributes for one lookup
/// declaration: the product of `challenge - value` over its filtered,
/// compressed rows.
pub open spec fn grand_product(vals: Seq<u64>, challenge: u64) -> int
    decreases vals.len(),
{
    if vals.len() == 0 {
        1int
    } else {
        fe_mul_spec(
            grand_product(vals.drop_last(), challenge),
            fe_sub_spec(challenge as int, vals.last() as int),
        )
    }
}

/// Computes a table's grand product for one declaration.
pub fn compute_grand_product(vals: &Vec<u64>, challenge: u64) -> (r: u64)
    requires
        is_fe(challenge),
        all_fe(vals@),
    ensures
        is_fe(r),
        r == grand_product(vals@, challenge),
{
    let mut acc: u64 = 1;
    let mut k: usize = 0;
    proof {
        assert(vals@.subrange(0, 0) =~= Seq::<u64>::empty());
    }
    while k < vals.len()
        invariant
            k <= vals@.len(),
            is_fe(challenge),
            all_fe(vals@),
            is_fe(acc),
            acc == grand_product(vals@.subrange(0, k as int), challenge),
        decreases vals@.len() - k,
    {
        let ghost pre = vals@.subrange(0, k as int);
        acc = fe_mul(acc, fe_sub(challenge, vals[k]));
        proof {
            assert(vals@.subrange(0, k + 1).drop_last() =~= pre);
            assert(vals@.subrange(0, k + 1).last() == vals@[k as int]);
        }
        k = k + 1;
    }
    proof {
        assert(vals@.subrange(0, vals@.len() as int) =~= vals@);
    }
    acc
}

/// Multiplication in the field commutes under a shared left factor.
proof fn lemma_fe_mul_exchange(u: int, v: int, w: int)
    ensures
        fe_mul_spec(fe_mul_spec(u, v), w) == fe_mul_spec(fe_mul_spec(u, w), v),
{
    let m = FIELD_ORDER as int;
    vstd::arithmetic::div_mod::lemma_mul_mod_noop_general(u * v, w, m);
    vstd::arithmetic::div_mod::lemma_mul_mod_noop_general(u * w, v, m);
    assert((u * v) * w == (u * w) * v) by (nonlinear_arith);
}

/// Removing one row divides the grand product by that row's factor:
/// the product equals the reduced product times the factor.
proof fn lemma_grand_product_remove(vals: Seq<u64>, idx: int, challenge: u64)
    requires
        0 <= idx < vals.len(),
    ensures
        grand_product(vals, challenge) == fe_mul_spec(
            grand_product(vals.remove(idx), challenge),
            fe_sub_spec(challenge as int, vals[idx] as int),
        ),
    decreases vals.len(),
{
    if idx == vals.len() - 1 {
        assert(vals.remove(idx) =~= vals.drop_last());
    } else {
        lemma_grand_product_remove(vals.drop_last(), idx, challenge);
        assert(vals.remove(idx).drop_last() =~= vals.drop_last().remove(idx));
        assert(vals.remove(idx).last() == vals.last());
        lemma_fe_mul_exchange(
            grand_product(vals.drop_last().remove(idx), challenge),
            fe_sub_spec(challenge as int, vals[idx] as int),
            fe_sub_spec(challenge as int, vals.last() as int),
        );
    }
}

/// The heart of the cross-table lookup argument's completeness: two
/// sides whose filtered, compressed rows hold the same multiset
/// contribute the same grand product, whatever the challenge.
pub proof fn lemma_ctl_products_balance(looking: Seq<u64>, looked: Seq<u64>, challenge: u64)
    requires
        looking.to_multiset() == looked.to_multiset(),
    ensures
        grand_product(looking, challenge) == grand_product(looked, challenge),
    decreases looking.len(),
{
    broadcast use vstd::seq_lib::group_to_multiset_ensures;

    if looking.len() == 0 {
        assert(looked.to_multiset().len() == 0);
    } else {
        let x = looking.last();
        assert(looking.contains(x));
        assert(looking.to_multiset().count(x) > 0);
        assert(looked.to_multiset().count(x) > 0);
        assert(looked.contains(x));
        let idx = choose|t: int| 0 <= t < looked.len() && looked[t] == x;
        let reduced = looked.remove(idx);
        assert(looking.drop_last() =~= looking.remove(looking.len() - 1));
        assert(looking.remove(looking.len() - 1).to_multiset() == looking.to_multiset().remove(
            looking[looking.len() - 1],
        ));
        assert(reduced.to_multiset() == looked.to_multiset().remove(x));
        lemma_ctl_products_balance(looking.drop_last(), reduced, challenge);
        lemma_grand_product_remove(looked, idx, challenge);
    }
}

} // verus!
