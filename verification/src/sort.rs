//! Verified merge sort on columns of field elements, and a multiset
//! equality check built on it. Sorting is what the permutation-based
//! lookup argument and the trace generators lean on.

use vstd::prelude::*;
use vstd::seq_lib::lemma_multiset_commutative;

verus! {

/// Whether a column is sorted in non-decreasing order.
pub open spec fn sorted_u64(s: Seq<u64>) -> bool {
    forall|i: int, j: int| 0 <= i < j < s.len() ==> s[i] <= s[j]
}

/// Extending a prefix by one element inserts that element into the
/// prefix's multiset.
pub proof fn lemma_subrange_push_multiset(s: Seq<u64>, k: int)
    requires
        0 <= k < s.len(),
    ensures
        s.subrange(0, k + 1).to_multiset() == s.subrange(0, k).to_multiset().insert(s[k]),
{
    broadcast use vstd::seq_lib::group_to_multiset_ensures;

    assert(s.subrange(0, k + 1) =~= s.subrange(0, k).push(s[k]));
}

/// Merges two sorted columns into one sorted column holding the sum
/// of their multisets.
fn merge_u64(a: Vec<u64>, b: Vec<u64>) -> (r: Vec<u64>)
    requires
        sorted_u64(a@),
        sorted_u64(b@),
    ensures
        sorted_u64(r@),
        r@.to_multiset() == a@.to_multiset().add(b@.to_multiset()),
        r@.len() == a@.len() + b@.len(),
{
    broadcast use vstd::seq_lib::group_to_multiset_ensures;

    let mut out: Vec<u64> = Vec::new();
    let mut i: usize = 0;
    let mut j: usize = 0;
    while i < a.len() || j < b.len()
        invariant
            i <= a@.len(),
            j <= b@.len(),
            out@.len() == i + j,
            sorted_u64(a@),
            sorted_u64(b@),
            sorted_u64(out@),
            out@.to_multiset() == a@.subrange(0, i as int).to_multiset().add(
                b@.subrange(0, j as int).to_multiset(),
            ),
            forall|k: int| i <= k < a@.len() && out@.len() > 0 ==> out@.last() <= a@[k],
            forall|k: int| j <= k < b@.len() && out@.len() > 0 ==> out@.last() <= b@[k],
        decreases a@.len() - i + b@.len() - j,
    {
        let take_a: bool = if i < a.len() {
            if j < b.len() {
                a[i] <= b[j]
            } else {
                true
            }
        } else {
            false
        };
        let ghost prev = out@;
        if take_a {
            let x = a[i];
            out.push(x);
            proof {
                broadcast use vstd::multiset::group_multiset_axioms;

                assert(out@ =~= prev.push(x));
                vstd::seq_lib::to_multiset_build::<u64>(prev, x);
                lemma_subrange_push_multiset(a@, i as int);
                assert(out@.to_multiset() =~= a@.subrange(0, i + 1).to_multiset().add(
                    b@.subrange(0, j as int).to_multiset(),
                ));
            }
            i = i + 1;
        } else {
            let x = b[j];
            out.push(x);
            proof {
                broadcast use vstd::multiset::group_multiset_axioms;

                assert(out@ =~= prev.push(x));
                vstd::seq_lib::to_multiset_build::<u64>(prev, x);
                lemma_subrange_push_multiset(b@, j as int);
                assert(out@.to_multiset() =~= a@.subrange(0, i as int).to_multiset().add(
                    b@.subrange(0, j + 1).to_multiset(),
                ));
            }
            j = j + 1;
        }
    }
    proof {
        assert(a@.subrange(0, a@.len() as int) =~= a@);
        assert(b@.subrange(0, b@.len() as int) =~= b@);
    }
    out
}

/// Sorts a column in non-decreasing order: the result is exactly the
/// column's sorted version.
pub fn sort_u64(v: Vec<u64>) -> (r: Vec<u64>)
    ensures
        sorted_u64(r@),
        r@.to_multiset() == v@.to_multiset(),
        r@.len() == v@.len(),
        r@ == sort_spec(v@),
    decreases v@.len(),
{
    let ghost orig = v@;
    let r = sort_u64_inner(v);
    proof {
        lemma_sort_spec_ensures(orig);
        lemma_sorted_multiset_unique(r@, sort_spec(orig));
    }
    r
}

/// The merge-sort body behind `sort_u64`.
fn sort_u64_inner(v: Vec<u64>) -> (r: Vec<u64>)
    ensures
        sorted_u64(r@),
        r@.to_multiset() == v@.to_multiset(),
        r@.len() == v@.len(),
    decreases v@.len(),
{
    if v.len() <= 1 {
        return v;
    }
    let mid = v.len() / 2;
    let mut left = v;
    let right = left.split_off(mid);
    let ghost lv = left@;
    let ghost rv = right@;
    proof {
        lemma_multiset_commutative(lv, rv);
        assert(lv + rv =~= v@);
    }
    let ls = sort_u64_inner(left);
    let rs = sort_u64_inner(right);
    merge_u64(ls, rs)
}

/// Insertion of a value into a sorted column, after its equals.
pub open spec fn insert_sorted(s: Seq<u64>, x: u64) -> Seq<u64>
    decreases s.len(),
{
    if s.len() == 0 {
        seq![x]
    } else if x < s.last() {
        insert_sorted(s.drop_last(), x).push(s.last())
    } else {
        s.push(x)
    }
}

/// The sorted version of a column, as the fold of insertions.
pub open spec fn sort_spec(s: Seq<u64>) -> Seq<u64>
    decreases s.len(),
{
    if s.len() == 0 {
        s
    } else {
        insert_sorted(sort_spec(s.drop_last()), s.last())
    }
}

proof fn lemma_insert_sorted_ensures(s: Seq<u64>, x: u64)
    requires
        sorted_u64(s),
    ensures
        sorted_u64(insert_sorted(s, x)),
        insert_sorted(s, x).to_multiset() == s.to_multiset().insert(x),
        insert_sorted(s, x).len() == s.len() + 1,
    decreases s.len(),
{
    broadcast use vstd::seq_lib::group_to_multiset_ensures;

    if s.len() == 0 {
        assert(seq![x] =~= Seq::<u64>::empty().push(x));
        assert(Seq::<u64>::empty().push(x).to_multiset() =~= Seq::<u64>::empty().to_multiset().insert(x));
    } else if x < s.last() {
        assert(sorted_u64(s.drop_last()));
        lemma_insert_sorted_ensures(s.drop_last(), x);
        let inner = insert_sorted(s.drop_last(), x);
        vstd::seq_lib::to_multiset_build::<u64>(inner, s.last());
        vstd::seq_lib::to_multiset_build::<u64>(s.drop_last(), s.last());
        assert(s.drop_last().push(s.last()) =~= s);
        assert(inner.push(s.last()).to_multiset() =~= s.to_multiset().insert(x));
        assert forall|i: int, j: int|
            0 <= i < j < inner.push(s.last()).len() implies inner.push(s.last())[i] <= inner.push(
            s.last(),
        )[j] by {
            if j < inner.len() {
            } else {
                assert(inner.to_multiset().count(inner[i]) > 0);
                assert(inner.contains(inner[i]));
                let w = choose|w: int| 0 <= w < inner.len() && inner[w] == inner[i];
                if s.to_multiset().insert(x).count(inner[i]) > 0 {
                }
                assert(s.drop_last().to_multiset().insert(x).count(inner[i]) > 0);
                if s.drop_last().to_multiset().count(inner[i]) > 0 {
                    assert(s.drop_last().contains(inner[i]));
                    let m = choose|m: int|
                        0 <= m < s.drop_last().len() && s.drop_last()[m] == inner[i];
                    assert(s[m] <= s.last());
                } else {
                    assert(inner[i] == x);
                }
            }
        }
    } else {
        vstd::seq_lib::to_multiset_build::<u64>(s, x);
    }
}

/// What the sorted version of a column is: sorted, with the same
/// multiset and length.
pub proof fn lemma_sort_spec_ensures(s: Seq<u64>)
    ensures
        sorted_u64(sort_spec(s)),
        sort_spec(s).to_multiset() == s.to_multiset(),
        sort_spec(s).len() == s.len(),
    decreases s.len(),
{
    broadcast use vstd::seq_lib::group_to_multiset_ensures;

    if s.len() > 0 {
        lemma_sort_spec_ensures(s.drop_last());
        lemma_insert_sorted_ensures(sort_spec(s.drop_last()), s.last());
        vstd::seq_lib::to_multiset_build::<u64>(s.drop_last(), s.last());
        assert(s.drop_last().push(s.last()) =~= s);
    }
}

/// Two sorted columns with the same multiset are the same column.
pub proof fn lemma_sorted_multiset_unique(a: Seq<u64>, b: Seq<u64>)
    requires
        sorted_u64(a),
        sorted_u64(b),
        a.to_multiset() == b.to_multiset(),
    ensures
        a =~= b,
    decreases a.len(),
{
    broadcast use vstd::seq_lib::group_to_multiset_ensures;

    assert(a.to_multiset().len() == a.len());
    assert(b.to_multiset().len() == b.len());
    if a.len() == 0 {
    } else {
        assert(a.contains(a[0]) && b.contains(b[0]));
        assert(a.to_multiset().count(a[0]) > 0);
        assert(b.to_multiset().count(a[0]) > 0);
        assert(b.contains(a[0]));
        assert(b.to_multiset().count(b[0]) > 0);
        assert(a.to_multiset().count(b[0]) > 0);
        assert(a.contains(b[0]));
        let ia = choose|k: int| 0 <= k < a.len() && a[k] == b[0];
        let ib = choose|k: int| 0 <= k < b.len() && b[k] == a[0];
        assert(a[0] <= a[ia] && b[0] <= b[ib]);
        assert(a[0] == b[0]);
        let at = a.subrange(1, a.len() as int);
        let bt = b.subrange(1, b.len() as int);
        assert(at =~= a.remove(0));
        assert(bt =~= b.remove(0));
        assert(at.to_multiset() == a.to_multiset().remove(a[0]));
        assert(bt.to_multiset() == b.to_multiset().remove(b[0]));
        lemma_sorted_multiset_unique(at, bt);
        assert(a =~= seq![a[0]] + at);
        assert(b =~= seq![b[0]] + bt);
    }
}

/// Copies a column element by element.
pub fn copy_column(v: &Vec<u64>) -> (r: Vec<u64>)
    ensures
        r@ == v@,
{
    let mut out: Vec<u64> = Vec::new();
    let mut k: usize = 0;
    while k < v.len()
        invariant
            k <= v@.len(),
            out@ == v@.subrange(0, k as int),
        decreases v@.len() - k,
    {
        out.push(v[k]);
        proof {
            assert(out@ =~= v@.subrange(0, k + 1));
        }
        k = k + 1;
    }
    proof {
        assert(out@ =~= v@);
    }
    out
}

/// Decides whether two columns hold the same multiset of values, by
/// sorting both and comparing.
pub fn check_multiset_eq(a: &Vec<u64>, b: &Vec<u64>) -> (r: bool)
    ensures
        r == (a@.to_multiset() == b@.to_multiset()),
{
    let sa = sort_u64(copy_column(a));
    let sb = sort_u64(copy_column(b));
    if sa.len() != sb.len() {
        proof {
            broadcast use vstd::seq_lib::group_to_multiset_ensures;

            assert(sa@.to_multiset().len() == sa@.len());
            assert(sb@.to_multiset().len() == sb@.len());
        }
        return false;
    }
    let mut k: usize = 0;
    let mut eq: bool = true;
    while k < sa.len()
        invariant
            sa@.len() == sb@.len(),
            k <= sa@.len(),
            eq == (forall|t: int| 0 <= t < k ==> sa@[t] == sb@[t]),
        decreases sa@.len() - k,
    {
        if sa[k] != sb[k] {
            eq = false;
        }
        k = k + 1;
    }
    proof {
        if eq {
            assert(sa@ =~= sb@);
            assert(a@.to_multiset() == b@.to_multiset());
        } else {
            if a@.to_multiset() == b@.to_multiset() {
                lemma_sorted_multiset_unique(sa@, sb@);
            }
        }
    }
    eq
}

} // verus!
