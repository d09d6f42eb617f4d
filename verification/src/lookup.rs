//! The permutation-based range-check lookup argument.
//!
//! Given an input column and a fixed table column of equal length, the
//! prover lays both out again as `permuted_input` and `permuted_table`
//! so that one two-column disjunction per row — either the input
//! repeats its predecessor, or it matches the table entry beside it —
//! proves that every input value is drawn from the table.

use vstd::prelude::*;
use vstd::multiset::Multiset;
use crate::sort::lemma_subrange_push_multiset;

verus! {

/// Every value of the input column occurs somewhere in the table
/// column.
pub open spec fn in_table(input: Seq<u64>, table: Seq<u64>) -> bool {
    forall|i: int| 0 <= i < input.len() ==> table.contains(#[trigger] input[i])
}

/// The row-wise disjunction the lookup constraint checks on the
/// permuted pair, together with its first-row boundary condition:
/// each input entry repeats its predecessor or matches the table
/// entry on its own row, and the very first input entry matches.
pub open spec fn lookup_disjunction_ok(pi: Seq<u64>, pt: Seq<u64>) -> bool {
    &&& pi.len() == pt.len()
    &&& (pi.len() > 0 ==> pi[0] == pt[0])
    &&& forall|i: int| 0 < i < pi.len() ==> pi[i] == pi[i - 1] || #[trigger] pi[i] == pt[i]
}

/// Some entry strictly before position `i` of `s` equals `v`.
pub open spec fn occurs_before(s: Seq<u64>, v: u64, i: int) -> bool {
    exists|m: int| 0 <= m < i && s[m] == v
}

/// Some pending row from position `from` of the queue is `k`.
pub open spec fn pending_has(inds: Seq<usize>, from: int, k: int) -> bool {
    exists|t: int| from <= t < inds.len() && inds[t] == k
}

/// The multiset of the values at the marked positions of a column.
pub open spec fn masked_ms(pt: Seq<u64>, f: Seq<bool>) -> Multiset<u64>
    decreases pt.len(),
{
    if pt.len() == 0 || f.len() != pt.len() {
        Multiset::empty()
    } else {
        let rest = masked_ms(pt.drop_last(), f.drop_last());
        if f.last() {
            rest.insert(pt.last())
        } else {
            rest
        }
    }
}

proof fn lemma_masked_ms_fill(pt: Seq<u64>, f: Seq<bool>, idx: int, v: u64)
    requires
        f.len() == pt.len(),
        0 <= idx < pt.len(),
        !f[idx],
    ensures
        masked_ms(pt.update(idx, v), f.update(idx, true)) =~= masked_ms(pt, f).insert(v),
    decreases pt.len(),
{
    broadcast use vstd::multiset::group_multiset_axioms;

    let pt2 = pt.update(idx, v);
    let f2 = f.update(idx, true);
    if idx == pt.len() - 1 {
        assert(pt2.drop_last() =~= pt.drop_last());
        assert(f2.drop_last() =~= f.drop_last());
        assert(pt2.last() == v && f2.last());
    } else {
        assert(pt2.drop_last() =~= pt.drop_last().update(idx, v));
        assert(f2.drop_last() =~= f.drop_last().update(idx, true));
        lemma_masked_ms_fill(pt.drop_last(), f.drop_last(), idx, v);
        assert(pt2.last() == pt.last() && f2.last() == f.last());
    }
}

proof fn lemma_masked_ms_none(pt: Seq<u64>, f: Seq<bool>)
    requires
        f.len() == pt.len(),
        forall|k: int| 0 <= k < f.len() ==> !(#[trigger] f[k]),
    ensures
        masked_ms(pt, f) =~= Multiset::empty(),
    decreases pt.len(),
{
    if pt.len() > 0 {
        assert(forall|k: int|
            0 <= k < f.drop_last().len() ==> !(#[trigger] f.drop_last()[k]));
        lemma_masked_ms_none(pt.drop_last(), f.drop_last());
    }
}

proof fn lemma_masked_ms_all(pt: Seq<u64>, f: Seq<bool>)
    requires
        f.len() == pt.len(),
        forall|k: int| 0 <= k < f.len() ==> #[trigger] f[k],
    ensures
        masked_ms(pt, f) =~= pt.to_multiset(),
    decreases pt.len(),
{
    broadcast use vstd::seq_lib::group_to_multiset_ensures;

    if pt.len() > 0 {
        assert(forall|k: int| 0 <= k < f.drop_last().len() ==> #[trigger] f.drop_last()[k]);
        lemma_masked_ms_all(pt.drop_last(), f.drop_last());
        vstd::seq_lib::to_multiset_build::<u64>(pt.drop_last(), pt.last());
        assert(pt.drop_last().push(pt.last()) =~= pt);
    }
}

proof fn lemma_bank_push(vals: Seq<u64>, uv: int, x: u64)
    requires
        0 <= uv <= vals.len(),
    ensures
        vals.push(x).subrange(uv, vals.len() as int + 1).to_multiset() =~= vals.subrange(
            uv,
            vals.len() as int,
        ).to_multiset().insert(x),
{
    broadcast use vstd::seq_lib::group_to_multiset_ensures;

    assert(vals.push(x).subrange(uv, vals.len() as int + 1) =~= vals.subrange(
        uv,
        vals.len() as int,
    ).push(x));
    vstd::seq_lib::to_multiset_build::<u64>(vals.subrange(uv, vals.len() as int), x);
}

proof fn lemma_bank_pop(vals: Seq<u64>, uv: int)
    requires
        0 <= uv < vals.len(),
    ensures
        vals.subrange(uv, vals.len() as int).to_multiset() =~= vals.subrange(
            uv + 1,
            vals.len() as int,
        ).to_multiset().insert(vals[uv]),
{
    broadcast use vstd::seq_lib::group_to_multiset_ensures;
    broadcast use vstd::multiset::group_multiset_axioms;

    let tail = vals.subrange(uv + 1, vals.len() as int);
    assert(vals.subrange(uv, vals.len() as int) =~= seq![vals[uv]] + tail);
    vstd::seq_lib::lemma_multiset_commutative(seq![vals[uv]], tail);
    assert(seq![vals[uv]] =~= Seq::<u64>::empty().push(vals[uv]));
    vstd::seq_lib::to_multiset_build::<u64>(Seq::<u64>::empty(), vals[uv]);
    assert(seq![vals[uv]].to_multiset() =~= Multiset::<u64>::empty().insert(vals[uv]));
}

/// Prepares the permuted input column and the permuted table column
/// for the lookup argument, by the merge walk over both columns in
/// sorted order.
///
/// The permuted input is the input sorted; whenever the walk finds the
/// table cursor behind it banks the table value, and whenever the
/// input cursor is behind it fills the row from the bank or records
/// the row to be filled from values left over at the end. Whenever
/// every input value occurs in the table, the returned pair satisfies
/// the row-wise lookup disjunction.
pub fn permute_cols(col_input: &Vec<u64>, col_table: &Vec<u64>) -> (r: (Vec<u64>, Vec<u64>))
    requires
        col_input@.len() == col_table@.len(),
    ensures
        r.0@.len() == col_input@.len(),
        r.1@.len() == col_input@.len(),
        crate::sort::sorted_u64(r.0@),
        r.0@.to_multiset() == col_input@.to_multiset(),
        r.1@.to_multiset() == col_table@.to_multiset(),
        in_table(col_input@, col_table@) ==> lookup_disjunction_ok(r.0@, r.1@),
{
    broadcast use vstd::seq_lib::group_to_multiset_ensures;
    broadcast use vstd::multiset::group_multiset_axioms;

    let n = col_input.len();
    let si_v = crate::sort::sort_u64(crate::sort::copy_column(col_input));
    let st_v = crate::sort::sort_u64(crate::sort::copy_column(col_table));
    let ghost si = si_v@;
    let ghost st = st_v@;
    let ghost mem = in_table(col_input@, col_table@);
    proof {
        if mem {
            assert forall|k: int| 0 <= k < n implies st.contains(#[trigger] si[k]) by {
                assert(si.to_multiset().count(si[k]) > 0);
                assert(col_input@.to_multiset().count(si[k]) > 0);
                assert(col_input@.contains(si[k]));
                let x = choose|m: int| 0 <= m < col_input@.len() && col_input@[m] == si[k];
                assert(col_table@.contains(col_input@[x]));
                assert(col_table@.to_multiset().count(si[k]) > 0);
                assert(st.to_multiset().count(si[k]) > 0);
            }
        }
    }

    let mut pt: Vec<u64> = Vec::new();
    while pt.len() < n
        invariant
            pt@.len() <= n,
        decreases n - pt@.len(),
    {
        pt.push(0);
    }

    let mut unused_vals: Vec<u64> = Vec::new();
    let mut uv: usize = 0;
    let mut unused_inds: Vec<usize> = Vec::new();
    let mut ui: usize = 0;
    let mut i: usize = 0;
    let mut j: usize = 0;
    let ghost mut filled = Seq::<bool>::new(n as nat, |k: int| false);
    let ghost mut fms = Multiset::<u64>::empty();
    proof {
        lemma_masked_ms_none(pt@, filled);
        assert(st.subrange(0, 0) =~= Seq::<u64>::empty());
        assert(unused_vals@.subrange(0, 0) =~= Seq::<u64>::empty());
        assert(st.subrange(0, 0).to_multiset() =~= fms.add(
            unused_vals@.subrange(0, 0).to_multiset(),
        ));
    }

    while i < n && j < n
        invariant
            n == col_input@.len(),
            si_v@ == si,
            st_v@ == st,
            si.len() == n,
            st.len() == n,
            crate::sort::sorted_u64(si),
            crate::sort::sorted_u64(st),
            mem ==> forall|k: int| 0 <= k < n ==> st.contains(#[trigger] si[k]),
            i <= n,
            j <= n,
            uv <= unused_vals@.len(),
            ui <= unused_inds@.len(),
            pt@.len() == n,
            // every banked table value was passed by both cursors
            forall|k: int|
                0 <= k < j ==> i < n ==> (#[trigger] st[k]) < si[i as int] || occurs_before(
                    si,
                    st[k],
                    i as int,
                ),
            // pending rows lie below the input cursor
            forall|t: int| ui <= t < unused_inds@.len() ==> #[trigger] unused_inds@[t] < i,
            // pending rows arrived in increasing order
            forall|t1: int, t2: int|
                ui <= t1 < t2 < unused_inds@.len() ==> (#[trigger] unused_inds@[t1])
                    < (#[trigger] unused_inds@[t2]),
            // under membership a pending row repeats its predecessor
            mem ==> forall|t: int|
                ui <= t < unused_inds@.len() ==> 0 < #[trigger] unused_inds@[t] && si[
                    unused_inds@[t] as int
                ] == si[unused_inds@[t] - 1],
            // rows already walked satisfy the disjunction
            mem ==> forall|k: int|
                0 < k < i ==> (#[trigger] pt@[k]) == si[k] || si[k] == si[k - 1],
            mem && i > 0 ==> pt@[0] == si[0],
            // bank bookkeeping balances out
            unused_inds@.len() - ui + n - i == unused_vals@.len() - uv + n - j,
            // which permuted-table rows are settled, and with what
            filled.len() == n,
            forall|k: int| i <= k < n ==> !(#[trigger] filled[k]),
            forall|t: int|
                ui <= t < unused_inds@.len() ==> !filled[#[trigger] unused_inds@[t] as int],
            forall|k: int|
                0 <= k < n && !(#[trigger] filled[k]) ==> k >= i || pending_has(
                    unused_inds@,
                    ui as int,
                    k,
                ),
            st.subrange(0, j as int).to_multiset() == fms.add(
                unused_vals@.subrange(uv as int, unused_vals@.len() as int).to_multiset(),
            ),
            masked_ms(pt@, filled) == fms,
        decreases n - i + n - j,
    {
        let iv = si_v[i];
        let tv = st_v[j];
        let ghost old_vals = unused_vals@;
        let ghost old_pt = pt@;
        let ghost old_filled = filled;
        if iv > tv {
            // table cursor behind: bank the table value
            unused_vals.push(tv);
            proof {
                lemma_subrange_push_multiset(st, j as int);
                lemma_bank_push(old_vals, uv as int, tv);
                assert(st.subrange(0, j + 1).to_multiset() =~= fms.add(
                    unused_vals@.subrange(uv as int, unused_vals@.len() as int).to_multiset(),
                ));
            }
            j = j + 1;
        } else if iv < tv {
            // input cursor behind: fill from the bank or record
            proof {
                if mem {
                    lemma_less_case_repeats(si, st, i as int, j as int, n as int);
                }
            }
            if uv < unused_vals.len() {
                let x = unused_vals[uv];
                pt[i] = x;
                proof {
                    lemma_masked_ms_fill(old_pt, old_filled, i as int, x);
                    lemma_bank_pop(old_vals, uv as int);
                    filled = filled.update(i as int, true);
                    fms = fms.insert(x);
                    assert(st.subrange(0, j as int).to_multiset() =~= fms.add(
                        unused_vals@.subrange(
                            uv + 1,
                            unused_vals@.len() as int,
                        ).to_multiset(),
                    ));
                }
                uv = uv + 1;
            } else {
                let ghost old_inds = unused_inds@;
                unused_inds.push(i);
                proof {
                    assert(unused_inds@[unused_inds@.len() - 1] == i);
                    assert forall|k: int|
                        0 <= k < n && !(#[trigger] filled[k]) implies k >= i + 1 || pending_has(
                        unused_inds@,
                        ui as int,
                        k,
                    ) by {
                        if k < i + 1 {
                            if k == i {
                                assert(unused_inds@[unused_inds@.len() - 1] == k);
                            } else {
                                assert(pending_has(old_inds, ui as int, k));
                                let t = choose|t: int|
                                    ui <= t < old_inds.len() && old_inds[t] == k;
                                assert(unused_inds@[t] == k);
                            }
                        }
                    }
                }
            }
            i = i + 1;
        } else {
            // match: the input value first appears against its own
            // table entry
            pt[i] = tv;
            proof {
                lemma_masked_ms_fill(old_pt, old_filled, i as int, tv);
                lemma_subrange_push_multiset(st, j as int);
                filled = filled.update(i as int, true);
                fms = fms.insert(tv);
                assert(st.subrange(0, j + 1).to_multiset() =~= fms.add(
                    unused_vals@.subrange(uv as int, unused_vals@.len() as int).to_multiset(),
                ));
            }
            i = i + 1;
            j = j + 1;
        }
    }

    let ghost i_exit = i as int;
    let ghost j_exit = j as int;
    proof {
        if mem && i < n {
            assert(j == n);
            lemma_leftover_repeats(si, st, i as int, n as int);
        }
    }

    // record whatever input rows are still unfilled
    while i < n
        invariant
            si_v@ == si,
            si.len() == n,
            i_exit <= i <= n,
            j == j_exit,
            j <= n,
            uv <= unused_vals@.len(),
            ui <= unused_inds@.len(),
            unused_inds@.len() - ui + n - i == unused_vals@.len() - uv + n - j,
            forall|t: int| ui <= t < unused_inds@.len() ==> #[trigger] unused_inds@[t] < i,
            forall|t1: int, t2: int|
                ui <= t1 < t2 < unused_inds@.len() ==> (#[trigger] unused_inds@[t1])
                    < (#[trigger] unused_inds@[t2]),
            mem ==> forall|t: int|
                ui <= t < unused_inds@.len() ==> 0 < #[trigger] unused_inds@[t] && si[
                    unused_inds@[t] as int
                ] == si[unused_inds@[t] - 1],
            mem && i_exit < n ==> 0 < i_exit,
            mem && i_exit < n ==> forall|k: int|
                i_exit <= k < n ==> #[trigger] si[k] == si[k - 1],
            filled.len() == n,
            forall|k: int| i <= k < n ==> !(#[trigger] filled[k]),
            forall|t: int|
                ui <= t < unused_inds@.len() ==> !filled[#[trigger] unused_inds@[t] as int],
            forall|k: int|
                0 <= k < n && !(#[trigger] filled[k]) ==> k >= i || pending_has(
                    unused_inds@,
                    ui as int,
                    k,
                ),
        decreases n - i,
    {
        proof {
            if mem {
                assert(0 < i && si[i as int] == si[i as int - 1]);
            }
        }
        let ghost old_inds = unused_inds@;
        unused_inds.push(i);
        proof {
            assert(unused_inds@[unused_inds@.len() - 1] == i);
            assert forall|k: int|
                0 <= k < n && !(#[trigger] filled[k]) implies k >= i + 1 || pending_has(
                unused_inds@,
                ui as int,
                k,
            ) by {
                if k < i + 1 {
                    if k == i {
                        assert(unused_inds@[unused_inds@.len() - 1] == k);
                    } else {
                        assert(pending_has(old_inds, ui as int, k));
                        let t = choose|t: int| ui <= t < old_inds.len() && old_inds[t] == k;
                        assert(unused_inds@[t] == k);
                    }
                }
            }
        }
        i = i + 1;
    }

    // bank whatever the table still holds
    while j < n
        invariant
            st_v@ == st,
            st.len() == n,
            j <= n,
            uv <= unused_vals@.len(),
            ui <= unused_inds@.len(),
            unused_inds@.len() - ui == unused_vals@.len() - uv + n - j,
            st.subrange(0, j as int).to_multiset() == fms.add(
                unused_vals@.subrange(uv as int, unused_vals@.len() as int).to_multiset(),
            ),
        decreases n - j,
    {
        let tv = st_v[j];
        let ghost old_vals = unused_vals@;
        unused_vals.push(tv);
        proof {
            lemma_subrange_push_multiset(st, j as int);
            lemma_bank_push(old_vals, uv as int, tv);
            assert(st.subrange(0, j + 1).to_multiset() =~= fms.add(
                unused_vals@.subrange(uv as int, unused_vals@.len() as int).to_multiset(),
            ));
        }
        j = j + 1;
    }

    // pair leftover rows with banked values, in arrival order
    proof {
        assert(st.subrange(0, n as int) =~= st);
    }
    while ui < unused_inds.len()
        invariant
            si_v@ == si,
            si.len() == n,
            pt@.len() == n,
            ui <= unused_inds@.len(),
            uv <= unused_vals@.len(),
            unused_inds@.len() - ui == unused_vals@.len() - uv,
            forall|t: int| ui <= t < unused_inds@.len() ==> #[trigger] unused_inds@[t] < n,
            forall|t1: int, t2: int|
                ui <= t1 < t2 < unused_inds@.len() ==> (#[trigger] unused_inds@[t1])
                    < (#[trigger] unused_inds@[t2]),
            mem ==> forall|t: int|
                ui <= t < unused_inds@.len() ==> 0 < #[trigger] unused_inds@[t] && si[
                    unused_inds@[t] as int
                ] == si[unused_inds@[t] - 1],
            mem ==> forall|k: int|
                0 < k < n ==> (#[trigger] pt@[k]) == si[k] || si[k] == si[k - 1],
            mem && n > 0 ==> pt@[0] == si[0],
            filled.len() == n,
            forall|t: int|
                ui <= t < unused_inds@.len() ==> !filled[#[trigger] unused_inds@[t] as int],
            forall|k: int|
                0 <= k < n && !(#[trigger] filled[k]) ==> pending_has(
                    unused_inds@,
                    ui as int,
                    k,
                ),
            st.to_multiset() == fms.add(
                unused_vals@.subrange(uv as int, unused_vals@.len() as int).to_multiset(),
            ),
            masked_ms(pt@, filled) == fms,
        decreases unused_inds@.len() - ui,
    {
        let bank_len = unused_vals.len();
        proof {
            assert(uv < bank_len);
        }
        let ind = unused_inds[ui];
        let x = unused_vals[uv];
        let ghost old_pt = pt@;
        let ghost old_filled = filled;
        let ghost old_vals = unused_vals@;
        pt[ind] = x;
        proof {
            lemma_masked_ms_fill(old_pt, old_filled, ind as int, x);
            lemma_bank_pop(old_vals, uv as int);
            filled = filled.update(ind as int, true);
            fms = fms.insert(x);
            assert(st.to_multiset() =~= fms.add(
                unused_vals@.subrange(uv + 1, unused_vals@.len() as int).to_multiset(),
            ));
            assert forall|k: int|
                0 <= k < n && !(#[trigger] filled[k]) implies pending_has(
                unused_inds@,
                ui + 1,
                k,
            ) by {
                assert(pending_has(unused_inds@, ui as int, k));
                let t = choose|t: int|
                    ui <= t < unused_inds@.len() && unused_inds@[t] == k;
                assert(t != ui);
            }
        }
        ui = ui + 1;
        uv = uv + 1;
    }

    proof {
        assert(unused_vals@.subrange(uv as int, unused_vals@.len() as int)
            =~= Seq::<u64>::empty());
        assert(st.to_multiset() =~= fms);
        assert forall|k: int| 0 <= k < n implies #[trigger] filled[k] by {
            if !filled[k] {
                assert(pending_has(unused_inds@, ui as int, k));
            }
        }
        lemma_masked_ms_all(pt@, filled);
        assert(pt@.to_multiset() == st.to_multiset());
        assert(st.to_multiset() == col_table@.to_multiset());
    }

    (si_v, pt)
}

/// In the merge walk, when the input cursor sits strictly below the
/// table cursor's value and every input value occurs in the table,
/// the current input entry must repeat its predecessor.
proof fn lemma_less_case_repeats(si: Seq<u64>, st: Seq<u64>, i: int, j: int, n: int)
    requires
        si.len() == n,
        st.len() == n,
        crate::sort::sorted_u64(si),
        crate::sort::sorted_u64(st),
        0 <= i < n,
        0 <= j < n,
        si[i] < st[j],
        st.contains(si[i]),
        forall|k: int|
            0 <= k < j ==> (#[trigger] st[k]) < si[i] || occurs_before(si, st[k], i),
    ensures
        0 < i,
        si[i] == si[i - 1],
{
    let m = choose|m: int| 0 <= m < st.len() && st[m] == si[i];
    assert(m < j);
    assert(st[m] < si[i] || occurs_before(si, st[m], i));
    assert(occurs_before(si, st[m], i));
    let w = choose|w: int| 0 <= w < i && si[w] == st[m];
    assert(si[w] <= si[i - 1] <= si[i]);
}

/// When the walk has consumed the whole table but inputs remain, and
/// every input value occurs in the table, each remaining input entry
/// repeats its predecessor.
proof fn lemma_leftover_repeats(si: Seq<u64>, st: Seq<u64>, i: int, n: int)
    requires
        si.len() == n,
        st.len() == n,
        crate::sort::sorted_u64(si),
        crate::sort::sorted_u64(st),
        0 <= i < n,
        forall|k: int| 0 <= k < n ==> st.contains(#[trigger] si[k]),
        forall|k: int| 0 <= k < n ==> (#[trigger] st[k]) < si[i] || occurs_before(si, st[k], i),
    ensures
        0 < i,
        forall|k: int| i <= k < n ==> #[trigger] si[k] == si[k - 1],
{
    if i == 0 {
        assert(st.contains(si[0]));
        let m = choose|m: int| 0 <= m < st.len() && st[m] == si[0];
        assert(st[m] < si[0] || occurs_before(si, st[m], 0));
        assert(false);
    }
    assert forall|k: int| i <= k < n implies #[trigger] si[k] == si[k - 1] by {
        assert(st.contains(si[k]));
        let m = choose|m: int| 0 <= m < st.len() && st[m] == si[k];
        assert(st[m] < si[i] || occurs_before(si, st[m], i));
        assert(si[i] <= si[k]);
        assert(occurs_before(si, st[m], i));
        let w = choose|w: int| 0 <= w < i && si[w] == st[m];
        assert(si[w] <= si[k - 1] <= si[k]);
    }
}

/// Evaluates the lookup argument's disjunction constraint on a
/// permuted pair, the executable counterpart of
/// `lookup_disjunction_ok`: on every row after the first the input
/// must repeat its predecessor or match the table beside it, and on
/// the first row it must match the table.
pub fn eval_lookups(permuted_input: &Vec<u64>, permuted_table: &Vec<u64>) -> (r: bool)
    requires
        permuted_input@.len() == permuted_table@.len(),
    ensures
        r == lookup_disjunction_ok(permuted_input@, permuted_table@),
{
    let n = permuted_input.len();
    if n == 0 {
        return true;
    }
    if permuted_input[0] != permuted_table[0] {
        return false;
    }
    let mut k: usize = 1;
    let mut ok: bool = true;
    while k < n
        invariant
            1 <= k <= n,
            n == permuted_input@.len(),
            n == permuted_table@.len(),
            ok == (forall|t: int|
                0 < t < k ==> permuted_input@[t] == permuted_input@[t - 1]
                    || #[trigger] permuted_input@[t] == permuted_table@[t]),
        decreases n - k,
    {
        if !(permuted_input[k] == permuted_input[k - 1] || permuted_input[k] == permuted_table[k]) {
            ok = false;
        }
        k = k + 1;
    }
    ok
}

} // verus!
