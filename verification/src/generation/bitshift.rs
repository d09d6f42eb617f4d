//! Generation of the Shift-Amount trace: the shift amounts of all
//! shifting rows, sorted and merged with the full legal domain 0..32,
//! padded with a not-executed marker.

use vstd::prelude::*;
use crate::bitshift::columns::ShiftAmountView;
use crate::cpu::columns::{cpu_row_wf, CpuColumnsView};
use crate::field::{fe_add, fe_add_spec};
use crate::sort::{sort_spec, sort_u64};
use crate::trace::{is_pow2, pad_trace, MAX_TRACE_LENGTH};

verus! {

/// The shift amounts of all rows on which a shifting class is
/// selected, in row order.
pub open spec fn shift_amounts_of(rows: Seq<CpuColumnsView>) -> Seq<u64>
    decreases rows.len(),
{
    if rows.len() == 0 {
        Seq::empty()
    } else if fe_add_spec(rows.last().inst.ops.sll as int, rows.last().inst.ops.srl as int)
        != 0 {
        shift_amounts_of(rows.drop_last()).push(rows.last().bitshift.amount)
    } else {
        shift_amounts_of(rows.drop_last())
    }
}

/// The merge walk of the sorted executed amounts with the legal
/// domain: an amount already covered by the domain cursor yields a
/// domain row, a duplicate amount yields an executed row, and domain
/// values nothing used yield not-executed rows.
pub open spec fn shift_merge(amts: Seq<u64>, d: int) -> Seq<ShiftAmountView>
    decreases amts.len(), 32 - d,
{
    if amts.len() == 0 && d >= 32 {
        Seq::empty()
    } else if amts.len() == 0 {
        seq![ShiftAmountView { is_executed: 0, executed: d as u64 }] + shift_merge(amts, d + 1)
    } else if d >= 32 {
        seq![ShiftAmountView { is_executed: 1, executed: amts.first() }] + shift_merge(
            amts.drop_first(),
            d,
        )
    } else if amts.first() < d as u64 {
        seq![ShiftAmountView { is_executed: 1, executed: amts.first() }] + shift_merge(
            amts.drop_first(),
            d,
        )
    } else if amts.first() == d as u64 {
        seq![ShiftAmountView { is_executed: 0, executed: amts.first() }] + shift_merge(
            amts.drop_first(),
            d + 1,
        )
    } else {
        seq![ShiftAmountView { is_executed: 0, executed: d as u64 }] + shift_merge(amts, d + 1)
    }
}

/// Generates the Shift-Amount trace of a CPU trace: the executed
/// amounts in sorted order merged with the domain 0..32, padded to a
/// power of two with the not-executed marker row.
pub fn generate_shift_amount_trace(cpu_trace: &Vec<CpuColumnsView>) -> (r: Vec<ShiftAmountView>)
    requires
        forall|i: int| 0 <= i < cpu_trace@.len() ==> cpu_row_wf(#[trigger] cpu_trace@[i]),
        cpu_trace@.len() + 32 <= MAX_TRACE_LENGTH,
    ensures
        is_pow2(r@.len() as int),
        r@.len() >= shift_merge(sort_spec(shift_amounts_of(cpu_trace@)), 0).len(),
        r@.subrange(0, shift_merge(sort_spec(shift_amounts_of(cpu_trace@)), 0).len() as int)
            == shift_merge(sort_spec(shift_amounts_of(cpu_trace@)), 0),
        forall|i: int|
            shift_merge(sort_spec(shift_amounts_of(cpu_trace@)), 0).len() <= i < r@.len()
                ==> #[trigger] r@[i] == (ShiftAmountView { is_executed: 0, executed: 31u64 }),
        shift_merge(sort_spec(shift_amounts_of(cpu_trace@)), 0).len() >= 1 ==> r@.len() < 2
            * shift_merge(sort_spec(shift_amounts_of(cpu_trace@)), 0).len(),
{
    let mut amts: Vec<u64> = Vec::new();
    let mut k: usize = 0;
    proof {
        assert(cpu_trace@.subrange(0, 0) =~= Seq::<CpuColumnsView>::empty());
    }
    while k < cpu_trace.len()
        invariant
            k <= cpu_trace@.len(),
            forall|i: int| 0 <= i < cpu_trace@.len() ==> cpu_row_wf(#[trigger] cpu_trace@[i]),
            amts@ == shift_amounts_of(cpu_trace@.subrange(0, k as int)),
            amts@.len() <= k,
        decreases cpu_trace@.len() - k,
    {
        let ghost pre = cpu_trace@.subrange(0, k as int);
        proof {
            assert(cpu_trace@.subrange(0, k + 1).drop_last() =~= pre);
            assert(cpu_trace@.subrange(0, k + 1).last() == cpu_trace@[k as int]);
        }
        let row = &cpu_trace[k];
        let gate = fe_add(row.inst.ops.sll, row.inst.ops.srl);
        if gate != 0 {
            amts.push(row.bitshift.amount);
        }
        k = k + 1;
    }
    proof {
        assert(cpu_trace@.subrange(0, cpu_trace@.len() as int) =~= cpu_trace@);
    }
    let sorted = sort_u64(amts);

    let ghost goal = shift_merge(sort_spec(shift_amounts_of(cpu_trace@)), 0);
    let mut body: Vec<ShiftAmountView> = Vec::new();
    let mut i: usize = 0;
    let mut d: usize = 0;
    proof {
        assert(sorted@.skip(0) =~= sorted@);
        assert(body@ + shift_merge(sorted@, 0) =~= shift_merge(sorted@, 0));
    }
    while i < sorted.len() || d < 32
        invariant
            i <= sorted@.len(),
            d <= 32,
            goal == body@ + shift_merge(sorted@.skip(i as int), d as int),
            body@.len() <= i + d,
            sorted@.len() + 32 <= MAX_TRACE_LENGTH,
        decreases sorted@.len() - i + 32 - d,
    {
        let ghost rest = sorted@.skip(i as int);
        let row: ShiftAmountView;
        if i < sorted.len() && (d >= 32 || sorted[i] <= d as u64) {
            let amt = sorted[i];
            if d < 32 && amt == d as u64 {
                row = ShiftAmountView { is_executed: 0, executed: amt };
                proof {
                    assert(rest.first() == sorted@[i as int]);
                    assert(rest.drop_first() =~= sorted@.skip(i + 1));
                    assert(body@ + (seq![row] + shift_merge(sorted@.skip(i + 1), d + 1)) =~= body@
                        .push(row) + shift_merge(sorted@.skip(i + 1), d + 1));
                }
                body.push(row);
                i = i + 1;
                d = d + 1;
            } else {
                row = ShiftAmountView { is_executed: 1, executed: amt };
                proof {
                    assert(rest.first() == sorted@[i as int]);
                    assert(rest.drop_first() =~= sorted@.skip(i + 1));
                    assert(body@ + (seq![row] + shift_merge(sorted@.skip(i + 1), d as int))
                        =~= body@.push(row) + shift_merge(sorted@.skip(i + 1), d as int));
                }
                body.push(row);
                i = i + 1;
            }
        } else {
            row = ShiftAmountView { is_executed: 0, executed: d as u64 };
            proof {
                assert(body@ + (seq![row] + shift_merge(rest, d + 1)) =~= body@.push(row)
                    + shift_merge(rest, d + 1));
            }
            body.push(row);
            d = d + 1;
        }
    }
    proof {
        assert(sorted@.skip(sorted@.len() as int) =~= Seq::<u64>::empty());
        assert(body@ + shift_merge(sorted@.skip(i as int), d as int) =~= body@);
    }
    pad_trace(body, ShiftAmountView { is_executed: 0, executed: 31 })
}

} // verus!
