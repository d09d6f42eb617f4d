//! Generation of the RangeCheck trace: the values the looking tables
//! claim to fit 32 bits are collected, split into two 16-bit limbs,
//! and each limb column is prepared for the permutation lookup
//! against the fixed 0..65535 table.

use vstd::prelude::*;
use crate::cpu::columns::{cpu_col_spec, cpu_col_value, cpu_row_wf, CpuCol, CpuColumnsView};
use crate::cross_table_lookup::{column_wf, ColumnX};
use crate::field::{fe_add, fe_add_spec, fe_mul, fe_mul_spec, is_fe};
use crate::lookup::{lookup_disjunction_ok, permute_cols};
use crate::memory::columns::Memory;
use crate::rangecheck::columns::RangeCheckTrace;
use crate::trace::{is_pow2, next_pow2, MAX_TRACE_LENGTH};

verus! {

/// The height floor of the RangeCheck trace: the fixed table must
/// hold all 2^16 limb values.
pub const RANGE_CHECK_U16_SIZE: usize = 0x1_0000;

/// The value of a linear combination of lookup-facing CPU columns on
/// one row.
pub open spec fn eval_terms_spec(
    terms: Seq<(CpuCol, u64)>,
    constant: u64,
    row: CpuColumnsView,
) -> int
    decreases terms.len(),
{
    if terms.len() == 0 {
        constant as int
    } else {
        fe_add_spec(
            eval_terms_spec(terms.drop_last(), constant, row),
            fe_mul_spec(terms.last().1 as int, cpu_col_spec(row, terms.last().0) as int),
        )
    }
}

/// The value of a lookup declaration's column on one row.
pub open spec fn eval_cpu_col_spec(c: ColumnX<CpuCol>, row: CpuColumnsView) -> int {
    eval_terms_spec(c.terms@, c.constant, row)
}

/// Evaluates a linear combination of lookup-facing CPU columns on
/// one row.
pub fn eval_cpu_col(c: &ColumnX<CpuCol>, row: &CpuColumnsView) -> (r: u64)
    requires
        column_wf(*c),
        cpu_row_wf(*row),
    ensures
        is_fe(r),
        r == eval_cpu_col_spec(*c, *row),
{
    let mut acc: u64 = c.constant;
    let mut k: usize = 0;
    proof {
        assert(c.terms@.subrange(0, 0) =~= Seq::<(CpuCol, u64)>::empty());
    }
    while k < c.terms.len()
        invariant
            k <= c.terms@.len(),
            column_wf(*c),
            cpu_row_wf(*row),
            is_fe(acc),
            acc == eval_terms_spec(c.terms@.subrange(0, k as int), c.constant, *row),
        decreases c.terms@.len() - k,
    {
        let ghost pre = c.terms@.subrange(0, k as int);
        let (col, coeff) = c.terms[k];
        let v = cpu_col_value(row, col);
        proof {
            lemma_cpu_col_wf(*row, col);
            assert(c.terms@.subrange(0, k + 1).drop_last() =~= pre);
            assert(c.terms@.subrange(0, k + 1).last() == c.terms@[k as int]);
        }
        acc = fe_add(acc, fe_mul(coeff, v));
        k = k + 1;
    }
    proof {
        assert(c.terms@.subrange(0, c.terms@.len() as int) =~= c.terms@);
    }
    acc
}

/// Every lookup-facing CPU column of a well-formed row is canonical.
proof fn lemma_cpu_col_wf(row: CpuColumnsView, col: CpuCol)
    requires
        cpu_row_wf(row),
    ensures
        is_fe(cpu_col_spec(row, col)),
{
    let o = crate::cpu::columns::ops_seq(row.inst.ops);
    assert(o[0] == row.inst.ops.add && o[2] == row.inst.ops.xor && o[3] == row.inst.ops.or
        && o[4] == row.inst.ops.and && o[9] == row.inst.ops.sll && o[12] == row.inst.ops.srl);
}

/// The values one CPU-side declaration contributes: the projected
/// column of every row whose filter evaluates to one.
pub open spec fn extract_spec(
    rows: Seq<CpuColumnsView>,
    data: ColumnX<CpuCol>,
    filter: ColumnX<CpuCol>,
) -> Seq<u64>
    decreases rows.len(),
{
    if rows.len() == 0 {
        Seq::empty()
    } else {
        let rest = extract_spec(rows.drop_last(), data, filter);
        if eval_cpu_col_spec(filter, rows.last()) == 1 {
            rest.push(eval_cpu_col_spec(data, rows.last()) as u64)
        } else {
            rest
        }
    }
}

/// Extracts the values one CPU-side declaration contributes: the
/// single projected column of every row whose filter is one.
pub fn extract(
    trace: &Vec<CpuColumnsView>,
    data: &ColumnX<CpuCol>,
    filter: &ColumnX<CpuCol>,
) -> (r: Vec<u64>)
    requires
        column_wf(*data),
        column_wf(*filter),
        forall|i: int| 0 <= i < trace@.len() ==> cpu_row_wf(#[trigger] trace@[i]),
    ensures
        r@ == extract_spec(trace@, *data, *filter),
        r@.len() <= trace@.len(),
{
    let mut out: Vec<u64> = Vec::new();
    let mut k: usize = 0;
    proof {
        assert(trace@.subrange(0, 0) =~= Seq::<CpuColumnsView>::empty());
    }
    while k < trace.len()
        invariant
            k <= trace@.len(),
            column_wf(*data),
            column_wf(*filter),
            forall|i: int| 0 <= i < trace@.len() ==> cpu_row_wf(#[trigger] trace@[i]),
            out@ == extract_spec(trace@.subrange(0, k as int), *data, *filter),
            out@.len() <= k,
        decreases trace@.len() - k,
    {
        let ghost pre = trace@.subrange(0, k as int);
        proof {
            assert(trace@.subrange(0, k + 1).drop_last() =~= pre);
            assert(trace@.subrange(0, k + 1).last() == trace@[k as int]);
        }
        let row = &trace[k];
        let f = eval_cpu_col(filter, row);
        if f == 1 {
            let v = eval_cpu_col(data, row);
            out.push(v);
        }
        k = k + 1;
    }
    proof {
        assert(trace@.subrange(0, trace@.len() as int) =~= trace@);
    }
    out
}

/// The values the CPU's range-check declaration contributes: the
/// destination value of every row whose ADD selector is set.
pub open spec fn rc_cpu_values(rows: Seq<CpuColumnsView>) -> Seq<u64>
    decreases rows.len(),
{
    if rows.len() == 0 {
        Seq::empty()
    } else if rows.last().inst.ops.add == 1 {
        rc_cpu_values(rows.drop_last()).push(rows.last().dst_value)
    } else {
        rc_cpu_values(rows.drop_last())
    }
}

/// On well-formed rows, the generic extraction along the CPU's
/// range-check declaration yields exactly the ADD rows' destination
/// values.
proof fn lemma_extract_is_rc(
    rows: Seq<CpuColumnsView>,
    data: ColumnX<CpuCol>,
    filter: ColumnX<CpuCol>,
)
    requires
        forall|i: int| 0 <= i < rows.len() ==> cpu_row_wf(#[trigger] rows[i]),
        data.terms@ == seq![(CpuCol::DstValue, 1u64)],
        data.constant == 0,
        filter.terms@ == seq![(CpuCol::OpAdd, 1u64)],
        filter.constant == 0,
    ensures
        extract_spec(rows, data, filter) == rc_cpu_values(rows),
    decreases rows.len(),
{
    if rows.len() > 0 {
        assert(forall|i: int|
            0 <= i < rows.drop_last().len() ==> cpu_row_wf(#[trigger] rows.drop_last()[i]));
        lemma_extract_is_rc(rows.drop_last(), data, filter);
        let lv = rows.last();
        let o = crate::cpu::columns::ops_seq(lv.inst.ops);
        assert(o[0] == lv.inst.ops.add);
        let ft = filter.terms@;
        let dt = data.terms@;
        assert(ft.len() == 1 && ft.last() == (CpuCol::OpAdd, 1u64));
        assert(dt.len() == 1 && dt.last() == (CpuCol::DstValue, 1u64));
        assert(ft.drop_last() =~= Seq::<(CpuCol, u64)>::empty());
        assert(dt.drop_last() =~= Seq::<(CpuCol, u64)>::empty());
        assert(eval_terms_spec(ft.drop_last(), 0, lv) == 0);
        assert(eval_terms_spec(dt.drop_last(), 0, lv) == 0);
        assert(cpu_col_spec(lv, CpuCol::OpAdd) == lv.inst.ops.add);
        assert(cpu_col_spec(lv, CpuCol::DstValue) == lv.dst_value);
        assert(eval_cpu_col_spec(filter, lv) == fe_add_spec(
            0,
            fe_mul_spec(1, lv.inst.ops.add as int),
        ));
        assert(eval_cpu_col_spec(data, lv) == fe_add_spec(
            0,
            fe_mul_spec(1, lv.dst_value as int),
        ));
        assert(fe_add_spec(0, fe_mul_spec(1, lv.inst.ops.add as int)) == lv.inst.ops.add as int);
        assert(fe_add_spec(0, fe_mul_spec(1, lv.dst_value as int)) == lv.dst_value as int);
    }
}

/// The address differences of all real Memory rows.
pub open spec fn mem_diff_addr_seq(rows: Seq<Memory>) -> Seq<u64>
    decreases rows.len(),
{
    if rows.len() == 0 {
        Seq::empty()
    } else if rows.last().is_executed == 1 {
        mem_diff_addr_seq(rows.drop_last()).push(rows.last().diff_addr)
    } else {
        mem_diff_addr_seq(rows.drop_last())
    }
}

/// The clock differences of all real Memory rows.
pub open spec fn mem_diff_clk_seq(rows: Seq<Memory>) -> Seq<u64>
    decreases rows.len(),
{
    if rows.len() == 0 {
        Seq::empty()
    } else if rows.last().is_executed == 1 {
        mem_diff_clk_seq(rows.drop_last()).push(rows.last().diff_clk)
    } else {
        mem_diff_clk_seq(rows.drop_last())
    }
}

/// All values the RangeCheck table receives: the CPU's destination
/// values on ADD rows, then the Memory table's address and clock
/// differences on real rows.
pub open spec fn rc_values_spec(cpu: Seq<CpuColumnsView>, mem: Seq<Memory>) -> Seq<u64> {
    rc_cpu_values(cpu) + mem_diff_addr_seq(mem) + mem_diff_clk_seq(mem)
}

/// Extracts the Memory-side values: one chosen difference column of
/// every real row.
fn extract_memory(trace: &Vec<Memory>, clk_side: bool) -> (r: Vec<u64>)
    ensures
        !clk_side ==> r@ == mem_diff_addr_seq(trace@),
        clk_side ==> r@ == mem_diff_clk_seq(trace@),
        r@.len() <= trace@.len(),
{
    let mut out: Vec<u64> = Vec::new();
    let mut k: usize = 0;
    proof {
        assert(trace@.subrange(0, 0) =~= Seq::<Memory>::empty());
    }
    while k < trace.len()
        invariant
            k <= trace@.len(),
            !clk_side ==> out@ == mem_diff_addr_seq(trace@.subrange(0, k as int)),
            clk_side ==> out@ == mem_diff_clk_seq(trace@.subrange(0, k as int)),
            out@.len() <= k,
        decreases trace@.len() - k,
    {
        let ghost pre = trace@.subrange(0, k as int);
        proof {
            assert(trace@.subrange(0, k + 1).drop_last() =~= pre);
            assert(trace@.subrange(0, k + 1).last() == trace@[k as int]);
        }
        let row = &trace[k];
        if row.is_executed == 1 {
            if clk_side {
                out.push(row.diff_clk);
            } else {
                out.push(row.diff_addr);
            }
        }
        k = k + 1;
    }
    proof {
        assert(trace@.subrange(0, trace@.len() as int) =~= trace@);
    }
    out
}

/// Generates the RangeCheck trace of the looking tables' claims:
/// each value is split into two 16-bit limbs, the fixed 0..65535
/// table is laid down (padded with its largest value), and both limb
/// columns are permuted for the lookup argument, whose disjunction
/// the result satisfies.
pub fn generate_rangecheck_trace(
    cpu_trace: &Vec<CpuColumnsView>,
    memory_trace: &Vec<Memory>,
) -> (r: RangeCheckTrace)
    requires
        forall|i: int| 0 <= i < cpu_trace@.len() ==> cpu_row_wf(#[trigger] cpu_trace@[i]),
        cpu_trace@.len() + 2 * memory_trace@.len() <= MAX_TRACE_LENGTH,
        forall|i: int|
            0 <= i < rc_values_spec(cpu_trace@, memory_trace@).len() ==> #[trigger] rc_values_spec(
                cpu_trace@,
                memory_trace@,
            )[i] < 0x1_0000_0000,
    ensures
        ({
            let vals = rc_values_spec(cpu_trace@, memory_trace@);
            let n = r.val@.len() as int;
            &&& is_pow2(n)
            &&& n >= RANGE_CHECK_U16_SIZE
            &&& n >= vals.len()
            &&& r.limb_lo@.len() == n
            &&& r.limb_hi@.len() == n
            &&& r.cpu_filter@.len() == n
            &&& r.fixed_range_check_u16@.len() == n
            &&& forall|i: int|
                0 <= i < n ==> #[trigger] r.val@[i] == (if i < vals.len() {
                    vals[i]
                } else {
                    0u64
                })
            &&& forall|i: int|
                0 <= i < n ==> #[trigger] r.limb_lo@[i] == (if i < vals.len() {
                    vals[i] & 0xffff
                } else {
                    0u64
                })
            &&& forall|i: int|
                0 <= i < n ==> #[trigger] r.limb_hi@[i] == (if i < vals.len() {
                    vals[i] >> 16
                } else {
                    0u64
                })
            &&& forall|i: int|
                0 <= i < n ==> #[trigger] r.cpu_filter@[i] == (if i < vals.len() {
                    1u64
                } else {
                    0u64
                })
            &&& forall|i: int|
                0 <= i < n ==> #[trigger] r.fixed_range_check_u16@[i] == (if i
                    < RANGE_CHECK_U16_SIZE {
                    i as u64
                } else {
                    0xffffu64
                })
            &&& lookup_disjunction_ok(r.limb_lo_permuted@, r.fixed_range_check_u16_permuted_lo@)
            &&& lookup_disjunction_ok(r.limb_hi_permuted@, r.fixed_range_check_u16_permuted_hi@)
            &&& r.limb_lo_permuted@.to_multiset() == r.limb_lo@.to_multiset()
            &&& r.limb_hi_permuted@.to_multiset() == r.limb_hi@.to_multiset()
        }),
{
    let data = ColumnX::single(CpuCol::DstValue);
    let filter = ColumnX::single(CpuCol::OpAdd);
    proof {
        assert(data.terms@ == seq![(CpuCol::DstValue, 1u64)]);
        assert(filter.terms@ == seq![(CpuCol::OpAdd, 1u64)]);
        lemma_extract_is_rc(cpu_trace@, data, filter);
    }
    let mut vals = extract(cpu_trace, &data, &filter);
    let mut mem_addr_vals = extract_memory(memory_trace, false);
    let mut mem_clk_vals = extract_memory(memory_trace, true);
    let ghost goal_vals = rc_values_spec(cpu_trace@, memory_trace@);
    vals.append(&mut mem_addr_vals);
    vals.append(&mut mem_clk_vals);
    proof {
        assert(vals@ =~= goal_vals);
    }

    let len = vals.len();
    let base = if len > RANGE_CHECK_U16_SIZE {
        len
    } else {
        RANGE_CHECK_U16_SIZE
    };
    let n = next_pow2(base);

    let mut val_col: Vec<u64> = Vec::new();
    let mut lo_col: Vec<u64> = Vec::new();
    let mut hi_col: Vec<u64> = Vec::new();
    let mut filter_col: Vec<u64> = Vec::new();
    let mut fixed_col: Vec<u64> = Vec::new();
    let mut i: usize = 0;
    while i < n
        invariant
            i <= n,
            len == vals@.len(),
            vals@ == goal_vals,
            forall|t: int| 0 <= t < len ==> #[trigger] vals@[t] < 0x1_0000_0000,
            val_col@.len() == i,
            lo_col@.len() == i,
            hi_col@.len() == i,
            filter_col@.len() == i,
            fixed_col@.len() == i,
            forall|t: int|
                0 <= t < i ==> #[trigger] val_col@[t] == (if t < len {
                    vals@[t]
                } else {
                    0u64
                }),
            forall|t: int|
                0 <= t < i ==> #[trigger] lo_col@[t] == (if t < len {
                    vals@[t] & 0xffff
                } else {
                    0u64
                }),
            forall|t: int|
                0 <= t < i ==> #[trigger] hi_col@[t] == (if t < len {
                    vals@[t] >> 16
                } else {
                    0u64
                }),
            forall|t: int|
                0 <= t < i ==> #[trigger] filter_col@[t] == (if t < len {
                    1u64
                } else {
                    0u64
                }),
            forall|t: int|
                0 <= t < i ==> #[trigger] fixed_col@[t] == (if t < RANGE_CHECK_U16_SIZE {
                    t as u64
                } else {
                    0xffffu64
                }),
            forall|t: int| 0 <= t < i ==> #[trigger] lo_col@[t] < 0x1_0000,
            forall|t: int| 0 <= t < i ==> #[trigger] hi_col@[t] < 0x1_0000,
        decreases n - i,
    {
        if i < len {
            let v = vals[i];
            proof {
                assert(v < 0x1_0000_0000 ==> (v & 0xffff) < 0x1_0000 && (v >> 16) < 0x1_0000)
                    by (bit_vector);
            }
            val_col.push(v);
            lo_col.push(v & 0xffff);
            hi_col.push(v >> 16);
            filter_col.push(1);
        } else {
            val_col.push(0);
            lo_col.push(0);
            hi_col.push(0);
            filter_col.push(0);
        }
        if i < RANGE_CHECK_U16_SIZE {
            fixed_col.push(i as u64);
        } else {
            fixed_col.push(0xffff);
        }
        i = i + 1;
    }

    proof {
        assert forall|t: int| 0 <= t < n implies fixed_col@.contains(#[trigger] lo_col@[t]) by {
            assert(fixed_col@[lo_col@[t] as int] == lo_col@[t]);
        }
        assert forall|t: int| 0 <= t < n implies fixed_col@.contains(#[trigger] hi_col@[t]) by {
            assert(fixed_col@[hi_col@[t] as int] == hi_col@[t]);
        }
    }
    let lo_pair = permute_cols(&lo_col, &fixed_col);
    let hi_pair = permute_cols(&hi_col, &fixed_col);

    RangeCheckTrace {
        val: val_col,
        limb_lo: lo_col,
        limb_hi: hi_col,
        cpu_filter: filter_col,
        limb_lo_permuted: lo_pair.0,
        limb_hi_permuted: hi_pair.0,
        fixed_range_check_u16: fixed_col,
        fixed_range_check_u16_permuted_lo: lo_pair.1,
        fixed_range_check_u16_permuted_hi: hi_pair.1,
    }
}

} // verus!
