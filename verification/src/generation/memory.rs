//! Generation of the Memory trace: the static memory image and the
//! runtime accesses are laid out as rows, merged by address with
//! initialization first, the inter-row difference columns are filled
//! in one linear pass, and the trace is padded to a power of two.

use vstd::prelude::*;
use crate::field::{fe_invertible, fe_sub, fe_sub_spec, fe_try_inverse, is_fe, FIELD_ORDER};
use crate::memory::columns::{Memory, OPCODE_LBU, OPCODE_SB};
use crate::record::{contains_addr, data_map_wf, map_contains_addr, program_wf, Op, Program, Row};
use crate::trace::{is_pow2, pad_trace, MAX_TRACE_LENGTH};

verus! {

/// One row of the static initialization trace.
pub open spec fn init_row_spec(writable: u64, addr: u32, value: u8) -> Memory {
    Memory {
        is_executed: 1,
        is_writable: writable,
        is_init: 1,
        addr: addr as u64,
        clk: 0,
        op: 0,
        value: value as u64,
        diff_addr: 0,
        diff_addr_inv: 0,
        diff_clk: 0,
    }
}

/// The initialization rows of one address/byte map, in map order.
pub open spec fn init_rows_of(m: Seq<(u32, u8)>, writable: u64) -> Seq<Memory>
    decreases m.len(),
{
    if m.len() == 0 {
        Seq::empty()
    } else {
        init_rows_of(m.drop_last(), writable).push(
            init_row_spec(writable, m.last().0, m.last().1),
        )
    }
}

/// The operation tag of a step's instruction class.
pub open spec fn mem_op_tag(op: Op) -> u64 {
    match op {
        Op::SB => OPCODE_SB,
        Op::LBU => OPCODE_LBU,
        _ => 0,
    }
}

/// One row of the runtime access trace.
pub open spec fn exec_row_spec(p: Program, r: Row) -> Memory {
    Memory {
        is_executed: 1,
        is_writable: if map_contains_addr(p.rw_memory@, r.mem_addr->0) { 1u64 } else { 0u64 },
        is_init: 0,
        addr: r.mem_addr->0 as u64,
        clk: r.clk as u64,
        op: mem_op_tag(r.inst.op),
        value: r.dst_val as u64,
        diff_addr: 0,
        diff_addr_inv: 0,
        diff_clk: 0,
    }
}

/// The access rows of the execution record, in step order: one row
/// per step that touches memory.
pub open spec fn mem_rows_of(p: Program, rows: Seq<Row>) -> Seq<Memory>
    decreases rows.len(),
{
    if rows.len() == 0 {
        Seq::empty()
    } else {
        let rest = mem_rows_of(p, rows.drop_last());
        if rows.last().mem_addr is Some {
            rest.push(exec_row_spec(p, rows.last()))
        } else {
            rest
        }
    }
}

/// Stable insertion of a row into an address-sorted trace: the new
/// row goes after every row whose address is not above its own.
pub open spec fn insert_by_addr(s: Seq<Memory>, x: Memory) -> Seq<Memory>
    decreases s.len(),
{
    if s.len() == 0 {
        seq![x]
    } else if x.addr < s.last().addr {
        insert_by_addr(s.drop_last(), x).push(s.last())
    } else {
        s.push(x)
    }
}

/// Stable sort of a trace by address, as the fold of stable
/// insertions.
pub open spec fn sort_rows_by_addr(s: Seq<Memory>) -> Seq<Memory>
    decreases s.len(),
{
    if s.len() == 0 {
        s
    } else {
        insert_by_addr(sort_rows_by_addr(s.drop_last()), s.last())
    }
}

/// Merge of two address-sorted traces; on equal addresses the left
/// (initialization) side goes first.
pub open spec fn merge_by_addr(a: Seq<Memory>, b: Seq<Memory>) -> Seq<Memory>
    decreases a.len() + b.len(),
{
    if a.len() == 0 {
        b
    } else if b.len() == 0 {
        a
    } else if a.first().addr <= b.first().addr {
        seq![a.first()] + merge_by_addr(a.drop_first(), b)
    } else {
        seq![b.first()] + merge_by_addr(a, b.drop_first())
    }
}

/// The linear pass that fills the inter-row difference columns:
/// `diff_addr` is the field difference to the previous row's address,
/// and `diff_clk` the clock difference while the address repeats.
/// The inverse column is left zero here; the generator pins it by its
/// inverse property instead.
pub open spec fn diff_fix(s: Seq<Memory>, last_addr: u64, last_clk: u64) -> Seq<Memory>
    decreases s.len(),
{
    if s.len() == 0 {
        s
    } else {
        let m = s.first();
        let fixed = Memory {
            diff_addr: fe_sub_spec(m.addr as int, last_addr as int) as u64,
            diff_addr_inv: 0,
            diff_clk: if m.addr == last_addr {
                fe_sub_spec(m.clk as int, last_clk as int) as u64
            } else {
                0u64
            },
            ..m
        };
        seq![fixed] + diff_fix(s.drop_first(), m.addr, m.clk)
    }
}

/// A row with its stored inverse cleared.
pub open spec fn clear_inv_row(m: Memory) -> Memory {
    Memory { diff_addr_inv: 0, ..m }
}

/// A trace with every stored inverse cleared.
pub open spec fn clear_inv(s: Seq<Memory>) -> Seq<Memory> {
    s.map_values(|m: Memory| clear_inv_row(m))
}

proof fn lemma_clear_inv_push(s: Seq<Memory>, x: Memory)
    ensures
        clear_inv(s.push(x)) =~= clear_inv(s).push(clear_inv_row(x)),
{
}

/// Equality of two Memory rows on every column but the stored
/// inverse.
pub open spec fn mem_eq_mod_inv(a: Memory, b: Memory) -> bool {
    clear_inv_row(a) == clear_inv_row(b)
}

/// The whole unpadded memory trace of a program and its accesses,
/// with the inverse column left zero.
pub open spec fn memory_trace_spec(p: Program, step_rows: Seq<Row>) -> Seq<Memory> {
    let init = merge_by_addr(init_rows_of(p.ro_memory@, 0), init_rows_of(p.rw_memory@, 1));
    let accesses = sort_rows_by_addr(mem_rows_of(p, step_rows));
    diff_fix(merge_by_addr(init, accesses), 0, 0)
}

/// The row the memory trace is padded with: the last row with its
/// flags and difference columns cleared, or an all-zero row when the
/// trace is empty.
pub open spec fn mem_pad_row(s: Seq<Memory>) -> Memory {
    let base: Memory = if s.len() > 0 {
        s.last()
    } else {
        Memory {
            is_executed: 0,
            is_writable: 0,
            is_init: 0,
            addr: 0,
            clk: 0,
            op: 0,
            value: 0,
            diff_addr: 0,
            diff_addr_inv: 0,
            diff_clk: 0,
        }
    };
    Memory { is_executed: 0, is_init: 0, diff_addr: 0, diff_addr_inv: 0, diff_clk: 0, ..base }
}

/// Whether a trace is ordered by address.
pub open spec fn rows_sorted_by_addr(s: Seq<Memory>) -> bool {
    forall|i: int, j: int|
        0 <= i < j < s.len() ==> (#[trigger] s[i]).addr <= (#[trigger] s[j]).addr
}

proof fn lemma_init_rows_index(m: Seq<(u32, u8)>, writable: u64)
    ensures
        init_rows_of(m, writable).len() == m.len(),
        forall|i: int|
            0 <= i < m.len() ==> #[trigger] init_rows_of(m, writable)[i] == init_row_spec(
                writable,
                m[i].0,
                m[i].1,
            ),
    decreases m.len(),
{
    if m.len() > 0 {
        lemma_init_rows_index(m.drop_last(), writable);
    }
}

proof fn lemma_init_rows_sorted(m: Seq<(u32, u8)>, writable: u64)
    requires
        data_map_wf(m),
    ensures
        rows_sorted_by_addr(init_rows_of(m, writable)),
{
    lemma_init_rows_index(m, writable);
}

proof fn lemma_insert_addr_bound(s: Seq<Memory>, x: Memory, b: u64)
    requires
        forall|i: int| 0 <= i < s.len() ==> (#[trigger] s[i]).addr <= b,
        x.addr <= b,
    ensures
        forall|i: int|
            0 <= i < insert_by_addr(s, x).len() ==> (#[trigger] insert_by_addr(s, x)[i]).addr
                <= b,
    decreases s.len(),
{
    if s.len() == 0 {
    } else if x.addr < s.last().addr {
        assert(forall|i: int|
            0 <= i < s.drop_last().len() ==> (#[trigger] s.drop_last()[i]).addr <= b);
        lemma_insert_addr_bound(s.drop_last(), x, b);
        let inner = insert_by_addr(s.drop_last(), x);
        assert forall|i: int|
            0 <= i < inner.push(s.last()).len() implies (#[trigger] inner.push(
            s.last(),
        )[i]).addr <= b by {
            if i == inner.len() {
                assert(inner.push(s.last())[i] == s.last());
            }
        }
    } else {
        assert forall|i: int|
            0 <= i < s.push(x).len() implies (#[trigger] s.push(x)[i]).addr <= b by {
            if i == s.len() {
                assert(s.push(x)[i] == x);
            }
        }
    }
}

proof fn lemma_insert_sorted_rows(s: Seq<Memory>, x: Memory)
    requires
        rows_sorted_by_addr(s),
    ensures
        rows_sorted_by_addr(insert_by_addr(s, x)),
    decreases s.len(),
{
    if s.len() == 0 {
    } else if x.addr < s.last().addr {
        assert(rows_sorted_by_addr(s.drop_last()));
        lemma_insert_sorted_rows(s.drop_last(), x);
        assert(forall|i: int|
            0 <= i < s.drop_last().len() ==> (#[trigger] s.drop_last()[i]).addr
                <= s.last().addr);
        lemma_insert_addr_bound(s.drop_last(), x, s.last().addr);
        let inner = insert_by_addr(s.drop_last(), x);
        assert forall|i: int, j: int|
            0 <= i < j < inner.push(s.last()).len() implies (#[trigger] inner.push(
            s.last(),
        )[i]).addr <= (#[trigger] inner.push(s.last())[j]).addr by {
            if j < inner.len() {
            } else {
                assert(inner.push(s.last())[i] == inner[i]);
            }
        }
    } else {
        assert forall|i: int, j: int|
            0 <= i < j < s.push(x).len() implies (#[trigger] s.push(x)[i]).addr <= (
        #[trigger] s.push(x)[j]).addr by {
            if j < s.len() {
            } else {
                assert(s.push(x)[i] == s[i]);
                assert(s[i].addr <= s.last().addr);
            }
        }
    }
}

proof fn lemma_sort_rows_sorted(s: Seq<Memory>)
    ensures
        rows_sorted_by_addr(sort_rows_by_addr(s)),
    decreases s.len(),
{
    if s.len() > 0 {
        lemma_sort_rows_sorted(s.drop_last());
        lemma_insert_sorted_rows(sort_rows_by_addr(s.drop_last()), s.last());
    }
}

proof fn lemma_merge_sorted(a: Seq<Memory>, b: Seq<Memory>)
    requires
        rows_sorted_by_addr(a),
        rows_sorted_by_addr(b),
    ensures
        rows_sorted_by_addr(merge_by_addr(a, b)),
        merge_by_addr(a, b).len() == a.len() + b.len(),
        merge_by_addr(a, b).len() > 0 ==> ((a.len() > 0 && merge_by_addr(a, b)[0] == a[0]) || (
        b.len() > 0 && merge_by_addr(a, b)[0] == b[0])),
    decreases a.len() + b.len(),
{
    if a.len() == 0 || b.len() == 0 {
    } else {
        let c = merge_by_addr(a, b);
        if a.first().addr <= b.first().addr {
            assert(rows_sorted_by_addr(a.drop_first()));
            lemma_merge_sorted(a.drop_first(), b);
            let rest = merge_by_addr(a.drop_first(), b);
            assert(c == seq![a.first()] + rest);
            assert forall|i: int, j: int|
                0 <= i < j < c.len() implies (#[trigger] c[i]).addr <= (#[trigger] c[j]).addr by {
                if i > 0 {
                    assert(c[i] == rest[i - 1] && c[j] == rest[j - 1]);
                } else {
                    assert(c[j] == rest[j - 1]);
                    assert(rest[0].addr <= rest[j - 1].addr);
                    if a.drop_first().len() > 0 && rest[0] == a.drop_first()[0] {
                        assert(a[0].addr <= a[1].addr);
                    }
                }
            }
        } else {
            assert(rows_sorted_by_addr(b.drop_first()));
            lemma_merge_sorted(a, b.drop_first());
            let rest = merge_by_addr(a, b.drop_first());
            assert(c == seq![b.first()] + rest);
            assert forall|i: int, j: int|
                0 <= i < j < c.len() implies (#[trigger] c[i]).addr <= (#[trigger] c[j]).addr by {
                if i > 0 {
                    assert(c[i] == rest[i - 1] && c[j] == rest[j - 1]);
                } else {
                    assert(c[j] == rest[j - 1]);
                    assert(rest[0].addr <= rest[j - 1].addr);
                    if b.drop_first().len() > 0 && rest[0] == b.drop_first()[0] {
                        assert(b[0].addr <= b[1].addr);
                    }
                }
            }
        }
    }
}

proof fn lemma_diff_fix_addr(s: Seq<Memory>, last_addr: u64, last_clk: u64)
    ensures
        diff_fix(s, last_addr, last_clk).len() == s.len(),
        forall|i: int|
            0 <= i < s.len() ==> (#[trigger] diff_fix(s, last_addr, last_clk)[i]).addr
                == s[i].addr,
    decreases s.len(),
{
    if s.len() > 0 {
        lemma_diff_fix_addr(s.drop_first(), s.first().addr, s.first().clk);
        let d = diff_fix(s, last_addr, last_clk);
        let rest = diff_fix(s.drop_first(), s.first().addr, s.first().clk);
        assert forall|i: int| 0 <= i < s.len() implies (#[trigger] d[i]).addr == s[i].addr by {
            if i > 0 {
                assert(d[i] == rest[i - 1]);
                assert(s.drop_first()[i - 1] == s[i]);
            }
        }
    }
}

/// The Memory table keeps one address's rows together: the unpadded
/// trace is ordered by address, so all rows sharing an address are
/// consecutive, an access row following its address's
/// initialization row; their clock and address differences are
/// pinned pointwise by the difference pass.
pub proof fn lemma_memory_trace_grouped(p: Program, step_rows: Seq<Row>)
    requires
        program_wf(p),
    ensures
        rows_sorted_by_addr(memory_trace_spec(p, step_rows)),
        forall|i: int, k: int, j: int|
            0 <= i < k && k < j < memory_trace_spec(p, step_rows).len()
                && (#[trigger] memory_trace_spec(p, step_rows)[i]).addr == (
            #[trigger] memory_trace_spec(p, step_rows)[j]).addr ==> (
            #[trigger] memory_trace_spec(p, step_rows)[k]).addr == memory_trace_spec(
                p,
                step_rows,
            )[i].addr,
{
    lemma_init_rows_sorted(p.ro_memory@, 0);
    lemma_init_rows_sorted(p.rw_memory@, 1);
    lemma_merge_sorted(init_rows_of(p.ro_memory@, 0), init_rows_of(p.rw_memory@, 1));
    lemma_sort_rows_sorted(mem_rows_of(p, step_rows));
    let init = merge_by_addr(init_rows_of(p.ro_memory@, 0), init_rows_of(p.rw_memory@, 1));
    let accesses = sort_rows_by_addr(mem_rows_of(p, step_rows));
    lemma_merge_sorted(init, accesses);
    lemma_diff_fix_addr(merge_by_addr(init, accesses), 0, 0);
}

/// A row whose address and clock fit the 32-bit machine.
pub open spec fn mem_row_small(m: Memory) -> bool {
    m.addr < 0x1_0000_0000 && m.clk < 0x1_0000_0000
}

proof fn lemma_merge_len_small(a: Seq<Memory>, b: Seq<Memory>)
    requires
        forall|i: int| 0 <= i < a.len() ==> mem_row_small(#[trigger] a[i]),
        forall|i: int| 0 <= i < b.len() ==> mem_row_small(#[trigger] b[i]),
    ensures
        merge_by_addr(a, b).len() == a.len() + b.len(),
        forall|i: int|
            0 <= i < merge_by_addr(a, b).len() ==> mem_row_small(#[trigger] merge_by_addr(a, b)[i]),
    decreases a.len() + b.len(),
{
    if a.len() == 0 || b.len() == 0 {
    } else if a.first().addr <= b.first().addr {
        assert(forall|i: int|
            0 <= i < a.drop_first().len() ==> mem_row_small(#[trigger] a.drop_first()[i]));
        lemma_merge_len_small(a.drop_first(), b);
    } else {
        assert(forall|i: int|
            0 <= i < b.drop_first().len() ==> mem_row_small(#[trigger] b.drop_first()[i]));
        lemma_merge_len_small(a, b.drop_first());
    }
}

proof fn lemma_insert_len_small(s: Seq<Memory>, x: Memory)
    requires
        forall|i: int| 0 <= i < s.len() ==> mem_row_small(#[trigger] s[i]),
        mem_row_small(x),
    ensures
        insert_by_addr(s, x).len() == s.len() + 1,
        forall|i: int|
            0 <= i < insert_by_addr(s, x).len() ==> mem_row_small(#[trigger] insert_by_addr(s, x)[i]),
    decreases s.len(),
{
    if s.len() == 0 {
    } else if x.addr < s.last().addr {
        assert(forall|i: int|
            0 <= i < s.drop_last().len() ==> mem_row_small(#[trigger] s.drop_last()[i]));
        lemma_insert_len_small(s.drop_last(), x);
    }
}

proof fn lemma_sort_len_small(s: Seq<Memory>)
    requires
        forall|i: int| 0 <= i < s.len() ==> mem_row_small(#[trigger] s[i]),
    ensures
        sort_rows_by_addr(s).len() == s.len(),
        forall|i: int|
            0 <= i < s.len() ==> mem_row_small(#[trigger] sort_rows_by_addr(s)[i]),
    decreases s.len(),
{
    if s.len() > 0 {
        assert(forall|i: int|
            0 <= i < s.drop_last().len() ==> mem_row_small(#[trigger] s.drop_last()[i]));
        lemma_sort_len_small(s.drop_last());
        lemma_insert_len_small(sort_rows_by_addr(s.drop_last()), s.last());
    }
}

proof fn lemma_init_rows_small(m: Seq<(u32, u8)>, writable: u64)
    ensures
        init_rows_of(m, writable).len() == m.len(),
        forall|i: int|
            0 <= i < m.len() ==> mem_row_small(#[trigger] init_rows_of(m, writable)[i]),
    decreases m.len(),
{
    if m.len() > 0 {
        lemma_init_rows_small(m.drop_last(), writable);
    }
}

proof fn lemma_mem_rows_small(p: Program, rows: Seq<Row>)
    ensures
        mem_rows_of(p, rows).len() <= rows.len(),
        forall|i: int|
            0 <= i < mem_rows_of(p, rows).len() ==> mem_row_small(#[trigger] mem_rows_of(p, rows)[i]),
    decreases rows.len(),
{
    if rows.len() > 0 {
        lemma_mem_rows_small(p, rows.drop_last());
    }
}

/// Generates the initialization rows of the static program image:
/// the read-only then the read-write map, merged by address.
pub fn generate_memory_init_trace_from_program(program: &Program) -> (r: Vec<Memory>)
    requires
        program_wf(*program),
    ensures
        r@ == merge_by_addr(
            init_rows_of(program.ro_memory@, 0),
            init_rows_of(program.rw_memory@, 1),
        ),
{
    let ro = init_rows(&program.ro_memory, 0);
    let rw = init_rows(&program.rw_memory, 1);
    merge_rows(ro, rw)
}

/// Lays one address/byte map out as initialization rows.
fn init_rows(m: &Vec<(u32, u8)>, writable: u64) -> (r: Vec<Memory>)
    ensures
        r@ == init_rows_of(m@, writable),
{
    let mut out: Vec<Memory> = Vec::new();
    let mut k: usize = 0;
    proof {
        assert(m@.subrange(0, 0) =~= Seq::<(u32, u8)>::empty());
    }
    while k < m.len()
        invariant
            k <= m@.len(),
            out@ == init_rows_of(m@.subrange(0, k as int), writable),
        decreases m@.len() - k,
    {
        let ghost pre = m@.subrange(0, k as int);
        let (addr, value) = m[k];
        out.push(Memory {
            is_executed: 1,
            is_writable: writable,
            is_init: 1,
            addr: addr as u64,
            clk: 0,
            op: 0,
            value: value as u64,
            diff_addr: 0,
            diff_addr_inv: 0,
            diff_clk: 0,
        });
        proof {
            assert(m@.subrange(0, k + 1).drop_last() =~= pre);
            assert(m@.subrange(0, k + 1).last() == m@[k as int]);
        }
        k = k + 1;
    }
    proof {
        assert(m@.subrange(0, m@.len() as int) =~= m@);
    }
    out
}

/// Merges two traces by address, left side first on equal addresses.
fn merge_rows(a: Vec<Memory>, b: Vec<Memory>) -> (r: Vec<Memory>)
    ensures
        r@ == merge_by_addr(a@, b@),
{
    let mut out: Vec<Memory> = Vec::new();
    let mut i: usize = 0;
    let mut j: usize = 0;
    proof {
        assert(a@.skip(0) =~= a@);
        assert(b@.skip(0) =~= b@);
        assert(out@ + merge_by_addr(a@, b@) =~= merge_by_addr(a@, b@));
    }
    while i < a.len() || j < b.len()
        invariant
            i <= a@.len(),
            j <= b@.len(),
            merge_by_addr(a@, b@) == out@ + merge_by_addr(a@.skip(i as int), b@.skip(j as int)),
        decreases a@.len() - i + b@.len() - j,
    {
        let ghost ra = a@.skip(i as int);
        let ghost rb = b@.skip(j as int);
        let take_a: bool = if i < a.len() {
            if j < b.len() {
                a[i].addr <= b[j].addr
            } else {
                true
            }
        } else {
            false
        };
        if take_a {
            out.push(a[i]);
            proof {
                assert(ra.first() == a@[i as int]);
                assert(ra.drop_first() =~= a@.skip(i + 1));
                assert(merge_by_addr(ra, rb) == seq![a@[i as int]] + merge_by_addr(
                    a@.skip(i + 1),
                    rb,
                ));
                assert(out@ + merge_by_addr(a@.skip(i + 1), rb) =~= out@.drop_last() + (seq![
                    a@[i as int],
                ] + merge_by_addr(a@.skip(i + 1), rb)));
            }
            i = i + 1;
        } else {
            out.push(b[j]);
            proof {
                assert(rb.first() == b@[j as int]);
                assert(rb.drop_first() =~= b@.skip(j + 1));
                assert(merge_by_addr(ra, rb) == seq![b@[j as int]] + merge_by_addr(
                    ra,
                    b@.skip(j + 1),
                ));
                assert(out@ + merge_by_addr(ra, b@.skip(j + 1)) =~= out@.drop_last() + (seq![
                    b@[j as int],
                ] + merge_by_addr(ra, b@.skip(j + 1))));
            }
            j = j + 1;
        }
    }
    proof {
        assert(a@.skip(a@.len() as int) =~= Seq::<Memory>::empty());
        assert(b@.skip(b@.len() as int) =~= Seq::<Memory>::empty());
        assert(out@ + merge_by_addr(a@.skip(i as int), b@.skip(j as int)) =~= out@);
    }
    out
}

/// Stable insertion lands at the scanned position.
proof fn lemma_insert_at(s: Seq<Memory>, x: Memory, pos: int)
    requires
        0 <= pos <= s.len(),
        forall|t: int| pos <= t < s.len() ==> x.addr < (#[trigger] s[t]).addr,
        pos > 0 ==> s[pos - 1].addr <= x.addr,
    ensures
        insert_by_addr(s, x) =~= s.insert(pos, x),
    decreases s.len(),
{
    if s.len() == 0 {
        assert(insert_by_addr(s, x) =~= s.insert(0, x));
    } else if pos == s.len() {
        assert(insert_by_addr(s, x) =~= s.push(x));
        assert(s.push(x) =~= s.insert(pos, x));
    } else {
        assert(x.addr < s.last().addr);
        assert(forall|t: int|
            pos <= t < s.drop_last().len() ==> x.addr < (#[trigger] s.drop_last()[t]).addr);
        lemma_insert_at(s.drop_last(), x, pos);
        assert(insert_by_addr(s.drop_last(), x).push(s.last()) =~= s.insert(pos, x));
    }
}

/// Generates the runtime access rows from the execution record:
/// every step that touches memory becomes a row, and the rows are
/// sorted by address, keeping the step order within one address.
pub fn generate_memory_trace_from_execution(program: &Program, step_rows: &Vec<Row>) -> (r: Vec<
    Memory,
>)
    requires
        program_wf(*program),
    ensures
        r@ == sort_rows_by_addr(mem_rows_of(*program, step_rows@)),
{
    let mut out: Vec<Memory> = Vec::new();
    let mut k: usize = 0;
    proof {
        assert(step_rows@.subrange(0, 0) =~= Seq::<Row>::empty());
    }
    while k < step_rows.len()
        invariant
            k <= step_rows@.len(),
            program_wf(*program),
            out@ == sort_rows_by_addr(mem_rows_of(*program, step_rows@.subrange(0, k as int))),
        decreases step_rows@.len() - k,
    {
        let ghost pre = step_rows@.subrange(0, k as int);
        let row = &step_rows[k];
        proof {
            assert(step_rows@.subrange(0, k + 1).drop_last() =~= pre);
            assert(step_rows@.subrange(0, k + 1).last() == step_rows@[k as int]);
        }
        match row.mem_addr {
            Some(addr) => {
                let writable = contains_addr(&program.rw_memory, addr);
                let op_tag: u64 = match row.inst.op {
                    Op::SB => OPCODE_SB,
                    Op::LBU => OPCODE_LBU,
                    _ => 0,
                };
                let x = Memory {
                    is_executed: 1,
                    is_writable: if writable { 1 } else { 0 },
                    is_init: 0,
                    addr: addr as u64,
                    clk: row.clk as u64,
                    op: op_tag,
                    value: row.dst_val as u64,
                    diff_addr: 0,
                    diff_addr_inv: 0,
                    diff_clk: 0,
                };
                proof {
                    assert(x == exec_row_spec(*program, step_rows@[k as int]));
                    assert(mem_rows_of(*program, step_rows@.subrange(0, k + 1)) == mem_rows_of(
                        *program,
                        pre,
                    ).push(x));
                }
                // stable insertion: scan back over rows with a
                // strictly larger address
                let mut pos: usize = out.len();
                while pos > 0 && out[pos - 1].addr > x.addr
                    invariant
                        pos <= out@.len(),
                        forall|t: int|
                            pos <= t < out@.len() ==> x.addr < (#[trigger] out@[t]).addr,
                    decreases pos,
                {
                    pos = pos - 1;
                }
                proof {
                    lemma_insert_at(out@, x, pos as int);
                    assert(mem_rows_of(*program, step_rows@.subrange(0, k + 1)).drop_last()
                        =~= mem_rows_of(*program, pre));
                    assert(mem_rows_of(*program, step_rows@.subrange(0, k + 1)).last() == x);
                }
                out.insert(pos, x);
            },
            None => {
                proof {
                    assert(mem_rows_of(*program, step_rows@.subrange(0, k + 1)) == mem_rows_of(
                        *program,
                        pre,
                    ));
                }
            },
        }
        k = k + 1;
    }
    proof {
        assert(step_rows@.subrange(0, step_rows@.len() as int) =~= step_rows@);
    }
    out
}

/// Generates the full Memory trace: initialization and access rows
/// merged by address with initialization first, the difference
/// columns filled in one pass, the stored inverse tied to
/// `diff_addr` by its inverse property, and the result padded to a
/// power of two with cleared padding rows.
pub fn generate_memory_trace(program: &Program, step_rows: &Vec<Row>) -> (r: Vec<Memory>)
    requires
        program_wf(*program),
        program.ro_memory@.len() + program.rw_memory@.len() + step_rows@.len()
            <= MAX_TRACE_LENGTH,
    ensures
        is_pow2(r@.len() as int),
        r@.len() >= memory_trace_spec(*program, step_rows@).len(),
        forall|i: int|
            0 <= i < memory_trace_spec(*program, step_rows@).len() ==> mem_eq_mod_inv(
                #[trigger] r@[i],
                memory_trace_spec(*program, step_rows@)[i],
            ),
        forall|i: int|
            0 <= i < memory_trace_spec(*program, step_rows@).len() ==> ((#[trigger] r@[i]).diff_addr
                == 0 ==> r@[i].diff_addr_inv == 0) && (r@[i].diff_addr_inv != 0 ==> (
            r@[i].diff_addr * r@[i].diff_addr_inv) % (FIELD_ORDER as int) == 1),
        forall|i: int|
            0 <= i < memory_trace_spec(*program, step_rows@).len() ==> (fe_invertible(
                (#[trigger] r@[i]).diff_addr,
            ) ==> r@[i].diff_addr_inv != 0 && (r@[i].diff_addr * r@[i].diff_addr_inv) % (
            FIELD_ORDER as int) == 1),
        memory_trace_spec(*program, step_rows@).len() == 0 ==> r@.len() == 1,
        forall|i: int|
            memory_trace_spec(*program, step_rows@).len() <= i < r@.len() ==> #[trigger] r@[i]
                == mem_pad_row(memory_trace_spec(*program, step_rows@)),
        memory_trace_spec(*program, step_rows@).len() >= 1 ==> r@.len() < 2 * memory_trace_spec(
            *program,
            step_rows@,
        ).len(),
{
    let ghost goal = memory_trace_spec(*program, step_rows@);
    let init = generate_memory_init_trace_from_program(program);
    let accesses = generate_memory_trace_from_execution(program, step_rows);
    proof {
        lemma_init_rows_small(program.ro_memory@, 0);
        lemma_init_rows_small(program.rw_memory@, 1);
        lemma_merge_len_small(
            init_rows_of(program.ro_memory@, 0),
            init_rows_of(program.rw_memory@, 1),
        );
        lemma_mem_rows_small(*program, step_rows@);
        lemma_sort_len_small(mem_rows_of(*program, step_rows@));
        lemma_merge_len_small(init@, accesses@);
    }
    let merged = merge_rows(init, accesses);

    let mut fixed: Vec<Memory> = Vec::new();
    let mut last_addr: u64 = 0;
    let mut last_clk: u64 = 0;
    let mut k: usize = 0;
    proof {
        assert(merged@.skip(0) =~= merged@);
        assert(clear_inv(fixed@) =~= Seq::<Memory>::empty());
        assert(clear_inv(fixed@) + diff_fix(merged@, 0, 0) =~= diff_fix(merged@, 0, 0));
    }
    while k < merged.len()
        invariant
            k <= merged@.len(),
            merged@.len() <= MAX_TRACE_LENGTH,
            goal == diff_fix(merged@, 0, 0),
            fixed@.len() == k,
            diff_fix(merged@, 0, 0) == clear_inv(fixed@) + diff_fix(
                merged@.skip(k as int),
                last_addr,
                last_clk,
            ),
            forall|i: int|
                0 <= i < k ==> ((#[trigger] fixed@[i]).diff_addr == 0 ==> fixed@[i].diff_addr_inv
                    == 0) && (fixed@[i].diff_addr_inv != 0 ==> (fixed@[i].diff_addr
                    * fixed@[i].diff_addr_inv) % (FIELD_ORDER as int) == 1),
            forall|i: int|
                0 <= i < k ==> (fe_invertible((#[trigger] fixed@[i]).diff_addr)
                    ==> fixed@[i].diff_addr_inv != 0),
            is_fe(last_addr),
            is_fe(last_clk),
            forall|i: int| 0 <= i < merged@.len() ==> mem_row_small(#[trigger] merged@[i]),
        decreases merged@.len() - k,
    {
        let ghost rest = merged@.skip(k as int);
        let m = merged[k];
        let da = fe_sub(m.addr, last_addr);
        let dai = fe_try_inverse(da);
        let dc = if m.addr == last_addr {
            fe_sub(m.clk, last_clk)
        } else {
            0
        };
        let fixed_row = Memory { diff_addr: da, diff_addr_inv: dai, diff_clk: dc, ..m };
        let ghost fixed_pre = fixed@;
        fixed.push(fixed_row);
        proof {
            assert(rest.first() == merged@[k as int]);
            assert(rest.drop_first() =~= merged@.skip(k + 1));
            lemma_clear_inv_push(fixed_pre, fixed_row);
            assert(diff_fix(rest, last_addr, last_clk) == seq![clear_inv_row(fixed_row)]
                + diff_fix(merged@.skip(k + 1), m.addr, m.clk));
            assert(clear_inv(fixed_pre) + (seq![clear_inv_row(fixed_row)] + diff_fix(
                merged@.skip(k + 1),
                m.addr,
                m.clk,
            )) =~= clear_inv(fixed@) + diff_fix(merged@.skip(k + 1), m.addr, m.clk));
        }
        last_addr = m.addr;
        last_clk = m.clk;
        k = k + 1;
    }
    proof {
        assert(merged@.skip(merged@.len() as int) =~= Seq::<Memory>::empty());
        assert(clear_inv(fixed@) + diff_fix(
            merged@.skip(merged@.len() as int),
            last_addr,
            last_clk,
        ) =~= clear_inv(fixed@));
        assert(goal == clear_inv(fixed@));
        assert(goal.len() == fixed@.len());
        assert forall|i: int| 0 <= i < goal.len() implies mem_eq_mod_inv(
            #[trigger] fixed@[i],
            goal[i],
        ) by {
            assert(goal[i] == clear_inv_row(fixed@[i]));
        }
    }

    let pad_row = if fixed.len() > 0 {
        let base = fixed[fixed.len() - 1];
        Memory { is_executed: 0, is_init: 0, diff_addr: 0, diff_addr_inv: 0, diff_clk: 0, ..base }
    } else {
        Memory {
            is_executed: 0,
            is_writable: 0,
            is_init: 0,
            addr: 0,
            clk: 0,
            op: 0,
            value: 0,
            diff_addr: 0,
            diff_addr_inv: 0,
            diff_clk: 0,
        }
    };
    proof {
        if fixed@.len() > 0 {
            assert(goal.last() == clear_inv_row(fixed@.last()));
        }
        assert(pad_row == mem_pad_row(goal));
    }
    let ghost fixed_view = fixed@;
    let padded = pad_trace(fixed, pad_row);
    proof {
        assert forall|i: int| 0 <= i < fixed_view.len() implies #[trigger] padded@[i]
            == fixed_view[i] by {
            assert(padded@.subrange(0, fixed_view.len() as int)[i] == padded@[i]);
        }
    }
    padded
}

} // verus!
