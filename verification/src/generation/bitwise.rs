//! Generation of the Bitwise trace: every AND, OR or XOR step
//! contributes one row holding the xor triple of its operands, the
//! byte limbs are decomposed, the fixed byte and byte-pair tables are
//! laid down, and the permuted columns of all in-table lookups are
//! prepared. The generated trace satisfies the Bitwise table's whole
//! constraint set.

use vstd::prelude::*;
use crate::bitwise::columns::{BitwiseTrace, BITWISE_U8_SIZE, LIMB_BASE};
use crate::bitwise::stark::{bitwise_trace_ok, compress3_spec, reduce4_spec};
use crate::field::{fe_add, fe_mul};
use crate::lookup::{in_table, lookup_disjunction_ok, permute_cols};
use crate::record::{Op, Row};
use crate::trace::{is_pow2, next_pow2, MAX_TRACE_LENGTH};

verus! {

/// Whether a step's instruction class belongs in the Bitwise table.
pub open spec fn is_bw_op(op: Op) -> bool {
    op == Op::AND || op == Op::OR || op == Op::XOR
}

/// A step whose register indices address the register file.
pub open spec fn row_regs_wf(r: Row) -> bool {
    r.inst.args.rs1 < 32 && r.inst.args.rs2 < 32
}

/// The first operand of a step: the first selected register's value.
pub open spec fn bw_op1(r: Row) -> u32 {
    r.regs@[r.inst.args.rs1 as int]
}

/// The second operand of a step: the second selected register's
/// value plus the immediate, wrapped to the machine word.
pub open spec fn bw_op2(r: Row) -> u32 {
    ((r.regs@[r.inst.args.rs2 as int] + r.inst.args.imm) % 0x1_0000_0000) as u32
}

/// The xor of a step's operands.
pub open spec fn bw_res(r: Row) -> u32 {
    bw_op1(r) ^ bw_op2(r)
}

/// The first operands of all bitwise steps, in step order.
pub open spec fn bw_op1_seq(rows: Seq<Row>) -> Seq<u32>
    decreases rows.len(),
{
    if rows.len() == 0 {
        Seq::empty()
    } else if is_bw_op(rows.last().inst.op) {
        bw_op1_seq(rows.drop_last()).push(bw_op1(rows.last()))
    } else {
        bw_op1_seq(rows.drop_last())
    }
}

/// The second operands of all bitwise steps, in step order.
pub open spec fn bw_op2_seq(rows: Seq<Row>) -> Seq<u32>
    decreases rows.len(),
{
    if rows.len() == 0 {
        Seq::empty()
    } else if is_bw_op(rows.last().inst.op) {
        bw_op2_seq(rows.drop_last()).push(bw_op2(rows.last()))
    } else {
        bw_op2_seq(rows.drop_last())
    }
}

/// The xor results of all bitwise steps, in step order.
pub open spec fn bw_res_seq(rows: Seq<Row>) -> Seq<u32>
    decreases rows.len(),
{
    if rows.len() == 0 {
        Seq::empty()
    } else if is_bw_op(rows.last().inst.op) {
        bw_res_seq(rows.drop_last()).push(bw_res(rows.last()))
    } else {
        bw_res_seq(rows.drop_last())
    }
}

proof fn lemma_bw_seq_lens(rows: Seq<Row>)
    ensures
        bw_op1_seq(rows).len() == bw_op2_seq(rows).len(),
        bw_op1_seq(rows).len() == bw_res_seq(rows).len(),
        bw_op1_seq(rows).len() <= rows.len(),
        forall|i: int|
            0 <= i < bw_op1_seq(rows).len() ==> #[trigger] bw_res_seq(rows)[i] == bw_op1_seq(
                rows,
            )[i] ^ bw_op2_seq(rows)[i],
    decreases rows.len(),
{
    if rows.len() > 0 {
        lemma_bw_seq_lens(rows.drop_last());
    }
}

/// The byte `k` of a machine word, lowest byte first.
pub open spec fn byte_of(v: u32, k: int) -> u64 {
    if k == 0 {
        (v & 0xff) as u64
    } else if k == 1 {
        ((v >> 8) & 0xff) as u64
    } else if k == 2 {
        ((v >> 16) & 0xff) as u64
    } else {
        ((v >> 24) & 0xff) as u64
    }
}

/// A machine word is the weighted sum of its bytes.
proof fn lemma_bytes_recompose(v: u32)
    ensures
        byte_of(v, 0) + 256 * byte_of(v, 1) + 65536 * byte_of(v, 2) + 16777216 * byte_of(v, 3)
            == v,
        byte_of(v, 0) < 256,
        byte_of(v, 1) < 256,
        byte_of(v, 2) < 256,
        byte_of(v, 3) < 256,
{
    assert((v & 0xff) + 256 * ((v >> 8) & 0xff) + 65536 * ((v >> 16) & 0xff) + 16777216 * ((v
        >> 24) & 0xff) == v && (v & 0xff) < 256 && ((v >> 8) & 0xff) < 256 && ((v >> 16) & 0xff)
        < 256 && ((v >> 24) & 0xff) < 256) by (bit_vector);
}

/// Byte limbs commute with xor.
proof fn lemma_bytes_xor(a: u32, b: u32, k: int)
    requires
        0 <= k < 4,
    ensures
        byte_of(a ^ b, k) == byte_of(a, k) ^ byte_of(b, k),
{
    assert(((a ^ b) & 0xff) == (a & 0xff) ^ (b & 0xff) && (((a ^ b) >> 8) & 0xff) == ((a >> 8)
        & 0xff) ^ ((b >> 8) & 0xff) && (((a ^ b) >> 16) & 0xff) == ((a >> 16) & 0xff) ^ ((b
        >> 16) & 0xff) && (((a ^ b) >> 24) & 0xff) == ((a >> 24) & 0xff) ^ ((b >> 24) & 0xff))
        by (bit_vector);
    assert(((a & 0xff) ^ (b & 0xff)) < 256 && (((a >> 8) & 0xff) ^ ((b >> 8) & 0xff)) < 256 && (((
    a >> 16) & 0xff) ^ ((b >> 16) & 0xff)) < 256 && (((a >> 24) & 0xff) ^ ((b >> 24) & 0xff))
        < 256) by (bit_vector);
}

/// Extracts the operand and result values of every bitwise step.
fn filtered_ops(step_rows: &Vec<Row>) -> (r: (Vec<u32>, Vec<u32>, Vec<u32>))
    requires
        forall|i: int| 0 <= i < step_rows@.len() ==> row_regs_wf(#[trigger] step_rows@[i]),
    ensures
        r.0@ == bw_op1_seq(step_rows@),
        r.1@ == bw_op2_seq(step_rows@),
        r.2@ == bw_res_seq(step_rows@),
{
    let mut v1: Vec<u32> = Vec::new();
    let mut v2: Vec<u32> = Vec::new();
    let mut v3: Vec<u32> = Vec::new();
    let mut k: usize = 0;
    proof {
        assert(step_rows@.subrange(0, 0) =~= Seq::<Row>::empty());
    }
    while k < step_rows.len()
        invariant
            k <= step_rows@.len(),
            forall|i: int| 0 <= i < step_rows@.len() ==> row_regs_wf(#[trigger] step_rows@[i]),
            v1@ == bw_op1_seq(step_rows@.subrange(0, k as int)),
            v2@ == bw_op2_seq(step_rows@.subrange(0, k as int)),
            v3@ == bw_res_seq(step_rows@.subrange(0, k as int)),
        decreases step_rows@.len() - k,
    {
        let ghost pre = step_rows@.subrange(0, k as int);
        proof {
            assert(step_rows@.subrange(0, k + 1).drop_last() =~= pre);
            assert(step_rows@.subrange(0, k + 1).last() == step_rows@[k as int]);
        }
        let row = &step_rows[k];
        let bw: bool = match row.inst.op {
            Op::AND => true,
            Op::OR => true,
            Op::XOR => true,
            _ => false,
        };
        if bw {
            let o1 = row.regs[row.inst.args.rs1 as usize];
            let base = row.regs[row.inst.args.rs2 as usize];
            let s: u64 = (base as u64) + (row.inst.args.imm as u64);
            let o2 = (s % 0x1_0000_0000) as u32;
            let res = o1 ^ o2;
            v1.push(o1);
            v2.push(o2);
            v3.push(res);
        }
        k = k + 1;
    }
    proof {
        assert(step_rows@.subrange(0, step_rows@.len() as int) =~= step_rows@);
    }
    (v1, v2, v3)
}

/// Lays a value list out as a column of height `n`, zero beyond it.
fn value_col(vals: &Vec<u32>, n: usize) -> (r: Vec<u64>)
    requires
        vals@.len() <= n,
    ensures
        r@.len() == n,
        forall|i: int|
            0 <= i < n ==> #[trigger] r@[i] == (if i < vals@.len() {
                vals@[i] as u64
            } else {
                0u64
            }),
{
    let mut out: Vec<u64> = Vec::new();
    let mut i: usize = 0;
    while i < n
        invariant
            i <= n,
            vals@.len() <= n,
            out@.len() == i,
            forall|t: int|
                0 <= t < i ==> #[trigger] out@[t] == (if t < vals@.len() {
                    vals@[t] as u64
                } else {
                    0u64
                }),
        decreases n - i,
    {
        if i < vals.len() {
            out.push(vals[i] as u64);
        } else {
            out.push(0);
        }
        i = i + 1;
    }
    out
}

/// Lays byte `k` of a value list out as a column of height `n`.
fn limb_col(vals: &Vec<u32>, n: usize, k: usize) -> (r: Vec<u64>)
    requires
        vals@.len() <= n,
        k < 4,
    ensures
        r@.len() == n,
        forall|i: int|
            0 <= i < n ==> #[trigger] r@[i] == (if i < vals@.len() {
                byte_of(vals@[i], k as int)
            } else {
                0u64
            }),
        forall|i: int| 0 <= i < n ==> #[trigger] r@[i] < 256,
{
    let mut out: Vec<u64> = Vec::new();
    let mut i: usize = 0;
    while i < n
        invariant
            i <= n,
            vals@.len() <= n,
            k < 4,
            out@.len() == i,
            forall|t: int|
                0 <= t < i ==> #[trigger] out@[t] == (if t < vals@.len() {
                    byte_of(vals@[t], k as int)
                } else {
                    0u64
                }),
            forall|t: int| 0 <= t < i ==> #[trigger] out@[t] < 256,
        decreases n - i,
    {
        if i < vals.len() {
            let v = vals[i];
            let b: u32 = if k == 0 {
                v & 0xff
            } else if k == 1 {
                (v >> 8) & 0xff
            } else if k == 2 {
                (v >> 16) & 0xff
            } else {
                (v >> 24) & 0xff
            };
            proof {
                assert((v & 0xff) < 256 && ((v >> 8) & 0xff) < 256 && ((v >> 16) & 0xff) < 256
                    && ((v >> 24) & 0xff) < 256) by (bit_vector);
            }
            out.push(b as u64);
        } else {
            out.push(0);
        }
        i = i + 1;
    }
    out
}

/// Compresses three limb columns into one: `a + 256*(b + 256*c)`.
fn compress_col(a: &Vec<u64>, b: &Vec<u64>, c: &Vec<u64>, n: usize) -> (r: Vec<u64>)
    requires
        a@.len() == n,
        b@.len() == n,
        c@.len() == n,
        forall|i: int| 0 <= i < n ==> #[trigger] a@[i] < 256,
        forall|i: int| 0 <= i < n ==> #[trigger] b@[i] < 256,
        forall|i: int| 0 <= i < n ==> #[trigger] c@[i] < 256,
    ensures
        r@.len() == n,
        forall|i: int|
            0 <= i < n ==> #[trigger] r@[i] == compress3_spec(
                a@[i] as int,
                b@[i] as int,
                c@[i] as int,
            ),
        forall|i: int| 0 <= i < n ==> #[trigger] r@[i] == a@[i] + 256 * b@[i] + 65536 * c@[i],
{
    let mut out: Vec<u64> = Vec::new();
    let mut i: usize = 0;
    while i < n
        invariant
            i <= n,
            a@.len() == n,
            b@.len() == n,
            c@.len() == n,
            forall|t: int| 0 <= t < n ==> #[trigger] a@[t] < 256,
            forall|t: int| 0 <= t < n ==> #[trigger] b@[t] < 256,
            forall|t: int| 0 <= t < n ==> #[trigger] c@[t] < 256,
            out@.len() == i,
            forall|t: int|
                0 <= t < i ==> #[trigger] out@[t] == compress3_spec(
                    a@[t] as int,
                    b@[t] as int,
                    c@[t] as int,
                ),
            forall|t: int|
                0 <= t < i ==> #[trigger] out@[t] == a@[t] + 256 * b@[t] + 65536 * c@[t],
        decreases n - i,
    {
        let v = fe_add(a[i], fe_mul(LIMB_BASE, fe_add(b[i], fe_mul(LIMB_BASE, c[i]))));
        proof {
            assert(v == a@[i as int] + 256 * b@[i as int] + 65536 * c@[i as int]);
        }
        out.push(v);
        i = i + 1;
    }
    out
}

/// The fixed byte-range column: 0..=255, then zeros.
fn fix_range_col(n: usize) -> (r: Vec<u64>)
    requires
        n >= 256,
    ensures
        r@.len() == n,
        forall|i: int|
            0 <= i < n ==> #[trigger] r@[i] == (if i < 256 {
                i as u64
            } else {
                0u64
            }),
{
    let mut out: Vec<u64> = Vec::new();
    let mut i: usize = 0;
    while i < n
        invariant
            i <= n,
            out@.len() == i,
            forall|t: int|
                0 <= t < i ==> #[trigger] out@[t] == (if t < 256 {
                    t as u64
                } else {
                    0u64
                }),
        decreases n - i,
    {
        if i < 256 {
            out.push(i as u64);
        } else {
            out.push(0);
        }
        i = i + 1;
    }
    out
}

/// The fixed byte-pair tables: every pair of bytes with its xor, and
/// the compressed triple, then zeros.
fn fix_tables(n: usize) -> (r: (Vec<u64>, Vec<u64>, Vec<u64>, Vec<u64>))
    requires
        n >= BITWISE_U8_SIZE,
    ensures
        r.0@.len() == n,
        r.1@.len() == n,
        r.2@.len() == n,
        r.3@.len() == n,
        forall|i: int|
            0 <= i < n ==> #[trigger] r.0@[i] == (if i < BITWISE_U8_SIZE {
                (i / 256) as u64
            } else {
                0u64
            }),
        forall|i: int|
            0 <= i < n ==> #[trigger] r.1@[i] == (if i < BITWISE_U8_SIZE {
                (i % 256) as u64
            } else {
                0u64
            }),
        forall|i: int|
            0 <= i < n ==> #[trigger] r.2@[i] == (if i < BITWISE_U8_SIZE {
                (((i / 256) as u32) ^ ((i % 256) as u32)) as u64
            } else {
                0u64
            }),
        forall|i: int|
            0 <= i < n ==> #[trigger] r.3@[i] == r.0@[i] + 256 * r.1@[i] + 65536 * r.2@[i],
{
    let mut t1: Vec<u64> = Vec::new();
    let mut t2: Vec<u64> = Vec::new();
    let mut t3: Vec<u64> = Vec::new();
    let mut t4: Vec<u64> = Vec::new();
    let mut i: usize = 0;
    while i < n
        invariant
            i <= n,
            t1@.len() == i,
            t2@.len() == i,
            t3@.len() == i,
            t4@.len() == i,
            forall|t: int|
                0 <= t < i ==> #[trigger] t1@[t] == (if t < BITWISE_U8_SIZE {
                    (t / 256) as u64
                } else {
                    0u64
                }),
            forall|t: int|
                0 <= t < i ==> #[trigger] t2@[t] == (if t < BITWISE_U8_SIZE {
                    (t % 256) as u64
                } else {
                    0u64
                }),
            forall|t: int|
                0 <= t < i ==> #[trigger] t3@[t] == (if t < BITWISE_U8_SIZE {
                    (((t / 256) as u32) ^ ((t % 256) as u32)) as u64
                } else {
                    0u64
                }),
            forall|t: int|
                0 <= t < i ==> #[trigger] t4@[t] == t1@[t] + 256 * t2@[t] + 65536 * t3@[t],
        decreases n - i,
    {
        if i < BITWISE_U8_SIZE {
            let a: u64 = (i / 256) as u64;
            let b: u64 = (i % 256) as u64;
            let x: u64 = (((i / 256) as u32) ^ ((i % 256) as u32)) as u64;
            proof {
                let av = (i / 256) as u32;
                let bv = (i % 256) as u32;
                assert(av < 256 && bv < 256);
                assert(av < 256 && bv < 256 ==> (av ^ bv) < 256) by (bit_vector);
            }
            t1.push(a);
            t2.push(b);
            t3.push(x);
            t4.push(a + 256 * b + 65536 * x);
        } else {
            t1.push(0);
            t2.push(0);
            t3.push(0);
            t4.push(0);
        }
        i = i + 1;
    }
    (t1, t2, t3, t4)
}

/// Every entry of a byte column occurs in the fixed byte range.
proof fn lemma_bytes_in_range(col: Seq<u64>, table: Seq<u64>)
    requires
        forall|i: int| 0 <= i < col.len() ==> #[trigger] col[i] < 256,
        table.len() >= 256,
        forall|i: int|
            0 <= i < table.len() ==> #[trigger] table[i] == (if i < 256 {
                i as u64
            } else {
                0u64
            }),
    ensures
        in_table(col, table),
{
    assert forall|i: int| 0 <= i < col.len() implies table.contains(#[trigger] col[i]) by {
        assert(table[col[i] as int] == col[i]);
    }
}

/// Generates the Bitwise trace of an execution record. The returned
/// trace holds one row per bitwise step in step order, the fixed
/// tables, and all permuted lookup columns, and it satisfies the
/// Bitwise table's whole constraint set.
pub fn generate_bitwise_trace(step_rows: &Vec<Row>) -> (r: BitwiseTrace)
    requires
        step_rows@.len() <= MAX_TRACE_LENGTH,
        forall|i: int| 0 <= i < step_rows@.len() ==> row_regs_wf(#[trigger] step_rows@[i]),
    ensures
        bitwise_trace_ok(r),
        r.op1@.len() >= BITWISE_U8_SIZE,
        r.op1@.len() >= bw_op1_seq(step_rows@).len(),
        forall|i: int|
            0 <= i < r.op1@.len() ==> #[trigger] r.op1@[i] == (if i < bw_op1_seq(
                step_rows@,
            ).len() {
                bw_op1_seq(step_rows@)[i] as u64
            } else {
                0u64
            }),
        forall|i: int|
            0 <= i < r.op2@.len() ==> #[trigger] r.op2@[i] == (if i < bw_op2_seq(
                step_rows@,
            ).len() {
                bw_op2_seq(step_rows@)[i] as u64
            } else {
                0u64
            }),
        forall|i: int|
            0 <= i < r.res@.len() ==> #[trigger] r.res@[i] == (if i < bw_res_seq(
                step_rows@,
            ).len() {
                bw_res_seq(step_rows@)[i] as u64
            } else {
                0u64
            }),
{
    proof {
        lemma_bw_seq_lens(step_rows@);
    }
    let (f1, f2, f3) = filtered_ops(step_rows);
    let len = f1.len();
    let base = if len > BITWISE_U8_SIZE {
        len
    } else {
        BITWISE_U8_SIZE
    };
    let n = next_pow2(base);

    let op1 = value_col(&f1, n);
    let op2 = value_col(&f2, n);
    let res = value_col(&f3, n);

    let op1_limbs = [
        limb_col(&f1, n, 0),
        limb_col(&f1, n, 1),
        limb_col(&f1, n, 2),
        limb_col(&f1, n, 3),
    ];
    let op2_limbs = [
        limb_col(&f2, n, 0),
        limb_col(&f2, n, 1),
        limb_col(&f2, n, 2),
        limb_col(&f2, n, 3),
    ];
    let res_limbs = [
        limb_col(&f3, n, 0),
        limb_col(&f3, n, 1),
        limb_col(&f3, n, 2),
        limb_col(&f3, n, 3),
    ];

    let compress_limbs = [
        compress_col(&op1_limbs[0], &op2_limbs[0], &res_limbs[0], n),
        compress_col(&op1_limbs[1], &op2_limbs[1], &res_limbs[1], n),
        compress_col(&op1_limbs[2], &op2_limbs[2], &res_limbs[2], n),
        compress_col(&op1_limbs[3], &op2_limbs[3], &res_limbs[3], n),
    ];

    let fix_range_check_u8 = fix_range_col(n);
    let (fix_bitwise_op1, fix_bitwise_op2, fix_bitwise_res, fix_compress) = fix_tables(n);

    proof {
        lemma_bytes_in_range(op1_limbs[0]@, fix_range_check_u8@);
        lemma_bytes_in_range(op1_limbs[1]@, fix_range_check_u8@);
        lemma_bytes_in_range(op1_limbs[2]@, fix_range_check_u8@);
        lemma_bytes_in_range(op1_limbs[3]@, fix_range_check_u8@);
        lemma_bytes_in_range(op2_limbs[0]@, fix_range_check_u8@);
        lemma_bytes_in_range(op2_limbs[1]@, fix_range_check_u8@);
        lemma_bytes_in_range(op2_limbs[2]@, fix_range_check_u8@);
        lemma_bytes_in_range(op2_limbs[3]@, fix_range_check_u8@);
        lemma_bytes_in_range(res_limbs[0]@, fix_range_check_u8@);
        lemma_bytes_in_range(res_limbs[1]@, fix_range_check_u8@);
        lemma_bytes_in_range(res_limbs[2]@, fix_range_check_u8@);
        lemma_bytes_in_range(res_limbs[3]@, fix_range_check_u8@);
        assert forall|k: int| 0 <= k < 4 implies in_table(
            #[trigger] compress_limbs@[k]@,
            fix_compress@,
        ) by {
            lemma_compress_in_table(
                compress_limbs@[k]@,
                op1_limbs@[k]@,
                op2_limbs@[k]@,
                res_limbs@[k]@,
                f1@,
                f2@,
                f3@,
                fix_compress@,
                k,
                n as int,
            );
        }
    }

    let p0 = permute_cols(&op1_limbs[0], &fix_range_check_u8);
    let p1 = permute_cols(&op1_limbs[1], &fix_range_check_u8);
    let p2 = permute_cols(&op1_limbs[2], &fix_range_check_u8);
    let p3 = permute_cols(&op1_limbs[3], &fix_range_check_u8);
    let p4 = permute_cols(&op2_limbs[0], &fix_range_check_u8);
    let p5 = permute_cols(&op2_limbs[1], &fix_range_check_u8);
    let p6 = permute_cols(&op2_limbs[2], &fix_range_check_u8);
    let p7 = permute_cols(&op2_limbs[3], &fix_range_check_u8);
    let p8 = permute_cols(&res_limbs[0], &fix_range_check_u8);
    let p9 = permute_cols(&res_limbs[1], &fix_range_check_u8);
    let p10 = permute_cols(&res_limbs[2], &fix_range_check_u8);
    let p11 = permute_cols(&res_limbs[3], &fix_range_check_u8);
    let c0 = permute_cols(&compress_limbs[0], &fix_compress);
    let c1 = permute_cols(&compress_limbs[1], &fix_compress);
    let c2 = permute_cols(&compress_limbs[2], &fix_compress);
    let c3 = permute_cols(&compress_limbs[3], &fix_compress);

    let trace = BitwiseTrace {
        op1,
        op2,
        res,
        op1_limbs,
        op2_limbs,
        res_limbs,
        op1_limbs_permuted: [p0.0, p1.0, p2.0, p3.0],
        op2_limbs_permuted: [p4.0, p5.0, p6.0, p7.0],
        res_limbs_permuted: [p8.0, p9.0, p10.0, p11.0],
        compress_limbs,
        compress_permuted: [c0.0, c1.0, c2.0, c3.0],
        fix_range_check_u8,
        fix_range_check_u8_permuted: [
            p0.1,
            p1.1,
            p2.1,
            p3.1,
            p4.1,
            p5.1,
            p6.1,
            p7.1,
            p8.1,
            p9.1,
            p10.1,
            p11.1,
        ],
        fix_bitwise_op1,
        fix_bitwise_op2,
        fix_bitwise_res,
        fix_compress,
        fix_compress_permuted: [c0.1, c1.1, c2.1, c3.1],
    };
    proof {
        lemma_generated_trace_ok(trace, f1@, f2@, f3@, n as int);
    }
    trace
}

/// Every compressed value occurs in the fixed compressed table,
/// because the result limb is the xor of the operand limbs.
proof fn lemma_compress_in_table(
    col: Seq<u64>,
    l1: Seq<u64>,
    l2: Seq<u64>,
    l3: Seq<u64>,
    f1: Seq<u32>,
    f2: Seq<u32>,
    f3: Seq<u32>,
    table: Seq<u64>,
    k: int,
    n: int,
)
    requires
        0 <= k < 4,
        col.len() == n,
        l1.len() == n,
        l2.len() == n,
        l3.len() == n,
        table.len() == n,
        n >= BITWISE_U8_SIZE,
        f1.len() <= n,
        f2.len() == f1.len(),
        f3.len() == f1.len(),
        forall|i: int| 0 <= i < n ==> #[trigger] col[i] == l1[i] + 256 * l2[i] + 65536 * l3[i],
        forall|i: int|
            0 <= i < n ==> #[trigger] l1[i] == (if i < f1.len() {
                byte_of(f1[i], k)
            } else {
                0u64
            }),
        forall|i: int|
            0 <= i < n ==> #[trigger] l2[i] == (if i < f2.len() {
                byte_of(f2[i], k)
            } else {
                0u64
            }),
        forall|i: int|
            0 <= i < n ==> #[trigger] l3[i] == (if i < f3.len() {
                byte_of(f3[i], k)
            } else {
                0u64
            }),
        forall|i: int| 0 <= i < f1.len() ==> #[trigger] f3[i] == f1[i] ^ f2[i],
        forall|i: int|
            0 <= i < n ==> #[trigger] table[i] as int == (if i < BITWISE_U8_SIZE {
                ((i / 256) as u64) + 256 * ((i % 256) as u64) + 65536 * ((((i / 256) as u32) ^ ((
                i % 256) as u32)) as u64)
            } else {
                0int
            }),
    ensures
        in_table(col, table),
{
    assert forall|i: int| 0 <= i < col.len() implies table.contains(#[trigger] col[i]) by {
        if i < f1.len() {
            let a = byte_of(f1[i], k);
            let b = byte_of(f2[i], k);
            let c = byte_of(f3[i], k);
            lemma_bytes_recompose(f1[i]);
            lemma_bytes_recompose(f2[i]);
            lemma_bytes_recompose(f3[i]);
            lemma_bytes_xor(f1[i], f2[i], k);
            let idx = a * 256 + b;
            assert(a < 256 && b < 256);
            assert(idx < BITWISE_U8_SIZE);
            assert(idx / 256 == a && idx % 256 == b) by (nonlinear_arith)
                requires idx == a * 256 + b && a < 256 && b < 256;
            assert((((idx / 256) as u32) ^ ((idx % 256) as u32)) as u64 == c) by {
                assert((idx / 256) as u32 == a as u32 && (idx % 256) as u32 == b as u32);
                assert(c == (a as u32 ^ b as u32) as u64) by {
                    assert(byte_of(f3[i], k) == byte_of(f1[i], k) ^ byte_of(f2[i], k));
                    assert(a <= 0xff && b <= 0xff ==> ((a as u32) ^ (b as u32)) as u64 == (a as u64)
                        ^ (b as u64)) by (bit_vector);
                }
            }
            assert(table[idx as int] == col[i]);
        } else {
            assert(col[i] == 0);
            assert((0u32 ^ 0u32) == 0u32) by (bit_vector);
            assert(table[0] == 0);
        }
    }
}

/// The assembled trace satisfies the Bitwise table's constraint set.
#[verifier::rlimit(100)]
#[verifier::spinoff_prover]
proof fn lemma_generated_trace_ok(
    t: BitwiseTrace,
    f1: Seq<u32>,
    f2: Seq<u32>,
    f3: Seq<u32>,
    n: int,
)
    requires
        t.op1@.len() == n,
        f2.len() == f1.len(),
        f3.len() == f1.len(),
        f1.len() <= n,
        is_pow2(n),
        n >= BITWISE_U8_SIZE,
        forall|i: int|
            0 <= i < n ==> #[trigger] t.op1@[i] == (if i < f1.len() {
                f1[i] as u64
            } else {
                0u64
            }),
        forall|i: int|
            0 <= i < n ==> #[trigger] t.op2@[i] == (if i < f2.len() {
                f2[i] as u64
            } else {
                0u64
            }),
        forall|i: int|
            0 <= i < n ==> #[trigger] t.res@[i] == (if i < f3.len() {
                f3[i] as u64
            } else {
                0u64
            }),
        forall|k: int, i: int|
            0 <= k < 4 && 0 <= i < n ==> #[trigger] (t.op1_limbs@[k]@)[i] == (if i < f1.len() {
                byte_of(f1[i], k)
            } else {
                0u64
            }),
        forall|k: int, i: int|
            0 <= k < 4 && 0 <= i < n ==> #[trigger] (t.op2_limbs@[k]@)[i] == (if i < f2.len() {
                byte_of(f2[i], k)
            } else {
                0u64
            }),
        forall|k: int, i: int|
            0 <= k < 4 && 0 <= i < n ==> #[trigger] (t.res_limbs@[k]@)[i] == (if i < f3.len() {
                byte_of(f3[i], k)
            } else {
                0u64
            }),
        forall|k: int| 0 <= k < 4 ==> (#[trigger] t.op1_limbs@[k]@).len() == n,
        forall|k: int| 0 <= k < 4 ==> (#[trigger] t.op2_limbs@[k]@).len() == n,
        forall|k: int| 0 <= k < 4 ==> (#[trigger] t.res_limbs@[k]@).len() == n,
        forall|k: int| 0 <= k < 4 ==> (#[trigger] t.compress_limbs@[k]@).len() == n,
        forall|k: int, i: int|
            0 <= k < 4 && 0 <= i < n ==> #[trigger] (t.compress_limbs@[k]@)[i] == compress3_spec(
                (t.op1_limbs@[k]@)[i] as int,
                (t.op2_limbs@[k]@)[i] as int,
                (t.res_limbs@[k]@)[i] as int,
            ),
        t.op2@.len() == n,
        t.res@.len() == n,
        t.fix_range_check_u8@.len() == n,
        t.fix_bitwise_op1@.len() == n,
        t.fix_bitwise_op2@.len() == n,
        t.fix_bitwise_res@.len() == n,
        t.fix_compress@.len() == n,
        forall|k: int|
            0 <= k < 4 ==> crate::sort::sorted_u64((#[trigger] t.op1_limbs_permuted@[k]@))
                && (t.op1_limbs_permuted@[k]@).len() == n,
        forall|k: int|
            0 <= k < 4 ==> crate::sort::sorted_u64((#[trigger] t.op2_limbs_permuted@[k]@))
                && (t.op2_limbs_permuted@[k]@).len() == n,
        forall|k: int|
            0 <= k < 4 ==> crate::sort::sorted_u64((#[trigger] t.res_limbs_permuted@[k]@))
                && (t.res_limbs_permuted@[k]@).len() == n,
        forall|k: int|
            0 <= k < 12 ==> (#[trigger] t.fix_range_check_u8_permuted@[k]@).len() == n,
        forall|k: int| 0 <= k < 4 ==> (#[trigger] t.compress_permuted@[k]@).len() == n,
        forall|k: int| 0 <= k < 4 ==> (#[trigger] t.fix_compress_permuted@[k]@).len() == n,
        forall|k: int|
            0 <= k < 4 ==> lookup_disjunction_ok(
                (#[trigger] t.op1_limbs_permuted@[k]@),
                t.fix_range_check_u8_permuted@[k]@,
            ),
        forall|k: int|
            0 <= k < 4 ==> lookup_disjunction_ok(
                (#[trigger] t.op2_limbs_permuted@[k]@),
                t.fix_range_check_u8_permuted@[k + 4]@,
            ),
        forall|k: int|
            0 <= k < 4 ==> lookup_disjunction_ok(
                (#[trigger] t.res_limbs_permuted@[k]@),
                t.fix_range_check_u8_permuted@[k + 8]@,
            ),
        forall|k: int|
            0 <= k < 4 ==> lookup_disjunction_ok(
                (#[trigger] t.compress_permuted@[k]@),
                t.fix_compress_permuted@[k]@,
            ),
    ensures
        bitwise_trace_ok(t),
{
    reveal(bitwise_trace_ok);
    assert forall|i: int| 0 <= i < n implies #[trigger] t.op1@[i] as int == reduce4_spec(
        (t.op1_limbs@[0]@)[i] as int,
        (t.op1_limbs@[1]@)[i] as int,
        (t.op1_limbs@[2]@)[i] as int,
        (t.op1_limbs@[3]@)[i] as int,
    ) by {
        if i < f1.len() {
            lemma_bytes_recompose(f1[i]);
        }
    }
    assert forall|i: int| 0 <= i < n implies #[trigger] t.op2@[i] as int == reduce4_spec(
        (t.op2_limbs@[0]@)[i] as int,
        (t.op2_limbs@[1]@)[i] as int,
        (t.op2_limbs@[2]@)[i] as int,
        (t.op2_limbs@[3]@)[i] as int,
    ) by {
        if i < f2.len() {
            lemma_bytes_recompose(f2[i]);
        }
    }
    assert forall|i: int| 0 <= i < n implies #[trigger] t.res@[i] as int == reduce4_spec(
        (t.res_limbs@[0]@)[i] as int,
        (t.res_limbs@[1]@)[i] as int,
        (t.res_limbs@[2]@)[i] as int,
        (t.res_limbs@[3]@)[i] as int,
    ) by {
        if i < f3.len() {
            lemma_bytes_recompose(f3[i]);
        }
    }
}

/// The bitwise-operand triples of all bitwise steps, in step order:
/// the projection the CPU's Xor-table lookup declaration filters out
/// of the execution.
pub open spec fn bw_triple_seq(rows: Seq<Row>) -> Seq<(u32, u32, u32)>
    decreases rows.len(),
{
    if rows.len() == 0 {
        Seq::empty()
    } else if is_bw_op(rows.last().inst.op) {
        bw_triple_seq(rows.drop_last()).push(
            (bw_op1(rows.last()), bw_op2(rows.last()), bw_res(rows.last())),
        )
    } else {
        bw_triple_seq(rows.drop_last())
    }
}

proof fn lemma_bw_triple_zip(rows: Seq<Row>)
    ensures
        bw_triple_seq(rows).len() == bw_op1_seq(rows).len(),
        forall|i: int|
            0 <= i < bw_triple_seq(rows).len() ==> #[trigger] bw_triple_seq(rows)[i] == (
            bw_op1_seq(rows)[i],
            bw_op2_seq(rows)[i],
            bw_res_seq(rows)[i],
            ),
    decreases rows.len(),
{
    lemma_bw_seq_lens(rows);
    if rows.len() > 0 {
        lemma_bw_triple_zip(rows.drop_last());
        lemma_bw_seq_lens(rows.drop_last());
    }
}

/// The executed rows of a Bitwise trace, as operand triples.
pub open spec fn trace_triples(t: BitwiseTrace, len: int) -> Seq<(u32, u32, u32)> {
    Seq::new(len as nat, |i: int| ((t.op1@[i] as u32), (t.op2@[i] as u32), (t.res@[i] as u32)))
}

/// The cross-table balance of the Bitwise declaration: the multiset
/// of bitwise-operand triples the execution record's filtered steps
/// carry equals the multiset of the generated table's executed rows.
pub proof fn lemma_bitwise_lookup_balance(t: BitwiseTrace, rows: Seq<Row>)
    requires
        t.op1@.len() >= bw_op1_seq(rows).len(),
        forall|i: int|
            0 <= i < t.op1@.len() ==> #[trigger] t.op1@[i] == (if i < bw_op1_seq(rows).len() {
                bw_op1_seq(rows)[i] as u64
            } else {
                0u64
            }),
        forall|i: int|
            0 <= i < t.op2@.len() ==> #[trigger] t.op2@[i] == (if i < bw_op2_seq(rows).len() {
                bw_op2_seq(rows)[i] as u64
            } else {
                0u64
            }),
        forall|i: int|
            0 <= i < t.res@.len() ==> #[trigger] t.res@[i] == (if i < bw_res_seq(rows).len() {
                bw_res_seq(rows)[i] as u64
            } else {
                0u64
            }),
        t.op2@.len() == t.op1@.len(),
        t.res@.len() == t.op1@.len(),
    ensures
        trace_triples(t, bw_op1_seq(rows).len() as int).to_multiset() == bw_triple_seq(
            rows,
        ).to_multiset(),
{
    lemma_bw_seq_lens(rows);
    lemma_bw_triple_zip(rows);
    assert(trace_triples(t, bw_op1_seq(rows).len() as int) =~= bw_triple_seq(rows));
}

} // verus!
