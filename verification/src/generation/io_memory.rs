//! Generation of the I/O-Memory traces: each tape transaction
//! contributes one header row followed by one row per transferred
//! byte, and the trace is padded to a power of two of at least the
//! minimum height.

use vstd::prelude::*;
use crate::memory_io::columns::{InputOutputMemory, Ops};
use crate::record::{IoEntry, IoOpcode, Op, Row};
use crate::trace::{is_pow2, pad_trace, MAX_TRACE_LENGTH, MIN_TRACE_LENGTH};

verus! {

/// The all-zero I/O-Memory row used for padding.
pub open spec fn io_zero_row() -> InputOutputMemory {
    InputOutputMemory {
        clk: 0,
        addr: 0,
        size: 0,
        value: 0,
        ops: Ops { is_memory_store: 0, is_io_store: 0 },
        is_lv_and_nv_are_memory_rows: 0,
    }
}

/// The header row of one transaction.
pub open spec fn io_header_row(clk: u32, e: IoEntry) -> InputOutputMemory {
    InputOutputMemory {
        clk: clk as u64,
        addr: e.addr as u64,
        size: e.data@.len() as u64,
        value: 0,
        ops: Ops { is_memory_store: 0, is_io_store: 1 },
        is_lv_and_nv_are_memory_rows: 0,
    }
}

/// The byte rows of one transaction, from byte `i` on: each carries
/// its own address, the remaining size, and its value, and flags
/// whether another byte row follows.
pub open spec fn io_byte_rows(clk: u32, e: IoEntry, i: int) -> Seq<InputOutputMemory>
    decreases e.data@.len() - i,
{
    if i < 0 || i >= e.data@.len() {
        Seq::empty()
    } else {
        seq![
            InputOutputMemory {
                clk: clk as u64,
                addr: ((e.addr + i) % 0x1_0000_0000) as u64,
                size: (e.data@.len() - i - 1) as u64,
                value: e.data@[i] as u64,
                ops: Ops { is_memory_store: 1, is_io_store: 0 },
                is_lv_and_nv_are_memory_rows: if i + 1 < e.data@.len() {
                    1u64
                } else {
                    0u64
                },
            },
        ] + io_byte_rows(clk, e, i + 1)
    }
}

/// Whether a step is a transaction on the given tape.
pub open spec fn is_io_step(r: Row, which_tape: IoOpcode) -> bool {
    r.io is Some && r.io->0.op == which_tape && r.inst.op == Op::ECALL
}

/// The rows of all transactions on one tape, in step order.
pub open spec fn io_rows_of(rows: Seq<Row>, which_tape: IoOpcode) -> Seq<InputOutputMemory>
    decreases rows.len(),
{
    if rows.len() == 0 {
        Seq::empty()
    } else {
        let rest = io_rows_of(rows.drop_last(), which_tape);
        if is_io_step(rows.last(), which_tape) {
            rest + seq![io_header_row(rows.last().clk, rows.last().io->0)] + io_byte_rows(
                rows.last().clk,
                rows.last().io->0,
                0,
            )
        } else {
            rest
        }
    }
}

/// The number of byte rows a transaction contributes from byte `i`
/// on.
pub proof fn lemma_io_byte_rows_len(clk: u32, e: IoEntry, i: int)
    requires
        0 <= i <= e.data@.len(),
    ensures
        io_byte_rows(clk, e, i).len() == e.data@.len() - i,
    decreases e.data@.len() - i,
{
    if i < e.data@.len() {
        lemma_io_byte_rows_len(clk, e, i + 1);
    }
}

/// Generates the I/O-Memory trace of one tape.
pub fn generate_io_memory_trace(step_rows: &Vec<Row>, which_tape: IoOpcode) -> (r: Vec<
    InputOutputMemory,
>)
    requires
        io_rows_of(step_rows@, which_tape).len() <= MAX_TRACE_LENGTH,
    ensures
        is_pow2(r@.len() as int),
        r@.len() >= MIN_TRACE_LENGTH,
        r@.len() >= io_rows_of(step_rows@, which_tape).len(),
        r@.subrange(0, io_rows_of(step_rows@, which_tape).len() as int) == io_rows_of(
            step_rows@,
            which_tape,
        ),
        forall|i: int|
            io_rows_of(step_rows@, which_tape).len() <= i < r@.len() ==> #[trigger] r@[i]
                == io_zero_row(),
{
    let mut out: Vec<InputOutputMemory> = Vec::new();
    let mut k: usize = 0;
    proof {
        assert(step_rows@.subrange(0, 0) =~= Seq::<Row>::empty());
    }
    while k < step_rows.len()
        invariant
            k <= step_rows@.len(),
            out@ == io_rows_of(step_rows@.subrange(0, k as int), which_tape),
            io_rows_of(step_rows@, which_tape).len() <= MAX_TRACE_LENGTH,
        decreases step_rows@.len() - k,
    {
        let ghost pre = step_rows@.subrange(0, k as int);
        proof {
            assert(step_rows@.subrange(0, k + 1).drop_last() =~= pre);
            assert(step_rows@.subrange(0, k + 1).last() == step_rows@[k as int]);
        }
        let row = &step_rows[k];
        let is_ecall: bool = match row.inst.op {
            Op::ECALL => true,
            _ => false,
        };
        match &row.io {
            Some(entry) => {
                let tape_matches: bool = match (entry.op, which_tape) {
                    (IoOpcode::StorePrivate, IoOpcode::StorePrivate) => true,
                    (IoOpcode::StorePublic, IoOpcode::StorePublic) => true,
                    _ => false,
                };
                if is_ecall && tape_matches {
                    let len = entry.data.len();
                    out.push(InputOutputMemory {
                        clk: row.clk as u64,
                        addr: entry.addr as u64,
                        size: len as u64,
                        value: 0,
                        ops: Ops { is_memory_store: 0, is_io_store: 1 },
                        is_lv_and_nv_are_memory_rows: 0,
                    });
                    let ghost header_done = out@;
                    let mut b: usize = 0;
                    while b < len
                        invariant
                            b <= len,
                            len == entry.data@.len(),
                            *entry == step_rows@[k as int].io->0,
                            row.clk == step_rows@[k as int].clk,
                            out@ + io_byte_rows(step_rows@[k as int].clk, *entry, b as int)
                                == header_done + io_byte_rows(
                                step_rows@[k as int].clk,
                                *entry,
                                0,
                            ),
                        decreases len - b,
                    {
                        let ghost before = out@;
                        let local_addr = (((entry.addr as u128) + (b as u128)) % 0x1_0000_0000)
                            as u32;
                        let brow = InputOutputMemory {
                            clk: row.clk as u64,
                            addr: local_addr as u64,
                            size: (len - b - 1) as u64,
                            value: entry.data[b] as u64,
                            ops: Ops { is_memory_store: 1, is_io_store: 0 },
                            is_lv_and_nv_are_memory_rows: if b + 1 < len {
                                1
                            } else {
                                0
                            },
                        };
                        out.push(brow);
                        proof {
                            assert(io_byte_rows(step_rows@[k as int].clk, *entry, b as int)
                                == seq![brow] + io_byte_rows(
                                step_rows@[k as int].clk,
                                *entry,
                                b + 1,
                            ));
                            assert(before + (seq![brow] + io_byte_rows(
                                step_rows@[k as int].clk,
                                *entry,
                                b + 1,
                            )) =~= out@ + io_byte_rows(step_rows@[k as int].clk, *entry, b + 1));
                        }
                        b = b + 1;
                    }
                    proof {
                        assert(io_byte_rows(step_rows@[k as int].clk, *entry, len as int)
                            =~= Seq::<InputOutputMemory>::empty());
                        assert(out@ =~= out@ + io_byte_rows(
                            step_rows@[k as int].clk,
                            *entry,
                            len as int,
                        ));
                        assert(out@ =~= io_rows_of(step_rows@.subrange(0, k + 1), which_tape));
                    }
                } else {
                    proof {
                        assert(io_rows_of(step_rows@.subrange(0, k + 1), which_tape)
                            == io_rows_of(pre, which_tape));
                    }
                }
            },
            None => {
                proof {
                    assert(io_rows_of(step_rows@.subrange(0, k + 1), which_tape) == io_rows_of(
                        pre,
                        which_tape,
                    ));
                }
            },
        }
        k = k + 1;
    }
    proof {
        assert(step_rows@.subrange(0, step_rows@.len() as int) =~= step_rows@);
    }

    // bring the trace up to the minimum height before padding, so
    // the result is a power of two of at least that height
    while out.len() < MIN_TRACE_LENGTH
        invariant
            out@.len() >= io_rows_of(step_rows@, which_tape).len(),
            out@.subrange(0, io_rows_of(step_rows@, which_tape).len() as int) == io_rows_of(
                step_rows@,
                which_tape,
            ),
            forall|i: int|
                io_rows_of(step_rows@, which_tape).len() <= i < out@.len() ==> #[trigger] out@[i]
                    == io_zero_row(),
            out@.len() <= MAX_TRACE_LENGTH,
        decreases MIN_TRACE_LENGTH - out.len(),
    {
        let ghost before = out@;
        out.push(InputOutputMemory {
            clk: 0,
            addr: 0,
            size: 0,
            value: 0,
            ops: Ops { is_memory_store: 0, is_io_store: 0 },
            is_lv_and_nv_are_memory_rows: 0,
        });
        proof {
            let gl = io_rows_of(step_rows@, which_tape).len() as int;
            if gl <= before.len() {
                assert(out@.subrange(0, gl) =~= before.subrange(0, gl));
            }
        }
    }
    let ghost gl = io_rows_of(step_rows@, which_tape).len() as int;
    let ghost before_pad = out@;
    let padded = pad_trace(out, InputOutputMemory {
        clk: 0,
        addr: 0,
        size: 0,
        value: 0,
        ops: Ops { is_memory_store: 0, is_io_store: 0 },
        is_lv_and_nv_are_memory_rows: 0,
    });
    proof {
        assert(padded@.subrange(0, gl) =~= before_pad.subrange(0, gl));
        assert forall|i: int| gl <= i < padded@.len() implies #[trigger] padded@[i]
            == io_zero_row() by {
            if i < before_pad.len() {
                assert(padded@.subrange(0, before_pad.len() as int)[i] == padded@[i]);
            }
        }
    }
    padded
}

/// Generates the private-tape I/O-Memory trace.
pub fn generate_io_memory_private_trace(step_rows: &Vec<Row>) -> (r: Vec<InputOutputMemory>)
    requires
        io_rows_of(step_rows@, IoOpcode::StorePrivate).len() <= MAX_TRACE_LENGTH,
    ensures
        is_pow2(r@.len() as int),
        r@.len() >= io_rows_of(step_rows@, IoOpcode::StorePrivate).len(),
        r@.subrange(0, io_rows_of(step_rows@, IoOpcode::StorePrivate).len() as int) == io_rows_of(
            step_rows@,
            IoOpcode::StorePrivate,
        ),
{
    generate_io_memory_trace(step_rows, IoOpcode::StorePrivate)
}

/// Generates the public-tape I/O-Memory trace.
pub fn generate_io_memory_public_trace(step_rows: &Vec<Row>) -> (r: Vec<InputOutputMemory>)
    requires
        io_rows_of(step_rows@, IoOpcode::StorePublic).len() <= MAX_TRACE_LENGTH,
    ensures
        is_pow2(r@.len() as int),
        r@.len() >= io_rows_of(step_rows@, IoOpcode::StorePublic).len(),
        r@.subrange(0, io_rows_of(step_rows@, IoOpcode::StorePublic).len() as int) == io_rows_of(
            step_rows@,
            IoOpcode::StorePublic,
        ),
{
    generate_io_memory_trace(step_rows, IoOpcode::StorePublic)
}

} // verus!
