//! Benchmark drivers: each exercises one part of the library on a
//! synthetic workload. Only the sponge-input benchmark runs inside
//! the library; the others need the proving pipeline around it.

use vstd::prelude::*;
use crate::generation::io_memory::{
    generate_io_memory_public_trace, io_rows_of, is_io_step, lemma_io_byte_rows_len,
};
use crate::memory_io::columns::InputOutputMemory;
use crate::record::{Args, Instruction, IoEntry, IoOpcode, Op, Row};

verus! {

/// The largest sponge-input repetition count the benchmark accepts.
pub const BENCH_MAX_INPUT_LEN: u32 = 0x10_0000;

/// Why a benchmark did not run.
#[derive(Clone, Copy, PartialEq, Eq, Structural, Debug)]
pub enum BenchError {
    /// The benchmark needs the proving pipeline around the library.
    Unsupported,
    /// The requested input is too large to lay out.
    InputTooLarge,
}

/// The benchmark functions.
#[derive(Clone, Copy, PartialEq, Eq, Structural, Debug)]
pub enum BenchFunction {
    MemoryBench { iterations: u32 },
    XorBench { iterations: u32 },
    NopBench { iterations: u32 },
    Poseidon2Bench { input_len: u32 },
    /// Benchmarks (almost) every instruction.
    OmniBench { iterations: u32 },
    SortBench { n: u32 },
    Poseidon2ELFBench { n: u32 },
}

/// The benchmark to run.
#[derive(Clone, Copy, PartialEq, Eq, Structural, Debug)]
pub struct BenchArgs {
    pub function: BenchFunction,
}

/// Exercises the I/O-Memory trace generation on a sponge input of
/// `input_len` repetitions of the benchmark tag, written to the
/// public tape at the benchmark address.
pub fn poseidon2_bench(input_len: u32) -> (r: Result<(), BenchError>)
    ensures
        input_len <= BENCH_MAX_INPUT_LEN ==> r is Ok,
        input_len > BENCH_MAX_INPUT_LEN ==> r == Err::<(), BenchError>(BenchError::InputTooLarge),
{
    if input_len > BENCH_MAX_INPUT_LEN {
        return Err(BenchError::InputTooLarge);
    }
    // the tag the benchmark repeats: the bytes of
    // `dead_beef_feed_c0de`
    let mut data: Vec<u8> = Vec::new();
    let mut k: u32 = 0;
    while k < input_len
        invariant
            k <= input_len,
            input_len <= BENCH_MAX_INPUT_LEN,
            data@.len() == 19 * k,
        decreases input_len - k,
    {
        data.push(0x64);
        data.push(0x65);
        data.push(0x61);
        data.push(0x64);
        data.push(0x5f);
        data.push(0x62);
        data.push(0x65);
        data.push(0x65);
        data.push(0x66);
        data.push(0x5f);
        data.push(0x66);
        data.push(0x65);
        data.push(0x65);
        data.push(0x64);
        data.push(0x5f);
        data.push(0x63);
        data.push(0x30);
        data.push(0x64);
        data.push(0x65);
        k = k + 1;
    }
    let entry = IoEntry { op: IoOpcode::StorePublic, addr: 1024, data };
    let row = Row {
        inst: Instruction { op: Op::ECALL, args: Args { rd: 0, rs1: 0, rs2: 0, imm: 0 } },
        clk: 1,
        regs: [
            0, 0, 0, 0, 0, 0, 0, 0, 0, 0, 0, 0, 0, 0, 0, 0, 0, 0, 0, 0, 0, 0, 0, 0, 0, 0, 0,
            0, 0, 0, 0, 0,
        ],
        dst_val: 0,
        mem_addr: None,
        io: Some(entry),
    };
    let mut rows: Vec<Row> = Vec::new();
    rows.push(row);
    proof {
        let rs = rows@;
        assert(rs.len() == 1);
        assert(rs.last().io is Some);
        assert(rs.last().io->0.op == IoOpcode::StorePublic);
        assert(rs.last().inst.op == Op::ECALL);
        assert(is_io_step(rs.last(), IoOpcode::StorePublic));
        assert(rs.drop_last() =~= Seq::<Row>::empty());
        assert(io_rows_of(rs.drop_last(), IoOpcode::StorePublic)
            =~= Seq::<InputOutputMemory>::empty());
        lemma_io_byte_rows_len(rs.last().clk, rs.last().io->0, 0);
        assert(io_rows_of(rs, IoOpcode::StorePublic).len() == 1 + rs.last().io->0.data@.len());
    }
    let trace = generate_io_memory_public_trace(&rows);
    // the generated trace is a power of two by contract; the
    // benchmark only drives the generation
    if trace.len() == 0 {
        return Err(BenchError::Unsupported);
    }
    Ok(())
}

impl BenchArgs {
    /// Runs the selected benchmark. Only the sponge-input benchmark
    /// runs inside the library; every other selection reports that
    /// it needs the proving pipeline.
    pub fn run(&self) -> (r: Result<(), BenchError>)
        ensures
            match self.function {
                BenchFunction::Poseidon2Bench { input_len } => (input_len
                    <= BENCH_MAX_INPUT_LEN ==> r is Ok) && (input_len > BENCH_MAX_INPUT_LEN
                    ==> r == Err::<(), BenchError>(BenchError::InputTooLarge)),
                _ => r == Err::<(), BenchError>(BenchError::Unsupported),
            },
    {
        match self.function {
            BenchFunction::Poseidon2Bench { input_len } => poseidon2_bench(input_len),
            _ => Err(BenchError::Unsupported),
        }
    }
}

} // verus!
