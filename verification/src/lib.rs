//! Arithmetization core of a RISC-V zero-knowledge virtual machine.
//!
//! An execution record is turned into per-table trace grids of field
//! elements (CPU, Bitwise, Xor, Shift-Amount, Memory, Program ROM,
//! RangeCheck, I/O-Memory), each with its own algebraic constraint set,
//! linked together by cross-table lookup declarations and a
//! permutation-based range-check lookup argument.

pub mod bitshift;
pub mod bitwise;
pub mod cli_benches;
pub mod cpu;
pub mod cross_table_lookup;
pub mod field;
pub mod generation;
pub mod lookup;
pub mod memory;
pub mod memory_io;
pub mod poseidon2;
pub mod poseidon2_sponge;
pub mod program;
pub mod rangecheck;
pub mod record;
pub mod rangecheck_limb;
pub mod sdk;
pub mod sort;
pub mod stark;
pub mod trace;
pub mod xor;
