//! Columns of the Bitwise table: one evaluated bitwise operation per
//! row, the byte limbs of both operands and the result, a fixed
//! byte-range table, a fixed table of all byte xor triples, the
//! compressed triples, and the permuted columns of the in-table
//! range-check lookups.

use vstd::prelude::*;

verus! {

/// The base of the byte-limb decomposition.
pub const LIMB_BASE: u64 = 256;

/// The number of rows of the fixed byte-pair table: 2^8 * 2^8.
pub const BITWISE_U8_SIZE: usize = 0x1_0000;

/// The Bitwise table, kept column-major: each field is one column,
/// and all columns have the same power-of-two length.
#[derive(Debug)]
pub struct BitwiseTrace {
    /// First operand.
    pub op1: Vec<u64>,
    /// Second operand (with the immediate already added).
    pub op2: Vec<u64>,
    /// The xor of the operands; the sole place xor truth is
    /// established.
    pub res: Vec<u64>,
    /// Byte limbs of the operands and the result, lowest first.
    pub op1_limbs: [Vec<u64>; 4],
    pub op2_limbs: [Vec<u64>; 4],
    pub res_limbs: [Vec<u64>; 4],
    /// The limb columns, permuted for the range-check lookups.
    pub op1_limbs_permuted: [Vec<u64>; 4],
    pub op2_limbs_permuted: [Vec<u64>; 4],
    pub res_limbs_permuted: [Vec<u64>; 4],
    /// One compressed value per limb lane: `l1 + 256*l2 + 65536*l3`.
    pub compress_limbs: [Vec<u64>; 4],
    /// The compressed columns, permuted for the xor-table lookups.
    pub compress_permuted: [Vec<u64>; 4],
    /// The fixed byte range 0..=255, padded with zeros.
    pub fix_range_check_u8: Vec<u64>,
    /// The fixed byte range, permuted against each of the twelve limb
    /// columns.
    pub fix_range_check_u8_permuted: [Vec<u64>; 12],
    /// The fixed table of all byte pairs and their xor.
    pub fix_bitwise_op1: Vec<u64>,
    pub fix_bitwise_op2: Vec<u64>,
    pub fix_bitwise_res: Vec<u64>,
    /// The fixed table's compressed triples.
    pub fix_compress: Vec<u64>,
    /// The fixed compressed triples, permuted against each compressed
    /// limb lane.
    pub fix_compress_permuted: [Vec<u64>; 4],
}

} // verus!
