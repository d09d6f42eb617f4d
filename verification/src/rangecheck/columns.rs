//! Columns of the RangeCheck table: each checked value is split into
//! two 16-bit limbs, and each limb is matched against the fixed
//! 0..65535 table through the permutation lookup.

use vstd::prelude::*;
use crate::field::is_fe;

verus! {

/// One row of the RangeCheck table.
#[derive(Clone, Copy, PartialEq, Eq, Structural, Debug, Default)]
pub struct RangeCheckColumnsView {
    /// The value claimed to fit 32 bits.
    pub val: u64,
    /// Low 16-bit limb of `val`.
    pub limb_lo: u64,
    /// High 16-bit limb of `val`.
    pub limb_hi: u64,
    /// Binary filter: the row was looked up by another table.
    pub cpu_filter: u64,
    /// `limb_lo` column, permuted for the lookup argument.
    pub limb_lo_permuted: u64,
    /// `limb_hi` column, permuted for the lookup argument.
    pub limb_hi_permuted: u64,
    /// The fixed 0..65535 table.
    pub fixed_range_check_u16: u64,
    /// The fixed table, permuted against the low limbs.
    pub fixed_range_check_u16_permuted_lo: u64,
    /// The fixed table, permuted against the high limbs.
    pub fixed_range_check_u16_permuted_hi: u64,
}

/// Well-formedness of a RangeCheck row: every cell canonical.
pub open spec fn rc_row_wf(r: RangeCheckColumnsView) -> bool {
    &&& is_fe(r.val)
    &&& is_fe(r.limb_lo)
    &&& is_fe(r.limb_hi)
    &&& is_fe(r.cpu_filter)
    &&& is_fe(r.limb_lo_permuted)
    &&& is_fe(r.limb_hi_permuted)
    &&& is_fe(r.fixed_range_check_u16)
    &&& is_fe(r.fixed_range_check_u16_permuted_lo)
    &&& is_fe(r.fixed_range_check_u16_permuted_hi)
}

/// The RangeCheck table, kept column-major: each field is one
/// column, all of the same power-of-two length.
#[derive(Debug)]
pub struct RangeCheckTrace {
    pub val: Vec<u64>,
    pub limb_lo: Vec<u64>,
    pub limb_hi: Vec<u64>,
    pub cpu_filter: Vec<u64>,
    pub limb_lo_permuted: Vec<u64>,
    pub limb_hi_permuted: Vec<u64>,
    pub fixed_range_check_u16: Vec<u64>,
    pub fixed_range_check_u16_permuted_lo: Vec<u64>,
    pub fixed_range_check_u16_permuted_hi: Vec<u64>,
}

} // verus!
