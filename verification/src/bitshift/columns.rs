//! Columns of the Shift-Amount table, which enumerates the legal
//! domain of shift amounts as a bounded lookup target.

use vstd::prelude::*;

verus! {

/// The shift columns a CPU row carries: the shift amount and the
/// power of two it stands for.
#[derive(Clone, Copy, PartialEq, Eq, Structural, Debug, Default)]
pub struct Bitshift {
    pub amount: u64,
    pub multiplier: u64,
}

/// One row of the Shift-Amount table: a shift amount from the legal
/// domain, and whether some executed instruction used it.
#[derive(Clone, Copy, PartialEq, Eq, Structural, Debug, Default)]
pub struct ShiftAmountView {
    pub is_executed: u64,
    pub executed: u64,
}

} // verus!
