//! Columns of the limb-level range-check table: a column of values
//! in 0..=255 with a filter marking the real (non-dummy) entries.

use vstd::prelude::*;
use crate::cross_table_lookup::ColumnX;

verus! {

/// One row of the limb range-check table.
#[derive(Clone, Copy, PartialEq, Eq, Structural, Debug, Default)]
pub struct RangeCheckLimb {
    /// A value in 0..=255, with possible duplicates.
    pub element: u64,
    /// Binary filter: the value is real, not a dummy.
    pub filter: u64,
}

/// The names of the limb table's columns, for lookup declarations.
#[derive(Clone, Copy, PartialEq, Eq, Structural, Debug)]
pub enum LimbCol {
    Element,
    Filter,
}

/// The column holding the data to be range checked.
pub fn data() -> (r: Vec<ColumnX<LimbCol>>)
    ensures
        r@.len() == 1,
        r@[0].terms@ =~= seq![(LimbCol::Element, 1u64)],
        r@[0].constant == 0u64,
{
    let mut out: Vec<ColumnX<LimbCol>> = Vec::new();
    out.push(ColumnX::single(LimbCol::Element));
    out
}

/// The binary filter marking rows that hold a real value.
pub fn filter() -> (r: ColumnX<LimbCol>)
    ensures
        r.terms@ =~= seq![(LimbCol::Filter, 1u64)],
        r.constant == 0u64,
{
    ColumnX::single(LimbCol::Filter)
}

} // verus!
