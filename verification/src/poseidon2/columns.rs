//! The permutation table's lookup interface: the sponge looks each
//! invocation of the permutation up by its input and output state.

use vstd::prelude::*;

verus! {

/// Width of the permutation state, in field elements.
pub const STATE_WIDTH: usize = 12;

/// The columns a permutation invocation exposes to lookups: the full
/// input and output state.
#[derive(Clone, Debug)]
pub struct Poseidon2StateCtl<T> {
    pub input: [T; 12],
    pub output: [T; 12],
}

} // verus!
