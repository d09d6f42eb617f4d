//! The proving pipeline's one cross-table synchronization point: all
//! per-table trace commitments must be absorbed into the transcript
//! before any lookup challenge is drawn. Reordering those two steps
//! breaks the soundness of the challenge derivation, so the schedule
//! is enforced here by contract; the commitment machinery itself
//! stays outside the library.

use vstd::prelude::*;
use crate::cross_table_lookup::TableKind;

verus! {

/// How many tables the proof commits to.
pub const TABLE_COUNT: usize = 12;

/// The transcript schedule of one proving run.
#[derive(Clone, Copy, PartialEq, Eq, Structural, Debug)]
pub struct ProvingSchedule {
    /// How many per-table trace commitments the transcript absorbed.
    pub tables_committed: usize,
    /// Whether the lookup challenges were drawn.
    pub ctl_challenges_drawn: bool,
}

/// Whether the schedule may draw lookup challenges: every table's
/// trace commitment was absorbed first.
pub open spec fn ready_for_challenges(s: ProvingSchedule) -> bool {
    s.tables_committed == TABLE_COUNT && !s.ctl_challenges_drawn
}

impl ProvingSchedule {
    /// A fresh schedule: nothing absorbed, no challenge drawn.
    pub fn new() -> (r: Self)
        ensures
            r.tables_committed == 0,
            !r.ctl_challenges_drawn,
    {
        ProvingSchedule { tables_committed: 0, ctl_challenges_drawn: false }
    }

    /// Absorbs one table's trace commitment. No commitment may be
    /// absorbed once a lookup challenge was drawn.
    pub fn absorb_trace_commitment(&mut self)
        requires
            !old(self).ctl_challenges_drawn,
            old(self).tables_committed < TABLE_COUNT,
        ensures
            final(self).tables_committed == old(self).tables_committed + 1,
            !final(self).ctl_challenges_drawn,
    {
        self.tables_committed = self.tables_committed + 1;
    }

    /// Draws the lookup challenges; allowed only once, and only when
    /// every table's commitment is in the transcript.
    pub fn draw_ctl_challenges(&mut self)
        requires
            ready_for_challenges(*old(self)),
        ensures
            final(self).tables_committed == old(self).tables_committed,
            final(self).ctl_challenges_drawn,
    {
        self.ctl_challenges_drawn = true;
    }

    /// Which table a commitment index stands for, in commitment
    /// order.
    pub fn table_of(&self, index: usize) -> (r: Option<TableKind>)
        ensures
            index < TABLE_COUNT <==> r is Some,
    {
        match index {
            0 => Some(TableKind::Cpu),
            1 => Some(TableKind::RangeCheck),
            2 => Some(TableKind::Bitwise),
            3 => Some(TableKind::Xor),
            4 => Some(TableKind::Shift),
            5 => Some(TableKind::Program),
            6 => Some(TableKind::Memory),
            7 => Some(TableKind::IoMemoryPrivate),
            8 => Some(TableKind::IoMemoryPublic),
            9 => Some(TableKind::Poseidon2Sponge),
            10 => Some(TableKind::Poseidon2),
            11 => Some(TableKind::Poseidon2OutputBytes),
            _ => None,
        }
    }
}

} // verus!
