//! Native-side SDK helpers: the call-context identity stack kept
//! while a guest program runs natively, and the plain descriptors
//! that the proving front end writes out.

use vstd::prelude::*;

verus! {

/// Identifies a guest program by its four-limb digest.
#[derive(Clone, Copy, PartialEq, Eq, Structural, Debug)]
pub struct ProgramIdentifier {
    pub d0: u64,
    pub d1: u64,
    pub d2: u64,
    pub d3: u64,
}

/// The all-zero identifier, standing for "no program".
pub open spec fn null_identifier() -> ProgramIdentifier {
    ProgramIdentifier { d0: 0, d1: 0, d2: 0, d3: 0 }
}

impl Default for ProgramIdentifier {
    fn default() -> (r: Self)
        ensures
            r == null_identifier(),
    {
        ProgramIdentifier { d0: 0, d1: 0, d2: 0, d3: 0 }
    }
}

/// A stack of call contexts during native execution.
#[derive(Clone, Debug)]
pub struct IdentityStack(pub Vec<ProgramIdentifier>);

impl IdentityStack {
    /// Pushes `id` on top of the stack.
    pub fn add_identity(&mut self, id: ProgramIdentifier)
        ensures
            final(self).0@ == old(self).0@.push(id),
    {
        self.0.push(id);
    }

    /// The identity on top of the stack, or the all-zero identifier
    /// when the stack is empty.
    pub fn top_identity(&self) -> (r: ProgramIdentifier)
        ensures
            self.0@.len() > 0 ==> r == self.0@.last(),
            self.0@.len() == 0 ==> r == null_identifier(),
    {
        if self.0.len() == 0 {
            ProgramIdentifier::default()
        } else {
            self.0[self.0.len() - 1]
        }
    }

    /// Removes the identity on top of the stack; on an empty stack it
    /// does nothing.
    pub fn rm_identity(&mut self)
        ensures
            old(self).0@.len() > 0 ==> final(self).0@ == old(self).0@.drop_last(),
            old(self).0@.len() == 0 ==> final(self).0@ == old(self).0@,
    {
        if self.0.len() > 0 {
            let _ = self.0.pop();
            proof {
                assert(final(self).0@ =~= old(self).0@.drop_last());
            }
        }
    }
}

/// Declares the guest ELF and the system tape that are to be proven
/// together; written out as the bundle plan.
#[derive(Clone, Debug)]
pub struct ProofBundle {
    pub self_prog_id: String,
    pub elf_filepath: String,
    pub system_tape_filepath: String,
}

/// One `bin` entry of a guest program's manifest.
#[derive(Clone, Debug)]
pub struct Bin {
    pub name: String,
    pub path: String,
}

/// The part of a guest program's manifest that the proving front end
/// reads: its declared binaries.
#[derive(Clone, Debug)]
pub struct GuestProgramTomlCfg {
    pub bin: Vec<Bin>,
}

} // verus!
