//! Columns of the Program-ROM table: a sorted table of decoded
//! instructions, looked up by the CPU so that the executed stream
//! matches the committed program.

use vstd::prelude::*;
use crate::field::is_fe;

verus! {

/// One decoded instruction as the ROM table lays it out.
#[derive(Clone, Copy, PartialEq, Eq, Structural, Debug, Default)]
pub struct InstructionRow {
    pub pc: u64,
    pub opcode: u64,
    pub rs1: u64,
    pub rs2: u64,
    pub rd: u64,
    pub imm: u64,
}

/// One row of the Program-ROM table.
#[derive(Clone, Copy, PartialEq, Eq, Structural, Debug, Default)]
pub struct ProgramRom {
    /// Binary filter: the row holds a real instruction.
    pub filter: u64,
    pub inst: InstructionRow,
}

/// Well-formedness of a ROM row: every cell canonical.
pub open spec fn rom_row_wf(r: ProgramRom) -> bool {
    &&& is_fe(r.filter)
    &&& is_fe(r.inst.pc)
    &&& is_fe(r.inst.opcode)
    &&& is_fe(r.inst.rs1)
    &&& is_fe(r.inst.rs2)
    &&& is_fe(r.inst.rd)
    &&& is_fe(r.inst.imm)
}

} // verus!
