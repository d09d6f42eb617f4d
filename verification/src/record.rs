//! The execution record handed in by the interpreter, modelled as
//! plain values: decoded instructions, per-step register snapshots,
//! memory-access descriptors and I/O tape events, plus the static
//! program image. The trace generators only read it.

use vstd::prelude::*;

verus! {

/// The instruction classes the trace generators distinguish.
#[derive(Clone, Copy, PartialEq, Eq, Structural, Debug)]
pub enum Op {
    ADD,
    SUB,
    XOR,
    OR,
    AND,
    DIVU,
    REMU,
    MUL,
    MULHU,
    SLL,
    SLT,
    SLTU,
    SRL,
    JALR,
    BEQ,
    BNE,
    BLT,
    BLTU,
    BGE,
    BGEU,
    ECALL,
    SB,
    LBU,
}

/// The register and immediate arguments of an instruction.
#[derive(Clone, Copy, PartialEq, Eq, Structural, Debug)]
pub struct Args {
    pub rd: u8,
    pub rs1: u8,
    pub rs2: u8,
    pub imm: u32,
}

/// One decoded instruction.
#[derive(Clone, Copy, PartialEq, Eq, Structural, Debug)]
pub struct Instruction {
    pub op: Op,
    pub args: Args,
}

/// Which tape an I/O transaction works on.
#[derive(Clone, Copy, PartialEq, Eq, Structural, Debug)]
pub enum IoOpcode {
    StorePrivate,
    StorePublic,
}

/// One I/O tape transaction: the tape, the start address and the
/// transferred bytes.
#[derive(Clone, Debug)]
pub struct IoEntry {
    pub op: IoOpcode,
    pub addr: u32,
    pub data: Vec<u8>,
}

/// One step of the execution record.
#[derive(Clone, Debug)]
pub struct Row {
    /// The decoded instruction this step retired.
    pub inst: Instruction,
    /// The clock at this step.
    pub clk: u32,
    /// The register file before the step.
    pub regs: [u32; 32],
    /// The destination value the step produced.
    pub dst_val: u32,
    /// The touched memory address, if the step accessed memory.
    pub mem_addr: Option<u32>,
    /// The I/O transaction, if the step performed one.
    pub io: Option<IoEntry>,
}

/// Whether a step touches memory.
pub open spec fn row_has_mem(r: Row) -> bool {
    r.mem_addr is Some
}

/// One entry of the committed code image: an address and its decoded
/// instruction, or nothing where decoding failed.
#[derive(Clone, Copy, PartialEq, Eq, Structural, Debug)]
pub struct RomEntry {
    pub pc: u32,
    pub inst: Option<Instruction>,
}

/// The static program image: the read-only and read-write memory
/// maps, the committed code, and the entry point.
#[derive(Clone, Debug)]
pub struct Program {
    /// Read-only data, as address/byte pairs with strictly
    /// increasing addresses.
    pub ro_memory: Vec<(u32, u8)>,
    /// Read-write data, as address/byte pairs with strictly
    /// increasing addresses.
    pub rw_memory: Vec<(u32, u8)>,
    /// The committed code, with strictly increasing addresses.
    pub ro_code: Vec<RomEntry>,
    /// The entry point.
    pub entry_point: u32,
}

/// Whether an address/byte map is sorted with strictly increasing
/// addresses.
pub open spec fn data_map_wf(m: Seq<(u32, u8)>) -> bool {
    forall|i: int, j: int| 0 <= i < j < m.len() ==> (#[trigger] m[i]).0 < (#[trigger] m[j]).0
}

/// Whether a code image is sorted with strictly increasing addresses.
pub open spec fn code_wf(c: Seq<RomEntry>) -> bool {
    forall|i: int, j: int| 0 <= i < j < c.len() ==> (#[trigger] c[i]).pc < (#[trigger] c[j]).pc
}

/// Well-formedness of a program image.
pub open spec fn program_wf(p: Program) -> bool {
    &&& data_map_wf(p.ro_memory@)
    &&& data_map_wf(p.rw_memory@)
    &&& code_wf(p.ro_code@)
}

/// Whether an address occurs in an address/byte map.
pub open spec fn map_contains_addr(m: Seq<(u32, u8)>, addr: u32) -> bool {
    exists|i: int| 0 <= i < m.len() && (#[trigger] m[i]).0 == addr
}

/// Decides whether an address occurs in an address/byte map.
pub fn contains_addr(m: &Vec<(u32, u8)>, addr: u32) -> (r: bool)
    ensures
        r == map_contains_addr(m@, addr),
{
    let mut k: usize = 0;
    while k < m.len()
        invariant
            k <= m@.len(),
            forall|i: int| 0 <= i < k ==> (#[trigger] m@[i]).0 != addr,
        decreases m@.len() - k,
    {
        if m[k].0 == addr {
            return true;
        }
        k = k + 1;
    }
    false
}

} // verus!
