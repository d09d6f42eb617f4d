//! Generation of the Program-ROM trace: the committed code image,
//! one row per decoded instruction in address order, padded with
//! filtered-out rows. An entry whose instruction cannot be decoded
//! is a hard error: a silently zero-filled row would still satisfy
//! the degree checks and certify a wrong program.

use vstd::prelude::*;
use crate::program::columns::{InstructionRow, ProgramRom};
use crate::record::{code_wf, Instruction, Op, Program, RomEntry};
use crate::trace::{is_pow2, pad_trace, MAX_TRACE_LENGTH};

verus! {

/// Why trace generation rejected its input.
#[derive(Clone, Copy, PartialEq, Eq, Structural, Debug)]
pub enum TraceError {
    /// A committed code entry could not be decoded.
    UndecodableInstruction,
}

/// The numeric code of an instruction class, as the ROM lays it out.
pub open spec fn opcode_code(op: Op) -> u64 {
    match op {
        Op::ADD => 1,
        Op::SUB => 2,
        Op::XOR => 3,
        Op::OR => 4,
        Op::AND => 5,
        Op::DIVU => 6,
        Op::REMU => 7,
        Op::MUL => 8,
        Op::MULHU => 9,
        Op::SLL => 10,
        Op::SLT => 11,
        Op::SLTU => 12,
        Op::SRL => 13,
        Op::JALR => 14,
        Op::BEQ => 15,
        Op::BNE => 16,
        Op::BLT => 17,
        Op::BLTU => 18,
        Op::BGE => 19,
        Op::BGEU => 20,
        Op::ECALL => 21,
        Op::SB => 22,
        Op::LBU => 23,
    }
}

/// One ROM row of a decoded instruction at its address.
pub open spec fn rom_row_spec(pc: u32, inst: Instruction) -> ProgramRom {
    ProgramRom {
        filter: 1,
        inst: InstructionRow {
            pc: pc as u64,
            opcode: opcode_code(inst.op),
            rs1: inst.args.rs1 as u64,
            rs2: inst.args.rs2 as u64,
            rd: inst.args.rd as u64,
            imm: inst.args.imm as u64,
        },
    }
}

/// Whether every committed code entry decodes.
pub open spec fn code_decodes(c: Seq<RomEntry>) -> bool {
    forall|i: int| 0 <= i < c.len() ==> (#[trigger] c[i]).inst is Some
}

/// The ROM rows of a fully decoded code image, in image order.
pub open spec fn rom_rows_of(c: Seq<RomEntry>) -> Seq<ProgramRom>
    decreases c.len(),
{
    if c.len() == 0 {
        Seq::empty()
    } else {
        rom_rows_of(c.drop_last()).push(rom_row_spec(c.last().pc, c.last().inst->0))
    }
}

/// The all-zero row the ROM trace is padded with; its filter is
/// clear, so constraints ignore it.
pub open spec fn rom_pad_row() -> ProgramRom {
    ProgramRom {
        filter: 0,
        inst: InstructionRow { pc: 0, opcode: 0, rs1: 0, rs2: 0, rd: 0, imm: 0 },
    }
}

/// Generates the Program-ROM trace of a program: one row per
/// committed instruction in address order, padded to a power of two.
/// Fails if and only if some committed entry cannot be decoded.
pub fn generate_program_rom_trace(program: &Program) -> (r: Result<Vec<ProgramRom>, TraceError>)
    requires
        code_wf(program.ro_code@),
        program.ro_code@.len() <= MAX_TRACE_LENGTH,
    ensures
        r is Ok <==> code_decodes(program.ro_code@),
        r is Err ==> r->Err_0 == TraceError::UndecodableInstruction,
        r is Ok ==> {
            let rows = rom_rows_of(program.ro_code@);
            &&& is_pow2(r->Ok_0@.len() as int)
            &&& r->Ok_0@.len() >= rows.len()
            &&& r->Ok_0@.subrange(0, rows.len() as int) == rows
            &&& forall|i: int|
                rows.len() <= i < r->Ok_0@.len() ==> #[trigger] r->Ok_0@[i] == rom_pad_row()
        },
{
    let mut out: Vec<ProgramRom> = Vec::new();
    let mut k: usize = 0;
    proof {
        assert(program.ro_code@.subrange(0, 0) =~= Seq::<RomEntry>::empty());
    }
    while k < program.ro_code.len()
        invariant
            k <= program.ro_code@.len(),
            program.ro_code@.len() <= MAX_TRACE_LENGTH,
            forall|i: int| 0 <= i < k ==> (#[trigger] program.ro_code@[i]).inst is Some,
            out@ == rom_rows_of(program.ro_code@.subrange(0, k as int)),
            out@.len() == k,
        decreases program.ro_code@.len() - k,
    {
        let ghost pre = program.ro_code@.subrange(0, k as int);
        proof {
            assert(program.ro_code@.subrange(0, k + 1).drop_last() =~= pre);
            assert(program.ro_code@.subrange(0, k + 1).last() == program.ro_code@[k as int]);
        }
        let entry = program.ro_code[k];
        match entry.inst {
            None => {
                return Err(TraceError::UndecodableInstruction);
            },
            Some(inst) => {
                let code: u64 = match inst.op {
                    Op::ADD => 1,
                    Op::SUB => 2,
                    Op::XOR => 3,
                    Op::OR => 4,
                    Op::AND => 5,
                    Op::DIVU => 6,
                    Op::REMU => 7,
                    Op::MUL => 8,
                    Op::MULHU => 9,
                    Op::SLL => 10,
                    Op::SLT => 11,
                    Op::SLTU => 12,
                    Op::SRL => 13,
                    Op::JALR => 14,
                    Op::BEQ => 15,
                    Op::BNE => 16,
                    Op::BLT => 17,
                    Op::BLTU => 18,
                    Op::BGE => 19,
                    Op::BGEU => 20,
                    Op::ECALL => 21,
                    Op::SB => 22,
                    Op::LBU => 23,
                };
                out.push(ProgramRom {
                    filter: 1,
                    inst: InstructionRow {
                        pc: entry.pc as u64,
                        opcode: code,
                        rs1: inst.args.rs1 as u64,
                        rs2: inst.args.rs2 as u64,
                        rd: inst.args.rd as u64,
                        imm: inst.args.imm as u64,
                    },
                });
            },
        }
        k = k + 1;
    }
    proof {
        assert(program.ro_code@.subrange(0, program.ro_code@.len() as int) =~= program.ro_code@);
    }
    let ghost rows = rom_rows_of(program.ro_code@);
    let ghost before_pad = out@;
    let padded = pad_trace(out, ProgramRom {
        filter: 0,
        inst: InstructionRow { pc: 0, opcode: 0, rs1: 0, rs2: 0, rd: 0, imm: 0 },
    });
    proof {
        assert(padded@.subrange(0, rows.len() as int) =~= before_pad);
    }
    Ok(padded)
}

} // verus!
