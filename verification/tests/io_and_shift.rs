//! Tests of the I/O-Memory and Shift-Amount trace generation, and
//! of the Program-ROM generation with its error case.

use mozak_circuits::bitshift::columns::Bitshift;
use mozak_circuits::cpu::columns::{CpuColumnsView, InstructionView, OpSelectorView};
use mozak_circuits::generation::bitshift::generate_shift_amount_trace;
use mozak_circuits::generation::io_memory::{
    generate_io_memory_private_trace, generate_io_memory_public_trace,
};
use mozak_circuits::generation::program::{generate_program_rom_trace, TraceError};
use mozak_circuits::record::{
    Args, Instruction, IoEntry, IoOpcode, Op, Program, RomEntry, Row,
};
use mozak_circuits::xor::columns::XorView;

fn io_step(which: IoOpcode, addr: u32, data: Vec<u8>, clk: u32) -> Row {
    Row {
        inst: Instruction {
            op: Op::ECALL,
            args: Args { rd: 0, rs1: 0, rs2: 0, imm: 0 },
        },
        clk,
        regs: [0; 32],
        dst_val: 0,
        mem_addr: None,
        io: Some(IoEntry { op: which, addr, data }),
    }
}

#[test]
fn io_memory_rows_follow_transaction() {
    let steps = vec![io_step(IoOpcode::StorePublic, 7, vec![10, 20, 30], 9)];
    let trace = generate_io_memory_public_trace(&steps);
    assert_eq!(trace.len(), 8);
    // the header row
    assert_eq!(trace[0].clk, 9);
    assert_eq!(trace[0].addr, 7);
    assert_eq!(trace[0].size, 3);
    assert_eq!(trace[0].ops.is_io_store, 1);
    assert_eq!(trace[0].ops.is_memory_store, 0);
    // the three byte rows
    assert_eq!(trace[1].addr, 7);
    assert_eq!(trace[1].size, 2);
    assert_eq!(trace[1].value, 10);
    assert_eq!(trace[1].is_lv_and_nv_are_memory_rows, 1);
    assert_eq!(trace[2].addr, 8);
    assert_eq!(trace[2].size, 1);
    assert_eq!(trace[2].value, 20);
    assert_eq!(trace[3].addr, 9);
    assert_eq!(trace[3].size, 0);
    assert_eq!(trace[3].value, 30);
    assert_eq!(trace[3].is_lv_and_nv_are_memory_rows, 0);
    // padding
    assert_eq!(trace[4].ops.is_io_store, 0);
    assert_eq!(trace[4].ops.is_memory_store, 0);
    // the private tape saw nothing
    let private = generate_io_memory_private_trace(&steps);
    assert_eq!(private.len(), 8);
    assert_eq!(private[0].ops.is_io_store, 0);
}

fn shift_row(amount: u64) -> CpuColumnsView {
    let mut ops = OpSelectorView::default();
    ops.sll = 1;
    CpuColumnsView {
        clk: 0,
        inst: InstructionView {
            pc: 0,
            ops,
            rs1_select: [0; 32],
            rs2_select: [0; 32],
            rd_select: [0; 32],
            imm_value: 0,
            branch_target: 0,
        },
        halt: 0,
        op1_value: 0,
        op2_value: 0,
        dst_value: 0,
        regs: [0; 32],
        op1_sign: 0,
        op2_sign: 0,
        op1_val_fixed: 0,
        op2_val_fixed: 0,
        cmp_abs_diff: 0,
        cmp_diff_inv: 0,
        less_than: 0,
        normalised_diff: 0,
        xor: XorView { a: 0, b: 0, out: 0 },
        bitshift: Bitshift { amount, multiplier: 0 },
        quotient: 0,
        remainder: 0,
        remainder_slack: 0,
        divisor_inv: 0,
        divisor: 0,
        multiplier: 0,
        product_low_bits: 0,
        product_high_bits: 0,
        product_high_diff_inv: 0,
    }
}

#[test]
fn shift_amount_trace_covers_domain() {
    let cpu = vec![shift_row(3), shift_row(5), shift_row(3)];
    let trace = generate_shift_amount_trace(&cpu);
    // the domain 0..32 appears once each, plus one duplicate
    // executed row for the repeated amount: 33 rows, padded to 64
    assert_eq!(trace.len(), 64);
    assert_eq!(trace[0].is_executed, 0);
    assert_eq!(trace[0].executed, 0);
    assert_eq!(trace[3].executed, 3);
    assert_eq!(trace[3].is_executed, 0);
    // the duplicate 3 right after the domain's own 3
    assert_eq!(trace[4].executed, 3);
    assert_eq!(trace[4].is_executed, 1);
    // padding carries the top amount, not executed
    assert_eq!(trace[63].is_executed, 0);
    assert_eq!(trace[63].executed, 31);
}

#[test]
fn program_rom_trace_lays_out_code() {
    let inst = Instruction {
        op: Op::ADD,
        args: Args { rd: 1, rs1: 2, rs2: 3, imm: 7 },
    };
    let program = Program {
        ro_memory: vec![],
        rw_memory: vec![],
        ro_code: vec![
            RomEntry { pc: 0, inst: Some(inst) },
            RomEntry { pc: 4, inst: Some(inst) },
            RomEntry { pc: 8, inst: Some(inst) },
        ],
        entry_point: 0,
    };
    let trace = generate_program_rom_trace(&program).unwrap();
    assert_eq!(trace.len(), 4);
    assert_eq!(trace[0].filter, 1);
    assert_eq!(trace[0].inst.pc, 0);
    assert_eq!(trace[1].inst.pc, 4);
    assert_eq!(trace[2].inst.rd, 1);
    assert_eq!(trace[2].inst.imm, 7);
    // padding rows are filtered out
    assert_eq!(trace[3].filter, 0);
}

// A committed entry that does not decode is a hard error, never a
// zero-filled row.
#[test]
fn undecodable_rom_entry_rejected() {
    let program = Program {
        ro_memory: vec![],
        rw_memory: vec![],
        ro_code: vec![RomEntry { pc: 0, inst: None }],
        entry_point: 0,
    };
    let r = generate_program_rom_trace(&program);
    assert_eq!(r, Err(TraceError::UndecodableInstruction));
}
