//! Tests of the CPU constraint set: a minimal halting trace, an ADD
//! scenario, the branch gadget on both outcomes, and the half-adder
//! gadgets.

use mozak_circuits::bitshift::columns::Bitshift;
use mozak_circuits::cpu::bitwise::{and_gadget, or_gadget, xor_gadget};
use mozak_circuits::cpu::columns::{CpuColumnsView, InstructionView, OpSelectorView};
use mozak_circuits::cpu::stark::{
    check_cpu_trace, check_cpu_transition, check_permuted_inst_trace, CpuStark,
};
use mozak_circuits::program::columns::{InstructionRow, ProgramRom};
use mozak_circuits::xor::columns::XorView;

fn zero_cpu_row() -> CpuColumnsView {
    CpuColumnsView {
        clk: 0,
        inst: InstructionView {
            pc: 0,
            ops: OpSelectorView::default(),
            rs1_select: [0; 32],
            rs2_select: [0; 32],
            rd_select: [0; 32],
            imm_value: 0,
            branch_target: 0,
        },
        halt: 0,
        op1_value: 0,
        op2_value: 0,
        dst_value: 0,
        regs: [0; 32],
        op1_sign: 0,
        op2_sign: 0,
        op1_val_fixed: 0,
        op2_val_fixed: 0,
        cmp_abs_diff: 0,
        cmp_diff_inv: 0,
        less_than: 0,
        normalised_diff: 0,
        xor: XorView { a: 0, b: 0, out: 0 },
        bitshift: Bitshift { amount: 0, multiplier: 0 },
        quotient: 0,
        remainder: 0,
        remainder_slack: 0,
        divisor_inv: 0,
        divisor: 0,
        multiplier: 0,
        product_low_bits: 0,
        product_high_bits: 0,
        product_high_diff_inv: 0,
    }
}

fn halt_row(clk: u64, pc: u64) -> CpuColumnsView {
    let mut r = zero_cpu_row();
    r.clk = clk;
    r.inst.pc = pc;
    r.inst.ops.ecall = 1;
    r.inst.rs1_select[0] = 1;
    r.inst.rs2_select[0] = 1;
    r.inst.rd_select[0] = 1;
    r.halt = 1;
    r
}

// A trace whose body is nothing but the halt still gives a valid
// one-row table that satisfies the constraint set, halt on the last
// row included.
#[test]
fn empty_body_halts() {
    let trace = vec![halt_row(0, 0)];
    assert!(check_cpu_trace(&trace));
}

// A trace without the halt selector on its last row is rejected.
#[test]
fn missing_halt_rejected() {
    let mut r = halt_row(0, 0);
    r.halt = 0;
    let trace = vec![r];
    assert!(!check_cpu_trace(&trace));
}

fn add_row() -> CpuColumnsView {
    let mut r = zero_cpu_row();
    r.inst.ops.add = 1;
    r.inst.rs1_select[6] = 1;
    r.inst.rs2_select[7] = 1;
    r.inst.rd_select[5] = 1;
    r.regs[6] = 0xffff;
    r.regs[7] = 0xffff;
    r.op1_value = 0xffff;
    r.op2_value = 0xffff;
    r.dst_value = 0x1fffe;
    r.inst.pc = 0;
    r
}

// A single ADD of 0xffff and 0xffff retires 0x1fffe and the whole
// two-row trace (the ADD, then the halt) satisfies the constraint
// set.
#[test]
fn add_scenario_satisfies_constraints() {
    let r0 = add_row();
    let mut r1 = halt_row(1, 4);
    r1.regs[6] = 0xffff;
    r1.regs[7] = 0xffff;
    r1.regs[5] = 0x1fffe;
    let trace = vec![r0, r1];
    assert!(check_cpu_trace(&trace));

    // a wrong destination value breaks the ADD gadget
    let mut bad = add_row();
    bad.dst_value = 0x1fffd;
    let mut b1 = r1;
    b1.regs[5] = 0x1fffd;
    assert!(!check_cpu_trace(&vec![bad, b1]));
}

// A taken BLT (signed less-than holds) must set the next program
// counter to the branch target; a not-taken one must bump it by
// four.
#[test]
fn blt_sets_next_pc() {
    let mut taken = zero_cpu_row();
    taken.inst.ops.blt = 1;
    taken.inst.rs1_select[0] = 1;
    taken.inst.rs2_select[0] = 1;
    taken.inst.rd_select[0] = 1;
    taken.inst.pc = 100;
    taken.inst.imm_value = 8;
    taken.less_than = 1;
    taken.cmp_abs_diff = 0;

    let mut target = zero_cpu_row();
    target.inst.pc = 8;
    // with less_than set, only a next pc equal to the branch target
    // passes the branch constraints
    assert!(mozak_circuits::cpu::branches::constraints(&taken, &target));
    let mut bumped = zero_cpu_row();
    bumped.inst.pc = 104;
    assert!(!mozak_circuits::cpu::branches::constraints(&taken, &bumped));

    let mut not_taken = taken;
    not_taken.less_than = 0;
    assert!(mozak_circuits::cpu::branches::constraints(&not_taken, &bumped));
    assert!(!mozak_circuits::cpu::branches::constraints(&not_taken, &target));
}

// XOR then AND then OR on the same operands: the AND and OR outputs
// equal the half-adder values derived from the xor result.
#[test]
fn half_adder_outputs_match() {
    let a: u64 = 0b1100_1010;
    let b: u64 = 0b1010_0110;
    let mut r = zero_cpu_row();
    r.xor.a = a;
    r.xor.b = b;
    r.xor.out = a ^ b;
    assert_eq!(and_gadget(&r).output, a & b);
    assert_eq!(or_gadget(&r).output, a | b);
    assert_eq!(xor_gadget(&r).output, a ^ b);
}

// The register file update: a register not selected as destination
// must keep its value between rows.
#[test]
fn only_rd_changes_between_rows() {
    let r0 = add_row();
    let mut r1 = halt_row(1, 4);
    r1.regs[6] = 0xffff;
    r1.regs[7] = 0xffff;
    r1.regs[5] = 0x1fffe;
    assert!(check_cpu_transition(&r0, &r1));
    // silently changing an unselected register is caught
    let mut tampered = r1;
    tampered.regs[9] = 77;
    assert!(!check_cpu_transition(&r0, &tampered));
}

// The CPU's copy of the Program-ROM columns: the filter must be set
// on the first row, stay boolean, and unfiltered rows must repeat
// the previous instruction.
#[test]
fn permuted_inst_first_row_filter() {
    let real = ProgramRom {
        filter: 1,
        inst: InstructionRow { pc: 4, opcode: 1, rs1: 2, rs2: 3, rd: 1, imm: 7 },
    };
    let repeat = ProgramRom { filter: 0, ..real };
    let good = vec![real, real, repeat, repeat];
    assert!(check_permuted_inst_trace(&good));

    // clearing the first row's filter violates the first-row
    // constraint
    let mut bad_first = good.clone();
    bad_first[0].filter = 0;
    bad_first[1].filter = 0;
    bad_first[2].filter = 0;
    bad_first[3].filter = 0;
    assert!(!check_permuted_inst_trace(&bad_first));

    // an unfiltered row that changes the instruction is caught
    let mut bad_repeat = good.clone();
    bad_repeat[2].inst.pc = 8;
    assert!(!check_permuted_inst_trace(&bad_repeat));
}

// BEQ and BNE branch on the equality bit; BGE reverses BLT.
#[test]
fn other_branch_kinds_set_next_pc() {
    let mut row = zero_cpu_row();
    row.inst.pc = 100;
    row.inst.imm_value = 8;
    let mut target = zero_cpu_row();
    target.inst.pc = 8;
    let mut bumped = zero_cpu_row();
    bumped.inst.pc = 104;

    // BEQ with equal operands branches
    let mut beq = row;
    beq.inst.ops.beq = 1;
    beq.normalised_diff = 0;
    assert!(mozak_circuits::cpu::branches::constraints(&beq, &target));
    assert!(!mozak_circuits::cpu::branches::constraints(&beq, &bumped));

    // BNE with unequal operands branches
    let mut bne = row;
    bne.inst.ops.bne = 1;
    bne.normalised_diff = 1;
    assert!(mozak_circuits::cpu::branches::constraints(&bne, &target));
    assert!(!mozak_circuits::cpu::branches::constraints(&bne, &bumped));

    // BGE with the first operand not below the second branches
    let mut bge = row;
    bge.inst.ops.bge = 1;
    bge.less_than = 0;
    assert!(mozak_circuits::cpu::branches::constraints(&bge, &target));
    assert!(!mozak_circuits::cpu::branches::constraints(&bge, &bumped));
}

#[test]
fn compress_challenge_is_kept() {
    let mut stark = CpuStark::default();
    assert_eq!(stark.get_compress_challenge(), None);
    stark.set_compress_challenge(42);
    assert_eq!(stark.get_compress_challenge(), Some(42));
}
