//! Tests of the RangeCheck trace generation: limbs, the fixed table,
//! and the permutation lookups on both limb columns.

use mozak_circuits::bitshift::columns::Bitshift;
use mozak_circuits::cpu::columns::{CpuColumnsView, InstructionView, OpSelectorView};
use mozak_circuits::generation::rangecheck::generate_rangecheck_trace;
use mozak_circuits::lookup::eval_lookups;
use mozak_circuits::memory::columns::Memory;
use mozak_circuits::xor::columns::XorView;

fn zero_cpu_row() -> CpuColumnsView {
    CpuColumnsView {
        clk: 0,
        inst: InstructionView {
            pc: 0,
            ops: OpSelectorView::default(),
            rs1_select: [0; 32],
            rs2_select: [0; 32],
            rd_select: [0; 32],
            imm_value: 0,
            branch_target: 0,
        },
        halt: 0,
        op1_value: 0,
        op2_value: 0,
        dst_value: 0,
        regs: [0; 32],
        op1_sign: 0,
        op2_sign: 0,
        op1_val_fixed: 0,
        op2_val_fixed: 0,
        cmp_abs_diff: 0,
        cmp_diff_inv: 0,
        less_than: 0,
        normalised_diff: 0,
        xor: XorView { a: 0, b: 0, out: 0 },
        bitshift: Bitshift { amount: 0, multiplier: 0 },
        quotient: 0,
        remainder: 0,
        remainder_slack: 0,
        divisor_inv: 0,
        divisor: 0,
        multiplier: 0,
        product_low_bits: 0,
        product_high_bits: 0,
        product_high_diff_inv: 0,
    }
}

// An ADD whose destination is 0x1fffe inserts that value into the
// RangeCheck table, split into the limbs 1 and 0xfffe, and both
// limbs pass the permutation lookup against the fixed table; an
// earlier ADD row contributes its own destination value first.
#[test]
fn test_add_instruction_inserts_rangecheck() {
    let mut r0 = zero_cpu_row();
    r0.inst.ops.add = 1;
    r0.dst_value = 93;
    let mut r1 = zero_cpu_row();
    r1.inst.ops.add = 1;
    r1.regs[6] = 0xffff;
    r1.regs[7] = 0xffff;
    r1.op1_value = 0xffff;
    r1.op2_value = 0xffff;
    r1.dst_value = 0x0001_fffe;
    let r2 = zero_cpu_row();
    let cpu_rows = vec![r0, r1, r2];
    let memory_rows: Vec<Memory> = vec![];
    let trace = generate_rangecheck_trace(&cpu_rows, &memory_rows);

    assert_eq!(trace.cpu_filter[0], 1);
    assert_eq!(trace.cpu_filter[1], 1);
    assert_eq!(trace.val[1], 0x0001_fffe);
    assert_eq!(trace.val[0], 93);
    assert_eq!(trace.limb_hi[1], 0x0001);
    assert_eq!(trace.limb_lo[1], 0xfffe);
    assert_eq!(trace.limb_lo[0], 93);

    // the rest of the trace is zeroed out
    for cpu_filter in &trace.cpu_filter[2..] {
        assert_eq!(cpu_filter, &0);
    }
    for value in &trace.val[2..] {
        assert_eq!(value, &0);
    }
    for limb_hi in &trace.limb_hi[2..] {
        assert_eq!(limb_hi, &0);
    }
    for limb_lo in &trace.limb_lo[2..] {
        assert_eq!(limb_lo, &0);
    }

    // the fixed table enumerates 0..65536 and is padded with its top
    // value
    assert_eq!(trace.fixed_range_check_u16[0], 0);
    assert_eq!(trace.fixed_range_check_u16[65535], 65535);
    assert_eq!(trace.fixed_range_check_u16.len(), 65536);

    // both limbs pass the permutation lookup
    assert!(eval_lookups(
        &trace.limb_lo_permuted,
        &trace.fixed_range_check_u16_permuted_lo
    ));
    assert!(eval_lookups(
        &trace.limb_hi_permuted,
        &trace.fixed_range_check_u16_permuted_hi
    ));
}
