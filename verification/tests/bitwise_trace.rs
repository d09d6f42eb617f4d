//! Tests of the Bitwise trace generation and its constraint set,
//! and of the cross-table balance with the execution record.

use mozak_circuits::bitwise::stark::BitwiseStark;
use mozak_circuits::generation::bitwise::generate_bitwise_trace;
use mozak_circuits::record::{Args, Instruction, Op, Row};
use mozak_circuits::sort::check_multiset_eq;

fn bw_step(op: Op, a: u32, b: u32, imm: u32) -> Row {
    let mut regs = [0u32; 32];
    regs[5] = a;
    regs[6] = b;
    Row {
        inst: Instruction {
            op,
            args: Args { rd: 7, rs1: 5, rs2: 6, imm },
        },
        clk: 0,
        regs,
        dst_val: 0,
        mem_addr: None,
        io: None,
    }
}

// XOR, AND and OR steps on the same operands each contribute one
// row holding the xor triple, and the whole generated table
// satisfies its constraint set: limb sums, compression, and all
// sixteen permutation lookups.
#[test]
fn bitwise_trace_satisfies_constraints() {
    let a: u32 = 0xdead_beef;
    let b: u32 = 0x0123_4567;
    let steps = vec![
        bw_step(Op::XOR, a, b, 0),
        bw_step(Op::AND, a, b, 0),
        bw_step(Op::OR, a, b, 0),
        bw_step(Op::ADD, a, b, 0), // not a bitwise step: filtered out
    ];
    let trace = generate_bitwise_trace(&steps);
    assert_eq!(trace.op1.len(), 65536);
    for i in 0..3 {
        assert_eq!(trace.op1[i], a as u64);
        assert_eq!(trace.op2[i], b as u64);
        assert_eq!(trace.res[i], (a ^ b) as u64);
    }
    assert_eq!(trace.op1[3], 0);

    // limbs are the bytes
    assert_eq!(trace.op1_limbs[0][0], (a & 0xff) as u64);
    assert_eq!(trace.op1_limbs[3][0], (a >> 24) as u64);

    let stark = BitwiseStark::default();
    assert!(stark.eval_trace(&trace));
}

// The cross-table balance: the multiset of operand triples the
// filtered steps carry equals the multiset of the table's executed
// rows (here compared through the compressed operand column).
#[test]
fn bitwise_rows_balance_with_record() {
    let steps = vec![
        bw_step(Op::AND, 7, 9, 0),
        bw_step(Op::XOR, 3, 4, 1),
        bw_step(Op::OR, 250, 13, 0),
    ];
    let trace = generate_bitwise_trace(&steps);
    let from_record: Vec<u64> = vec![
        7u64,
        3u64,
        250u64,
    ];
    let from_table: Vec<u64> = trace.op1[..3].to_vec();
    assert!(check_multiset_eq(&from_record, &from_table));
    // the second operand of the XOR step had the immediate added
    assert_eq!(trace.op2[1], 5);
    assert_eq!(trace.res[1], 3 ^ 5);
}

// The fixed tables enumerate all byte pairs with their xor.
#[test]
fn fixed_tables_hold_all_byte_pairs() {
    let steps: Vec<Row> = vec![];
    let trace = generate_bitwise_trace(&steps);
    let idx = 0xab * 256 + 0xcd;
    assert_eq!(trace.fix_bitwise_op1[idx], 0xab);
    assert_eq!(trace.fix_bitwise_op2[idx], 0xcd);
    assert_eq!(trace.fix_bitwise_res[idx], 0xab ^ 0xcd);
    assert_eq!(
        trace.fix_compress[idx],
        0xab + 256 * 0xcd + 65536 * (0xab ^ 0xcd)
    );
    assert_eq!(trace.fix_range_check_u8[255], 255);
    assert_eq!(trace.fix_range_check_u8[256], 0);
}
