//! Tests of the Memory trace generation: the merge of the static
//! image with runtime accesses, the difference columns, and padding.

use mozak_circuits::field::{fe_try_inverse, FIELD_ORDER};
use mozak_circuits::memory::columns::{Memory, OPCODE_LBU, OPCODE_SB};
use mozak_circuits::record::{Args, Instruction, IoOpcode, Op, Program, Row};

fn mem_step(op: Op, clk: u32, addr: u32, val: u32) -> Row {
    Row {
        inst: Instruction {
            op,
            args: Args { rd: 0, rs1: 0, rs2: 0, imm: 0 },
        },
        clk,
        regs: [0; 32],
        dst_val: val,
        mem_addr: Some(addr),
        io: None,
    }
}

fn row(vals: [u64; 10]) -> Memory {
    Memory {
        is_executed: vals[0],
        is_writable: vals[1],
        is_init: vals[2],
        addr: vals[3],
        clk: vals[4],
        op: vals[5],
        value: vals[6],
        diff_addr: vals[7],
        diff_addr_inv: vals[8],
        diff_clk: vals[9],
    }
}

fn inv(v: u64) -> u64 {
    fe_try_inverse(v)
}

#[test]
fn generate_memory_trace() {
    let program = Program {
        ro_memory: vec![],
        rw_memory: vec![
            (100, 0),
            (101, 0),
            (102, 0),
            (103, 0),
            (200, 0),
            (201, 0),
            (202, 0),
            (203, 0),
        ],
        ro_code: vec![],
        entry_point: 0,
    };
    let steps = vec![
        mem_step(Op::SB, 0, 100, 255),
        mem_step(Op::LBU, 1, 100, 255),
        mem_step(Op::SB, 2, 200, 15),
        mem_step(Op::LBU, 3, 200, 15),
        mem_step(Op::SB, 4, 100, 10),
        mem_step(Op::LBU, 5, 100, 10),
    ];
    let trace = mozak_circuits::generation::memory::generate_memory_trace(&program, &steps);
    let sb = OPCODE_SB;
    let lbu = OPCODE_LBU;
    let expected = vec![
        // is_executed, is_writable, is_init, addr, clk, op, value, diff_addr, diff_addr_inv, diff_clk
        row([1, 1, 1, 100, 0, 0, 0, 100, inv(100), 0]),
        row([1, 1, 0, 100, 0, sb, 255, 0, 0, 0]),
        row([1, 1, 0, 100, 1, lbu, 255, 0, 0, 1]),
        row([1, 1, 0, 100, 4, sb, 10, 0, 0, 3]),
        row([1, 1, 0, 100, 5, lbu, 10, 0, 0, 1]),
        row([1, 1, 1, 101, 0, 0, 0, 1, inv(1), 0]),
        row([1, 1, 1, 102, 0, 0, 0, 1, inv(1), 0]),
        row([1, 1, 1, 103, 0, 0, 0, 1, inv(1), 0]),
        row([1, 1, 1, 200, 0, 0, 0, 97, inv(97), 0]),
        row([1, 1, 0, 200, 2, sb, 15, 0, 0, 2]),
        row([1, 1, 0, 200, 3, lbu, 15, 0, 0, 1]),
        row([1, 1, 1, 201, 0, 0, 0, 1, inv(1), 0]),
        row([1, 1, 1, 202, 0, 0, 0, 1, inv(1), 0]),
        row([1, 1, 1, 203, 0, 0, 0, 1, inv(1), 0]),
        // padding: the last row with its flags and differences cleared
        row([0, 1, 0, 203, 0, 0, 0, 0, 0, 0]),
        row([0, 1, 0, 203, 0, 0, 0, 0, 0, 0]),
    ];
    assert_eq!(trace, expected);
}

#[test]
fn generate_memory_trace_only_init() {
    let program = Program {
        ro_memory: vec![(100, 5), (101, 6)],
        rw_memory: vec![(200, 7), (201, 8)],
        ro_code: vec![],
        entry_point: 0,
    };
    let steps: Vec<Row> = vec![];
    let trace = mozak_circuits::generation::memory::generate_memory_trace(&program, &steps);
    let expected = vec![
        row([1, 0, 1, 100, 0, 0, 5, 100, inv(100), 0]),
        row([1, 0, 1, 101, 0, 0, 6, 1, 1, 0]),
        row([1, 1, 1, 200, 0, 0, 7, 99, inv(99), 0]),
        row([1, 1, 1, 201, 0, 0, 8, 1, 1, 0]),
    ];
    assert_eq!(trace, expected);
}

// A store-byte then a load-byte at the same address with intervening
// clock ticks: the Memory rows for that address come consecutively
// with a zero address difference and the right clock differences.
#[test]
fn store_then_load_same_address() {
    let program = Program {
        ro_memory: vec![],
        rw_memory: vec![(100, 0)],
        ro_code: vec![],
        entry_point: 0,
    };
    let steps = vec![mem_step(Op::SB, 1, 100, 42), mem_step(Op::LBU, 3, 100, 42)];
    let trace = mozak_circuits::generation::memory::generate_memory_trace(&program, &steps);
    assert_eq!(trace[0].is_init, 1);
    assert_eq!(trace[0].addr, 100);
    assert_eq!(trace[1].op, OPCODE_SB);
    assert_eq!(trace[1].diff_addr, 0);
    assert_eq!(trace[1].diff_clk, 1);
    assert_eq!(trace[2].op, OPCODE_LBU);
    assert_eq!(trace[2].diff_addr, 0);
    assert_eq!(trace[2].diff_clk, 2);
    assert_eq!(trace[1].value, 42);
    assert_eq!(trace[2].value, 42);
}

// The stored inverse column really holds inverses: a generator that
// handed its argument back unchanged would fail this.
#[test]
fn diff_addr_inverse_is_real() {
    let v = inv(100);
    assert_ne!(v, 100);
    assert_eq!((100u128 * v as u128) % (FIELD_ORDER as u128), 1);
    assert_eq!(inv(0), 0);
    let w = inv(97);
    assert_eq!((97u128 * w as u128) % (FIELD_ORDER as u128), 1);
    // the inverse of two is pinned by uniqueness
    assert_eq!(inv(2), 0x7FFF_FFFF_8000_0001);
}
