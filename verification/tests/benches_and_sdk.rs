//! Tests of the benchmark drivers, the Xor table, the field
//! arithmetic and the SDK helpers.

use mozak_circuits::cli_benches::{poseidon2_bench, BenchArgs, BenchError, BenchFunction};
use mozak_circuits::field::{fe_add, fe_mul, fe_neg, fe_sub, FIELD_ORDER};
use mozak_circuits::sdk::{IdentityStack, ProgramIdentifier};
use mozak_circuits::xor::columns::{XorColumnsView, XorView};
use mozak_circuits::xor::stark::XorStark;

#[test]
fn test_poseidon2_bench() {
    poseidon2_bench(10).unwrap();
}

#[test]
fn test_poseidon2_bench_with_run() {
    let function = BenchFunction::Poseidon2Bench { input_len: 10 };
    let bench = BenchArgs { function };
    bench.run().unwrap();
}

#[test]
fn other_benches_report_unsupported() {
    let bench = BenchArgs { function: BenchFunction::NopBench { iterations: 3 } };
    assert_eq!(bench.run(), Err(BenchError::Unsupported));
}

fn bits_of(v: u64) -> [u64; 32] {
    let mut out = [0u64; 32];
    let mut i = 0;
    while i < 32 {
        out[i] = (v >> i) & 1;
        i += 1;
    }
    out
}

#[test]
fn xor_table_row_checks() {
    let a: u64 = 5;
    let b: u64 = 3;
    let row = XorColumnsView {
        execution: XorView { a, b, out: a ^ b },
        limbs_a: bits_of(a),
        limbs_b: bits_of(b),
        limbs_out: bits_of(a ^ b),
    };
    let stark = XorStark::default();
    assert!(stark.eval_row(&row));

    // a wrong output bit is caught
    let mut bad = row;
    bad.limbs_out[0] = 1 - bad.limbs_out[0];
    assert!(!stark.eval_row(&bad));
}

#[test]
fn field_arithmetic_wraps_at_order() {
    assert_eq!(fe_add(FIELD_ORDER - 1, 1), 0);
    assert_eq!(fe_sub(0, 1), FIELD_ORDER - 1);
    assert_eq!(fe_neg(1), FIELD_ORDER - 1);
    assert_eq!(fe_mul(1 << 32, 1 << 32), 0xffff_ffff);
    assert_eq!(fe_add(3, 4), 7);
}

#[test]
fn identity_stack_tracks_contexts() {
    let mut stack = IdentityStack(vec![]);
    let id = ProgramIdentifier { d0: 1, d1: 2, d2: 3, d3: 4 };
    assert_eq!(stack.top_identity(), ProgramIdentifier::default());
    stack.add_identity(id);
    assert_eq!(stack.top_identity(), id);
    stack.rm_identity();
    assert_eq!(stack.top_identity(), ProgramIdentifier::default());
    stack.rm_identity();
    assert_eq!(stack.top_identity(), ProgramIdentifier::default());
}
