//! Tests of the permutation lookup argument and of trace padding.

use mozak_circuits::cross_table_lookup::compute_grand_product;
use mozak_circuits::lookup::{eval_lookups, permute_cols};
use mozak_circuits::sort::{check_multiset_eq, sort_u64};
use mozak_circuits::trace::{next_pow2, pad_trace};

// The round trip of the lookup argument: on any pair where every
// input value appears in the table, the permuted pair passes the
// disjunction constraint, and the permuted input is a reordering of
// the input.
#[test]
fn permute_cols_round_trip() {
    let input: Vec<u64> = vec![2, 1, 2, 5, 1, 1];
    let table: Vec<u64> = vec![5, 3, 2, 1, 9, 7];
    let (permuted_input, permuted_table) = permute_cols(&input, &table);
    assert_eq!(permuted_input.len(), input.len());
    assert_eq!(permuted_table.len(), table.len());
    assert!(eval_lookups(&permuted_input, &permuted_table));
    assert!(check_multiset_eq(&permuted_input, &input));
    assert!(check_multiset_eq(&permuted_table, &table));
    assert_eq!(permuted_input, sort_u64(input));
}

#[test]
fn permute_cols_with_duplicates_only() {
    let input: Vec<u64> = vec![4, 4, 4, 4];
    let table: Vec<u64> = vec![9, 4, 8, 7];
    let (permuted_input, permuted_table) = permute_cols(&input, &table);
    assert!(eval_lookups(&permuted_input, &permuted_table));
    assert_eq!(permuted_input, vec![4, 4, 4, 4]);
    assert_eq!(permuted_table[0], 4);
}

#[test]
fn eval_lookups_rejects_mismatch() {
    let permuted_input: Vec<u64> = vec![1, 2];
    let permuted_table: Vec<u64> = vec![3, 5];
    assert!(!eval_lookups(&permuted_input, &permuted_table));
}

// Padding an already-power-of-two trace is a no-op.
#[test]
fn padding_power_of_two_is_noop() {
    let trace: Vec<u64> = vec![7, 8, 9, 10];
    let padded = pad_trace(trace.clone(), 0);
    assert_eq!(padded, trace);
    let once = pad_trace(vec![1, 2, 3], 0);
    assert_eq!(once, vec![1, 2, 3, 0]);
    let twice = pad_trace(once.clone(), 0);
    assert_eq!(twice, once);
}

#[test]
fn padding_empty_trace_gives_one_row() {
    let padded = pad_trace(Vec::<u64>::new(), 5);
    assert_eq!(padded, vec![5]);
}

#[test]
fn next_pow2_values() {
    assert_eq!(next_pow2(0), 1);
    assert_eq!(next_pow2(1), 1);
    assert_eq!(next_pow2(5), 8);
    assert_eq!(next_pow2(64), 64);
    assert_eq!(next_pow2(65), 128);
}

// Two sides of a lookup declaration with the same multiset of
// compressed rows contribute the same grand product, whatever the
// challenge; a mismatched side does not.
#[test]
fn ctl_grand_products_match() {
    let looking: Vec<u64> = vec![3, 1, 2, 2];
    let looked: Vec<u64> = vec![2, 3, 2, 1];
    let unbalanced: Vec<u64> = vec![2, 3, 1, 1];
    let challenge: u64 = 0x1234_5678_9abc;
    let a = compute_grand_product(&looking, challenge);
    let b = compute_grand_product(&looked, challenge);
    let c = compute_grand_product(&unbalanced, challenge);
    assert_eq!(a, b);
    assert_ne!(a, c);
}

#[test]
fn multiset_check_detects_difference() {
    let a: Vec<u64> = vec![1, 2, 2];
    let b: Vec<u64> = vec![2, 1, 2];
    let c: Vec<u64> = vec![1, 1, 2];
    assert!(check_multiset_eq(&a, &b));
    assert!(!check_multiset_eq(&a, &c));
}
