//! Constraints of the bitwise gadget: AND, OR and XOR. XOR's truth
//! is established by the Xor table through a cross-table lookup; AND
//! and OR are derived from it by the half-adder identities
//! `a & b = (a + b - (a ^ b)) / 2` and `a | b = (a + b + (a ^ b)) / 2`.

use vstd::prelude::*;
use crate::cpu::columns::CpuColumnsView;
use crate::field::{
    fe_add, fe_add_spec, fe_mul, fe_mul_spec, fe_sub, fe_sub_spec, is_fe, FE_TWO_INV,
};

verus! {

/// The inputs and output of one bitwise operation.
#[derive(Clone, Copy, PartialEq, Eq, Structural, Debug)]
pub struct BinaryOp {
    pub input_a: u64,
    pub input_b: u64,
    pub output: u64,
}

/// The AND gadget's output: half of operands-plus minus the xor.
pub open spec fn and_output_spec(lv: CpuColumnsView) -> int {
    fe_mul_spec(
        fe_sub_spec(fe_add_spec(lv.xor.a as int, lv.xor.b as int), lv.xor.out as int),
        FE_TWO_INV as int,
    )
}

/// The OR gadget's output: half of operands-plus plus the xor.
pub open spec fn or_output_spec(lv: CpuColumnsView) -> int {
    fe_mul_spec(
        fe_add_spec(fe_add_spec(lv.xor.a as int, lv.xor.b as int), lv.xor.out as int),
        FE_TWO_INV as int,
    )
}

/// The AND gadget, over the row's xor columns.
pub fn and_gadget(lv: &CpuColumnsView) -> (r: BinaryOp)
    requires
        crate::cpu::columns::cpu_row_wf(*lv),
    ensures
        r.input_a == lv.xor.a,
        r.input_b == lv.xor.b,
        r.output == and_output_spec(*lv),
        is_fe(r.output),
{
    BinaryOp {
        input_a: lv.xor.a,
        input_b: lv.xor.b,
        output: fe_mul(fe_sub(fe_add(lv.xor.a, lv.xor.b), lv.xor.out), FE_TWO_INV),
    }
}

/// The OR gadget, over the row's xor columns.
pub fn or_gadget(lv: &CpuColumnsView) -> (r: BinaryOp)
    requires
        crate::cpu::columns::cpu_row_wf(*lv),
    ensures
        r.input_a == lv.xor.a,
        r.input_b == lv.xor.b,
        r.output == or_output_spec(*lv),
        is_fe(r.output),
{
    BinaryOp {
        input_a: lv.xor.a,
        input_b: lv.xor.b,
        output: fe_mul(fe_add(fe_add(lv.xor.a, lv.xor.b), lv.xor.out), FE_TWO_INV),
    }
}

/// The XOR gadget, over the row's xor columns.
pub fn xor_gadget(lv: &CpuColumnsView) -> (r: BinaryOp)
    ensures
        r.input_a == lv.xor.a,
        r.input_b == lv.xor.b,
        r.output == lv.xor.out,
{
    BinaryOp { input_a: lv.xor.a, input_b: lv.xor.b, output: lv.xor.out }
}

/// One selector's share of the bitwise constraints: the gadget's
/// inputs are the row's operands, and its output is the destination.
pub open spec fn gadget_constraints_ok(
    lv: CpuColumnsView,
    selector: u64,
    output: int,
) -> bool {
    &&& fe_mul_spec(selector as int, fe_sub_spec(lv.xor.a as int, lv.op1_value as int)) == 0
    &&& fe_mul_spec(selector as int, fe_sub_spec(lv.xor.b as int, lv.op2_value as int)) == 0
    &&& fe_mul_spec(selector as int, fe_sub_spec(output, lv.dst_value as int)) == 0
}

/// Whether the bitwise gadget holds on a row: each of the AND, OR and
/// XOR selectors gates its own gadget.
pub open spec fn bitwise_constraints_ok(lv: CpuColumnsView) -> bool {
    &&& gadget_constraints_ok(lv, lv.inst.ops.and, and_output_spec(lv))
    &&& gadget_constraints_ok(lv, lv.inst.ops.or, or_output_spec(lv))
    &&& gadget_constraints_ok(lv, lv.inst.ops.xor, lv.xor.out as int)
}

/// Evaluates one selector's share of the bitwise constraints.
fn check_gadget(lv: &CpuColumnsView, selector: u64, output: u64) -> (r: bool)
    requires
        crate::cpu::columns::cpu_row_wf(*lv),
        is_fe(selector),
        is_fe(output),
    ensures
        r == gadget_constraints_ok(*lv, selector, output as int),
{
    let c1 = fe_mul(selector, fe_sub(lv.xor.a, lv.op1_value));
    let c2 = fe_mul(selector, fe_sub(lv.xor.b, lv.op2_value));
    let c3 = fe_mul(selector, fe_sub(output, lv.dst_value));
    c1 == 0 && c2 == 0 && c3 == 0
}

/// Evaluates the bitwise gadget's constraints on a row.
pub fn constraints(lv: &CpuColumnsView) -> (r: bool)
    requires
        crate::cpu::columns::cpu_row_wf(*lv),
    ensures
        r == bitwise_constraints_ok(*lv),
{
    let and_out = and_gadget(lv).output;
    let or_out = or_gadget(lv).output;
    let a = check_gadget(lv, lv.inst.ops.and, and_out);
    let o = check_gadget(lv, lv.inst.ops.or, or_out);
    let x = check_gadget(lv, lv.inst.ops.xor, lv.xor.out);
    a && o && x
}

/// The law AND and OR rows obey through the half-adder identities:
/// on a row whose xor columns hold machine words with the xor truth
/// established, the AND gadget's output is the bitwise and of the
/// operands, and the OR gadget's output is their bitwise or.
pub proof fn lemma_half_adder_outputs(lv: CpuColumnsView)
    requires
        crate::cpu::columns::cpu_row_wf(lv),
        lv.xor.a < 0x1_0000_0000,
        lv.xor.b < 0x1_0000_0000,
        lv.xor.out == lv.xor.a ^ lv.xor.b,
    ensures
        and_output_spec(lv) == (lv.xor.a & lv.xor.b),
        or_output_spec(lv) == (lv.xor.a | lv.xor.b),
{
    let a = lv.xor.a;
    let b = lv.xor.b;
    let x = lv.xor.out;
    assert(a < 0x1_0000_0000u64 && b < 0x1_0000_0000u64 ==> (a + b == (a ^ b) + 2 * (a & b)) && (
    (a | b) == (a ^ b) + (a & b)) && ((a ^ b) <= a + b) && ((a & b) < 0x1_0000_0000u64) && ((a
        | b) < 0x1_0000_0000u64) && ((a ^ b) < 0x1_0000_0000u64)) by (bit_vector);
    let k = (a & b) as int;
    let j = (a | b) as int;
    let p = crate::field::FIELD_ORDER as int;
    assert(fe_add_spec(a as int, b as int) == a + b);
    assert(fe_sub_spec(a + b, x as int) == 2 * k);
    assert(fe_add_spec(a + b, x as int) == 2 * j);
    assert((2 * k) * (FE_TWO_INV as int) == p * k + k) by (nonlinear_arith)
        requires p == 0xFFFF_FFFF_0000_0001 && FE_TWO_INV == 0x7FFF_FFFF_8000_0001u64;
    assert((2 * j) * (FE_TWO_INV as int) == p * j + j) by (nonlinear_arith)
        requires p == 0xFFFF_FFFF_0000_0001 && FE_TWO_INV == 0x7FFF_FFFF_8000_0001u64;
    vstd::arithmetic::div_mod::lemma_mod_multiples_vanish(k, k, p);
    vstd::arithmetic::div_mod::lemma_mod_multiples_vanish(j, j, p);
    assert(fe_mul_spec(2 * k, FE_TWO_INV as int) == k);
    assert(fe_mul_spec(2 * j, FE_TWO_INV as int) == j);
}

} // verus!
