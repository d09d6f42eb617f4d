//! The CPU table's constraint set: one-hot decoding, clock and
//! program-counter bookkeeping, register-file updates, operand
//! synthesis, the per-opcode-family gadgets, and the last-row halt.

use vstd::prelude::*;
use crate::cpu::columns::{
    cpu_row_wf, ops_seq, straightline_ops_seq, CpuColumnsView,
};
use crate::cpu::{add, bitwise, branches, jalr, sub};
use crate::field::{
    all_fe, fe_add, fe_add_spec, fe_mul, fe_mul_spec, fe_sub, fe_sub_spec, fe_sum, fe_sum_vec,
    is_fe,
};
use crate::program::columns::{rom_row_wf, ProgramRom};

verus! {

/// The boolean constraint term `x * (1 - x)`, zero exactly on field
/// values that a boolean column may hold.
pub open spec fn binary_term(x: int) -> int {
    fe_mul_spec(x, fe_sub_spec(1, x))
}

/// Whether a group of selectors is one-hot encoded: every selector
/// boolean, and their sum exactly one.
pub open spec fn one_hot_ok(s: Seq<u64>) -> bool {
    &&& forall|i: int| 0 <= i < s.len() ==> binary_term(#[trigger] s[i] as int) == 0
    &&& fe_sum(s) == 1
}

/// Evaluates the one-hot constraints on a group of selectors.
pub fn check_one_hot(v: &Vec<u64>) -> (r: bool)
    requires
        all_fe(v@),
    ensures
        r == one_hot_ok(v@),
{
    let mut k: usize = 0;
    let mut ok: bool = true;
    while k < v.len()
        invariant
            k <= v@.len(),
            all_fe(v@),
            ok == (forall|i: int| 0 <= i < k ==> binary_term(#[trigger] v@[i] as int) == 0),
        decreases v@.len() - k,
    {
        let t = fe_mul(v[k], fe_sub(1, v[k]));
        if t != 0 {
            ok = false;
        }
        k = k + 1;
    }
    let s = fe_sum_vec(v);
    ok && s == 1
}

/// The dot product of a selector column with the register file,
/// reduced after every step.
pub open spec fn dot_mod(a: Seq<u64>, b: Seq<u64>) -> int
    decreases a.len(),
{
    if a.len() == 0 || b.len() == 0 {
        0int
    } else {
        fe_add_spec(
            dot_mod(a.drop_last(), b.drop_last()),
            fe_mul_spec(a.last() as int, b.last() as int),
        )
    }
}

/// Computes the dot product of a 32-way selector with the register
/// file.
pub fn dot_32(sel: &[u64; 32], regs: &[u64; 32]) -> (r: u64)
    requires
        all_fe(sel@),
        all_fe(regs@),
    ensures
        is_fe(r),
        r == dot_mod(sel@, regs@),
{
    let mut acc: u64 = 0;
    let mut k: usize = 0;
    proof {
        assert(sel@.subrange(0, 0) =~= Seq::<u64>::empty());
    }
    while k < 32
        invariant
            k <= 32,
            sel@.len() == 32,
            regs@.len() == 32,
            all_fe(sel@),
            all_fe(regs@),
            is_fe(acc),
            acc == dot_mod(sel@.subrange(0, k as int), regs@.subrange(0, k as int)),
        decreases 32 - k,
    {
        let ghost pa = sel@.subrange(0, k as int);
        let ghost pb = regs@.subrange(0, k as int);
        acc = fe_add(acc, fe_mul(sel[k], regs[k]));
        proof {
            assert(sel@.subrange(0, k + 1).drop_last() =~= pa);
            assert(regs@.subrange(0, k + 1).drop_last() =~= pb);
            assert(sel@.subrange(0, k + 1).last() == sel@[k as int]);
            assert(regs@.subrange(0, k + 1).last() == regs@[k as int]);
        }
        k = k + 1;
    }
    proof {
        assert(sel@.subrange(0, 32) =~= sel@);
        assert(regs@.subrange(0, 32) =~= regs@);
    }
    acc
}

/// The clock constraint term between a row and its successor: the
/// clock ticks up exactly while the machine still runs.
pub open spec fn clock_term(lv: CpuColumnsView, nv: CpuColumnsView) -> int {
    fe_sub_spec(
        fe_sub_spec(nv.clk as int, lv.clk as int),
        fe_sub_spec(1, lv.halt as int),
    )
}

/// The program-counter constraint term between a row and its
/// successor: on straight-line rows the counter advances by four.
pub open spec fn pc_term(lv: CpuColumnsView, nv: CpuColumnsView) -> int {
    fe_mul_spec(
        fe_sum(straightline_ops_seq(lv.inst.ops)),
        fe_sub_spec(nv.inst.pc as int, fe_add_spec(lv.inst.pc as int, 4)),
    )
}

/// The register-stability constraint term for register `r`: a
/// register not selected as destination keeps its value.
pub open spec fn only_rd_term(lv: CpuColumnsView, nv: CpuColumnsView, r: int) -> int {
    fe_mul_spec(
        fe_sub_spec(1, lv.inst.rd_select@[r] as int),
        fe_sub_spec(lv.regs@[r] as int, nv.regs@[r] as int),
    )
}

/// The register-update constraint term for register `r`: a register
/// selected as destination receives the destination value.
pub open spec fn rd_change_term(lv: CpuColumnsView, nv: CpuColumnsView, r: int) -> int {
    fe_mul_spec(
        lv.inst.rd_select@[r] as int,
        fe_sub_spec(lv.dst_value as int, nv.regs@[r] as int),
    )
}

/// The first-operand synthesis term: `op1_value` is the selected
/// register's value.
pub open spec fn op1_term(lv: CpuColumnsView) -> int {
    fe_sub_spec(lv.op1_value as int, dot_mod(lv.inst.rs1_select@, lv.regs@))
}

/// The second-operand synthesis term: `op2_value` is the selected
/// register's value plus the immediate.
pub open spec fn op2_term(lv: CpuColumnsView) -> int {
    fe_sub_spec(
        fe_sub_spec(lv.op2_value as int, lv.inst.imm_value as int),
        dot_mod(lv.inst.rs2_select@, lv.regs@),
    )
}

/// The constraints evaluated on every row (with the cyclic successor
/// where a constraint reads the next row): one-hot decoding, register
/// zero pinned to zero, operand synthesis, and the ADD, SUB, bitwise,
/// comparison, branch and JALR-return gadgets.
#[verifier::opaque]
pub open spec fn cpu_always_pair_ok(lv: CpuColumnsView, nv: CpuColumnsView) -> bool {
    &&& one_hot_ok(ops_seq(lv.inst.ops))
    &&& one_hot_ok(lv.inst.rs1_select@)
    &&& one_hot_ok(lv.inst.rs2_select@)
    &&& one_hot_ok(lv.inst.rd_select@)
    &&& lv.regs@[0] == 0
    &&& op1_term(lv) == 0
    &&& op2_term(lv) == 0
    &&& add::add_constraints_ok(lv)
    &&& sub::sub_constraints_ok(lv)
    &&& bitwise::bitwise_constraints_ok(lv)
    &&& branches::comparison_constraints_ok(lv)
    &&& branches::branch_constraints_ok(lv, nv)
    &&& jalr::jalr_return_term(lv) == 0
}

/// The constraints evaluated between consecutive rows only: clock and
/// program-counter bookkeeping, the register file update, and the
/// JALR jump target.
#[verifier::opaque]
pub open spec fn cpu_transition_pair_ok(lv: CpuColumnsView, nv: CpuColumnsView) -> bool {
    &&& clock_term(lv, nv) == 0
    &&& pc_term(lv, nv) == 0
    &&& forall|r: int| 0 <= r < 32 ==> #[trigger] only_rd_term(lv, nv, r) == 0
    &&& forall|r: int| 1 <= r < 32 ==> #[trigger] rd_change_term(lv, nv, r) == 0
    &&& jalr::jalr_target_term(lv, nv) == 0
}

/// Whether a CPU trace satisfies the whole constraint set: the
/// per-row constraints everywhere, the transition constraints between
/// consecutive rows, and the halt selector set on the last row.
pub open spec fn cpu_trace_ok(rows: Seq<CpuColumnsView>) -> bool {
    let n = rows.len() as int;
    &&& forall|i: int|
        0 <= i < n ==> cpu_always_pair_ok(#[trigger] rows[i], rows[if i + 1 == n { 0int } else { i + 1 }])
    &&& forall|i: int| 0 <= i < n - 1 ==> cpu_transition_pair_ok(#[trigger] rows[i], rows[i + 1])
    &&& n > 0 ==> rows[n - 1].halt == 1
}

/// Evaluates the per-row constraints on a row and its (cyclic)
/// successor.
pub fn check_cpu_always(lv: &CpuColumnsView, nv: &CpuColumnsView) -> (r: bool)
    requires
        cpu_row_wf(*lv),
        cpu_row_wf(*nv),
    ensures
        r == cpu_always_pair_ok(*lv, *nv),
{
    proof {
        reveal(cpu_always_pair_ok);
    }
    let mut ops_v: Vec<u64> = Vec::new();
    ops_v.push(lv.inst.ops.add);
    ops_v.push(lv.inst.ops.sub);
    ops_v.push(lv.inst.ops.xor);
    ops_v.push(lv.inst.ops.or);
    ops_v.push(lv.inst.ops.and);
    ops_v.push(lv.inst.ops.divu);
    ops_v.push(lv.inst.ops.remu);
    ops_v.push(lv.inst.ops.mul);
    ops_v.push(lv.inst.ops.mulhu);
    ops_v.push(lv.inst.ops.sll);
    ops_v.push(lv.inst.ops.slt);
    ops_v.push(lv.inst.ops.sltu);
    ops_v.push(lv.inst.ops.srl);
    ops_v.push(lv.inst.ops.jalr);
    ops_v.push(lv.inst.ops.beq);
    ops_v.push(lv.inst.ops.bne);
    ops_v.push(lv.inst.ops.blt);
    ops_v.push(lv.inst.ops.bltu);
    ops_v.push(lv.inst.ops.bge);
    ops_v.push(lv.inst.ops.bgeu);
    ops_v.push(lv.inst.ops.ecall);
    proof {
        assert(ops_v@ =~= ops_seq(lv.inst.ops));
    }
    let ops_hot = check_one_hot(&ops_v);
    let rs1_v = column_of_array(&lv.inst.rs1_select);
    let rs2_v = column_of_array(&lv.inst.rs2_select);
    let rd_v = column_of_array(&lv.inst.rd_select);
    let rs1_hot = check_one_hot(&rs1_v);
    let rs2_hot = check_one_hot(&rs2_v);
    let rd_hot = check_one_hot(&rd_v);
    let r0_ok = lv.regs[0] == 0;
    let op1_ok = fe_sub(lv.op1_value, dot_32(&lv.inst.rs1_select, &lv.regs)) == 0;
    let op2_ok = fe_sub(
        fe_sub(lv.op2_value, lv.inst.imm_value),
        dot_32(&lv.inst.rs2_select, &lv.regs),
    ) == 0;
    let add_ok = add::constraints(lv);
    let sub_ok = sub::constraints(lv);
    let bit_ok = bitwise::constraints(lv);
    let cmp_ok = branches::comparison_constraints(lv);
    let br_ok = branches::constraints(lv, nv);
    let ra = fe_add(lv.inst.pc, 4);
    let jalr_ret_ok = fe_mul(
        lv.inst.ops.jalr,
        fe_mul(
            fe_sub(lv.dst_value, ra),
            fe_sub(lv.dst_value, fe_sub(ra, crate::cpu::columns::WORD_WRAP)),
        ),
    ) == 0;
    ops_hot && rs1_hot && rs2_hot && rd_hot && r0_ok && op1_ok && op2_ok && add_ok && sub_ok
        && bit_ok && cmp_ok && br_ok && jalr_ret_ok
}

/// Copies a 32-way selector into a column vector.
fn column_of_array(a: &[u64; 32]) -> (r: Vec<u64>)
    ensures
        r@ =~= a@,
{
    let mut out: Vec<u64> = Vec::new();
    let mut k: usize = 0;
    while k < 32
        invariant
            k <= 32,
            a@.len() == 32,
            out@ =~= a@.subrange(0, k as int),
        decreases 32 - k,
    {
        out.push(a[k]);
        proof {
            assert(out@ =~= a@.subrange(0, k + 1));
        }
        k = k + 1;
    }
    proof {
        assert(out@ =~= a@.subrange(0, 32));
        assert(a@.subrange(0, 32) =~= a@);
    }
    out
}

/// Evaluates the transition constraints between consecutive rows.
pub fn check_cpu_transition(lv: &CpuColumnsView, nv: &CpuColumnsView) -> (r: bool)
    requires
        cpu_row_wf(*lv),
        cpu_row_wf(*nv),
    ensures
        r == cpu_transition_pair_ok(*lv, *nv),
{
    proof {
        reveal(cpu_transition_pair_ok);
    }
    let clock_ok = fe_sub(fe_sub(nv.clk, lv.clk), fe_sub(1, lv.halt)) == 0;
    let straight = lv.inst.ops.is_straightline();
    let pc_ok = fe_mul(straight, fe_sub(nv.inst.pc, fe_add(lv.inst.pc, 4))) == 0;
    let mut regs_ok: bool = true;
    let mut k: usize = 0;
    while k < 32
        invariant
            k <= 32,
            cpu_row_wf(*lv),
            cpu_row_wf(*nv),
            regs_ok == ((forall|r: int| 0 <= r < k ==> #[trigger] only_rd_term(*lv, *nv, r) == 0)
                && (forall|r: int| 1 <= r < k ==> #[trigger] rd_change_term(*lv, *nv, r) == 0)),
        decreases 32 - k,
    {
        let keep = fe_mul(
            fe_sub(1, lv.inst.rd_select[k]),
            fe_sub(lv.regs[k], nv.regs[k]),
        );
        proof {
            assert(keep == only_rd_term(*lv, *nv, k as int));
        }
        if keep != 0 {
            regs_ok = false;
        }
        if k >= 1 {
            let change = fe_mul(lv.inst.rd_select[k], fe_sub(lv.dst_value, nv.regs[k]));
            proof {
                assert(change == rd_change_term(*lv, *nv, k as int));
            }
            if change != 0 {
                regs_ok = false;
            }
        }
        k = k + 1;
    }
    let jalr_tgt = {
        let target = fe_add(lv.inst.imm_value, lv.op1_value);
        fe_mul(
            lv.inst.ops.jalr,
            fe_mul(
                fe_sub(nv.inst.pc, target),
                fe_sub(nv.inst.pc, fe_sub(target, crate::cpu::columns::WORD_WRAP)),
            ),
        )
    };
    clock_ok && pc_ok && regs_ok && jalr_tgt == 0
}

/// Evaluates the whole CPU constraint set on a trace.
pub fn check_cpu_trace(rows: &Vec<CpuColumnsView>) -> (r: bool)
    requires
        forall|i: int| 0 <= i < rows@.len() ==> cpu_row_wf(#[trigger] rows@[i]),
    ensures
        r == cpu_trace_ok(rows@),
{
    let n = rows.len();
    if n == 0 {
        return true;
    }
    let mut ok: bool = true;
    let mut i: usize = 0;
    while i < n
        invariant
            n == rows@.len(),
            n > 0,
            i <= n,
            forall|k: int| 0 <= k < rows@.len() ==> cpu_row_wf(#[trigger] rows@[k]),
            ok == ((forall|k: int|
                0 <= k < i ==> cpu_always_pair_ok(
                    #[trigger] rows@[k],
                    rows@[if k + 1 == n { 0int } else { k + 1 }],
                )) && (forall|k: int|
                0 <= k < i && k < n - 1 ==> cpu_transition_pair_ok(
                    #[trigger] rows@[k],
                    rows@[k + 1],
                ))),
        decreases n - i,
    {
        let next: usize = if i + 1 == n { 0 } else { i + 1 };
        let a = check_cpu_always(&rows[i], &rows[next]);
        if !a {
            ok = false;
        }
        if i < n - 1 {
            let t = check_cpu_transition(&rows[i], &rows[i + 1]);
            if !t {
                ok = false;
            }
        }
        i = i + 1;
    }
    let halt_ok = rows[n - 1].halt == 1;
    ok && halt_ok
}

/// The permuted-instruction constraints the CPU table imposes on its
/// copy of the Program-ROM columns: the filter is boolean and set on
/// the first row, and wherever the next row's filter is clear, the
/// instruction columns repeat.
pub open spec fn permuted_inst_pair_ok(lv: ProgramRom, nv: ProgramRom) -> bool {
    &&& binary_term(lv.filter as int) == 0
    &&& fe_mul_spec(
        fe_sub_spec(nv.filter as int, 1),
        fe_sub_spec(lv.inst.pc as int, nv.inst.pc as int),
    ) == 0
    &&& fe_mul_spec(
        fe_sub_spec(nv.filter as int, 1),
        fe_sub_spec(lv.inst.opcode as int, nv.inst.opcode as int),
    ) == 0
    &&& fe_mul_spec(
        fe_sub_spec(nv.filter as int, 1),
        fe_sub_spec(lv.inst.rs1 as int, nv.inst.rs1 as int),
    ) == 0
    &&& fe_mul_spec(
        fe_sub_spec(nv.filter as int, 1),
        fe_sub_spec(lv.inst.rs2 as int, nv.inst.rs2 as int),
    ) == 0
    &&& fe_mul_spec(
        fe_sub_spec(nv.filter as int, 1),
        fe_sub_spec(lv.inst.rd as int, nv.inst.rd as int),
    ) == 0
    &&& fe_mul_spec(
        fe_sub_spec(nv.filter as int, 1),
        fe_sub_spec(lv.inst.imm as int, nv.inst.imm as int),
    ) == 0
}

/// Evaluates the permuted-instruction constraints between a row of
/// the CPU's Program-ROM copy and its successor.
pub fn check_permuted_inst_cols(lv: &ProgramRom, nv: &ProgramRom) -> (r: bool)
    requires
        rom_row_wf(*lv),
        rom_row_wf(*nv),
    ensures
        r == permuted_inst_pair_ok(*lv, *nv),
{
    let b = fe_mul(lv.filter, fe_sub(1, lv.filter)) == 0;
    let gate = fe_sub(nv.filter, 1);
    let c1 = fe_mul(gate, fe_sub(lv.inst.pc, nv.inst.pc)) == 0;
    let c2 = fe_mul(gate, fe_sub(lv.inst.opcode, nv.inst.opcode)) == 0;
    let c3 = fe_mul(gate, fe_sub(lv.inst.rs1, nv.inst.rs1)) == 0;
    let c4 = fe_mul(gate, fe_sub(lv.inst.rs2, nv.inst.rs2)) == 0;
    let c5 = fe_mul(gate, fe_sub(lv.inst.rd, nv.inst.rd)) == 0;
    let c6 = fe_mul(gate, fe_sub(lv.inst.imm, nv.inst.imm)) == 0;
    b && c1 && c2 && c3 && c4 && c5 && c6
}

/// The permuted-instruction constraints over a whole trace of the
/// CPU's Program-ROM copy: the filter is set on the first row, and
/// the per-row constraints hold everywhere, with the cyclic
/// successor on the last row.
pub open spec fn permuted_inst_trace_ok(rows: Seq<ProgramRom>) -> bool {
    let n = rows.len() as int;
    &&& n > 0 ==> fe_sub_spec(rows[0].filter as int, 1) == 0
    &&& forall|i: int|
        0 <= i < n ==> permuted_inst_pair_ok(
            #[trigger] rows[i],
            rows[if i + 1 == n { 0int } else { i + 1 }],
        )
}

/// Evaluates the permuted-instruction constraints over a whole
/// trace, the first-row filter constraint included.
pub fn check_permuted_inst_trace(rows: &Vec<ProgramRom>) -> (r: bool)
    requires
        forall|i: int| 0 <= i < rows@.len() ==> rom_row_wf(#[trigger] rows@[i]),
    ensures
        r == permuted_inst_trace_ok(rows@),
{
    let n = rows.len();
    if n == 0 {
        return true;
    }
    let first_ok = fe_sub(rows[0].filter, 1) == 0;
    let mut ok: bool = true;
    let mut i: usize = 0;
    while i < n
        invariant
            n == rows@.len(),
            n > 0,
            i <= n,
            forall|k: int| 0 <= k < rows@.len() ==> rom_row_wf(#[trigger] rows@[k]),
            ok == (forall|k: int|
                0 <= k < i ==> permuted_inst_pair_ok(
                    #[trigger] rows@[k],
                    rows@[if k + 1 == n { 0int } else { k + 1 }],
                )),
        decreases n - i,
    {
        let next: usize = if i + 1 == n {
            0
        } else {
            i + 1
        };
        let pair = check_permuted_inst_cols(&rows[i], &rows[next]);
        if !pair {
            ok = false;
        }
        i = i + 1;
    }
    first_ok && ok
}

/// The CPU table, carrying the challenge drawn to compress looked-up
/// tuples once the trace commitments are absorbed.
#[derive(Clone, Copy, Debug, Default)]
pub struct CpuStark {
    pub compress_challenge: Option<u64>,
}

impl CpuStark {
    /// Stores the drawn compression challenge; it may be set only
    /// once.
    pub fn set_compress_challenge(&mut self, challenge: u64)
        requires
            old(self).compress_challenge is None,
        ensures
            final(self).compress_challenge == Some(challenge),
    {
        self.compress_challenge = Some(challenge);
    }

    /// The stored compression challenge, if one was drawn.
    pub fn get_compress_challenge(&self) -> (r: Option<u64>)
        ensures
            r == self.compress_challenge,
    {
        self.compress_challenge
    }
}

} // verus!
