//! An abstract model of the traced process, and the laws of the resume
//! algorithm.
//!
//! The model tracks what the debugger knows of the tracee: the bytes it has
//! patched and the program counter at a stop. The tracee's own stores are
//! outside the model — it describes the debugger's patches only. Execution
//! is nondeterministic (the debugger cannot predict where an instruction
//! jumps), so step targets and control-flow paths are drawn from an oracle
//! that the lemmas quantify over. A step or resume that meets a trap stops
//! without executing the real instruction there; the model records which
//! real instructions executed and which bytes are patched, which is all the
//! laws speak of.
//!
//! The lemmas at the bottom state the guarantees of the resume algorithm:
//! a breakpoint-transparent resume executes the displaced instruction
//! exactly once and re-arms the trap; armed breakpoints stay armed across a
//! resume; and a running tracee stops at the first armed address its
//! control flow reaches, so several breakpoints are hit in program order.

use vstd::prelude::*;

use crate::breakpoint::{Breakpoint, bp_at, has_bp};
use crate::word::TRAP_BYTE;

verus! {

/// One primitive operation the debugger issues against the tracee.
pub enum TraceOp {
    /// Patch the byte at `addr` to `val`.
    WriteByte { addr: u64, val: u8 },
    /// Set the stopped tracee's program counter.
    SetPc { pc: u64 },
    /// Let the tracee execute exactly one machine instruction.
    Step,
    /// Resume the tracee until it next stops.
    Cont,
    /// Block until the tracee changes state.
    Wait,
}

/// The model of the tracee: patched memory and the program counter.
pub struct Tracee {
    pub mem: Map<u64, u8>,
    pub pc: u64,
}

/// Sources of nondeterminism: where each single step lands, and the chain
/// of addresses control flow visits after each full resume.
pub struct Oracle {
    pub steps: Seq<u64>,
    pub paths: Seq<Seq<u64>>,
}

/// Whether the model says the byte at `addr` is the trap opcode.
pub open spec fn trapped(mem: Map<u64, u8>, addr: u64) -> bool {
    mem.contains_key(addr) && mem[addr] == TRAP_BYTE
}

/// The addresses whose real instruction executes when the tracee runs
/// through `visited` in order: execution stops at the first armed trap,
/// whose instruction does not execute.
pub open spec fn execs_until_trap(mem: Map<u64, u8>, visited: Seq<u64>) -> Seq<u64>
    decreases visited.len(),
{
    if visited.len() == 0 {
        seq![]
    } else if trapped(mem, visited[0]) {
        seq![]
    } else {
        seq![visited[0]] + execs_until_trap(mem, visited.drop_first())
    }
}

/// Where a resumed tracee running through `visited` re-stops: the first
/// address whose byte is the trap opcode, if any.
pub open spec fn stop_until_trap(mem: Map<u64, u8>, visited: Seq<u64>) -> Option<u64>
    decreases visited.len(),
{
    if visited.len() == 0 {
        None
    } else if trapped(mem, visited[0]) {
        Some(visited[0])
    } else {
        stop_until_trap(mem, visited.drop_first())
    }
}

/// The effect of one operation: the next model state and the addresses
/// whose real instruction executed. `step_target` and `path` supply the
/// oracle's choices for a `Step` or `Cont`.
pub open spec fn op_effect(t: Tracee, op: TraceOp, step_target: u64, path: Seq<u64>) -> (
    Tracee,
    Seq<u64>,
) {
    match op {
        TraceOp::WriteByte { addr, val } => (
            Tracee { mem: t.mem.insert(addr, val), pc: t.pc },
            seq![],
        ),
        TraceOp::SetPc { pc } => (Tracee { mem: t.mem, pc }, seq![]),
        TraceOp::Step => {
            if trapped(t.mem, t.pc) {
                (t, seq![])
            } else {
                (Tracee { mem: t.mem, pc: step_target }, seq![t.pc])
            }
        },
        TraceOp::Cont => {
            let visited = seq![t.pc] + path;
            let pc = match stop_until_trap(t.mem, visited) {
                Some(a) => a,
                None => t.pc,
            };
            (Tracee { mem: t.mem, pc }, execs_until_trap(t.mem, visited))
        },
        TraceOp::Wait => (t, seq![]),
    }
}

/// The oracle with the choice for `op` consumed.
pub open spec fn oracle_after(o: Oracle, op: TraceOp) -> Oracle {
    match op {
        TraceOp::Step => Oracle { steps: o.steps.drop_first(), paths: o.paths },
        TraceOp::Cont => Oracle { steps: o.steps, paths: o.paths.drop_first() },
        _ => o,
    }
}

/// Runs a sequence of operations, returning the final model state and every
/// address whose real instruction executed, in order.
pub open spec fn run_ops(t: Tracee, ops: Seq<TraceOp>, o: Oracle) -> (Tracee, Seq<u64>)
    decreases ops.len(),
{
    if ops.len() == 0 {
        (t, seq![])
    } else {
        let first = op_effect(t, ops[0], o.steps[0], o.paths[0]);
        let rest = run_ops(first.0, ops.drop_first(), oracle_after(o, ops[0]));
        (rest.0, first.1 + rest.1)
    }
}

/// The operations of a resume when the stop is not at an armed breakpoint.
pub open spec fn plain_resume_ops() -> Seq<TraceOp> {
    seq![TraceOp::Cont, TraceOp::Wait]
}

/// The breakpoint-transparent prefix of a resume from an armed breakpoint
/// at `a`: de-arm, correct the program counter, step the real instruction,
/// wait for the step.
pub open spec fn armed_step_ops(a: u64, orig: u8) -> Seq<TraceOp> {
    seq![
        TraceOp::WriteByte { addr: a, val: orig },
        TraceOp::SetPc { pc: a },
        TraceOp::Step,
        TraceOp::Wait,
    ]
}

/// The full resume from a stop at an armed breakpoint at `a`: the
/// transparent step, re-arming, and the full resume.
pub open spec fn armed_resume_ops(a: u64, orig: u8) -> Seq<TraceOp> {
    armed_step_ops(a, orig) + seq![TraceOp::WriteByte { addr: a, val: TRAP_BYTE }]
        + plain_resume_ops()
}

/// Every operation in `ops` is a trap write at one of the `pending`
/// addresses: the shape of the log a launch-time breakpoint installation
/// leaves behind.
pub open spec fn arming_ops_only(ops: Seq<TraceOp>, pending: Seq<u64>) -> bool {
    forall|k: int|
        0 <= k < ops.len() ==> ((#[trigger] ops[k]) matches TraceOp::WriteByte { addr, val }
            && val == TRAP_BYTE && pending.contains(addr))
}

/// What one completed resume appends to the operation log `pre`: a plain
/// continue, the full breakpoint-transparent sequence for a breakpoint of
/// the table, or — only when the tracee did not stop again — the
/// transparent step alone (the tracee was gone before the re-arm).
pub open spec fn resume_log_shape(
    pre: Seq<TraceOp>,
    post: Seq<TraceOp>,
    bps: Seq<Breakpoint>,
    stopped: bool,
) -> bool {
    ||| post == pre + plain_resume_ops()
    ||| (exists|a: u64|
        #![trigger has_bp(bps, a)]
        has_bp(bps, a) && post == pre + armed_resume_ops(a, bp_at(bps, a).orig_byte))
    ||| (!stopped && exists|a: u64|
        #![trigger has_bp(bps, a)]
        has_bp(bps, a) && post == pre + armed_step_ops(a, bp_at(bps, a).orig_byte))
}

/// What a failed resume may have appended to the operation log `pre`: a
/// proper prefix of one resume sequence and nothing more — in particular,
/// no operation is ever retried.
pub open spec fn resume_log_bound(pre: Seq<TraceOp>, post: Seq<TraceOp>, bps: Seq<Breakpoint>) -> bool {
    ||| (exists|n: int|
        0 <= n <= plain_resume_ops().len() && post == pre + #[trigger] plain_resume_ops().take(n))
    ||| (exists|a: u64, n: int|
        #![trigger armed_resume_ops(a, bp_at(bps, a).orig_byte).take(n)]
        has_bp(bps, a) && 0 <= n <= armed_resume_ops(a, bp_at(bps, a).orig_byte).len() && post
            == pre + armed_resume_ops(a, bp_at(bps, a).orig_byte).take(n))
}

/// How often `x` occurs in `s`.
pub open spec fn count_of(s: Seq<u64>, x: u64) -> nat
    decreases s.len(),
{
    if s.len() == 0 {
        0
    } else {
        count_of(s.drop_last(), x) + if s.last() == x {
            1nat
        } else {
            0nat
        }
    }
}

/// Every breakpoint of the table is armed in the tracee — the byte at its
/// address is the trap opcode — and no recorded original byte is the trap
/// opcode. This is the arming invariant: reading the byte at an armed
/// address yields the trap opcode.
pub open spec fn armed_ok(t: Tracee, bps: Seq<Breakpoint>) -> bool {
    forall|i: int|
        0 <= i < bps.len() ==> {
            let bp = #[trigger] bps[i];
            trapped(t.mem, bp.addr) && bp.orig_byte != TRAP_BYTE
        }
}

pub proof fn lemma_count_concat(a: Seq<u64>, b: Seq<u64>, x: u64)
    ensures
        count_of(a + b, x) == count_of(a, x) + count_of(b, x),
    decreases b.len(),
{
    if b.len() == 0 {
        assert(a + b =~= a);
    } else {
        assert((a + b).drop_last() =~= a + b.drop_last());
        assert((a + b).last() == b.last());
        lemma_count_concat(a, b.drop_last(), x);
    }
}

pub proof fn lemma_count_zero(s: Seq<u64>, x: u64)
    requires
        forall|i: int| 0 <= i < s.len() ==> s[i] != x,
    ensures
        count_of(s, x) == 0,
    decreases s.len(),
{
    if s.len() > 0 {
        lemma_count_zero(s.drop_last(), x);
    }
}

pub proof fn lemma_count_singleton(x: u64)
    ensures
        count_of(seq![x], x) == 1,
{
    let s = seq![x];
    assert(s.last() == x);
    assert(s.drop_last() =~= Seq::<u64>::empty());
    assert(count_of(s.drop_last(), x) == 0);
}

/// Nothing a resumed tracee actually executes sits at a trapped address.
pub proof fn lemma_execs_not_trapped(mem: Map<u64, u8>, visited: Seq<u64>)
    ensures
        forall|i: int|
            0 <= i < execs_until_trap(mem, visited).len() ==> !trapped(
                mem,
                #[trigger] execs_until_trap(mem, visited)[i],
            ),
    decreases visited.len(),
{
    if visited.len() > 0 && !trapped(mem, visited[0]) {
        lemma_execs_not_trapped(mem, visited.drop_first());
        let e = execs_until_trap(mem, visited);
        let er = execs_until_trap(mem, visited.drop_first());
        assert(e == seq![visited[0]] + er);
        assert forall|i: int| 0 <= i < e.len() implies !trapped(mem, e[i]) by {
            if i > 0 {
                assert(e[i] == er[i - 1]);
            }
        }
    }
}

/// A trapped address never executes during a resume.
pub proof fn lemma_cont_never_executes_trapped(mem: Map<u64, u8>, visited: Seq<u64>, a: u64)
    requires
        trapped(mem, a),
    ensures
        count_of(execs_until_trap(mem, visited), a) == 0,
{
    lemma_execs_not_trapped(mem, visited);
    lemma_count_zero(execs_until_trap(mem, visited), a);
}

/// Where the tracee ends up after a full resume from `from`, when its
/// control flow would visit `path`: the first armed address, or `from`
/// itself when the run never traps (the tracee exits instead).
pub open spec fn cont_stop_pc(mem: Map<u64, u8>, from: u64, path: Seq<u64>) -> u64 {
    match stop_until_trap(mem, seq![from] + path) {
        Some(a) => a,
        None => from,
    }
}

/// Unfolds `run_ops` by one operation.
pub proof fn lemma_run_ops_cons(t: Tracee, op: TraceOp, rest: Seq<TraceOp>, o: Oracle)
    ensures
        run_ops(t, seq![op] + rest, o).0 == run_ops(
            op_effect(t, op, o.steps[0], o.paths[0]).0,
            rest,
            oracle_after(o, op),
        ).0,
        run_ops(t, seq![op] + rest, o).1 == op_effect(t, op, o.steps[0], o.paths[0]).1 + run_ops(
            op_effect(t, op, o.steps[0], o.paths[0]).0,
            rest,
            oracle_after(o, op),
        ).1,
{
    let ops = seq![op] + rest;
    assert(ops.len() > 0);
    assert(ops[0] == op);
    assert(ops.drop_first() =~= rest);
}

/// A resumed tracee stops exactly at the first armed address its control
/// flow visits.
pub proof fn lemma_stop_at_first_trap(mem: Map<u64, u8>, visited: Seq<u64>, k: int)
    requires
        0 <= k < visited.len(),
        trapped(mem, visited[k]),
        forall|i: int| 0 <= i < k ==> !trapped(mem, #[trigger] visited[i]),
    ensures
        stop_until_trap(mem, visited) == Some(visited[k]),
    decreases visited.len(),
{
    if k > 0 {
        lemma_stop_at_first_trap(mem, visited.drop_first(), k - 1);
    }
}

/// A resumed tracee whose control flow meets no armed address never
/// re-stops: it runs to completion.
pub proof fn lemma_no_trap_no_stop(mem: Map<u64, u8>, visited: Seq<u64>)
    requires
        forall|i: int| 0 <= i < visited.len() ==> !trapped(mem, #[trigger] visited[i]),
    ensures
        stop_until_trap(mem, visited) is None,
    decreases visited.len(),
{
    if visited.len() > 0 {
        lemma_no_trap_no_stop(mem, visited.drop_first());
    }
}

/// Law: resuming from a stop at an armed breakpoint address executes the
/// displaced original instruction exactly once before the tracee re-stops,
/// restores the patched memory exactly (the breakpoint is re-armed), and
/// leaves the tracee stopped at the first armed address its further control
/// flow visits.
pub proof fn lemma_armed_resume(t: Tracee, a: u64, orig: u8, o: Oracle)
    requires
        trapped(t.mem, a),
        orig != TRAP_BYTE,
    ensures
        run_ops(t, armed_resume_ops(a, orig), o).0.mem == t.mem,
        run_ops(t, armed_resume_ops(a, orig), o).0.pc == cont_stop_pc(
            t.mem,
            o.steps[0],
            o.paths[0],
        ),
        run_ops(t, armed_resume_ops(a, orig), o).1 == seq![a] + execs_until_trap(
            t.mem,
            seq![o.steps[0]] + o.paths[0],
        ),
        count_of(run_ops(t, armed_resume_ops(a, orig), o).1, a) == 1,
{
    let op1 = TraceOp::WriteByte { addr: a, val: orig };
    let op2 = TraceOp::SetPc { pc: a };
    let op3 = TraceOp::Step;
    let op4 = TraceOp::Wait;
    let op5 = TraceOp::WriteByte { addr: a, val: TRAP_BYTE };
    let op6 = TraceOp::Cont;
    let op7 = TraceOp::Wait;
    let rest6 = seq![op2, op3, op4, op5, op6, op7];
    let rest5 = seq![op3, op4, op5, op6, op7];
    let rest4 = seq![op4, op5, op6, op7];
    let rest3 = seq![op5, op6, op7];
    let rest2 = seq![op6, op7];
    let rest1 = seq![op7];
    let rest0 = Seq::<TraceOp>::empty();
    let ops = armed_resume_ops(a, orig);
    let st0 = o.steps[0];
    let path = o.paths[0];

    assert(ops =~= seq![op1] + rest6);
    lemma_run_ops_cons(t, op1, rest6, o);
    let s1 = op_effect(t, op1, o.steps[0], o.paths[0]).0;
    assert(s1.mem == t.mem.insert(a, orig) && s1.pc == t.pc);
    assert(oracle_after(o, op1) == o);

    assert(rest6 =~= seq![op2] + rest5);
    lemma_run_ops_cons(s1, op2, rest5, o);
    let s2 = op_effect(s1, op2, o.steps[0], o.paths[0]).0;
    assert(s2.mem == s1.mem && s2.pc == a);

    assert(rest5 =~= seq![op3] + rest4);
    lemma_run_ops_cons(s2, op3, rest4, o);
    assert(!trapped(s2.mem, a));
    let s3 = op_effect(s2, op3, o.steps[0], o.paths[0]).0;
    assert(s3.mem == s2.mem && s3.pc == st0);
    assert(op_effect(s2, op3, o.steps[0], o.paths[0]).1 == seq![a]);
    let os = oracle_after(o, op3);
    assert(os.paths == o.paths);

    assert(rest4 =~= seq![op4] + rest3);
    lemma_run_ops_cons(s3, op4, rest3, os);
    let s4 = op_effect(s3, op4, os.steps[0], os.paths[0]).0;
    assert(s4 == s3);
    assert(oracle_after(os, op4) == os);

    assert(rest3 =~= seq![op5] + rest2);
    lemma_run_ops_cons(s4, op5, rest2, os);
    let s5 = op_effect(s4, op5, os.steps[0], os.paths[0]).0;
    assert(s5.mem == t.mem.insert(a, orig).insert(a, TRAP_BYTE) && s5.pc == st0);
    assert(s5.mem =~= t.mem);
    assert(trapped(s5.mem, a));

    assert(rest2 =~= seq![op6] + rest1);
    lemma_run_ops_cons(s5, op6, rest1, os);
    assert(os.paths[0] == path);
    let visited = seq![st0] + path;
    let s6 = op_effect(s5, op6, os.steps[0], os.paths[0]).0;
    let e6 = op_effect(s5, op6, os.steps[0], os.paths[0]).1;
    assert(e6 == execs_until_trap(t.mem, visited));
    assert(s6.mem == t.mem && s6.pc == cont_stop_pc(t.mem, st0, path));
    let oc = oracle_after(os, op6);

    assert(rest1 =~= seq![op7] + rest0);
    lemma_run_ops_cons(s6, op7, rest0, oc);
    let s7 = op_effect(s6, op7, oc.steps[0], oc.paths[0]).0;
    assert(s7 == s6);
    assert(run_ops(s7, rest0, oracle_after(oc, op7)).1 == Seq::<u64>::empty());

    let total = run_ops(t, ops, o).1;
    assert(total =~= seq![a] + e6);
    lemma_count_concat(seq![a], e6, a);
    lemma_count_singleton(a);
    lemma_cont_never_executes_trapped(t.mem, visited, a);
}

/// Law: the transparent prefix of an armed resume (the tracee may exit
/// during the single step, so nothing follows it) executes the displaced
/// original instruction exactly once, and leaves only the de-armed byte
/// behind — the other patches are untouched.
pub proof fn lemma_armed_step(t: Tracee, a: u64, orig: u8, o: Oracle)
    requires
        trapped(t.mem, a),
        orig != TRAP_BYTE,
    ensures
        run_ops(t, armed_step_ops(a, orig), o).0.mem == t.mem.insert(a, orig),
        run_ops(t, armed_step_ops(a, orig), o).1 == seq![a],
{
    let op1 = TraceOp::WriteByte { addr: a, val: orig };
    let op2 = TraceOp::SetPc { pc: a };
    let op3 = TraceOp::Step;
    let op4 = TraceOp::Wait;
    let rest3 = seq![op2, op3, op4];
    let rest2 = seq![op3, op4];
    let rest1 = seq![op4];
    let rest0 = Seq::<TraceOp>::empty();
    let ops = armed_step_ops(a, orig);

    assert(ops =~= seq![op1] + rest3);
    lemma_run_ops_cons(t, op1, rest3, o);
    let s1 = op_effect(t, op1, o.steps[0], o.paths[0]).0;
    assert(s1.mem == t.mem.insert(a, orig) && s1.pc == t.pc);

    assert(rest3 =~= seq![op2] + rest2);
    lemma_run_ops_cons(s1, op2, rest2, o);
    let s2 = op_effect(s1, op2, o.steps[0], o.paths[0]).0;
    assert(s2.mem == s1.mem && s2.pc == a);

    assert(rest2 =~= seq![op3] + rest1);
    lemma_run_ops_cons(s2, op3, rest1, o);
    assert(!trapped(s2.mem, a));
    let s3 = op_effect(s2, op3, o.steps[0], o.paths[0]).0;
    assert(op_effect(s2, op3, o.steps[0], o.paths[0]).1 == seq![a]);
    let os = oracle_after(o, op3);

    assert(rest1 =~= seq![op4] + rest0);
    lemma_run_ops_cons(s3, op4, rest0, os);

    assert(run_ops(t, ops, o).1 =~= seq![a]);
}

/// Law: a resume from a stop that is not at an armed breakpoint issues a
/// plain continue: memory is untouched and the tracee stops at the first
/// armed address its control flow visits.
pub proof fn lemma_plain_resume(t: Tracee, o: Oracle)
    ensures
        run_ops(t, plain_resume_ops(), o).0.mem == t.mem,
        run_ops(t, plain_resume_ops(), o).0.pc == cont_stop_pc(t.mem, t.pc, o.paths[0]),
        run_ops(t, plain_resume_ops(), o).1 == execs_until_trap(t.mem, seq![t.pc] + o.paths[0]),
{
    let op6 = TraceOp::Cont;
    let op7 = TraceOp::Wait;
    let rest1 = seq![op7];
    let rest0 = Seq::<TraceOp>::empty();
    let ops = plain_resume_ops();

    assert(ops =~= seq![op6] + rest1);
    lemma_run_ops_cons(t, op6, rest1, o);
    let s6 = op_effect(t, op6, o.steps[0], o.paths[0]).0;
    let e6 = op_effect(t, op6, o.steps[0], o.paths[0]).1;
    assert(s6.mem == t.mem && s6.pc == cont_stop_pc(t.mem, t.pc, o.paths[0]));
    let oc = oracle_after(o, op6);

    assert(rest1 =~= seq![op7] + rest0);
    lemma_run_ops_cons(s6, op7, rest0, oc);
    assert(run_ops(t, ops, o).1 =~= e6);
}

/// Law: the arming invariant is preserved by a breakpoint-transparent
/// resume — every breakpoint of the table is still armed afterwards.
pub proof fn lemma_resume_preserves_arming(
    t: Tracee,
    bps: Seq<Breakpoint>,
    a: u64,
    orig: u8,
    o: Oracle,
)
    requires
        armed_ok(t, bps),
        trapped(t.mem, a),
        orig != TRAP_BYTE,
    ensures
        armed_ok(run_ops(t, armed_resume_ops(a, orig), o).0, bps),
{
    lemma_armed_resume(t, a, orig, o);
}

/// Law: arming a new breakpoint makes the byte at its address the trap
/// opcode and leaves every existing breakpoint armed.
pub proof fn lemma_arm_extends(t: Tracee, bps: Seq<Breakpoint>, a: u64, orig: u8)
    requires
        armed_ok(t, bps),
        orig != TRAP_BYTE,
    ensures
        armed_ok(
            Tracee { mem: t.mem.insert(a, TRAP_BYTE), pc: t.pc },
            bps.push(Breakpoint { addr: a, orig_byte: orig }),
        ),
{
}

/// Law: breakpoints are hit in program order. From a stop at armed
/// breakpoint `a1`, when the tracee's onward control flow reaches `a2` with
/// no armed address before it, the transparent resume from `a1` stops
/// exactly at `a2`, executed `a1`'s original instruction exactly once, and
/// left every breakpoint armed.
pub proof fn lemma_hits_in_program_order(
    t: Tracee,
    bps: Seq<Breakpoint>,
    a1: u64,
    orig1: u8,
    a2: u64,
    o: Oracle,
    k: int,
)
    requires
        armed_ok(t, bps),
        bps.contains(Breakpoint { addr: a1, orig_byte: orig1 }),
        has_bp(bps, a2),
        0 <= k < (seq![o.steps[0]] + o.paths[0]).len(),
        (seq![o.steps[0]] + o.paths[0])[k] == a2,
        forall|i: int| 0 <= i < k ==> !trapped(t.mem, (seq![o.steps[0]] + o.paths[0])[i]),
    ensures
        run_ops(t, armed_resume_ops(a1, orig1), o).0.pc == a2,
        count_of(run_ops(t, armed_resume_ops(a1, orig1), o).1, a1) == 1,
        armed_ok(run_ops(t, armed_resume_ops(a1, orig1), o).0, bps),
{
    let i1 = choose|i: int| 0 <= i < bps.len() && bps[i] == Breakpoint { addr: a1, orig_byte: orig1 };
    assert(trapped(t.mem, a1) && orig1 != TRAP_BYTE);
    let i2 = choose|i: int| 0 <= i < bps.len() && (#[trigger] bps[i]).addr == a2;
    assert(trapped(t.mem, a2));
    lemma_armed_resume(t, a1, orig1, o);
    let visited = seq![o.steps[0]] + o.paths[0];
    lemma_stop_at_first_trap(t.mem, visited, k);
}

/// Law: a target launched with a breakpoint at its entry address stops
/// exactly there on the initial resume (when control flow reaches it before
/// any other armed address); the following resume executes the entry's
/// original instruction exactly once and — when the onward control flow
/// meets no armed address — the tracee runs to completion instead of
/// re-stopping, with every breakpoint still armed.
pub proof fn lemma_entry_breakpoint_run(
    t: Tracee,
    bps: Seq<Breakpoint>,
    e: u64,
    orig: u8,
    o1: Oracle,
    o2: Oracle,
    k: int,
)
    requires
        armed_ok(t, bps),
        bps.contains(Breakpoint { addr: e, orig_byte: orig }),
        0 <= k < (seq![t.pc] + o1.paths[0]).len(),
        (seq![t.pc] + o1.paths[0])[k] == e,
        forall|i: int| 0 <= i < k ==> !trapped(t.mem, (seq![t.pc] + o1.paths[0])[i]),
        forall|i: int|
            0 <= i < (seq![o2.steps[0]] + o2.paths[0]).len() ==> !trapped(
                t.mem,
                (seq![o2.steps[0]] + o2.paths[0])[i],
            ),
    ensures
        run_ops(t, plain_resume_ops(), o1).0.pc == e,
        run_ops(t, plain_resume_ops(), o1).0.mem == t.mem,
        count_of(run_ops(run_ops(t, plain_resume_ops(), o1).0, armed_resume_ops(e, orig), o2).1, e)
            == 1,
        stop_until_trap(t.mem, seq![o2.steps[0]] + o2.paths[0]) is None,
        armed_ok(
            run_ops(run_ops(t, plain_resume_ops(), o1).0, armed_resume_ops(e, orig), o2).0,
            bps,
        ),
{
    let ie = choose|i: int| 0 <= i < bps.len() && bps[i] == Breakpoint { addr: e, orig_byte: orig };
    assert(trapped(t.mem, e) && orig != TRAP_BYTE);
    lemma_plain_resume(t, o1);
    lemma_stop_at_first_trap(t.mem, seq![t.pc] + o1.paths[0], k);
    let t1 = run_ops(t, plain_resume_ops(), o1).0;
    lemma_armed_resume(t1, e, orig, o2);
    lemma_no_trap_no_stop(t.mem, seq![o2.steps[0]] + o2.paths[0]);
}

} // verus!
