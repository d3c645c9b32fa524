//! The traced process handle: owns one live tracee and provides the
//! primitive operations on it, plus the breakpoint-transparent resume
//! algorithm.
//!
//! The handle keeps a ghost log of every operation it issues against the
//! tracee, as [`crate::model::TraceOp`] values. The contracts pin the exact
//! shape of that log: installing breakpoints writes trap opcodes and
//! nothing else; a resume from a stop on an armed breakpoint issues exactly
//! the de-arm / correct pc / single-step / wait / re-arm / continue / wait
//! sequence whose guarantees the lemmas in [`crate::model`] prove; and a
//! failed resume leaves at most a prefix of one such sequence behind —
//! nothing is retried.

use vstd::prelude::*;

use crate::breakpoint::{Breakpoint, bp_at, has_bp, lookup_bp, table_wf};
use crate::model::{
    TraceOp, armed_resume_ops, armed_step_ops, arming_ops_only, plain_resume_ops,
    resume_log_bound, resume_log_shape,
};
use crate::trace::{
    RawWait, get_regs, kill_child, peek_word, poke_word, resume, set_regs, single_step,
    wait_child,
};
use crate::word::{TRAP_BYTE, align_addr_to_word, extract_byte, patch_word};

verus! {

/// The decoded outcome of a wait on the tracee.
#[derive(Clone, Copy, PartialEq, Eq, Structural, Debug)]
pub enum Status {
    /// The tracee is trace-stopped: the stopping signal and the program
    /// counter it is stopped at.
    Stopped(i32, u64),
    /// The tracee exited normally with this code.
    Exited(i32),
    /// The tracee was terminated by this signal.
    Signaled(i32),
}

/// A failing trace operation.
#[derive(Clone, Copy, PartialEq, Eq, Structural, Debug)]
pub enum TraceError {
    /// The operating system refused the operation (raw errno).
    Os(i32),
    /// A wait produced a result that the trace protocol does not allow
    /// here: an unrecoverable internal-invariant violation.
    UnexpectedWait,
}

/// The decode of one raw wait outcome, with `pc` the program counter read
/// at a trace stop: an exit code becomes `Exited`, a terminating signal
/// `Signaled`, a trace stop `Stopped(signal, pc)`, and any other shape the
/// unrecoverable internal-invariant error — never a `Status`.
pub open spec fn spec_decode_wait(raw: RawWait, pc: u64) -> Result<Status, TraceError> {
    match raw {
        RawWait::Exited(code) => Ok(Status::Exited(code)),
        RawWait::Signaled(sig) => Ok(Status::Signaled(sig)),
        RawWait::Stopped(sig) => Ok(Status::Stopped(sig, pc)),
        RawWait::Other => Err(TraceError::UnexpectedWait),
    }
}

/// Decodes one raw wait outcome, exactly as [`spec_decode_wait`] says.
pub fn decode_wait(raw: RawWait, pc: u64) -> (r: Result<Status, TraceError>)
    ensures
        r == spec_decode_wait(raw, pc),
{
    match raw {
        RawWait::Exited(code) => Ok(Status::Exited(code)),
        RawWait::Signaled(sig) => Ok(Status::Signaled(sig)),
        RawWait::Stopped(sig) => Ok(Status::Stopped(sig, pc)),
        RawWait::Other => Err(TraceError::UnexpectedWait),
    }
}

/// Whether the skip report lists `addr`.
pub open spec fn skip_listed(skips: Seq<(u64, i32)>, addr: u64) -> bool {
    exists|k: int| 0 <= k < skips.len() && (#[trigger] skips[k]).0 == addr
}

/// One live tracee: its process id and the table of installed breakpoints.
pub struct Inferior {
    pid: i32,
    breakpoints: Vec<Breakpoint>,
    log: Ghost<Seq<TraceOp>>,
}

impl Inferior {
    /// The process id of the tracee.
    pub closed spec fn pid_of(self) -> i32 {
        self.pid
    }

    /// The installed breakpoint table.
    pub closed spec fn bps(self) -> Seq<Breakpoint> {
        self.breakpoints@
    }

    /// Every operation issued against the tracee so far, in order.
    pub closed spec fn oplog(self) -> Seq<TraceOp> {
        self.log@
    }

    /// Well-formedness: the breakpoint table has distinct addresses and
    /// never records the trap opcode as an original byte.
    pub open spec fn wf(self) -> bool {
        table_wf(self.bps())
    }

    /// Takes charge of a freshly spawned tracee (stopped at its first
    /// instruction) and attempts to arm every pending breakpoint. Every
    /// pending address ends armed in the table or on the returned skip
    /// report: `(addr, errno)` for a failed memory patch, `(addr, 0)` when
    /// the byte at the address already was the trap opcode, so nothing was
    /// recorded (the double-patch guard). The operation log holds exactly
    /// the trap writes of the installation, one per armed breakpoint.
    pub fn new(pid: i32, pending: &Vec<u64>) -> (r: (Inferior, Vec<(u64, i32)>))
        ensures
            r.0.wf(),
            r.0.pid_of() == pid,
            forall|i: int|
                0 <= i < r.0.bps().len() ==> pending@.contains((#[trigger] r.0.bps()[i]).addr),
            forall|j: int|
                0 <= j < pending@.len() ==> has_bp(r.0.bps(), #[trigger] pending@[j])
                    || skip_listed(r.1@, pending@[j]),
            arming_ops_only(r.0.oplog(), pending@),
            forall|i: int|
                0 <= i < r.0.bps().len() ==> r.0.oplog().contains(
                    TraceOp::WriteByte { addr: (#[trigger] r.0.bps()[i]).addr, val: TRAP_BYTE },
                ),
    {
        let mut inf = Inferior { pid, breakpoints: Vec::new(), log: Ghost(Seq::empty()) };
        let mut skipped: Vec<(u64, i32)> = Vec::new();
        let mut i: usize = 0;
        while i < pending.len()
            invariant
                inf.wf(),
                inf.pid_of() == pid,
                i <= pending@.len(),
                forall|k: int|
                    0 <= k < inf.bps().len() ==> pending@.contains(
                        (#[trigger] inf.bps()[k]).addr,
                    ),
                forall|j: int|
                    0 <= j < i ==> has_bp(inf.bps(), #[trigger] pending@[j]) || skip_listed(
                        skipped@,
                        pending@[j],
                    ),
                arming_ops_only(inf.oplog(), pending@),
                forall|k: int|
                    0 <= k < inf.bps().len() ==> inf.oplog().contains(
                        TraceOp::WriteByte {
                            addr: (#[trigger] inf.bps()[k]).addr,
                            val: TRAP_BYTE,
                        },
                    ),
            decreases pending@.len() - i,
        {
            let addr = pending[i];
            let ghost pre_bps = inf.bps();
            let ghost pre_log = inf.oplog();
            let ghost pre_skips = skipped@;
            proof {
                assert(pending@[i as int] == addr && pending@.contains(addr));
            }
            if inf.hint_breakpoint(addr).is_none() {
                match inf.add_bp(addr) {
                    Ok(true) => {
                        proof {
                            let b = choose|b: u8|
                                b != TRAP_BYTE && inf.bps() == pre_bps.push(
                                    Breakpoint { addr, orig_byte: b },
                                );
                            assert(inf.bps() == pre_bps.push(Breakpoint { addr, orig_byte: b }));
                            lemma_has_bp_push(pre_bps, Breakpoint { addr, orig_byte: b });
                            lemma_log_push(pre_log, TraceOp::WriteByte { addr, val: TRAP_BYTE });
                            lemma_arming_push(pre_log, addr, pending@);
                            assert(inf.oplog()[pre_log.len() as int] == TraceOp::WriteByte {
                                addr,
                                val: TRAP_BYTE,
                            });
                            assert(inf.oplog().contains(
                                TraceOp::WriteByte { addr, val: TRAP_BYTE },
                            ));
                            assert forall|k: int|
                                0 <= k < inf.bps().len() implies inf.oplog().contains(
                                TraceOp::WriteByte {
                                    addr: (#[trigger] inf.bps()[k]).addr,
                                    val: TRAP_BYTE,
                                },
                            ) by {
                                if k < pre_bps.len() {
                                    assert(inf.bps()[k] == pre_bps[k]);
                                }
                            }
                        }
                    },
                    Ok(false) => {
                        // The byte at `addr` already was the trap opcode;
                        // nothing was recorded (the double-patch guard).
                        skipped.push((addr, 0));
                        proof {
                            lemma_skips_push(pre_skips, (addr, 0));
                            assert(skipped@[pre_skips.len() as int].0 == addr);
                            assert(skip_listed(skipped@, addr));
                            if inf.oplog() != pre_log {
                                lemma_log_push(pre_log, TraceOp::WriteByte {
                                    addr,
                                    val: TRAP_BYTE,
                                });
                                lemma_arming_push(pre_log, addr, pending@);
                            }
                        }
                    },
                    Err(e) => {
                        skipped.push((addr, e));
                        proof {
                            lemma_skips_push(pre_skips, (addr, e));
                            assert(skipped@[pre_skips.len() as int].0 == addr);
                            assert(skip_listed(skipped@, addr));
                        }
                    },
                }
            }
            i += 1;
        }
        (inf, skipped)
    }

    /// The pid of this inferior.
    pub fn pid(&self) -> (r: i32)
        ensures
            r == self.pid_of(),
    {
        self.pid
    }

    /// The breakpoint record at `addr`, if one is installed.
    pub fn hint_breakpoint(&self, addr: u64) -> (r: Option<Breakpoint>)
        ensures
            r.is_some() == has_bp(self.bps(), addr),
            self.wf() && has_bp(self.bps(), addr) ==> r == Some(bp_at(self.bps(), addr)),
    {
        lookup_bp(&self.breakpoints, addr)
    }

    /// Patches the single byte at `addr` to `val` by reading the containing
    /// aligned word, masking the byte in, and writing the word back — every
    /// other byte of the word is preserved (see [`crate::word`]). Returns
    /// the displaced byte. On success the operation log grows by exactly
    /// this write; a failed operation changes nothing.
    fn write_byte(&mut self, addr: u64, val: u8) -> (r: Result<u8, i32>)
        ensures
            final(self).pid_of() == old(self).pid_of(),
            final(self).bps() == old(self).bps(),
            r.is_ok() ==> final(self).oplog() == old(self).oplog().push(
                TraceOp::WriteByte { addr, val },
            ),
            r.is_err() ==> final(self).oplog() == old(self).oplog(),
    {
        let aligned = align_addr_to_word(addr);
        let offset = addr - aligned;
        let word = match peek_word(self.pid, aligned) {
            Ok(w) => w,
            Err(e) => {
                return Err(e);
            },
        };
        let orig = extract_byte(word, offset);
        let patched = patch_word(word, offset, val);
        match poke_word(self.pid, aligned, patched) {
            Ok(()) => {
                self.log = Ghost(self.log@.push(TraceOp::WriteByte { addr, val }));
                Ok(orig)
            },
            Err(e) => Err(e),
        }
    }

    /// Arms a breakpoint at `addr` in the running tracee. Returns `Ok(true)`
    /// when the trap opcode was written and a new breakpoint recorded,
    /// `Ok(false)` when nothing had to be done (the address is already
    /// armed, or the byte there is already the trap opcode, which guards
    /// against double-patching), and the errno when the memory patch failed
    /// — a failed patch changes nothing and is never recorded as armed.
    pub fn add_bp(&mut self, addr: u64) -> (r: Result<bool, i32>)
        requires
            old(self).wf(),
        ensures
            final(self).wf(),
            final(self).pid_of() == old(self).pid_of(),
            r == Ok::<bool, i32>(true) ==> exists|b: u8|
                b != TRAP_BYTE && final(self).bps() == old(self).bps().push(
                    Breakpoint { addr, orig_byte: b },
                ),
            r == Ok::<bool, i32>(true) ==> !has_bp(old(self).bps(), addr) && has_bp(
                final(self).bps(),
                addr,
            ),
            r != Ok::<bool, i32>(true) ==> final(self).bps() == old(self).bps(),
            has_bp(old(self).bps(), addr) ==> r == Ok::<bool, i32>(false) && final(self).oplog()
                == old(self).oplog(),
            r == Ok::<bool, i32>(true) ==> final(self).oplog() == old(self).oplog().push(
                TraceOp::WriteByte { addr, val: TRAP_BYTE },
            ),
            r == Ok::<bool, i32>(false) && !has_bp(old(self).bps(), addr) ==> final(self).oplog()
                == old(self).oplog().push(TraceOp::WriteByte { addr, val: TRAP_BYTE }),
            r is Err ==> final(self).oplog() == old(self).oplog(),
    {
        if lookup_bp(&self.breakpoints, addr).is_some() {
            return Ok(false);
        }
        let orig = match self.write_byte(addr, TRAP_BYTE) {
            Ok(b) => b,
            Err(e) => {
                return Err(e);
            },
        };
        if orig == TRAP_BYTE {
            return Ok(false);
        }
        let ghost pre = self.breakpoints@;
        self.breakpoints.push(Breakpoint { addr, orig_byte: orig });
        proof {
            assert forall|i: int, j: int|
                0 <= i < j < self.breakpoints@.len() implies self.breakpoints@[i].addr
                != self.breakpoints@[j].addr by {
                if j == pre.len() as int {
                    assert(!has_bp(pre, addr));
                    assert(pre[i].addr != addr);
                }
            }
            assert(self.breakpoints@[pre.len() as int].addr == addr);
            assert(has_bp(self.breakpoints@, addr));
        }
        Ok(true)
    }

    /// Blocks until the tracee changes state and decodes the outcome
    /// through [`decode_wait`]: a trace stop reports the current program
    /// counter, and any wait result other than a stop, an exit, or a
    /// termination-by-signal is the unrecoverable internal-invariant
    /// error, never a `Status`.
    pub fn wait(&self) -> (r: Result<Status, TraceError>)
        ensures
            r matches Ok(st) ==> exists|raw: RawWait, pc: u64|
                !(#[trigger] spec_decode_wait(raw, pc) is Err) && !(raw is Other) && Ok::<
                    Status,
                    TraceError,
                >(st) == spec_decode_wait(raw, pc),
    {
        let raw = match wait_child(self.pid) {
            Ok(raw) => raw,
            Err(e) => {
                return Err(TraceError::Os(e));
            },
        };
        let pc: u64 = match raw {
            RawWait::Stopped(_) => {
                match get_regs(self.pid) {
                    Ok(regs) => regs.rip,
                    Err(e) => {
                        return Err(TraceError::Os(e));
                    },
                }
            },
            _ => 0,
        };
        let r = decode_wait(raw, pc);
        proof {
            if r is Ok {
                assert(!(raw is Other));
                assert(r == spec_decode_wait(raw, pc));
            }
        }
        r
    }

    /// Resumes the tracee until it next stops, exits, or is killed by a
    /// signal, making armed breakpoints transparent to the instruction
    /// stream: when the stop is at an armed breakpoint address, the
    /// original byte is restored, the program counter corrected, the real
    /// instruction single-stepped, and the trap re-armed, before the full
    /// resume — exactly the operation sequence whose behaviour
    /// [`crate::model::lemma_armed_resume`] proves. The breakpoint table is
    /// never changed by a resume, and a failing operation aborts the resume
    /// where it stands: at most a prefix of one resume sequence is issued,
    /// nothing is retried.
    pub fn continue_exec(&mut self) -> (r: Result<Status, TraceError>)
        requires
            old(self).wf(),
        ensures
            final(self).wf(),
            final(self).pid_of() == old(self).pid_of(),
            final(self).bps() == old(self).bps(),
            old(self).oplog().is_prefix_of(final(self).oplog()),
            r matches Ok(st) ==> resume_log_shape(
                old(self).oplog(),
                final(self).oplog(),
                old(self).bps(),
                st matches Status::Stopped(_, _),
            ),
            r is Err ==> resume_log_bound(old(self).oplog(), final(self).oplog(), old(self).bps()),
    {
        let ghost log0 = self.log@;
        let regs = match get_regs(self.pid) {
            Ok(r) => r,
            Err(e) => {
                proof {
                    lemma_resume_log_none(log0, self.log@, old(self).bps());
                }
                return Err(TraceError::Os(e));
            },
        };
        let rip: u64 = regs.rip;
        if let Some(bp) = self.hint_breakpoint(rip) {
            proof {
                assert(bp == bp_at(old(self).bps(), bp.addr));
            }
            let ghost armed_full = armed_resume_ops(bp.addr, bp.orig_byte);
            // The stop is at an armed breakpoint: restore the original
            // byte so the real instruction can execute.
            match self.write_byte(bp.addr, bp.orig_byte) {
                Ok(_) => (),
                Err(e) => {
                    proof {
                        lemma_resume_log_none(log0, self.log@, old(self).bps());
                    }
                    return Err(TraceError::Os(e));
                },
            }
            // The trap delivery left the program counter past the patched
            // opcode; set it back to the breakpoint address.
            let mut corrected = regs;
            corrected.rip = bp.addr;
            match set_regs(self.pid, corrected) {
                Ok(()) => (),
                Err(e) => {
                    proof {
                        assert(self.log@ =~= log0 + armed_full.take(1));
                    }
                    return Err(TraceError::Os(e));
                },
            }
            self.log = Ghost(self.log@.push(TraceOp::SetPc { pc: bp.addr }));
            // Execute the original instruction exactly once.
            match single_step(self.pid) {
                Ok(()) => (),
                Err(e) => {
                    proof {
                        assert(self.log@ =~= log0 + armed_full.take(2));
                    }
                    return Err(TraceError::Os(e));
                },
            }
            self.log = Ghost(self.log@.push(TraceOp::Step));
            let step_status = match self.wait() {
                Ok(st) => st,
                Err(e) => {
                    proof {
                        assert(self.log@ =~= log0 + armed_full.take(3));
                    }
                    return Err(e);
                },
            };
            self.log = Ghost(self.log@.push(TraceOp::Wait));
            match step_status {
                Status::Stopped(_, _) => (),
                other => {
                    // The tracee is gone; there is nothing left to re-arm
                    // or resume.
                    proof {
                        assert(self.log@ =~= log0 + armed_step_ops(bp.addr, bp.orig_byte));
                        assert(log0.is_prefix_of(self.log@));
                    }
                    return Ok(other);
                },
            }
            // The real instruction has executed; re-arm the trap for
            // future hits.
            match self.write_byte(bp.addr, TRAP_BYTE) {
                Ok(_) => (),
                Err(e) => {
                    proof {
                        assert(self.log@ =~= log0 + armed_full.take(4));
                    }
                    return Err(TraceError::Os(e));
                },
            }
            match resume(self.pid) {
                Ok(()) => (),
                Err(e) => {
                    proof {
                        assert(self.log@ =~= log0 + armed_full.take(5));
                    }
                    return Err(TraceError::Os(e));
                },
            }
            self.log = Ghost(self.log@.push(TraceOp::Cont));
            let st = match self.wait() {
                Ok(st) => st,
                Err(e) => {
                    proof {
                        assert(self.log@ =~= log0 + armed_full.take(6));
                    }
                    return Err(e);
                },
            };
            self.log = Ghost(self.log@.push(TraceOp::Wait));
            proof {
                assert(self.log@ =~= log0 + armed_resume_ops(bp.addr, bp.orig_byte));
                assert(log0.is_prefix_of(self.log@));
            }
            Ok(st)
        } else {
            match resume(self.pid) {
                Ok(()) => (),
                Err(e) => {
                    proof {
                        lemma_resume_log_none(log0, self.log@, old(self).bps());
                    }
                    return Err(TraceError::Os(e));
                },
            }
            self.log = Ghost(self.log@.push(TraceOp::Cont));
            let st = match self.wait() {
                Ok(st) => st,
                Err(e) => {
                    proof {
                        assert(self.log@ =~= log0 + plain_resume_ops().take(1));
                    }
                    return Err(e);
                },
            };
            self.log = Ghost(self.log@.push(TraceOp::Wait));
            proof {
                assert(self.log@ =~= log0 + plain_resume_ops());
                assert(log0.is_prefix_of(self.log@));
            }
            Ok(st)
        }
    }

    /// Forcibly terminates the tracee. Killing an already-exited tracee is
    /// a reported, non-fatal error.
    pub fn kill(&mut self) -> (r: Result<(), i32>)
        ensures
            *final(self) == *old(self),
    {
        kill_child(self.pid)
    }

    /// Reads the aligned machine word at `addr` in the tracee's memory.
    pub fn read_word(&self, addr: u64) -> (r: Result<u64, i32>) {
        peek_word(self.pid, addr)
    }

    /// The current program counter and frame base of the stopped tracee.
    pub fn stop_registers(&self) -> (r: Result<(u64, u64), i32>) {
        match get_regs(self.pid) {
            Ok(regs) => Ok((regs.rip, regs.rbp)),
            Err(e) => Err(e),
        }
    }
}

/// An unchanged operation log is within the bound of a failed resume.
proof fn lemma_resume_log_none(pre: Seq<TraceOp>, post: Seq<TraceOp>, bps: Seq<Breakpoint>)
    requires
        post == pre,
    ensures
        resume_log_bound(pre, post, bps),
{
    assert(post =~= pre + plain_resume_ops().take(0));
}

/// What was armed stays armed when one record is appended to the table.
proof fn lemma_has_bp_push(pre: Seq<Breakpoint>, bp: Breakpoint)
    ensures
        forall|a: u64| has_bp(pre, a) ==> #[trigger] has_bp(pre.push(bp), a),
{
    assert forall|a: u64| has_bp(pre, a) implies #[trigger] has_bp(pre.push(bp), a) by {
        let i = choose|i: int| 0 <= i < pre.len() && (#[trigger] pre[i]).addr == a;
        assert(pre.push(bp)[i].addr == a);
    }
}

/// Every operation on the log stays there when one operation is appended.
proof fn lemma_log_push(pre: Seq<TraceOp>, op: TraceOp)
    ensures
        forall|o: TraceOp| pre.contains(o) ==> #[trigger] pre.push(op).contains(o),
{
    assert forall|o: TraceOp| pre.contains(o) implies #[trigger] pre.push(op).contains(o) by {
        let i = choose|i: int| 0 <= i < pre.len() && pre[i] == o;
        assert(pre.push(op)[i] == o);
    }
}

/// An installation log stays trap-writes-only when one more trap write at
/// a pending address is appended.
proof fn lemma_arming_push(ops: Seq<TraceOp>, addr: u64, pending: Seq<u64>)
    requires
        arming_ops_only(ops, pending),
        pending.contains(addr),
    ensures
        arming_ops_only(ops.push(TraceOp::WriteByte { addr, val: TRAP_BYTE }), pending),
{
    let post = ops.push(TraceOp::WriteByte { addr, val: TRAP_BYTE });
    assert forall|k: int|
        0 <= k < post.len() implies ((#[trigger] post[k]) matches TraceOp::WriteByte {
        addr: a,
        val: v,
    } && v == TRAP_BYTE && pending.contains(a)) by {
        if k < ops.len() {
            assert(post[k] == ops[k]);
        } else {
            assert(post[k] == TraceOp::WriteByte { addr, val: TRAP_BYTE });
        }
    }
}

/// What the skip report lists it keeps listing when one entry is appended.
proof fn lemma_skips_push(pre: Seq<(u64, i32)>, entry: (u64, i32))
    ensures
        forall|a: u64| skip_listed(pre, a) ==> #[trigger] skip_listed(pre.push(entry), a),
{
    assert forall|a: u64| skip_listed(pre, a) implies #[trigger] skip_listed(
        pre.push(entry),
        a,
    ) by {
        let k = choose|k: int| 0 <= k < pre.len() && (#[trigger] pre[k]).0 == a;
        assert(pre.push(entry)[k].0 == a);
    }
}

} // verus!
