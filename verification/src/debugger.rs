//! The session state machine: at most one live tracee, driven by commands.
//!
//! The session is `Idle` (no tracee) or `Active` (exactly one tracee,
//! owned by the session). Commands move it between the two:
//!
//! - a launch while a tracee runs kills it and ends the session rather
//!   than restarting in place;
//! - a launch while idle takes charge of a freshly spawned tracee,
//!   transfers the pending breakpoints into it exactly once, and performs
//!   the initial resume;
//! - a continue resumes the tracee; on exit or termination the session
//!   falls back to idle; while idle, continuing is a no-op;
//! - a kill terminates the tracee and falls back to idle; killing while
//!   idle is a no-op;
//! - a breakpoint request resolves a location (raw address, source line,
//!   or function name) through the symbol table and installs it at once
//!   when a tracee runs, or queues it for the next launch; an unresolvable
//!   location is dropped.
//!
//! Spawning the target and all terminal input and output live outside the
//! library; the session receives the pid of the spawned tracee and hands
//! back reports as plain values.

use vstd::prelude::*;

use crate::breakpoint::{Breakpoint, has_bp, table_wf};
use crate::inferior::{Inferior, Status, TraceError, skip_listed};
use crate::model::{TraceOp, arming_ops_only, resume_log_bound, resume_log_shape};
use crate::stack::{ENTRY_FUNCTION, Frame};
use crate::word::TRAP_BYTE;
use crate::symbols::{FuncSym, LineSym, SymbolTable, spec_function_addr, spec_line_addr,
    spec_line_at};

verus! {

/// The value of `c` as a digit in the given base, if it is one.
pub open spec fn digit_val(c: char, base: u64) -> Option<u64> {
    let u = (c as u32) as u64;
    if 48 <= u && u <= 57 && u - 48 < base {
        Some((u - 48) as u64)
    } else if 97 <= u && u <= 102 && u - 97 + 10 < base {
        Some((u - 97 + 10) as u64)
    } else if 65 <= u && u <= 70 && u - 65 + 10 < base {
        Some((u - 65 + 10) as u64)
    } else {
        None
    }
}

/// Whether every character of `s` is a digit in the given base.
pub open spec fn all_digits(s: Seq<char>, base: u64) -> bool {
    forall|i: int| 0 <= i < s.len() ==> digit_val(#[trigger] s[i], base) is Some
}

/// The number written by the digit string `s`, most significant first.
pub open spec fn digits_val(s: Seq<char>, base: u64) -> nat
    decreases s.len(),
{
    if s.len() == 0 {
        0
    } else {
        (digits_val(s.drop_last(), base) * base + (match digit_val(s.last(), base) {
            Some(d) => d as nat,
            None => 0nat,
        })) as nat
    }
}

/// The number parsed from `s` in the given base: at least one digit, all
/// characters digits, and the value within the machine word.
pub open spec fn spec_parse_digits(s: Seq<char>, base: u64) -> Option<u64> {
    if s.len() > 0 && all_digits(s, base) && digits_val(s, base) <= u64::MAX {
        Some(digits_val(s, base) as u64)
    } else {
        None
    }
}

/// `s` without a leading hexadecimal radix prefix.
pub open spec fn strip_hex_prefix(s: Seq<char>) -> Seq<char> {
    if s.len() >= 2 && s[0] == '0' && (s[1] == 'x' || s[1] == 'X') {
        s.skip(2)
    } else {
        s
    }
}

/// An address literal: hexadecimal digits, with or without a radix prefix.
pub open spec fn spec_parse_address(s: Seq<char>) -> Option<u64> {
    spec_parse_digits(strip_hex_prefix(s), 16)
}

/// A longer digit string never writes a smaller number.
pub proof fn lemma_digits_val_monotone(s: Seq<char>, j: int, k: int, base: u64)
    requires
        0 <= j <= k <= s.len(),
        base >= 1,
    ensures
        digits_val(s.take(k), base) >= digits_val(s.take(j), base),
    decreases k - j,
{
    if j < k {
        lemma_digits_val_monotone(s, j, k - 1, base);
        assert(s.take(k).drop_last() =~= s.take(k - 1));
        let v = digits_val(s.take(k - 1), base);
        assert(v * base >= v * 1) by (nonlinear_arith)
            requires
                base >= 1,
                v >= 0,
        ;
    }
}

/// The value of `c` as a digit in the given base, if it is one.
pub fn digit_of(c: char, base: u64) -> (r: Option<u64>)
    ensures
        r == digit_val(c, base),
{
    let u = c as u32;
    if 48 <= u && u <= 57 {
        let d = (u - 48) as u64;
        if d < base {
            return Some(d);
        }
        return None;
    }
    if 97 <= u && u <= 102 {
        let d = (u - 97 + 10) as u64;
        if d < base {
            return Some(d);
        }
        return None;
    }
    if 65 <= u && u <= 70 {
        let d = (u - 65 + 10) as u64;
        if d < base {
            return Some(d);
        }
        return None;
    }
    None
}

/// Parses the digits of `s` from character `start` on, in the given base.
fn parse_digits(s: &str, start: usize, base: u64) -> (r: Option<u64>)
    requires
        start <= s@.len(),
        base == 10 || base == 16,
    ensures
        r == spec_parse_digits(s@.skip(start as int), base),
{
    let ghost digits = s@.skip(start as int);
    let n = s.unicode_len();
    if start == n {
        return None;
    }
    let mut val: u64 = 0;
    let mut i: usize = start;
    while i < n
        invariant
            start <= i <= n,
            n == s@.len(),
            base == 10 || base == 16,
            digits == s@.skip(start as int),
            all_digits(digits.take(i - start), base),
            val == digits_val(digits.take(i - start), base),
        decreases n - i,
    {
        let c = s.get_char(i);
        proof {
            assert(digits[i - start] == s@[i as int]);
        }
        let d = match digit_of(c, base) {
            Some(d) => d,
            None => {
                proof {
                    assert(digit_val(digits[i - start], base) is None);
                }
                return None;
            },
        };
        let wide: u128 = (val as u128) * (base as u128) + (d as u128);
        proof {
            assert((val as u128) * (base as u128) + (d as u128) <= (u64::MAX as u128) * 16
                + 15) by (nonlinear_arith)
                requires
                    val <= u64::MAX,
                    base <= 16,
                    d <= 15,
            ;
            assert(digits.take(i - start + 1).drop_last() =~= digits.take(i - start));
            assert(digits.take(i - start + 1).last() == digits[i - start]);
            assert(digit_val(digits[i - start], base) == Some(d));
            assert(digits_val(digits.take(i - start + 1), base) == val * base + d);
        }
        if wide > 0xffff_ffff_ffff_ffffu128 {
            // Every longer digit string writes a still larger number, so
            // the whole literal overflows the machine word.
            proof {
                lemma_digits_val_monotone(digits, i - start + 1, digits.len() as int, base);
                assert(digits.take(digits.len() as int) =~= digits);
            }
            return None;
        }
        val = wide as u64;
        i += 1;
    }
    proof {
        assert(digits.take(digits.len() as int) =~= digits);
    }
    Some(val)
}

/// Parses a plain decimal number.
pub fn parse_decimal(s: &str) -> (r: Option<u64>)
    ensures
        r == spec_parse_digits(s@, 10),
{
    proof {
        assert(s@.skip(0) =~= s@);
    }
    parse_digits(s, 0, 10)
}

/// Parses a raw address literal: hexadecimal digits, with or without a
/// leading radix prefix. The grammar is digits only — no sign, so a
/// leading `+` is rejected rather than ignored.
pub fn parse_address(addr: &str) -> (r: Option<u64>)
    ensures
        r == spec_parse_address(addr@),
{
    let n = addr.unicode_len();
    let start: usize = if n >= 2 && addr.get_char(0) == '0' && (addr.get_char(1) == 'x'
        || addr.get_char(1) == 'X') {
        2
    } else {
        0
    };
    proof {
        assert(strip_hex_prefix(addr@) =~= addr@.skip(start as int));
    }
    parse_digits(addr, start, 16)
}

/// Where a breakpoint location resolves to: a leading `*` introduces a raw
/// address literal; a plain number names a source line; anything else
/// names a function.
pub open spec fn spec_resolve_location(
    functions: Seq<FuncSym>,
    lines: Seq<LineSym>,
    s: Seq<char>,
) -> Option<u64> {
    if s.len() >= 1 && s[0] == '*' {
        spec_parse_address(s.skip(1))
    } else if spec_parse_digits(s, 10) is Some {
        spec_line_addr(lines, spec_parse_digits(s, 10).unwrap())
    } else {
        spec_function_addr(functions, s)
    }
}

/// What one resume of the tracee came to.
pub enum Report {
    /// The tracee exited normally with this code; the session is idle.
    Exited(i32),
    /// The tracee was terminated by this signal; the session is idle.
    Signaled(i32),
    /// The tracee is stopped by this signal at this program counter, with
    /// the source line when the symbol table knows it.
    Stopped { signal: i32, pc: u64, line: Option<u64> },
}

/// What a backtrace request came to.
pub enum BacktraceOutcome {
    /// No tracee is running.
    NoProcess,
    /// An address could not be resolved or the frame chain ran too deep.
    Malformed,
    /// The call chain, innermost frame first, ending at the entry function.
    Chain(Vec<Frame>),
}

/// The session: the target's path, the symbol table, at most one live
/// tracee, and the breakpoints requested before the next launch.
pub struct Debugger {
    target: String,
    debug_data: SymbolTable,
    inferior: Option<Inferior>,
    breakpoints: Vec<u64>,
    trace_log: Ghost<Seq<TraceOp>>,
}

impl Debugger {
    /// Whether a tracee is running.
    pub closed spec fn is_active(self) -> bool {
        self.inferior is Some
    }

    /// The live tracee (meaningful while active).
    pub closed spec fn inf(self) -> Inferior {
        self.inferior->Some_0
    }

    /// The breakpoint addresses queued for the next launch.
    pub closed spec fn pending(self) -> Seq<u64> {
        self.breakpoints@
    }

    /// The symbol table the session resolves against.
    pub closed spec fn syms(self) -> SymbolTable {
        self.debug_data
    }

    /// The target path the session was created for.
    pub closed spec fn target_of(self) -> Seq<char> {
        self.target@
    }

    /// Every operation issued against the session's tracee, in order. The
    /// record survives the tracee's exit.
    pub closed spec fn oplog(self) -> Seq<TraceOp> {
        self.trace_log@
    }

    /// Well-formedness: a live tracee has a well-formed breakpoint table,
    /// and the session's operation record is the tracee's.
    pub open spec fn wf(self) -> bool {
        &&& self.is_active() ==> self.inf().wf()
        &&& self.is_active() ==> self.inf().oplog() == self.oplog()
    }

    /// A fresh, idle session for `target`, resolving against `debug_data`.
    pub fn new(target: String, debug_data: SymbolTable) -> (r: Debugger)
        ensures
            r.wf(),
            !r.is_active(),
            r.pending() =~= Seq::<u64>::empty(),
            r.syms() == debug_data,
            r.target_of() == target@,
            r.oplog() =~= Seq::<TraceOp>::empty(),
    {
        Debugger {
            target,
            debug_data,
            inferior: None,
            breakpoints: Vec::new(),
            trace_log: Ghost(Seq::empty()),
        }
    }

    /// The target path.
    pub fn target(&self) -> (r: &str)
        ensures
            r@ == self.target_of(),
    {
        self.target.as_str()
    }

    /// Whether a tracee is running.
    pub fn has_inferior(&self) -> (r: bool)
        ensures
            r == self.is_active(),
    {
        self.inferior.is_some()
    }

    /// The pid of the running tracee, if any.
    pub fn inferior_pid(&self) -> (r: Option<i32>)
        ensures
            r is Some <==> self.is_active(),
            r matches Some(pid) ==> pid == self.inf().pid_of(),
    {
        match &self.inferior {
            Some(inf) => Some(inf.pid()),
            None => None,
        }
    }

    /// Begins a launch. While a tracee runs, a launch kills it and ends
    /// the session: the killed pid is returned and the caller must not
    /// spawn. While idle, nothing changes and the caller spawns the target
    /// and hands the pid to [`Self::attach_spawned`].
    pub fn begin_launch(&mut self) -> (r: Result<Option<i32>, i32>)
        requires
            old(self).wf(),
        ensures
            final(self).wf(),
            final(self).syms() == old(self).syms(),
            final(self).pending() == old(self).pending(),
            !old(self).is_active() ==> *final(self) == *old(self) && r == Ok::<Option<i32>, i32>(
                None,
            ),
            old(self).is_active() ==> !final(self).is_active() && (r matches Ok(p) ==> p
                == Some(old(self).inf().pid_of())),
    {
        match self.inferior.take() {
            None => Ok(None),
            Some(mut inf) => {
                let pid = inf.pid();
                match inf.kill() {
                    Ok(()) => Ok(Some(pid)),
                    Err(e) => Err(e),
                }
            },
        }
    }

    /// Takes charge of the freshly spawned, trace-stopped tracee: attempts
    /// to arm every pending breakpoint (consuming the pending set exactly
    /// once), becomes active, and performs the initial resume. Every
    /// pending address ends armed or on the returned skip report (see
    /// [`Inferior::new`]); the session's operation log then holds the
    /// installation's trap writes followed by exactly one resume sequence,
    /// so the laws of [`crate::model`] apply to the launch.
    pub fn attach_spawned(&mut self, pid: i32) -> (r: Result<(Report, Vec<(u64, i32)>), TraceError>)
        requires
            old(self).wf(),
            !old(self).is_active(),
        ensures
            final(self).wf(),
            final(self).syms() == old(self).syms(),
            final(self).pending() =~= Seq::<u64>::empty(),
            r matches Ok(rep) ==> (rep.0 matches Report::Stopped { signal, pc, line }
                ==> final(self).is_active() && line == spec_line_at(old(self).syms().lines@, pc)),
            r matches Ok(rep) ==> (rep.0 matches Report::Exited(_) ==> !final(self).is_active()),
            r matches Ok(rep) ==> (rep.0 matches Report::Signaled(_)
                ==> !final(self).is_active()),
            final(self).is_active() ==> final(self).inf().pid_of() == pid && forall|i: int|
                0 <= i < final(self).inf().bps().len() ==> old(self).pending().contains(
                    (#[trigger] final(self).inf().bps()[i]).addr,
                ),
            r matches Ok(rep) ==> (final(self).is_active() ==> forall|j: int|
                0 <= j < old(self).pending().len() ==> has_bp(
                    final(self).inf().bps(),
                    #[trigger] old(self).pending()[j],
                ) || skip_listed(rep.1@, old(self).pending()[j])),
            r matches Ok(rep) ==> exists|install: Seq<TraceOp>, bps0: Seq<Breakpoint>|
                #![trigger arming_ops_only(install, old(self).pending()), table_wf(bps0)]
                arming_ops_only(install, old(self).pending()) && table_wf(bps0) && (forall|i: int|
                    0 <= i < bps0.len() ==> old(self).pending().contains((#[trigger] bps0[i]).addr))
                    && resume_log_shape(
                    install,
                    final(self).oplog(),
                    bps0,
                    rep.0 matches Report::Stopped { .. },
                ),
    {
        let ghost pending0 = self.breakpoints@;
        let (inf, skipped) = Inferior::new(pid, &self.breakpoints);
        self.breakpoints.clear();
        self.trace_log = Ghost(inf.oplog());
        let ghost install = inf.oplog();
        let ghost bps0 = inf.bps();
        self.inferior = Some(inf);
        match self.resume_active() {
            Ok(report) => {
                proof {
                    assert(pending0 == old(self).pending());
                    assert(arming_ops_only(install, old(self).pending()));
                    assert(table_wf(bps0));
                    assert(forall|i: int|
                        0 <= i < bps0.len() ==> old(self).pending().contains(
                            (#[trigger] bps0[i]).addr,
                        ));
                    assert(resume_log_shape(
                        install,
                        self.oplog(),
                        bps0,
                        report matches Report::Stopped { .. },
                    ));
                }
                Ok((report, skipped))
            },
            Err(e) => Err(e),
        }
    }

    /// Resumes the running tracee. While idle this is a no-op reporting
    /// nothing to continue. A failing trace operation aborts this command
    /// only: the session stays active with its (possibly dead) handle, and
    /// at most a prefix of one resume sequence was issued — nothing is
    /// retried.
    pub fn cmd_continue(&mut self) -> (r: Result<Option<Report>, TraceError>)
        requires
            old(self).wf(),
        ensures
            final(self).wf(),
            final(self).syms() == old(self).syms(),
            final(self).pending() == old(self).pending(),
            !old(self).is_active() ==> *final(self) == *old(self) && r == Ok::<
                Option<Report>,
                TraceError,
            >(None),
            r matches Ok(Some(Report::Exited(_))) ==> !final(self).is_active(),
            r matches Ok(Some(Report::Signaled(_))) ==> !final(self).is_active(),
            r matches Ok(Some(Report::Stopped { signal, pc, line })) ==> final(self).is_active()
                && final(self).inf().bps() == old(self).inf().bps() && line == spec_line_at(
                old(self).syms().lines@,
                pc,
            ),
            old(self).is_active() && final(self).is_active() ==> final(self).inf().pid_of()
                == old(self).inf().pid_of() && final(self).inf().bps()
                == old(self).inf().bps(),
            old(self).is_active() ==> (r matches Ok(x) ==> x is Some),
            old(self).is_active() ==> old(self).oplog().is_prefix_of(final(self).oplog()),
            old(self).is_active() ==> (r matches Ok(Some(rep)) ==> resume_log_shape(
                old(self).oplog(),
                final(self).oplog(),
                old(self).inf().bps(),
                rep matches Report::Stopped { .. },
            )),
            r is Err ==> old(self).is_active() && final(self).is_active() && resume_log_bound(
                old(self).oplog(),
                final(self).oplog(),
                old(self).inf().bps(),
            ),
    {
        if self.inferior.is_none() {
            return Ok(None);
        }
        match self.resume_active() {
            Ok(report) => Ok(Some(report)),
            Err(e) => Err(e),
        }
    }

    /// Resumes the live tracee and decodes the outcome; on exit or
    /// termination the session falls back to idle, while a failing trace
    /// operation leaves it active with its (possibly dead) handle. The
    /// session's operation log follows the tracee's: one resume sequence on
    /// success, at most a prefix of one on failure.
    fn resume_active(&mut self) -> (r: Result<Report, TraceError>)
        requires
            old(self).wf(),
            old(self).is_active(),
        ensures
            final(self).wf(),
            final(self).syms() == old(self).syms(),
            final(self).pending() == old(self).pending(),
            r matches Ok(Report::Stopped { signal, pc, line }) ==> final(self).is_active()
                && final(self).inf().bps() == old(self).inf().bps() && line == spec_line_at(
                old(self).syms().lines@,
                pc,
            ),
            r matches Ok(Report::Exited(_)) ==> !final(self).is_active(),
            r matches Ok(Report::Signaled(_)) ==> !final(self).is_active(),
            final(self).is_active() ==> final(self).inf().bps() == old(self).inf().bps()
                && final(self).inf().pid_of() == old(self).inf().pid_of(),
            r is Err ==> final(self).is_active(),
            old(self).oplog().is_prefix_of(final(self).oplog()),
            r matches Ok(rep) ==> resume_log_shape(
                old(self).oplog(),
                final(self).oplog(),
                old(self).inf().bps(),
                rep matches Report::Stopped { .. },
            ),
            r is Err ==> resume_log_bound(
                old(self).oplog(),
                final(self).oplog(),
                old(self).inf().bps(),
            ),
    {
        let mut inf = match self.inferior.take() {
            Some(inf) => inf,
            None => {
                return Err(TraceError::UnexpectedWait);
            },
        };
        let res = inf.continue_exec();
        self.trace_log = Ghost(inf.oplog());
        match res {
            Ok(Status::Exited(code)) => {
                // The tracee is gone; stay idle.
                Ok(Report::Exited(code))
            },
            Ok(Status::Signaled(sig)) => Ok(Report::Signaled(sig)),
            Ok(Status::Stopped(signal, pc)) => {
                let line = self.debug_data.get_line_from_addr(pc);
                self.inferior = Some(inf);
                Ok(Report::Stopped { signal, pc, line })
            },
            Err(e) => {
                // The handle may now be dead, but the session stays active
                // and the failure is reported for this command only.
                self.inferior = Some(inf);
                Err(e)
            },
        }
    }

    /// Kills the running tracee and falls back to idle; the killed pid is
    /// returned. While idle this is a no-op.
    pub fn cmd_kill(&mut self) -> (r: Result<Option<i32>, i32>)
        requires
            old(self).wf(),
        ensures
            final(self).wf(),
            final(self).syms() == old(self).syms(),
            final(self).pending() == old(self).pending(),
            !final(self).is_active(),
            !old(self).is_active() ==> *final(self) == *old(self) && r == Ok::<Option<i32>, i32>(
                None,
            ),
            old(self).is_active() ==> (r matches Ok(p) ==> p == Some(
                old(self).inf().pid_of(),
            )),
    {
        match self.inferior.take() {
            None => Ok(None),
            Some(mut inf) => {
                let pid = inf.pid();
                match inf.kill() {
                    Ok(()) => Ok(Some(pid)),
                    // Killing an already-gone tracee is reported but the
                    // session still falls back to idle.
                    Err(e) => Err(e),
                }
            },
        }
    }

    /// Reconstructs the call chain of the stopped tracee.
    pub fn cmd_backtrace(&self) -> (r: Result<BacktraceOutcome, i32>)
        ensures
            !self.is_active() ==> r == Ok::<BacktraceOutcome, i32>(BacktraceOutcome::NoProcess),
            r matches Ok(BacktraceOutcome::Chain(frames)) ==> frames@.len() >= 1
                && frames@.last().func@ == ENTRY_FUNCTION@ && (forall|i: int|
                0 <= i < frames@.len() - 1 ==> (#[trigger] frames@[i]).func@
                    != ENTRY_FUNCTION@),
    {
        let inf = match &self.inferior {
            Some(inf) => inf,
            None => {
                return Ok(BacktraceOutcome::NoProcess);
            },
        };
        match inf.backtrace(&self.debug_data) {
            Ok(Some(frames)) => Ok(BacktraceOutcome::Chain(frames)),
            Ok(None) => Ok(BacktraceOutcome::Malformed),
            Err(e) => Err(e),
        }
    }

    /// Resolves a breakpoint location — `*` plus a raw address literal, a
    /// source line number, or a function name — and installs it: patched
    /// into the running tracee at once, or queued for the next launch. An
    /// unresolvable location is dropped without error; a failing memory
    /// patch is reported and the breakpoint is not recorded.
    pub fn cmd_breakpoint(&mut self, loc: &str) -> (r: Result<Option<u64>, i32>)
        requires
            old(self).wf(),
        ensures
            final(self).wf(),
            final(self).syms() == old(self).syms(),
            final(self).is_active() == old(self).is_active(),
            spec_resolve_location(old(self).syms().functions@, old(self).syms().lines@, loc@)
                is None ==> *final(self) == *old(self) && r == Ok::<Option<u64>, i32>(None),
            r matches Ok(Some(a)) ==> spec_resolve_location(
                old(self).syms().functions@,
                old(self).syms().lines@,
                loc@,
            ) == Some(a),
            !old(self).is_active() ==> (spec_resolve_location(
                old(self).syms().functions@,
                old(self).syms().lines@,
                loc@,
            ) matches Some(a) ==> r == Ok::<Option<u64>, i32>(Some(a)) && final(self).pending()
                == old(self).pending().push(a)),
            !old(self).is_active() ==> (r matches Ok(Some(a)) ==> final(self).pending()
                == old(self).pending().push(a)),
            old(self).is_active() ==> final(self).pending() == old(self).pending()
                && final(self).inf().pid_of() == old(self).inf().pid_of(),
            old(self).is_active() ==> (r matches Ok(Some(a)) ==> final(self).inf().bps()
                == old(self).inf().bps() || exists|b: u8|
                b != TRAP_BYTE && final(self).inf().bps() == old(self).inf().bps().push(
                    Breakpoint { addr: a, orig_byte: b },
                )),
            old(self).is_active() ==> final(self).oplog() == old(self).oplog() || (r matches Ok(
                Some(a),
            ) && final(self).oplog() == old(self).oplog().push(
                TraceOp::WriteByte { addr: a, val: TRAP_BYTE },
            )),
            old(self).is_active() && r is Err ==> final(self).oplog() == old(self).oplog()
                && final(self).inf().bps() == old(self).inf().bps(),
    {
        let addr = match self.resolve_location(loc) {
            Some(a) => a,
            None => {
                return Ok(None);
            },
        };
        match self.inferior.take() {
            Some(mut inf) => {
                proof {
                    assert(inf.oplog() == old(self).oplog());
                }
                let ghost pre_log = inf.oplog();
                let ghost inf0 = inf;
                let res = inf.add_bp(addr);
                let ghost post_log = inf.oplog();
                self.trace_log = Ghost(inf.oplog());
                self.inferior = Some(inf);
                match res {
                    Ok(added) => {
                        proof {
                            assert(pre_log == old(self).oplog());
                            assert(self.oplog() == post_log);
                            if added {
                                assert(res == Ok::<bool, i32>(true));
                                assert(post_log == pre_log.push(
                                    TraceOp::WriteByte { addr, val: TRAP_BYTE },
                                ));
                            } else {
                                assert(res == Ok::<bool, i32>(false));
                                if has_bp(inf0.bps(), addr) {
                                    assert(post_log == pre_log);
                                } else {
                                    assert(post_log == pre_log.push(
                                        TraceOp::WriteByte { addr, val: TRAP_BYTE },
                                    ));
                                }
                            }
                        }
                        Ok(Some(addr))
                    },
                    Err(e) => Err(e),
                }
            },
            None => {
                self.breakpoints.push(addr);
                Ok(Some(addr))
            },
        }
    }

    /// Resolves a breakpoint location against the symbol table.
    fn resolve_location(&self, loc: &str) -> (r: Option<u64>)
        ensures
            r == spec_resolve_location(self.syms().functions@, self.syms().lines@, loc@),
    {
        let n = loc.unicode_len();
        if n >= 1 && loc.get_char(0) == '*' {
            let rest = loc.substring_char(1, n);
            proof {
                assert(rest@ =~= loc@.skip(1));
            }
            return parse_address(rest);
        }
        proof {
            assert(loc@.skip(0) =~= loc@);
        }
        if let Some(line) = parse_digits(loc, 0, 10) {
            return self.debug_data.get_addr_for_line(line);
        }
        self.debug_data.get_addr_for_function(loc)
    }
}

} // verus!
