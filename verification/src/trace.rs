//! Trusted boundary to the operating system's trace interface.
//!
//! Every function here wraps exactly one call into the `nix` crate (or
//! declares one of its types). The values a live tracee hands back — memory
//! words, registers, wait results — depend on the process itself, so the
//! wrappers promise nothing about them; the verified code above this module
//! states what holds whatever comes back. Errors are reported as the raw
//! `errno` value.

use vstd::prelude::*;

verus! {

/// The general-purpose register set of a stopped tracee, as the trace
/// interface hands it out. The fields (`rip`, `rbp`, `rsp`, ...) are plain
/// machine words and are read and written directly by verified code.
#[verifier::external_type_specification]
pub struct ExUserRegs(libc::user_regs_struct);

/// The undecoded outcome of one wait on the tracee, with signals and exit
/// codes as plain numbers.
#[derive(Clone, Copy, PartialEq, Eq, Structural, Debug)]
pub enum RawWait {
    /// The tracee exited normally with this code.
    Exited(i32),
    /// The tracee was terminated by this signal.
    Signaled(i32),
    /// The tracee is trace-stopped by this signal.
    Stopped(i32),
    /// Any other wait result (must not occur for a blocking wait on a
    /// synchronously driven tracee).
    Other,
}

/// Relies on nix::sys::ptrace::read (PTRACE_PEEKDATA): reads the aligned
/// machine word at `addr` in the tracee's memory. What the word holds
/// depends on the live process, so nothing is promised of the value.
#[verifier::external_body]
pub(crate) fn peek_word(pid: i32, addr: u64) -> (r: Result<u64, i32>) {
    match nix::sys::ptrace::read(
        nix::unistd::Pid::from_raw(pid),
        addr as nix::sys::ptrace::AddressType,
    ) {
        Ok(w) => Ok(w as u64),
        Err(e) => Err(e as i32),
    }
}

/// Relies on nix::sys::ptrace::write (PTRACE_POKEDATA): writes one aligned
/// machine word into the tracee's memory.
#[verifier::external_body]
pub(crate) fn poke_word(pid: i32, addr: u64, word: u64) -> (r: Result<(), i32>) {
    match nix::sys::ptrace::write(
        nix::unistd::Pid::from_raw(pid),
        addr as nix::sys::ptrace::AddressType,
        word as libc::c_long,
    ) {
        Ok(()) => Ok(()),
        Err(e) => Err(e as i32),
    }
}

/// Relies on nix::sys::ptrace::getregs (PTRACE_GETREGS): reads the stopped
/// tracee's registers. The values depend on the live process.
#[verifier::external_body]
pub(crate) fn get_regs(pid: i32) -> (r: Result<libc::user_regs_struct, i32>) {
    match nix::sys::ptrace::getregs(nix::unistd::Pid::from_raw(pid)) {
        Ok(regs) => Ok(regs),
        Err(e) => Err(e as i32),
    }
}

/// Relies on nix::sys::ptrace::setregs (PTRACE_SETREGS): writes the stopped
/// tracee's registers.
#[verifier::external_body]
pub(crate) fn set_regs(pid: i32, regs: libc::user_regs_struct) -> (r: Result<(), i32>) {
    match nix::sys::ptrace::setregs(nix::unistd::Pid::from_raw(pid), regs) {
        Ok(()) => Ok(()),
        Err(e) => Err(e as i32),
    }
}

/// Relies on nix::sys::ptrace::step (PTRACE_SINGLESTEP): lets the stopped
/// tracee execute exactly one machine instruction, delivering no signal.
#[verifier::external_body]
pub(crate) fn single_step(pid: i32) -> (r: Result<(), i32>) {
    match nix::sys::ptrace::step(nix::unistd::Pid::from_raw(pid), None) {
        Ok(()) => Ok(()),
        Err(e) => Err(e as i32),
    }
}

/// Relies on nix::sys::ptrace::cont (PTRACE_CONT): resumes the stopped
/// tracee, delivering no signal.
#[verifier::external_body]
pub(crate) fn resume(pid: i32) -> (r: Result<(), i32>) {
    match nix::sys::ptrace::cont(nix::unistd::Pid::from_raw(pid), None) {
        Ok(()) => Ok(()),
        Err(e) => Err(e as i32),
    }
}

/// Relies on nix::sys::wait::waitpid with no options: blocks until the
/// tracee changes state and hands the raw outcome back, one variant per
/// shape of `WaitStatus`. Which outcome comes depends on the live process.
#[verifier::external_body]
pub(crate) fn wait_child(pid: i32) -> (r: Result<RawWait, i32>) {
    match nix::sys::wait::waitpid(nix::unistd::Pid::from_raw(pid), None) {
        Ok(nix::sys::wait::WaitStatus::Exited(_pid, code)) => Ok(RawWait::Exited(code)),
        Ok(nix::sys::wait::WaitStatus::Signaled(_pid, sig, _core)) => {
            Ok(RawWait::Signaled(sig as i32))
        },
        Ok(nix::sys::wait::WaitStatus::Stopped(_pid, sig)) => Ok(RawWait::Stopped(sig as i32)),
        Ok(_) => Ok(RawWait::Other),
        Err(e) => Err(e as i32),
    }
}

/// Relies on nix::sys::signal::kill with SIGKILL: forcibly terminates the
/// tracee. Killing an already-exited tracee fails with a reported errno.
#[verifier::external_body]
pub(crate) fn kill_child(pid: i32) -> (r: Result<(), i32>) {
    match nix::sys::signal::kill(
        nix::unistd::Pid::from_raw(pid),
        nix::sys::signal::Signal::SIGKILL,
    ) {
        Ok(()) => Ok(()),
        Err(e) => Err(e as i32),
    }
}

} // verus!
