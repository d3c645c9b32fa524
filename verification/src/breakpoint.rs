//! The breakpoint table: the addresses the debugger has patched and the
//! bytes the trap opcode displaced.
//!
//! Table invariant: addresses are distinct, and no recorded original byte is
//! the trap opcode itself. The second half guards against double-patching —
//! a breakpoint whose "original" byte were the trap opcode could never be
//! de-armed correctly.

use vstd::prelude::*;

use crate::word::TRAP_BYTE;

verus! {

/// One patched location: while the breakpoint is armed, the byte at `addr`
/// in the tracee is the trap opcode and `orig_byte` is the byte that must be
/// restored to resume the real instruction stream.
#[derive(Clone, Copy, PartialEq, Eq, Structural, Debug)]
pub struct Breakpoint {
    pub addr: u64,
    pub orig_byte: u8,
}

/// Well-formedness of a breakpoint table: distinct addresses, and no
/// recorded original byte is the trap opcode.
pub open spec fn table_wf(bps: Seq<Breakpoint>) -> bool {
    &&& forall|i: int, j: int|
        0 <= i < j < bps.len() ==> bps[i].addr != bps[j].addr
    &&& forall|i: int| 0 <= i < bps.len() ==> (#[trigger] bps[i]).orig_byte != TRAP_BYTE
}

/// Whether some breakpoint in the table is at `addr`.
pub open spec fn has_bp(bps: Seq<Breakpoint>, addr: u64) -> bool {
    exists|i: int| 0 <= i < bps.len() && (#[trigger] bps[i]).addr == addr
}

/// The breakpoint at `addr` (meaningful when `has_bp` holds; unique when the
/// table is well formed).
pub open spec fn bp_at(bps: Seq<Breakpoint>, addr: u64) -> Breakpoint {
    bps[choose|i: int| 0 <= i < bps.len() && (#[trigger] bps[i]).addr == addr]
}

/// In a well-formed table, any member breakpoint at `addr` is `bp_at`.
pub proof fn lemma_bp_at_unique(bps: Seq<Breakpoint>, i: int)
    requires
        table_wf(bps),
        0 <= i < bps.len(),
    ensures
        bp_at(bps, bps[i].addr) == bps[i],
{
    let addr = bps[i].addr;
    let j = choose|j: int| 0 <= j < bps.len() && (#[trigger] bps[j]).addr == addr;
    if i != j {
        assert(bps[i].addr != bps[j].addr);
    }
}

/// Linear scan of the table for a breakpoint at `addr`.
pub fn lookup_bp(bps: &Vec<Breakpoint>, addr: u64) -> (r: Option<Breakpoint>)
    ensures
        r.is_some() == has_bp(bps@, addr),
        r matches Some(bp) ==> bps@.contains(bp) && bp.addr == addr,
        table_wf(bps@) && has_bp(bps@, addr) ==> r == Some(bp_at(bps@, addr)),
{
    let mut i: usize = 0;
    while i < bps.len()
        invariant
            i <= bps@.len(),
            forall|j: int| 0 <= j < i ==> (#[trigger] bps@[j]).addr != addr,
        decreases bps@.len() - i,
    {
        if bps[i].addr == addr {
            proof {
                assert(bps@[i as int].addr == addr);
                if table_wf(bps@) {
                    lemma_bp_at_unique(bps@, i as int);
                }
            }
            return Some(bps[i]);
        }
        i += 1;
    }
    None
}

} // verus!
