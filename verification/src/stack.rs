//! The stack walker: reconstructing the call chain at a stop point from the
//! frame-pointer convention.
//!
//! Starting at the stopped program counter and frame base, each step
//! resolves the program counter to a function and line, and — unless the
//! entry function has been reached — follows the saved return address one
//! word past the frame base and the caller's frame base at the frame base
//! itself. A depth bound guards against malformed or absent frame-pointer
//! chains.
//!
//! The walk over a memory snapshot is pure and is specified exactly by
//! [`spec_walk`]; the walk over a live tracee reads the same two words per
//! frame through the trace interface and guarantees the same shape: the
//! entry function appears only as the final frame, so the walker never
//! follows a frame past the entry function.

use vstd::prelude::*;

use crate::inferior::Inferior;
use crate::symbols::{SymbolTable, spec_function_at, spec_line_at};
use crate::word::WORD_BYTES;

verus! {

/// The name of the program entry function, where a frame-pointer walk ends.
pub const ENTRY_FUNCTION: &'static str = "main";

/// The most frames a walk will follow before giving up on the chain.
pub const MAX_FRAMES: usize = 64;

/// One reconstructed stack frame.
pub struct Frame {
    pub func: String,
    pub line: u64,
}

/// The mathematical content of a frame.
pub open spec fn frame_model(f: Frame) -> (Seq<char>, u64) {
    (f.func@, f.line)
}

/// A snapshot of tracee memory: machine words keyed by address.
pub struct MemSnapshot {
    pub words: Vec<(u64, u64)>,
}

/// The first word recorded at `addr` in the snapshot.
pub open spec fn spec_word_at(words: Seq<(u64, u64)>, addr: u64) -> Option<u64>
    decreases words.len(),
{
    if words.len() == 0 {
        None
    } else if words[0].0 == addr {
        Some(words[0].1)
    } else {
        spec_word_at(words.drop_first(), addr)
    }
}

impl MemSnapshot {
    /// An empty snapshot.
    pub fn new() -> (r: MemSnapshot)
        ensures
            r.words@ =~= Seq::<(u64, u64)>::empty(),
    {
        MemSnapshot { words: Vec::new() }
    }

    /// Records the word `value` at `addr`.
    pub fn set_word(&mut self, addr: u64, value: u64)
        ensures
            final(self).words@ == old(self).words@.push((addr, value)),
    {
        self.words.push((addr, value));
    }

    /// Reads the word at `addr`, if the snapshot holds one.
    pub fn read_word(&self, addr: u64) -> (r: Option<u64>)
        ensures
            r == spec_word_at(self.words@, addr),
    {
        proof {
            assert(self.words@.skip(0) =~= self.words@);
        }
        let mut i: usize = 0;
        while i < self.words.len()
            invariant
                i <= self.words@.len(),
                spec_word_at(self.words@, addr) == spec_word_at(
                    self.words@.skip(i as int),
                    addr,
                ),
            decreases self.words@.len() - i,
        {
            proof {
                assert(self.words@.skip(i as int)[0] == self.words@[i as int]);
                assert(self.words@.skip(i as int).drop_first() =~= self.words@.skip(i + 1));
            }
            if self.words[i].0 == addr {
                return Some(self.words[i].1);
            }
            i += 1;
        }
        None
    }
}

/// The call chain recovered from a memory snapshot: `None` when the program
/// counter cannot be resolved, a frame's words are missing from the
/// snapshot, the frame base would overflow, or the chain exceeds `depth`
/// frames without reaching the entry function.
pub open spec fn spec_walk(
    syms: SymbolTable,
    words: Seq<(u64, u64)>,
    pc: u64,
    fp: u64,
    depth: nat,
) -> Option<Seq<(Seq<char>, u64)>>
    decreases depth,
{
    if depth == 0 {
        None
    } else {
        match (spec_function_at(syms.functions@, pc), spec_line_at(syms.lines@, pc)) {
            (Some(name), Some(line)) => {
                if name == ENTRY_FUNCTION@ {
                    Some(seq![(name, line)])
                } else if fp > u64::MAX - WORD_BYTES {
                    None
                } else {
                    match (spec_word_at(words, (fp + WORD_BYTES) as u64), spec_word_at(words, fp)) {
                        (Some(ret), Some(caller_fp)) => {
                            match spec_walk(syms, words, ret, caller_fp, (depth - 1) as nat) {
                                Some(rest) => Some(seq![(name, line)] + rest),
                                None => None,
                            }
                        },
                        _ => None,
                    }
                }
            },
            _ => None,
        }
    }
}

/// Law: a completed walk ends at the entry function and nowhere passes
/// through it — the walker never follows a frame past the entry frame.
pub proof fn lemma_walk_stops_at_entry(
    syms: SymbolTable,
    words: Seq<(u64, u64)>,
    pc: u64,
    fp: u64,
    depth: nat,
)
    requires
        spec_walk(syms, words, pc, fp, depth) is Some,
    ensures
        spec_walk(syms, words, pc, fp, depth).unwrap().len() >= 1,
        spec_walk(syms, words, pc, fp, depth).unwrap().last().0 == ENTRY_FUNCTION@,
        forall|i: int|
            0 <= i < spec_walk(syms, words, pc, fp, depth).unwrap().len() - 1 ==> (
            #[trigger] spec_walk(syms, words, pc, fp, depth).unwrap()[i]).0 != ENTRY_FUNCTION@,
    decreases depth,
{
    let name = spec_function_at(syms.functions@, pc).unwrap();
    if name != ENTRY_FUNCTION@ {
        let ret = spec_word_at(words, (fp + WORD_BYTES) as u64).unwrap();
        let caller_fp = spec_word_at(words, fp).unwrap();
        lemma_walk_stops_at_entry(syms, words, ret, caller_fp, (depth - 1) as nat);
        let rest = spec_walk(syms, words, ret, caller_fp, (depth - 1) as nat).unwrap();
        let whole = spec_walk(syms, words, pc, fp, depth).unwrap();
        assert(whole == seq![(name, spec_line_at(syms.lines@, pc).unwrap())] + rest);
        assert(whole.last() == rest.last());
        assert forall|i: int| 0 <= i < whole.len() - 1 implies whole[i].0 != ENTRY_FUNCTION@ by {
            if i > 0 {
                assert(whole[i] == rest[i - 1]);
            }
        }
    }
}

/// Walks the frame-pointer chain recorded in a memory snapshot. Returns
/// exactly what [`spec_walk`] describes.
pub fn walk_snapshot(syms: &SymbolTable, mem: &MemSnapshot, pc: u64, fp: u64) -> (r: Option<
    Vec<Frame>,
>)
    ensures
        match r {
            Some(frames) => spec_walk(*syms, mem.words@, pc, fp, MAX_FRAMES as nat) == Some(
                frames@.map_values(|f: Frame| frame_model(f)),
            ),
            None => spec_walk(*syms, mem.words@, pc, fp, MAX_FRAMES as nat) is None,
        },
{
    walk_snapshot_rec(syms, mem, pc, fp, MAX_FRAMES)
}

fn walk_snapshot_rec(syms: &SymbolTable, mem: &MemSnapshot, pc: u64, fp: u64, depth: usize) -> (r:
    Option<Vec<Frame>>)
    ensures
        match r {
            Some(frames) => spec_walk(*syms, mem.words@, pc, fp, depth as nat) == Some(
                frames@.map_values(|f: Frame| frame_model(f)),
            ),
            None => spec_walk(*syms, mem.words@, pc, fp, depth as nat) is None,
        },
    decreases depth,
{
    if depth == 0 {
        return None;
    }
    let name = match syms.get_function_from_addr(pc) {
        Some(n) => n,
        None => {
            return None;
        },
    };
    let line = match syms.get_line_from_addr(pc) {
        Some(l) => l,
        None => {
            return None;
        },
    };
    if str_eq(name.as_str(), ENTRY_FUNCTION) {
        let mut frames: Vec<Frame> = Vec::new();
        let ghost gname = name@;
        frames.push(Frame { func: name, line });
        proof {
            assert(frames@.map_values(|f: Frame| frame_model(f)) =~= seq![(gname, line)]);
        }
        return Some(frames);
    }
    if fp > u64::MAX - WORD_BYTES {
        return None;
    }
    let ret = match mem.read_word(fp + WORD_BYTES) {
        Some(w) => w,
        None => {
            return None;
        },
    };
    let caller_fp = match mem.read_word(fp) {
        Some(w) => w,
        None => {
            return None;
        },
    };
    match walk_snapshot_rec(syms, mem, ret, caller_fp, depth - 1) {
        Some(rest) => {
            let mut frames: Vec<Frame> = Vec::new();
            let ghost gname = name@;
            frames.push(Frame { func: name, line });
            let mut i: usize = 0;
            let ghost grest = rest@.map_values(|f: Frame| frame_model(f));
            while i < rest.len()
                invariant
                    i <= rest@.len(),
                    frames@.len() == 1 + i,
                    grest == rest@.map_values(|f: Frame| frame_model(f)),
                    frames@.map_values(|f: Frame| frame_model(f)) =~= seq![(gname, line)]
                        + grest.take(i as int),
                decreases rest@.len() - i,
            {
                let ghost prevf = frames@;
                frames.push(Frame { func: rest[i].func.clone(), line: rest[i].line });
                i += 1;
                proof {
                    let m = frames@.map_values(|f: Frame| frame_model(f));
                    let pm = prevf.map_values(|f: Frame| frame_model(f));
                    let target = seq![(gname, line)] + grest.take(i as int);
                    assert(frame_model(frames@[i as int]) == grest[i - 1]);
                    assert forall|j: int| 0 <= j < m.len() implies m[j] == target[j] by {
                        if j < i {
                            assert(frames@[j] == prevf[j]);
                            assert(m[j] == frame_model(prevf[j]));
                            assert(pm[j] == frame_model(prevf[j]));
                            if j > 0 {
                                assert(pm[j] == grest.take(i - 1)[j - 1]);
                                assert(target[j] == grest.take(i as int)[j - 1]);
                            }
                        } else {
                            assert(m[j] == frame_model(frames@[i as int]));
                            assert(target[j] == grest.take(i as int)[i - 1]);
                        }
                    }
                    assert(m =~= target);
                }
            }
            proof {
                assert(grest.take(rest@.len() as int) =~= grest);
                assert(frames@.map_values(|f: Frame| frame_model(f)) =~= seq![(gname, line)]
                    + grest);
            }
            Some(frames)
        },
        None => None,
    }
}

/// Whether two strings hold the same characters.
pub fn str_eq(a: &str, b: &str) -> (r: bool)
    ensures
        r == (a@ == b@),
{
    let sa = String::from_str(a);
    let sb = String::from_str(b);
    sa == sb
}

impl Inferior {
    /// Reconstructs the call chain of the stopped tracee by the
    /// frame-pointer convention, reading the saved return address and
    /// caller frame base of each frame through the trace interface. Ends at
    /// the entry function, which appears only as the final frame; gives up
    /// (`Ok(None)`) when an address cannot be resolved or the chain runs
    /// deeper than `MAX_FRAMES` without reaching the entry function, and
    /// reports the errno of a failing register or memory read.
    pub fn backtrace(&self, syms: &SymbolTable) -> (r: Result<Option<Vec<Frame>>, i32>)
        ensures
            r matches Ok(Some(frames)) ==> {
                &&& frames@.len() >= 1
                &&& frames@.last().func@ == ENTRY_FUNCTION@
                &&& forall|i: int|
                    0 <= i < frames@.len() - 1 ==> (#[trigger] frames@[i]).func@
                        != ENTRY_FUNCTION@
            },
    {
        let (mut pc, mut fp) = match self.stop_registers() {
            Ok(r) => r,
            Err(e) => {
                return Err(e);
            },
        };
        let mut frames: Vec<Frame> = Vec::new();
        let mut depth: usize = 0;
        while depth < MAX_FRAMES
            invariant
                frames@.len() == depth,
                forall|i: int| 0 <= i < frames@.len() ==> (#[trigger] frames@[i]).func@
                    != ENTRY_FUNCTION@,
            decreases MAX_FRAMES - depth,
        {
            let name = match syms.get_function_from_addr(pc) {
                Some(n) => n,
                None => {
                    return Ok(None);
                },
            };
            let line = match syms.get_line_from_addr(pc) {
                Some(l) => l,
                None => {
                    return Ok(None);
                },
            };
            if str_eq(name.as_str(), ENTRY_FUNCTION) {
                frames.push(Frame { func: name, line });
                proof {
                    assert(frames@.last().func@ == ENTRY_FUNCTION@);
                }
                return Ok(Some(frames));
            }
            frames.push(Frame { func: name, line });
            if fp > u64::MAX - WORD_BYTES {
                return Ok(None);
            }
            pc = match self.read_word(fp + WORD_BYTES) {
                Ok(w) => w,
                Err(e) => {
                    return Err(e);
                },
            };
            fp = match self.read_word(fp) {
                Ok(w) => w,
                Err(e) => {
                    return Err(e);
                },
            };
            depth += 1;
        }
        // The chain ran past the depth bound without reaching the entry
        // function: treat it as malformed rather than read further.
        Ok(None)
    }
}

} // verus!
