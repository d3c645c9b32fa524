//! Word-granular byte patching.
//!
//! The trace interface reads and writes tracee memory one aligned machine
//! word at a time. To patch a single byte (arming or de-arming a software
//! breakpoint) the containing word is read, the byte is masked in, and the
//! word is written back. The functions here do that masking, and the lemmas
//! prove that a patch changes exactly the targeted byte and that restoring
//! the displaced byte restores the whole word.

use vstd::prelude::*;

verus! {

/// The single-byte trap opcode that arms a software breakpoint.
pub const TRAP_BYTE: u8 = 0xcc;

/// Number of bytes in one machine word of the traced process.
pub const WORD_BYTES: u64 = 8;

/// Byte `i` (little-endian, `i < 8`) of the word `w`.
pub open spec fn byte_of_word(w: u64, i: u64) -> u8 {
    ((w >> (8 * i)) & 0xff) as u8
}

/// The word `w` with byte `i` (little-endian, `i < 8`) replaced by `b`.
pub open spec fn put_byte(w: u64, i: u64, b: u8) -> u64 {
    (w & !(0xffu64 << (8 * i))) | ((b as u64) << (8 * i))
}

/// `addr` rounded down to its containing word boundary.
pub fn align_addr_to_word(addr: u64) -> (r: u64)
    ensures
        r == addr & !7u64,
        r <= addr,
        addr - r < 8,
        r % 8 == 0,
{
    proof {
        assert(addr & !7u64 <= addr && addr - (addr & !7u64) < 8 && (addr & !7u64) % 8 == 0)
            by (bit_vector);
    }
    addr & !7u64
}

/// Reads byte `i` out of the word `w`.
pub fn extract_byte(w: u64, i: u64) -> (b: u8)
    requires
        i < 8,
    ensures
        b == byte_of_word(w, i),
{
    proof {
        assert(i < 8 ==> 8 * i < 64 && ((w >> (8 * i)) & 0xff) <= 0xff) by (bit_vector);
    }
    ((w >> ((8 * i) as u32)) & 0xff) as u8
}

/// Replaces byte `i` of the word `w` with `b`, leaving the other bytes of
/// the word untouched (see the lemmas below).
pub fn patch_word(w: u64, i: u64, b: u8) -> (r: u64)
    requires
        i < 8,
    ensures
        r == put_byte(w, i, b),
{
    proof {
        assert(i < 8 ==> 8 * i < 64) by (bit_vector);
    }
    let shift = (8 * i) as u32;
    (w & !(0xffu64 << shift)) | ((b as u64) << shift)
}

/// A patched byte reads back as the byte that was patched in.
pub proof fn lemma_put_byte_get(w: u64, i: u64, b: u8)
    requires
        i < 8,
    ensures
        byte_of_word(put_byte(w, i, b), i) == b,
{
    assert(i < 8 ==> ((((w & !(0xffu64 << (8 * i))) | ((b as u64) << (8 * i))) >> (8 * i))
        & 0xff) as u8 == b) by (bit_vector);
}

/// Patching byte `i` leaves every other byte of the word unchanged.
pub proof fn lemma_put_byte_preserves(w: u64, i: u64, j: u64, b: u8)
    requires
        i < 8,
        j < 8,
        i != j,
    ensures
        byte_of_word(put_byte(w, i, b), j) == byte_of_word(w, j),
{
    assert(i < 8 && j < 8 && i != j ==> ((((w & !(0xffu64 << (8 * i))) | ((b as u64) << (8
        * i))) >> (8 * j)) & 0xff) as u8 == ((w >> (8 * j)) & 0xff) as u8) by (bit_vector);
}

/// Patching a byte back in with the value it already has gives back the
/// original word: de-arming with the recorded original byte undoes arming.
pub proof fn lemma_put_byte_roundtrip(w: u64, i: u64)
    requires
        i < 8,
    ensures
        put_byte(w, i, byte_of_word(w, i)) == w,
{
    assert(i < 8 ==> (w & !(0xffu64 << (8 * i))) | ((((w >> (8 * i)) & 0xff) as u8 as u64) << (8
        * i)) == w) by (bit_vector);
}

} // verus!
