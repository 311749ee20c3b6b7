//! Fixed-width integer reads from byte buffers, little- and big-endian.
//!
//! Every on-disk structure of the pack formats is made of such reads; the
//! spec functions here are the ground truth the parsing contracts speak of.

use vstd::prelude::*;

verus! {

/// Little-endian 16-bit value at offset `i` of `b`.
pub open spec fn le_u16(b: Seq<u8>, i: int) -> u16 {
    (b[i] as u16 + b[i + 1] as u16 * 0x100) as u16
}

/// Little-endian 32-bit value at offset `i` of `b`.
pub open spec fn le_u32(b: Seq<u8>, i: int) -> u32 {
    (b[i] as u32 + b[i + 1] as u32 * 0x100 + b[i + 2] as u32 * 0x10000 + b[i + 3] as u32
        * 0x1000000) as u32
}

/// Little-endian 64-bit value at offset `i` of `b`.
pub open spec fn le_u64(b: Seq<u8>, i: int) -> u64 {
    (le_u32(b, i) as u64 + le_u32(b, i + 4) as u64 * 0x100000000) as u64
}

/// Big-endian 16-bit value at offset `i` of `b`.
pub open spec fn be_u16(b: Seq<u8>, i: int) -> u16 {
    (b[i + 1] as u16 + b[i] as u16 * 0x100) as u16
}

/// Big-endian 32-bit value at offset `i` of `b`.
pub open spec fn be_u32(b: Seq<u8>, i: int) -> u32 {
    (b[i + 3] as u32 + b[i + 2] as u32 * 0x100 + b[i + 1] as u32 * 0x10000 + b[i] as u32
        * 0x1000000) as u32
}

/// Reads the little-endian `u16` at offset `off`.
pub fn read_u16_le(b: &[u8], off: usize) -> (r: u16)
    requires
        off + 2 <= b@.len(),
    ensures
        r == le_u16(b@, off as int),
{
    proof {
        vstd::slice::axiom_spec_len(b);
    }
    b[off] as u16 + b[off + 1] as u16 * 0x100
}

/// Reads the little-endian `u32` at offset `off`.
pub fn read_u32_le(b: &[u8], off: usize) -> (r: u32)
    requires
        off + 4 <= b@.len(),
    ensures
        r == le_u32(b@, off as int),
{
    proof {
        vstd::slice::axiom_spec_len(b);
    }
    b[off] as u32 + b[off + 1] as u32 * 0x100 + b[off + 2] as u32 * 0x10000 + b[off + 3] as u32
        * 0x1000000
}

/// Reads the little-endian `u64` at offset `off`.
pub fn read_u64_le(b: &[u8], off: usize) -> (r: u64)
    requires
        off + 8 <= b@.len(),
    ensures
        r == le_u64(b@, off as int),
{
    proof {
        vstd::slice::axiom_spec_len(b);
    }
    read_u32_le(b, off) as u64 + read_u32_le(b, off + 4) as u64 * 0x100000000
}

/// Reads the big-endian `u16` at offset `off`.
pub fn read_u16_be(b: &[u8], off: usize) -> (r: u16)
    requires
        off + 2 <= b@.len(),
    ensures
        r == be_u16(b@, off as int),
{
    proof {
        vstd::slice::axiom_spec_len(b);
    }
    b[off + 1] as u16 + b[off] as u16 * 0x100
}

/// Reads the big-endian `u32` at offset `off`.
pub fn read_u32_be(b: &[u8], off: usize) -> (r: u32)
    requires
        off + 4 <= b@.len(),
    ensures
        r == be_u32(b@, off as int),
{
    proof {
        vstd::slice::axiom_spec_len(b);
    }
    b[off + 3] as u32 + b[off + 2] as u32 * 0x100 + b[off + 1] as u32 * 0x10000 + b[off] as u32
        * 0x1000000
}

/// Big-endian 64-bit value at offset `i` of `b`.
pub open spec fn be_u64(b: Seq<u8>, i: int) -> u64 {
    (be_u32(b, i + 4) as u64 + be_u32(b, i) as u64 * 0x100000000) as u64
}

/// Reads the big-endian `u64` at offset `off`.
pub fn read_u64_be(b: &[u8], off: usize) -> (r: u64)
    requires
        off + 8 <= b@.len(),
    ensures
        r == be_u64(b@, off as int),
{
    proof {
        vstd::slice::axiom_spec_len(b);
    }
    read_u32_be(b, off + 4) as u64 + read_u32_be(b, off) as u64 * 0x100000000
}

/// Copies the byte range `[from, to)` of `b` into a fresh vector.
pub fn copy_range(b: &[u8], from: usize, to: usize) -> (r: Vec<u8>)
    requires
        from <= to <= b@.len(),
    ensures
        r@ == b@.subrange(from as int, to as int),
{
    proof {
        vstd::slice::axiom_spec_len(b);
    }
    vstd::slice::slice_to_vec(&b[from..to])
}

/// Law: big-endian reads of all-zero bytes yield zero at every integer
/// width, signed and unsigned alike.
pub proof fn lemma_be_zero_bytes(b: Seq<u8>, i: int)
    requires
        0 <= i,
        i + 4 <= b.len(),
        forall|j: int| i <= j < i + 4 ==> b[j] == 0u8,
    ensures
        b[i] == 0u8,
        b[i] as i8 == 0i8,
        be_u16(b, i) == 0u16,
        be_u16(b, i) as i16 == 0i16,
        be_u32(b, i) == 0u32,
        be_u32(b, i) as i32 == 0i32,
{
}

} // verus!
