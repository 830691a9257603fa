//! Fixed-width integers on the wire, in either byte order.
//!
//! `ser_*` give the bytes a value serializes to; `de_*` give the value stored
//! at a position of a byte sequence. The executable readers and writers are
//! proved against them, and the inversion lemmas tie the two directions
//! together.
use vstd::prelude::*;

verus! {

/// Byte order of the multi-byte fields that follow a byte-order marker.
#[derive(Debug, Clone, Copy, PartialEq, Eq, Structural)]
pub enum Endian {
    Big,
    Little,
}

/// The four bytes of `v` in the given byte order.
pub open spec fn ser_u32(e: Endian, v: u32) -> Seq<u8> {
    match e {
        Endian::Little => seq![
            (v & 0xff) as u8,
            ((v >> 8) & 0xff) as u8,
            ((v >> 16) & 0xff) as u8,
            ((v >> 24) & 0xff) as u8,
        ],
        Endian::Big => seq![
            ((v >> 24) & 0xff) as u8,
            ((v >> 16) & 0xff) as u8,
            ((v >> 8) & 0xff) as u8,
            (v & 0xff) as u8,
        ],
    }
}

/// The eight bytes of `v` in the given byte order.
pub open spec fn ser_u64(e: Endian, v: u64) -> Seq<u8> {
    match e {
        Endian::Little => seq![
            (v & 0xff) as u8,
            ((v >> 8) & 0xff) as u8,
            ((v >> 16) & 0xff) as u8,
            ((v >> 24) & 0xff) as u8,
            ((v >> 32) & 0xff) as u8,
            ((v >> 40) & 0xff) as u8,
            ((v >> 48) & 0xff) as u8,
            ((v >> 56) & 0xff) as u8,
        ],
        Endian::Big => seq![
            ((v >> 56) & 0xff) as u8,
            ((v >> 48) & 0xff) as u8,
            ((v >> 40) & 0xff) as u8,
            ((v >> 32) & 0xff) as u8,
            ((v >> 24) & 0xff) as u8,
            ((v >> 16) & 0xff) as u8,
            ((v >> 8) & 0xff) as u8,
            (v & 0xff) as u8,
        ],
    }
}

/// The u32 stored at `pos` of `b` in the given byte order.
pub open spec fn de_u32(e: Endian, b: Seq<u8>, pos: int) -> u32
    recommends
        0 <= pos,
        pos + 4 <= b.len(),
{
    match e {
        Endian::Little => (b[pos] as u32) | (b[pos + 1] as u32) << 8 | (b[pos + 2] as u32) << 16 | (
        b[pos + 3] as u32) << 24,
        Endian::Big => (b[pos + 3] as u32) | (b[pos + 2] as u32) << 8 | (b[pos + 1] as u32) << 16
            | (b[pos] as u32) << 24,
    }
}

/// The u64 stored at `pos` of `b` in the given byte order.
pub open spec fn de_u64(e: Endian, b: Seq<u8>, pos: int) -> u64
    recommends
        0 <= pos,
        pos + 8 <= b.len(),
{
    match e {
        Endian::Little => (b[pos] as u64) | (b[pos + 1] as u64) << 8 | (b[pos + 2] as u64) << 16 | (
        b[pos + 3] as u64) << 24 | (b[pos + 4] as u64) << 32 | (b[pos + 5] as u64) << 40 | (b[pos
            + 6] as u64) << 48 | (b[pos + 7] as u64) << 56,
        Endian::Big => (b[pos + 7] as u64) | (b[pos + 6] as u64) << 8 | (b[pos + 5] as u64) << 16
            | (b[pos + 4] as u64) << 24 | (b[pos + 3] as u64) << 32 | (b[pos + 2] as u64) << 40 | (
        b[pos + 1] as u64) << 48 | (b[pos] as u64) << 56,
    }
}

/// Read the u32 at `pos` in the given byte order.
pub fn read_u32_at(b: &Vec<u8>, pos: usize, e: Endian) -> (r: u32)
    requires
        pos + 4 <= b@.len(),
    ensures
        r == de_u32(e, b@, pos as int),
{
    // binds the length as a usize: the index arithmetic below stays in bounds
    let _len: usize = b.len();
    match e {
        Endian::Little => (b[pos] as u32) | ((b[pos + 1] as u32) << 8) | ((b[pos + 2] as u32)
            << 16) | ((b[pos + 3] as u32) << 24),
        Endian::Big => (b[pos + 3] as u32) | ((b[pos + 2] as u32) << 8) | ((b[pos + 1] as u32)
            << 16) | ((b[pos] as u32) << 24),
    }
}

/// Read the u64 at `pos` in the given byte order.
pub fn read_u64_at(b: &Vec<u8>, pos: usize, e: Endian) -> (r: u64)
    requires
        pos + 8 <= b@.len(),
    ensures
        r == de_u64(e, b@, pos as int),
{
    // binds the length as a usize: the index arithmetic below stays in bounds
    let _len: usize = b.len();
    match e {
        Endian::Little => (b[pos] as u64) | ((b[pos + 1] as u64) << 8) | ((b[pos + 2] as u64)
            << 16) | ((b[pos + 3] as u64) << 24) | ((b[pos + 4] as u64) << 32) | ((b[pos
            + 5] as u64) << 40) | ((b[pos + 6] as u64) << 48) | ((b[pos + 7] as u64) << 56),
        Endian::Big => (b[pos + 7] as u64) | ((b[pos + 6] as u64) << 8) | ((b[pos + 5] as u64)
            << 16) | ((b[pos + 4] as u64) << 24) | ((b[pos + 3] as u64) << 32) | ((b[pos
            + 2] as u64) << 40) | ((b[pos + 1] as u64) << 48) | ((b[pos] as u64) << 56),
    }
}

/// Append the four little-endian bytes of `v`. The writer side of the codec
/// always emits little-endian fields.
pub fn push_u32_le(w: &mut Vec<u8>, v: u32)
    ensures
        final(w)@ == old(w)@ + ser_u32(Endian::Little, v),
{
    w.push((v & 0xff) as u8);
    w.push(((v >> 8) & 0xff) as u8);
    w.push(((v >> 16) & 0xff) as u8);
    w.push(((v >> 24) & 0xff) as u8);
    assert(w@ =~= old(w)@ + ser_u32(Endian::Little, v));
}

/// Append the eight little-endian bytes of `v`.
pub fn push_u64_le(w: &mut Vec<u8>, v: u64)
    ensures
        final(w)@ == old(w)@ + ser_u64(Endian::Little, v),
{
    w.push((v & 0xff) as u8);
    w.push(((v >> 8) & 0xff) as u8);
    w.push(((v >> 16) & 0xff) as u8);
    w.push(((v >> 24) & 0xff) as u8);
    w.push(((v >> 32) & 0xff) as u8);
    w.push(((v >> 40) & 0xff) as u8);
    w.push(((v >> 48) & 0xff) as u8);
    w.push(((v >> 56) & 0xff) as u8);
    assert(w@ =~= old(w)@ + ser_u64(Endian::Little, v));
}

/// A u32 is rebuilt from the four bytes it was split into.
proof fn lemma_u32_reassemble(v: u32)
    by (bit_vector)
    ensures
        v == (((v & 0xff) as u8) as u32) | ((((v >> 8) & 0xff) as u8) as u32) << 8 | ((((v >> 16)
            & 0xff) as u8) as u32) << 16 | ((((v >> 24) & 0xff) as u8) as u32) << 24,
{
}

/// A u64 is rebuilt from the eight bytes it was split into.
proof fn lemma_u64_reassemble(v: u64)
    by (bit_vector)
    ensures
        v == (((v & 0xff) as u8) as u64) | ((((v >> 8) & 0xff) as u8) as u64) << 8 | ((((v >> 16)
            & 0xff) as u8) as u64) << 16 | ((((v >> 24) & 0xff) as u8) as u64) << 24 | ((((v >> 32)
            & 0xff) as u8) as u64) << 32 | ((((v >> 40) & 0xff) as u8) as u64) << 40 | ((((v >> 48)
            & 0xff) as u8) as u64) << 48 | ((((v >> 56) & 0xff) as u8) as u64) << 56,
{
}

/// Reading back the serialized bytes of a u32 gives the value.
pub proof fn lemma_de_ser_u32(e: Endian, b: Seq<u8>, pos: int, v: u32)
    requires
        0 <= pos,
        pos + 4 <= b.len(),
        b.subrange(pos, pos + 4) == ser_u32(e, v),
    ensures
        de_u32(e, b, pos) == v,
{
    let s = b.subrange(pos, pos + 4);
    assert(b[pos] == s[0] && b[pos + 1] == s[1] && b[pos + 2] == s[2] && b[pos + 3] == s[3]);
    lemma_u32_reassemble(v);
}

/// Reading back the serialized bytes of a u64 gives the value.
pub proof fn lemma_de_ser_u64(e: Endian, b: Seq<u8>, pos: int, v: u64)
    requires
        0 <= pos,
        pos + 8 <= b.len(),
        b.subrange(pos, pos + 8) == ser_u64(e, v),
    ensures
        de_u64(e, b, pos) == v,
{
    let s = b.subrange(pos, pos + 8);
    assert(b[pos] == s[0] && b[pos + 1] == s[1] && b[pos + 2] == s[2] && b[pos + 3] == s[3] && b[pos
        + 4] == s[4] && b[pos + 5] == s[5] && b[pos + 6] == s[6] && b[pos + 7] == s[7]);
    lemma_u64_reassemble(v);
}

/// Casting an i32 through u32 and back is the identity: the spatial-reference
/// id survives its trip through the 4-byte wire field.
pub proof fn lemma_i32_bits_round_trip(x: i32)
    by (bit_vector)
    ensures
        ((x as u32) as i32) == x,
{
}

} // verus!
