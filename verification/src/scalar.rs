//! Fixed-width little-endian scalar codec.
//!
//! Every multi-byte value in the format is stored little-endian.  The spec
//! functions here define what value a byte region holds; the executable
//! readers are proved to return exactly that value, and to fail with
//! `Error::OutOfBounds` whenever the read would pass the buffer's end.

use crate::error::Error;
use vstd::prelude::*;

verus! {

/// Width in bytes of a vtable slot (and of a field-slot offset).
pub const SIZE_VOFFSET: usize = 2;

/// Width in bytes of a table's signed back-reference offset.
pub const SIZE_SOFFSET: usize = 4;

/// Width in bytes of an unsigned forward-reference offset.
pub const SIZE_UOFFSET: usize = 4;

/// The little-endian 16-bit value stored at byte offset `i` of `s`.
pub open spec fn le16(s: Seq<u8>, i: int) -> u16 {
    (s[i] + s[i + 1] * 0x100) as u16
}

/// The little-endian 32-bit value stored at byte offset `i` of `s`.
pub open spec fn le32(s: Seq<u8>, i: int) -> u32 {
    (s[i] + s[i + 1] * 0x100 + s[i + 2] * 0x10000 + s[i + 3] * 0x1000000) as u32
}

/// The little-endian 64-bit value stored at byte offset `i` of `s`.
pub open spec fn le64(s: Seq<u8>, i: int) -> u64 {
    (le32(s, i) + le32(s, i + 4) * 0x1_0000_0000) as u64
}

/// The two's-complement reading of 32 stored bits.
pub open spec fn bits_to_i32(u: u32) -> i32 {
    if u <= 0x7fff_ffff {
        u as i32
    } else {
        (u - 0x1_0000_0000) as i32
    }
}

/// The 32 bits that encode a signed value, two's complement.
pub open spec fn i32_to_bits(v: i32) -> u32 {
    if v >= 0 {
        v as u32
    } else {
        (v + 0x1_0000_0000) as u32
    }
}

/// The two little-endian bytes of a 16-bit value.
pub open spec fn u16_le_bytes(v: u16) -> Seq<u8> {
    seq![(v % 0x100) as u8, (v / 0x100) as u8]
}

/// The four little-endian bytes of a 32-bit value.
pub open spec fn u32_le_bytes(v: u32) -> Seq<u8> {
    seq![
        (v % 0x100) as u8,
        ((v / 0x100) % 0x100) as u8,
        ((v / 0x10000) % 0x100) as u8,
        (v / 0x1000000) as u8,
    ]
}

/// The eight little-endian bytes of a 64-bit value.
pub open spec fn u64_le_bytes(v: u64) -> Seq<u8> {
    u32_le_bytes((v % 0x1_0000_0000) as u32) + u32_le_bytes((v / 0x1_0000_0000) as u32)
}

/// Encoding a 16-bit value and reading it back yields the value.
pub proof fn lemma_u16_round_trip(v: u16)
    ensures
        u16_le_bytes(v).len() == 2,
        le16(u16_le_bytes(v), 0) == v,
{
}

/// Encoding a 32-bit value and reading it back yields the value.
pub proof fn lemma_u32_round_trip(v: u32)
    ensures
        u32_le_bytes(v).len() == 4,
        le32(u32_le_bytes(v), 0) == v,
{
    assert(le32(u32_le_bytes(v), 0) == v) by {
        let x: int = v as int;
        assert(x % 0x100 + ((x / 0x100) % 0x100) * 0x100 + ((x / 0x10000) % 0x100) * 0x10000 + (x
            / 0x1000000) * 0x1000000 == x) by (nonlinear_arith)
            requires
                0 <= x < 0x1_0000_0000,
        ;
    }
}

/// Encoding a 64-bit value and reading it back yields the value.
pub proof fn lemma_u64_round_trip(v: u64)
    ensures
        u64_le_bytes(v).len() == 8,
        le64(u64_le_bytes(v), 0) == v,
{
    let lo: u32 = (v % 0x1_0000_0000) as u32;
    let hi: u32 = (v / 0x1_0000_0000) as u32;
    lemma_u32_round_trip(lo);
    lemma_u32_round_trip(hi);
    let b = u64_le_bytes(v);
    assert(le32(b, 0) == lo) by {
        assert(b[0] == u32_le_bytes(lo)[0]);
        assert(b[1] == u32_le_bytes(lo)[1]);
        assert(b[2] == u32_le_bytes(lo)[2]);
        assert(b[3] == u32_le_bytes(lo)[3]);
    }
    assert(le32(b, 4) == hi) by {
        assert(b[4] == u32_le_bytes(hi)[0]);
        assert(b[5] == u32_le_bytes(hi)[1]);
        assert(b[6] == u32_le_bytes(hi)[2]);
        assert(b[7] == u32_le_bytes(hi)[3]);
    }
}

/// Encoding a signed 32-bit value as bits and reading the bits back as a
/// signed value yields the value.
pub proof fn lemma_i32_round_trip(v: i32)
    ensures
        bits_to_i32(i32_to_bits(v)) == v,
{
}

/// Law: wherever a buffer holds the encoded bytes of a 16-bit value, the
/// 16-bit read at that spot yields the value.
pub proof fn lemma_le16_at(buf: Seq<u8>, loc: int, v: u16)
    requires
        0 <= loc,
        loc + 2 <= buf.len(),
        buf.subrange(loc, loc + 2) == u16_le_bytes(v),
    ensures
        le16(buf, loc) == v,
{
    lemma_u16_round_trip(v);
    assert(buf[loc] == buf.subrange(loc, loc + 2)[0]);
    assert(buf[loc + 1] == buf.subrange(loc, loc + 2)[1]);
}

/// Law: wherever a buffer holds the encoded bytes of a 32-bit value, the
/// 32-bit read at that spot yields the value.
pub proof fn lemma_le32_at(buf: Seq<u8>, loc: int, v: u32)
    requires
        0 <= loc,
        loc + 4 <= buf.len(),
        buf.subrange(loc, loc + 4) == u32_le_bytes(v),
    ensures
        le32(buf, loc) == v,
{
    lemma_u32_round_trip(v);
    assert(buf[loc] == buf.subrange(loc, loc + 4)[0]);
    assert(buf[loc + 1] == buf.subrange(loc, loc + 4)[1]);
    assert(buf[loc + 2] == buf.subrange(loc, loc + 4)[2]);
    assert(buf[loc + 3] == buf.subrange(loc, loc + 4)[3]);
}

/// Compares two byte strings for exact equality.
pub fn bytes_eq(a: &[u8], b: &[u8]) -> (r: bool)
    ensures
        r <==> a@ == b@,
{
    if a.len() != b.len() {
        return false;
    }
    let n: usize = a.len();
    let mut i: usize = 0;
    while i < n
        invariant
            i <= n,
            n == a@.len(),
            a@.len() == b@.len(),
            forall|j: int| 0 <= j < i ==> a@[j] == b@[j],
        decreases n - i,
    {
        if a[i] != b[i] {
            proof {
                assert(a@[i as int] != b@[i as int]);
            }
            return false;
        }
        i = i + 1;
    }
    proof {
        assert(a@ =~= b@);
    }
    true
}

/// Reads the little-endian 16-bit scalar at `loc`, bounds-checked.
pub fn read_u16_le(buf: &[u8], loc: usize) -> (r: Result<u16, Error>)
    ensures
        loc + 2 <= buf@.len() ==> r == Ok::<u16, Error>(le16(buf@, loc as int)),
        loc + 2 > buf@.len() ==> r == Err::<u16, Error>(Error::OutOfBounds),
{
    if buf.len() < 2 || loc > buf.len() - 2 {
        return Err(Error::OutOfBounds);
    }
    let b0: u16 = buf[loc] as u16;
    let b1: u16 = buf[loc + 1] as u16;
    Ok(b0 + b1 * 0x100)
}

/// Reads the little-endian 32-bit scalar at `loc`, bounds-checked.
pub fn read_u32_le(buf: &[u8], loc: usize) -> (r: Result<u32, Error>)
    ensures
        loc + 4 <= buf@.len() ==> r == Ok::<u32, Error>(le32(buf@, loc as int)),
        loc + 4 > buf@.len() ==> r == Err::<u32, Error>(Error::OutOfBounds),
{
    if buf.len() < 4 || loc > buf.len() - 4 {
        return Err(Error::OutOfBounds);
    }
    let b0: u32 = buf[loc] as u32;
    let b1: u32 = buf[loc + 1] as u32;
    let b2: u32 = buf[loc + 2] as u32;
    let b3: u32 = buf[loc + 3] as u32;
    Ok(b0 + b1 * 0x100 + b2 * 0x10000 + b3 * 0x1000000)
}

/// Reads the little-endian 64-bit scalar at `loc`, bounds-checked.
pub fn read_u64_le(buf: &[u8], loc: usize) -> (r: Result<u64, Error>)
    ensures
        loc + 8 <= buf@.len() ==> r == Ok::<u64, Error>(le64(buf@, loc as int)),
        loc + 8 > buf@.len() ==> r == Err::<u64, Error>(Error::OutOfBounds),
{
    if buf.len() < 8 || loc > buf.len() - 8 {
        return Err(Error::OutOfBounds);
    }
    let lo: u32 = match read_u32_le(buf, loc) {
        Ok(v) => v,
        Err(e) => {
            return Err(e);
        },
    };
    let hi: u32 = match read_u32_le(buf, loc + 4) {
        Ok(v) => v,
        Err(e) => {
            return Err(e);
        },
    };
    Ok(lo as u64 + (hi as u64) * 0x1_0000_0000)
}

/// Reads the little-endian signed 32-bit scalar at `loc`, bounds-checked.
pub fn read_i32_le(buf: &[u8], loc: usize) -> (r: Result<i32, Error>)
    ensures
        loc + 4 <= buf@.len() ==> r == Ok::<i32, Error>(bits_to_i32(le32(buf@, loc as int))),
        loc + 4 > buf@.len() ==> r == Err::<i32, Error>(Error::OutOfBounds),
{
    let u: u32 = match read_u32_le(buf, loc) {
        Ok(u) => u,
        Err(e) => {
            return Err(e);
        },
    };
    if u <= 0x7fff_ffff {
        Ok(u as i32)
    } else {
        Ok((u as i64 - 0x1_0000_0000) as i32)
    }
}

} // verus!
