//! Fixed-width integers read from, and written to, byte sequences in either
//! byte order.  These are the primitives the capture reader and the protocol
//! decoders are built on.

use vstd::prelude::*;

verus! {

// ---------------------------------------------------------------------------
// Decoding: bytes to integers
// ---------------------------------------------------------------------------

/// The 16-bit value stored big-endian in the bytes `b0 b1`.
pub open spec fn spec_u16_be(b0: u8, b1: u8) -> u16 {
    (b0 as u16) << 8 | (b1 as u16)
}

/// The 16-bit value stored little-endian in the bytes `b0 b1`.
pub open spec fn spec_u16_le(b0: u8, b1: u8) -> u16 {
    (b1 as u16) << 8 | (b0 as u16)
}

/// The 16-bit value stored in the bytes `b0 b1` in the given order.
pub open spec fn spec_u16_with(b0: u8, b1: u8, big: bool) -> u16 {
    if big {
        spec_u16_be(b0, b1)
    } else {
        spec_u16_le(b0, b1)
    }
}

/// The 32-bit value stored big-endian in the bytes `b0 b1 b2 b3`.
pub open spec fn spec_u32_be(b0: u8, b1: u8, b2: u8, b3: u8) -> u32 {
    (b0 as u32) << 24 | (b1 as u32) << 16 | (b2 as u32) << 8 | (b3 as u32)
}

/// The 32-bit value stored little-endian in the bytes `b0 b1 b2 b3`.
pub open spec fn spec_u32_le(b0: u8, b1: u8, b2: u8, b3: u8) -> u32 {
    (b3 as u32) << 24 | (b2 as u32) << 16 | (b1 as u32) << 8 | (b0 as u32)
}

/// The 32-bit value stored in the bytes `b0 b1 b2 b3` in the given order.
pub open spec fn spec_u32_with(b0: u8, b1: u8, b2: u8, b3: u8, big: bool) -> u32 {
    if big {
        spec_u32_be(b0, b1, b2, b3)
    } else {
        spec_u32_le(b0, b1, b2, b3)
    }
}

/// The signed value whose two's-complement bit pattern is `v`.
pub open spec fn spec_i32_of(v: u32) -> i32 {
    if v <= 0x7fff_ffff {
        v as i32
    } else {
        (v - 0x1_0000_0000) as i32
    }
}

pub(crate) fn u16_from_pair(b0: u8, b1: u8, big: bool) -> (r: u16)
    ensures
        r == spec_u16_with(b0, b1, big),
{
    if big {
        (b0 as u16) << 8 | (b1 as u16)
    } else {
        (b1 as u16) << 8 | (b0 as u16)
    }
}

pub(crate) fn u32_from_quad(b0: u8, b1: u8, b2: u8, b3: u8, big: bool) -> (r: u32)
    ensures
        r == spec_u32_with(b0, b1, b2, b3, big),
{
    if big {
        (b0 as u32) << 24 | (b1 as u32) << 16 | (b2 as u32) << 8 | (b3 as u32)
    } else {
        (b3 as u32) << 24 | (b2 as u32) << 16 | (b1 as u32) << 8 | (b0 as u32)
    }
}

/// Reads the bytes `b0 b1 b2 b3` as a little-endian two's-complement signed
/// 32-bit value.
pub(crate) fn i32_from_le_quad(b0: u8, b1: u8, b2: u8, b3: u8) -> (r: i32)
    ensures
        r == spec_i32_of(spec_u32_le(b0, b1, b2, b3)),
{
    let v: u32 = (b3 as u32) << 24 | (b2 as u32) << 16 | (b1 as u32) << 8 | (b0 as u32);
    if v <= 0x7fff_ffff {
        v as i32
    } else {
        let m: u32 = 0xffff_ffff - v;
        -(m as i32) - 1
    }
}

// ---------------------------------------------------------------------------
// Encoding: integers to bytes
// ---------------------------------------------------------------------------

/// The big-endian two-byte encoding of `x`.
pub open spec fn spec_u16_bytes_be(x: u16) -> Seq<u8> {
    seq![((x >> 8) & 0xff) as u8, (x & 0xff) as u8]
}

/// The little-endian two-byte encoding of `x`.
pub open spec fn spec_u16_bytes_le(x: u16) -> Seq<u8> {
    seq![(x & 0xff) as u8, ((x >> 8) & 0xff) as u8]
}

/// The two-byte encoding of `x` in the given order.
pub open spec fn spec_u16_bytes_with(x: u16, big: bool) -> Seq<u8> {
    if big {
        spec_u16_bytes_be(x)
    } else {
        spec_u16_bytes_le(x)
    }
}

/// The big-endian four-byte encoding of `x`.
pub open spec fn spec_u32_bytes_be(x: u32) -> Seq<u8> {
    seq![
        ((x >> 24) & 0xff) as u8,
        ((x >> 16) & 0xff) as u8,
        ((x >> 8) & 0xff) as u8,
        (x & 0xff) as u8,
    ]
}

/// The little-endian four-byte encoding of `x`.
pub open spec fn spec_u32_bytes_le(x: u32) -> Seq<u8> {
    seq![
        (x & 0xff) as u8,
        ((x >> 8) & 0xff) as u8,
        ((x >> 16) & 0xff) as u8,
        ((x >> 24) & 0xff) as u8,
    ]
}

/// The four-byte encoding of `x` in the given order.
pub open spec fn spec_u32_bytes_with(x: u32, big: bool) -> Seq<u8> {
    if big {
        spec_u32_bytes_be(x)
    } else {
        spec_u32_bytes_le(x)
    }
}

/// The little-endian four-byte two's-complement encoding of `x`.
pub open spec fn spec_i32_bytes_le(x: i32) -> Seq<u8> {
    spec_u32_bytes_le(
        if x >= 0 {
            x as u32
        } else {
            (x + 0x1_0000_0000) as u32
        },
    )
}

// ---------------------------------------------------------------------------
// Round trips: decoding an encoding yields the value back
// ---------------------------------------------------------------------------

/// Reading back the two-byte encoding of a 16-bit value, in either order,
/// yields the value.
pub proof fn lemma_u16_roundtrip(x: u16, big: bool)
    ensures
        spec_u16_bytes_with(x, big).len() == 2,
        spec_u16_with(
            spec_u16_bytes_with(x, big)[0],
            spec_u16_bytes_with(x, big)[1],
            big,
        ) == x,
{
    assert(((((x >> 8) & 0xff) as u8) as u16) << 8 | (((x & 0xff) as u8) as u16) == x)
        by (bit_vector);
}

/// Reading back the four-byte encoding of a 32-bit value, in either order,
/// yields the value.
pub proof fn lemma_u32_roundtrip(x: u32, big: bool)
    ensures
        spec_u32_bytes_with(x, big).len() == 4,
        spec_u32_with(
            spec_u32_bytes_with(x, big)[0],
            spec_u32_bytes_with(x, big)[1],
            spec_u32_bytes_with(x, big)[2],
            spec_u32_bytes_with(x, big)[3],
            big,
        ) == x,
{
    assert((((((x >> 24) & 0xff) as u8) as u32) << 24 | ((((x >> 16) & 0xff) as u8) as u32) << 16
        | ((((x >> 8) & 0xff) as u8) as u32) << 8 | (((x & 0xff) as u8) as u32)) == x)
        by (bit_vector);
}

/// Reading back the little-endian encoding of a signed 32-bit value yields
/// the value.
pub proof fn lemma_i32_roundtrip(x: i32)
    ensures
        spec_i32_bytes_le(x).len() == 4,
        spec_i32_of(
            spec_u32_le(
                spec_i32_bytes_le(x)[0],
                spec_i32_bytes_le(x)[1],
                spec_i32_bytes_le(x)[2],
                spec_i32_bytes_le(x)[3],
            ),
        ) == x,
{
    let v: u32 = if x >= 0 {
        x as u32
    } else {
        (x + 0x1_0000_0000) as u32
    };
    lemma_u32_roundtrip(v, false);
}

} // verus!
