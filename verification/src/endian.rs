//! Little-endian layouts of the fixed-width integers that appear on the wire.
//!
//! The layouts are stated with plain division and remainder, so that proofs
//! about them stay in linear arithmetic. The executable conversions are made
//! by the `byteorder` crate.

use byteorder::{ByteOrder, LittleEndian};
use vstd::prelude::*;

verus! {

/// The four bytes of `x`, least significant first.
pub open spec fn le_bytes_u32(x: u32) -> Seq<u8> {
    seq![
        (x % 256) as u8,
        (x / 256 % 256) as u8,
        (x / 65536 % 256) as u8,
        (x / 16777216) as u8,
    ]
}

/// The number whose little-endian layout is the first four bytes of `b`.
pub open spec fn u32_from_le(b: Seq<u8>) -> u32
    recommends
        b.len() >= 4,
{
    (b[0] + 256 * b[1] + 65536 * b[2] + 16777216 * b[3]) as u32
}

/// The eight bytes of `x`, least significant first.
pub open spec fn le_bytes_u64(x: u64) -> Seq<u8> {
    le_bytes_u32((x % 0x1_0000_0000) as u32) + le_bytes_u32((x / 0x1_0000_0000) as u32)
}

/// The number whose little-endian layout is the first eight bytes of `b`.
pub open spec fn u64_from_le(b: Seq<u8>) -> u64
    recommends
        b.len() >= 8,
{
    (u32_from_le(b.subrange(0, 4)) + 0x1_0000_0000 * u32_from_le(b.subrange(4, 8))) as u64
}

/// The two's complement bit pattern of `x`, read as an unsigned number.
pub open spec fn bits_of_i32(x: i32) -> u32 {
    if x >= 0 {
        x as u32
    } else {
        (x + 0x1_0000_0000) as u32
    }
}

/// The signed number whose two's complement bit pattern is `u`.
pub open spec fn i32_of_bits(u: u32) -> i32 {
    if u < 0x8000_0000 {
        u as i32
    } else {
        (u - 0x1_0000_0000) as i32
    }
}

/// The two's complement bit pattern of `x`, read as an unsigned number.
pub open spec fn bits_of_i64(x: i64) -> u64 {
    if x >= 0 {
        x as u64
    } else {
        (x + 0x1_0000_0000_0000_0000) as u64
    }
}

/// The signed number whose two's complement bit pattern is `u`.
pub open spec fn i64_of_bits(u: u64) -> i64 {
    if u < 0x8000_0000_0000_0000 {
        u as i64
    } else {
        (u - 0x1_0000_0000_0000_0000) as i64
    }
}

/// The four bytes of `x` in two's complement, least significant first.
pub open spec fn le_bytes_i32(x: i32) -> Seq<u8> {
    le_bytes_u32(bits_of_i32(x))
}

/// The signed number laid out in the first four bytes of `b`.
pub open spec fn i32_from_le(b: Seq<u8>) -> i32
    recommends
        b.len() >= 4,
{
    i32_of_bits(u32_from_le(b))
}

/// The eight bytes of `x` in two's complement, least significant first.
pub open spec fn le_bytes_i64(x: i64) -> Seq<u8> {
    le_bytes_u64(bits_of_i64(x))
}

/// The signed number laid out in the first eight bytes of `b`.
pub open spec fn i64_from_le(b: Seq<u8>) -> i64
    recommends
        b.len() >= 8,
{
    i64_of_bits(u64_from_le(b))
}

/// Quotient and remainder of `256 * q + r` by 256.
proof fn lemma_split_256(q: int, r: int)
    requires
        0 <= r < 256,
    ensures
        (256 * q + r) / 256 == q,
        (256 * q + r) % 256 == r,
{
}

/// Reading back the layout of a `u32` gives the number again.
#[verifier::spinoff_prover]
pub proof fn lemma_u32_le_round_trip(x: u32)
    ensures
        le_bytes_u32(x).len() == 4,
        u32_from_le(le_bytes_u32(x)) == x,
{
    let x0 = x as int;
    let x1 = x0 / 256;
    let x2 = x1 / 256;
    let x3 = x2 / 256;
    assert(x0 == 256 * x1 + x0 % 256);
    assert(x1 == 256 * x2 + x1 % 256);
    assert(x2 == 256 * x3 + x2 % 256);
    assert(x0 / 65536 == x2);
    assert(x0 / 16777216 == x3);
}

/// Laying out the number read from four bytes gives the bytes again.
#[verifier::spinoff_prover]
pub proof fn lemma_u32_le_bytes_round_trip(b: Seq<u8>)
    requires
        b.len() == 4,
    ensures
        le_bytes_u32(u32_from_le(b)) == b,
{
    let b0 = b[0] as int;
    let b1 = b[1] as int;
    let b2 = b[2] as int;
    let b3 = b[3] as int;
    let x2 = b2 + 256 * b3;
    let x1 = b1 + 256 * x2;
    let x0 = b0 + 256 * x1;
    assert(x0 == b0 + 256 * b1 + 65536 * b2 + 16777216 * b3);
    assert(u32_from_le(b) as int == x0);
    lemma_split_256(x1, b0);
    lemma_split_256(x2, b1);
    lemma_split_256(b3, b2);
    assert(x0 % 256 == b0);
    assert(x0 / 256 == x1);
    assert(x1 % 256 == b1);
    assert(x1 / 256 == x2);
    assert(x2 % 256 == b2);
    assert(x2 / 256 == b3);
    assert(x0 / 65536 == x2);
    assert(x0 / 16777216 == b3);
    assert(le_bytes_u32(u32_from_le(b)) =~= b);
}

/// Only the first four bytes count when a `u32` is read.
pub proof fn lemma_u32_from_le_prefix(b: Seq<u8>)
    requires
        b.len() >= 4,
    ensures
        u32_from_le(b.subrange(0, 4)) == u32_from_le(b),
{
}

/// Reading back the layout of a `u64` gives the number again.
#[verifier::spinoff_prover]
pub proof fn lemma_u64_le_round_trip(x: u64)
    ensures
        le_bytes_u64(x).len() == 8,
        u64_from_le(le_bytes_u64(x)) == x,
{
    let lo = (x % 0x1_0000_0000) as u32;
    let hi = (x / 0x1_0000_0000) as u32;
    let b = le_bytes_u64(x);
    assert(b.subrange(0, 4) =~= le_bytes_u32(lo));
    assert(b.subrange(4, 8) =~= le_bytes_u32(hi));
    lemma_u32_le_round_trip(lo);
    lemma_u32_le_round_trip(hi);
}

/// Laying out the number read from eight bytes gives the bytes again.
#[verifier::spinoff_prover]
pub proof fn lemma_u64_le_bytes_round_trip(b: Seq<u8>)
    requires
        b.len() == 8,
    ensures
        le_bytes_u64(u64_from_le(b)) == b,
{
    let lo = u32_from_le(b.subrange(0, 4));
    let hi = u32_from_le(b.subrange(4, 8));
    let x = u64_from_le(b);
    assert(x as int == lo as int + 0x1_0000_0000 * (hi as int));
    assert((x % 0x1_0000_0000) as u32 == lo);
    assert((x / 0x1_0000_0000) as u32 == hi);
    lemma_u32_le_bytes_round_trip(b.subrange(0, 4));
    lemma_u32_le_bytes_round_trip(b.subrange(4, 8));
    assert(le_bytes_u64(x) =~= b);
}

/// A signed 32-bit number and its bit pattern determine each other.
pub proof fn lemma_i32_bits_round_trip(x: i32, u: u32)
    ensures
        i32_of_bits(bits_of_i32(x)) == x,
        bits_of_i32(i32_of_bits(u)) == u,
{
}

/// A signed 64-bit number and its bit pattern determine each other.
pub proof fn lemma_i64_bits_round_trip(x: i64, u: u64)
    ensures
        i64_of_bits(bits_of_i64(x)) == x,
        bits_of_i64(i64_of_bits(u)) == u,
{
}

/// Reading back the layout of an `i32` gives the number again.
pub proof fn lemma_i32_le_round_trip(x: i32)
    ensures
        le_bytes_i32(x).len() == 4,
        i32_from_le(le_bytes_i32(x)) == x,
{
    lemma_u32_le_round_trip(bits_of_i32(x));
}

/// Laying out the signed number read from four bytes gives the bytes again.
pub proof fn lemma_i32_le_bytes_round_trip(b: Seq<u8>)
    requires
        b.len() == 4,
    ensures
        le_bytes_i32(i32_from_le(b)) == b,
{
    lemma_u32_le_bytes_round_trip(b);
}

/// Reading back the layout of an `i64` gives the number again.
pub proof fn lemma_i64_le_round_trip(x: i64)
    ensures
        le_bytes_i64(x).len() == 8,
        i64_from_le(le_bytes_i64(x)) == x,
{
    lemma_u64_le_round_trip(bits_of_i64(x));
}

/// Laying out the signed number read from eight bytes gives the bytes again.
pub proof fn lemma_i64_le_bytes_round_trip(b: Seq<u8>)
    requires
        b.len() == 8,
    ensures
        le_bytes_i64(i64_from_le(b)) == b,
{
    lemma_u64_le_bytes_round_trip(b);
}

/// `byteorder::LittleEndian::write_u32` on a four-byte buffer: the buffer
/// then holds the little-endian layout of `value`.
#[verifier::external_body]
pub(crate) fn write_u32_le(value: u32) -> (out: [u8; 4])
    ensures
        out@ == le_bytes_u32(value),
{
    let mut out: [u8; 4] = [0; 4];
    LittleEndian::write_u32(&mut out, value);
    out
}

/// `byteorder::LittleEndian::write_i32` on a four-byte buffer: the buffer
/// then holds the two's complement pattern of `value`, least significant
/// byte first.
#[verifier::external_body]
pub(crate) fn write_i32_le(value: i32) -> (out: [u8; 4])
    ensures
        out@ == le_bytes_i32(value),
{
    let mut out: [u8; 4] = [0; 4];
    LittleEndian::write_i32(&mut out, value);
    out
}

/// `byteorder::LittleEndian::write_u64` on an eight-byte buffer: the buffer
/// then holds the little-endian layout of `value`.
#[verifier::external_body]
pub(crate) fn write_u64_le(value: u64) -> (out: [u8; 8])
    ensures
        out@ == le_bytes_u64(value),
{
    let mut out: [u8; 8] = [0; 8];
    LittleEndian::write_u64(&mut out, value);
    out
}

/// `byteorder::LittleEndian::write_i64` on an eight-byte buffer: the buffer
/// then holds the two's complement pattern of `value`, least significant
/// byte first.
#[verifier::external_body]
pub(crate) fn write_i64_le(value: i64) -> (out: [u8; 8])
    ensures
        out@ == le_bytes_i64(value),
{
    let mut out: [u8; 8] = [0; 8];
    LittleEndian::write_i64(&mut out, value);
    out
}

/// `byteorder::LittleEndian::read_u32`: the number laid out in the first
/// four bytes of `buf`. The call panics on a shorter buffer.
#[verifier::external_body]
pub(crate) fn read_u32_le(buf: &[u8]) -> (value: u32)
    requires
        buf@.len() >= 4,
    ensures
        value == u32_from_le(buf@),
{
    LittleEndian::read_u32(buf)
}

/// `byteorder::LittleEndian::read_i32`: the signed number laid out in the
/// first four bytes of `buf`. The call panics on a shorter buffer.
#[verifier::external_body]
pub(crate) fn read_i32_le(buf: &[u8]) -> (value: i32)
    requires
        buf@.len() >= 4,
    ensures
        value == i32_from_le(buf@),
{
    LittleEndian::read_i32(buf)
}

/// `byteorder::LittleEndian::read_u64`: the number laid out in the first
/// eight bytes of `buf`. The call panics on a shorter buffer.
#[verifier::external_body]
pub(crate) fn read_u64_le(buf: &[u8]) -> (value: u64)
    requires
        buf@.len() >= 8,
    ensures
        value == u64_from_le(buf@),
{
    LittleEndian::read_u64(buf)
}

/// `byteorder::LittleEndian::read_i64`: the signed number laid out in the
/// first eight bytes of `buf`. The call panics on a shorter buffer.
#[verifier::external_body]
pub(crate) fn read_i64_le(buf: &[u8]) -> (value: i64)
    requires
        buf@.len() >= 8,
    ensures
        value == i64_from_le(buf@),
{
    LittleEndian::read_i64(buf)
}

} // verus!
