//! Little-endian integers as they stand in a gzip stream.

use byteorder::ByteOrder;
use byteorder::LittleEndian;
use vstd::prelude::*;
use vstd::slice::slice_subrange;

verus! {

/// The two bytes of `n`, low byte first.
pub open spec fn u16_le(n: u16) -> Seq<u8> {
    seq![(n & 0xff) as u8, (n >> 8) as u8]
}

/// The four bytes of `n`, low byte first.
pub open spec fn u32_le(n: u32) -> Seq<u8> {
    seq![
        (n & 0xff) as u8,
        ((n >> 8) & 0xff) as u8,
        ((n >> 16) & 0xff) as u8,
        (n >> 24) as u8,
    ]
}

/// The number whose low byte is `bytes[0]` and whose high byte is `bytes[1]`.
pub open spec fn le_u16(bytes: Seq<u8>) -> u16 {
    (bytes[0] as u16) | ((bytes[1] as u16) << 8)
}

/// The number whose bytes, from the lowest, are `bytes[0]` to `bytes[3]`.
pub open spec fn le_u32(bytes: Seq<u8>) -> u32 {
    (bytes[0] as u32) | ((bytes[1] as u32) << 8) | ((bytes[2] as u32) << 16) | ((bytes[3] as u32)
        << 24)
}

/// Reading back what was written gives the number again, whatever follows.
pub proof fn lemma_u16_le_round_trip(n: u16, rest: Seq<u8>)
    ensures
        u16_le(n).len() == 2,
        le_u16(u16_le(n) + rest) == n,
{
    let b0 = (n & 0xff) as u8;
    let b1 = (n >> 8) as u8;
    assert((u16_le(n) + rest)[0] == b0);
    assert((u16_le(n) + rest)[1] == b1);
    assert(((n & 0xff) as u8 as u16) | (((n >> 8) as u8 as u16) << 8) == n) by (bit_vector);
}

/// Reading back what was written gives the number again, whatever follows.
pub proof fn lemma_u32_le_round_trip(n: u32, rest: Seq<u8>)
    ensures
        u32_le(n).len() == 4,
        le_u32(u32_le(n) + rest) == n,
{
    let s = u32_le(n) + rest;
    assert(s[0] == (n & 0xff) as u8);
    assert(s[1] == ((n >> 8) & 0xff) as u8);
    assert(s[2] == ((n >> 16) & 0xff) as u8);
    assert(s[3] == (n >> 24) as u8);
    assert(((n & 0xff) as u8 as u32) | ((((n >> 8) & 0xff) as u8 as u32) << 8) | ((((n >> 16)
        & 0xff) as u8 as u32) << 16) | (((n >> 24) as u8 as u32) << 24) == n) by (bit_vector);
}

/// Trusted: `byteorder::LittleEndian::write_u16`, which stores the low byte
/// of `n` first, on a buffer of exactly two bytes.
#[verifier::external_body]
pub(crate) fn u16_to_le(n: u16) -> (bytes: [u8; 2])
    ensures
        bytes@ == u16_le(n),
{
    let mut bytes = [0u8; 2];
    LittleEndian::write_u16(&mut bytes, n);
    bytes
}

/// Trusted: `byteorder::LittleEndian::write_u32`, which stores the lowest
/// byte of `n` first, on a buffer of exactly four bytes.
#[verifier::external_body]
pub(crate) fn u32_to_le(n: u32) -> (bytes: [u8; 4])
    ensures
        bytes@ == u32_le(n),
{
    let mut bytes = [0u8; 4];
    LittleEndian::write_u32(&mut bytes, n);
    bytes
}

/// Trusted: `byteorder::LittleEndian::read_u16`, which reads the first two
/// bytes of `buf`, low byte first, and panics on a shorter buffer.
#[verifier::external_body]
pub(crate) fn u16_from_le(buf: &[u8]) -> (n: u16)
    requires
        buf@.len() >= 2,
    ensures
        n == le_u16(buf@),
{
    LittleEndian::read_u16(buf)
}

/// Trusted: `byteorder::LittleEndian::read_u32`, which reads the first four
/// bytes of `buf`, lowest byte first, and panics on a shorter buffer.
#[verifier::external_body]
pub(crate) fn u32_from_le(buf: &[u8]) -> (n: u32)
    requires
        buf@.len() >= 4,
    ensures
        n == le_u32(buf@),
{
    LittleEndian::read_u32(buf)
}

/// Appends the two bytes of `n` to `out`.
pub fn put_u16_le(out: &mut Vec<u8>, n: u16)
    ensures
        final(out)@ == old(out)@ + u16_le(n),
{
    let bytes = u16_to_le(n);
    out.push(bytes[0]);
    out.push(bytes[1]);
    assert(out@ =~= old(out)@ + u16_le(n));
}

/// Appends the four bytes of `n` to `out`.
pub fn put_u32_le(out: &mut Vec<u8>, n: u32)
    ensures
        final(out)@ == old(out)@ + u32_le(n),
{
    let bytes = u32_to_le(n);
    out.push(bytes[0]);
    out.push(bytes[1]);
    out.push(bytes[2]);
    out.push(bytes[3]);
    assert(out@ =~= old(out)@ + u32_le(n));
}

/// Reads the two bytes at `at`, or nothing when `input` ends before them.
pub fn get_u16_le(input: &[u8], at: usize) -> (found: Option<u16>)
    ensures
        at + 2 <= input@.len() ==> found == Some(le_u16(input@.subrange(at as int, at + 2))),
        at + 2 > input@.len() ==> found is None,
{
    if input.len() < 2 || at > input.len() - 2 {
        None
    } else {
        Some(u16_from_le(slice_subrange(input, at, at + 2)))
    }
}

/// Reads the four bytes at `at`, or nothing when `input` ends before them.
pub fn get_u32_le(input: &[u8], at: usize) -> (found: Option<u32>)
    ensures
        at + 4 <= input@.len() ==> found == Some(le_u32(input@.subrange(at as int, at + 4))),
        at + 4 > input@.len() ==> found is None,
{
    if input.len() < 4 || at > input.len() - 4 {
        None
    } else {
        Some(u32_from_le(slice_subrange(input, at, at + 4)))
    }
}

} // verus!
