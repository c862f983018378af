//! The eight bytes that end a gzip stream.

use crate::bytes::{get_u32_le, le_u32, lemma_u32_le_round_trip, put_u32_le, u32_le};
use crate::gzip::error::Error;
use vstd::prelude::*;

verus! {

/// The length of a trailer.
pub const TRAILER_LEN: usize = 8;

/// The trailer: the CRC-32 of the payload before it was compressed, and its
/// length modulo 2^32.
#[derive(Debug, Clone, Copy, PartialEq, Eq, Structural)]
pub struct Trailer {
    pub crc32: u32,
    pub input_size: u32,
}

impl Trailer {
    /// The trailer as it stands in a stream: the checksum, then the size.
    pub open spec fn bytes(self) -> Seq<u8> {
        u32_le(self.crc32) + u32_le(self.input_size)
    }

    /// Appends the trailer to `out`. Nothing is checked.
    pub fn write_to(&self, out: &mut Vec<u8>)
        ensures
            final(out)@ == old(out)@ + self.bytes(),
    {
        put_u32_le(out, self.crc32);
        put_u32_le(out, self.input_size);
        assert(out@ =~= old(out)@ + self.bytes());
    }

    /// What the trailer says of a payload whose CRC-32 is `computed`.
    pub open spec fn accepts(self, computed: u32) -> Result<usize, Error> {
        if self.crc32 != computed {
            Err(Error::Crc32Mismatch { stored: self.crc32, computed })
        } else {
            Ok(0usize)
        }
    }

    /// Compares the checksum in the trailer with `computed`, the checksum
    /// of the payload that was read: nothing is left to read when they are
    /// the same. The size is not compared with anything.
    pub fn check(&self, computed: u32) -> (result: Result<usize, Error>)
        ensures
            result == self.accepts(computed),
    {
        if self.crc32 != computed {
            Err(Error::Crc32Mismatch { stored: self.crc32, computed })
        } else {
            Ok(0)
        }
    }

    /// Reads the trailer that stands at `at`.
    pub fn read_from(input: &[u8], at: usize) -> (result: Result<Trailer, Error>)
        ensures
            result == parse_trailer(input@, at as int),
    {
        if input.len() < TRAILER_LEN || at > input.len() - TRAILER_LEN {
            return Err(Error::UnexpectedEof);
        }
        let crc32 = match get_u32_le(input, at) {
            Some(crc32) => crc32,
            None => {
                return Err(Error::UnexpectedEof);
            },
        };
        let input_size = match get_u32_le(input, at + 4) {
            Some(input_size) => input_size,
            None => {
                return Err(Error::UnexpectedEof);
            },
        };
        Ok(Trailer { crc32, input_size })
    }
}

/// The trailer that stands at `at` in `s`, if eight bytes are there.
pub open spec fn parse_trailer(s: Seq<u8>, at: int) -> Result<Trailer, Error> {
    if s.len() < at + TRAILER_LEN {
        Err(Error::UnexpectedEof)
    } else {
        Ok(
            Trailer {
                crc32: le_u32(s.subrange(at, at + 4)),
                input_size: le_u32(s.subrange(at + 4, at + 8)),
            },
        )
    }
}

/// A trailer that was written is read back as it was.
pub proof fn lemma_trailer_round_trip(prefix: Seq<u8>, trailer: Trailer, rest: Seq<u8>)
    ensures
        trailer.bytes().len() == TRAILER_LEN,
        parse_trailer(prefix + trailer.bytes() + rest, prefix.len() as int) == Ok::<
            Trailer,
            Error,
        >(trailer),
{
    let s = prefix + trailer.bytes() + rest;
    let at = prefix.len() as int;
    lemma_u32_le_round_trip(trailer.crc32, Seq::empty());
    lemma_u32_le_round_trip(trailer.input_size, Seq::empty());
    assert(u32_le(trailer.crc32) + Seq::<u8>::empty() =~= u32_le(trailer.crc32));
    assert(u32_le(trailer.input_size) + Seq::<u8>::empty() =~= u32_le(trailer.input_size));
    assert(s.subrange(at, at + 4) =~= u32_le(trailer.crc32));
    assert(s.subrange(at + 4, at + 8) =~= u32_le(trailer.input_size));
}

} // verus!
