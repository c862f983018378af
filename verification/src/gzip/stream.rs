//! What a whole gzip stream is, and what it stands for.
//!
//! A stream is a header, a DEFLATE stream, and a trailer. The trailer is the
//! last eight bytes of the stream; the DEFLATE stream is what stands between
//! the header and the trailer.

use crate::compress::{deflated, inflated, CompressionLevel};
use crate::crc::{crc32_of, CRC32_CAPACITY};
use crate::gzip::error::Error;
use crate::gzip::format::{lemma_header_round_trip, parse_header};
use crate::gzip::header::{HeaderModel, COMPRESSION_METHOD_DEFLATE, GZIP_ID1, GZIP_ID2};
use crate::gzip::trailer::{lemma_trailer_round_trip, parse_trailer, Trailer, TRAILER_LEN};
use vstd::prelude::*;

verus! {

/// The trailer of a stream whose payload is `payload`.
pub open spec fn trailer_of(payload: Seq<u8>) -> Trailer {
    Trailer {
        crc32: crc32_of(payload),
        input_size: (payload.len() % 0x1_0000_0000) as u32,
    }
}

/// The stream that stands for `payload` under `header`, compressed at
/// `level`.
pub open spec fn encoded(header: HeaderModel, payload: Seq<u8>, level: CompressionLevel) -> Seq<
    u8,
> {
    header.bytes() + deflated(payload, level) + trailer_of(payload).bytes()
}

/// Where the trailer of `s` stands, when the header of `s` ends at `start`:
/// eight bytes before the end, or at `start` when fewer than eight bytes
/// follow the header.
pub open spec fn trailer_start(s: Seq<u8>, start: int) -> int {
    if s.len() - start >= TRAILER_LEN {
        s.len() - TRAILER_LEN
    } else {
        start
    }
}

/// The compressed payload of `s`, when the header of `s` ends at `start`.
pub open spec fn compressed_part(s: Seq<u8>, start: int) -> Seq<u8> {
    s.subrange(start, trailer_start(s, start))
}

/// What the end of a stream says of a payload whose CRC-32 is `computed`:
/// nothing is left to read when the trailer is there and holds that
/// checksum.
pub open spec fn check_trailer(s: Seq<u8>, at: int, computed: u32) -> Result<usize, Error> {
    match parse_trailer(s, at) {
        Err(e) => Err(e),
        Ok(trailer) => trailer.accepts(computed),
    }
}

/// The payload that the answer of the decompressor stands for: there is
/// none when the decompressor reported an error, nor when what came out is
/// too long for its checksum to be taken.
pub open spec fn payload_of(answer: Option<Seq<u8>>) -> Result<Seq<u8>, Error> {
    match answer {
        None => Err(Error::InvalidDeflateStream),
        Some(payload) => if payload.len() > CRC32_CAPACITY {
            Err(Error::PayloadTooLarge)
        } else {
            Ok(payload)
        },
    }
}

/// The payload that comes out of the decompressor for a stream whose header
/// ends at `start`.
pub open spec fn inflated_payload(s: Seq<u8>, start: int) -> Result<Seq<u8>, Error> {
    payload_of(inflated(compressed_part(s, start)))
}

/// The payload that `s` stands for, or the first thing that is wrong with
/// `s`: its header, then its compressed payload, then its trailer.
pub open spec fn decoded(s: Seq<u8>) -> Result<Seq<u8>, Error> {
    match parse_header(s) {
        Err(e) => Err(e),
        Ok((header, start)) => match inflated_payload(s, start) {
            Err(e) => Err(e),
            Ok(payload) => match check_trailer(s, trailer_start(s, start), crc32_of(payload)) {
                Err(e) => Err(e),
                Ok(_) => Ok(payload),
            },
        },
    }
}

/// In a stream made of a header, a compressed payload and a trailer, the
/// compressed payload and the trailer are found where they were put.
pub proof fn lemma_frame_parts(header_bytes: Seq<u8>, compressed: Seq<u8>, trailer: Trailer)
    ensures
        ({
            let s = header_bytes + compressed + trailer.bytes();
            let start = header_bytes.len() as int;
            &&& s == header_bytes + (compressed + trailer.bytes())
            &&& trailer_start(s, start) == start + compressed.len()
            &&& compressed_part(s, start) == compressed
            &&& parse_trailer(s, trailer_start(s, start)) == Ok::<Trailer, Error>(trailer)
        }),
{
    let s = header_bytes + compressed + trailer.bytes();
    let start = header_bytes.len() as int;
    lemma_trailer_round_trip(header_bytes + compressed, trailer, Seq::empty());
    assert(s =~= header_bytes + compressed + trailer.bytes() + Seq::<u8>::empty());
    assert(s =~= header_bytes + (compressed + trailer.bytes()));
    assert(compressed_part(s, start) =~= compressed);
}

/// Decoding what was encoded gives the payload again, for every payload on
/// which the decompressor undoes the compressor.
///
/// This holds of every header that can be written and whose system is
/// canonical, and of every payload short enough for its checksum to be
/// taken.
pub proof fn lemma_stream_round_trip(
    header: HeaderModel,
    payload: Seq<u8>,
    level: CompressionLevel,
)
    requires
        header.wf(),
        header.os.canonical(),
        payload.len() <= CRC32_CAPACITY,
    ensures
        parse_header(encoded(header, payload, level)) == Ok::<(HeaderModel, int), Error>(
            (header, header.bytes().len() as int),
        ),
        compressed_part(encoded(header, payload, level), header.bytes().len() as int) == deflated(
            payload,
            level,
        ),
        inflated(deflated(payload, level)) == Some(payload) ==> decoded(
            encoded(header, payload, level),
        ) == Ok::<Seq<u8>, Error>(payload),
{
    let compressed = deflated(payload, level);
    let trailer = trailer_of(payload);
    lemma_header_round_trip(header, compressed + trailer.bytes());
    lemma_frame_parts(header.bytes(), compressed, trailer);
}

/// A payload is handed out only when its CRC-32 is the one in the trailer:
/// no stream whose trailer holds another checksum decodes.
pub proof fn lemma_decoded_is_checked(s: Seq<u8>)
    ensures
        decoded(s) matches Ok(payload) ==> parse_header(s) matches Ok((_, start)) && parse_trailer(
            s,
            trailer_start(s, start),
        ) matches Ok(trailer) && trailer.crc32 == crc32_of(payload) && inflated(
            compressed_part(s, start),
        ) == Some(payload),
{
}

/// The first two bytes are judged before anything else, and the method
/// byte next: a stream that fails there fails the same way whatever
/// follows.
pub proof fn lemma_validation_order(s: Seq<u8>)
    ensures
        s.len() >= 2 && (s[0] != GZIP_ID1 || s[1] != GZIP_ID2) ==> decoded(s) == Err::<
            Seq<u8>,
            Error,
        >(Error::InvalidMagic { first: s[0], second: s[1] }),
        s.len() >= 3 && s[0] == GZIP_ID1 && s[1] == GZIP_ID2 && s[2] != COMPRESSION_METHOD_DEFLATE
            ==> decoded(s) == Err::<Seq<u8>, Error>(Error::UnsupportedMethod { method: s[2] }),
{
}

} // verus!
