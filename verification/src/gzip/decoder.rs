//! The gzip decoder.

use crate::compress::inflate_bytes;
use crate::crc::{crc32_of, RunningCrc32, CRC32_CAPACITY};
use crate::gzip::error::Error;
use crate::gzip::format::parse_header;
use crate::gzip::header::{Header, HeaderModel};
use crate::gzip::stream::{check_trailer, compressed_part, decoded, inflated_payload, payload_of};
use crate::gzip::stream::trailer_start;
use crate::gzip::trailer::{Trailer, TRAILER_LEN};
use vstd::prelude::*;
use vstd::slice::{slice_subrange, slice_to_vec};

verus! {

/// How many bytes `decode_all` asks for at a time.
pub const CHUNK_LEN: usize = 8192;

/// A gzip decoder over a source of bytes.
///
/// The header is read when the decoder is made: a source without a good
/// header gives no decoder. `read` hands the payload out piece by piece and
/// keeps the checksum of what it handed out. The read that finds nothing
/// left is the end of the stream: it compares that checksum with the
/// trailer. Every read after it hands out nothing, whether or not the
/// trailer was good.
pub struct Decoder {
    header: Header,
    source: Vec<u8>,
    start: usize,
    inflated: bool,
    payload: Vec<u8>,
    cursor: usize,
    crc32: RunningCrc32,
    eos: bool,
}

/// Copies bytes of `from`, starting at `at`, to the front of `buf`, as many
/// as there are or as `buf` has room for, and says how many that was.
pub fn copy_from(buf: &mut [u8], from: &[u8], at: usize) -> (copied: usize)
    requires
        at <= from@.len(),
    ensures
        copied == vstd::math::min(old(buf)@.len() as int, from@.len() - at),
        final(buf)@ == from@.subrange(at as int, at + copied) + old(buf)@.skip(copied as int),
{
    let room = buf.len();
    let total = from.len();
    let left = total - at;
    let copied = if room < left {
        room
    } else {
        left
    };
    let mut i: usize = 0;
    while i < copied
        invariant
            i <= copied,
            copied <= room,
            total == from@.len(),
            at + copied <= total,
            buf@.len() == room,
            room == old(buf)@.len(),
            buf@ == from@.subrange(at as int, at + i) + old(buf)@.skip(i as int),
        decreases copied - i,
    {
        buf[i] = from[at + i];
        i = i + 1;
        assert(buf@ =~= from@.subrange(at as int, at + i) + old(buf)@.skip(i as int));
    }
    copied
}

/// The payload that the answer of the decompressor stands for, or why there
/// is none.
pub fn payload_or_error(answer: Option<Vec<u8>>) -> (result: Result<Vec<u8>, Error>)
    ensures
        match result {
            Ok(payload) => answer is Some && payload == answer->Some_0 && payload_of(
                Some(payload@),
            ) == Ok::<Seq<u8>, Error>(payload@),
            Err(e) => payload_of(
                match answer {
                    Some(payload) => Some(payload@),
                    None => None,
                },
            ) == Err::<Seq<u8>, Error>(e),
        },
{
    match answer {
        None => Err(Error::InvalidDeflateStream),
        Some(payload) => {
            if payload.len() > CRC32_CAPACITY as usize {
                Err(Error::PayloadTooLarge)
            } else {
                Ok(payload)
            }
        },
    }
}

impl Decoder {
    /// The header is the one the source starts with; the payload, once it
    /// is there, is what the decompressor made of the source; the checksum
    /// is that of what was handed out.
    pub closed spec fn wf(&self) -> bool {
        &&& self.header.wf()
        &&& parse_header(self.source@) == Ok::<(HeaderModel, int), Error>(
            (self.header@, self.start as int),
        )
        &&& self.start <= self.source@.len()
        &&& self.cursor <= self.payload@.len()
        &&& self.crc32.taken() == self.payload@.take(self.cursor as int)
        &&& if self.inflated {
            inflated_payload(self.source@, self.start as int) == Ok::<Seq<u8>, Error>(
                self.payload@,
            )
        } else {
            self.payload@.len() == 0
        }
    }

    /// The header that was read.
    pub closed spec fn header_model(&self) -> HeaderModel {
        self.header@
    }

    /// The bytes of the source.
    pub closed spec fn source(&self) -> Seq<u8> {
        self.source@
    }

    /// Where the header ends in the source.
    pub closed spec fn start(&self) -> int {
        self.start as int
    }

    /// The payload handed out so far.
    pub closed spec fn produced(&self) -> Seq<u8> {
        self.payload@.take(self.cursor as int)
    }

    /// Whether the end of the stream was reached.
    pub closed spec fn finished(&self) -> bool {
        self.eos
    }

    /// What a decoder that holds its invariant knows of itself.
    pub proof fn lemma_wf(&self)
        requires
            self.wf(),
        ensures
            parse_header(self.source()) == Ok::<(HeaderModel, int), Error>(
                (self.header_model(), self.start()),
            ),
            self.header_model().wf(),
            inflated_payload(self.source(), self.start()) matches Ok(payload)
                ==> self.produced().is_prefix_of(payload),
    {
        if self.inflated {
            assert(self.payload@.take(self.cursor as int).is_prefix_of(self.payload@));
        } else {
            assert(self.payload@.take(self.cursor as int) =~= Seq::<u8>::empty());
        }
    }

    /// A decoder over `inner`, whose header is read. A source whose header
    /// is bad gives the error of the header and no decoder.
    pub fn new(inner: Vec<u8>) -> (result: Result<Self, Error>)
        ensures
            match result {
                Ok(decoder) => {
                    &&& decoder.wf()
                    &&& decoder.source() == inner@
                    &&& parse_header(inner@) == Ok::<(HeaderModel, int), Error>(
                        (decoder.header_model(), decoder.start()),
                    )
                    &&& decoder.produced() == Seq::<u8>::empty()
                    &&& !decoder.finished()
                },
                Err(e) => parse_header(inner@) == Err::<(HeaderModel, int), Error>(e),
            },
    {
        let (header, start) = match Header::read_from(inner.as_slice()) {
            Ok(read) => read,
            Err(e) => {
                return Err(e);
            },
        };
        let decoder = Decoder {
            header,
            source: inner,
            start,
            inflated: false,
            payload: Vec::new(),
            cursor: 0,
            crc32: RunningCrc32::new(),
            eos: false,
        };
        assert(decoder.payload@.take(0) =~= Seq::<u8>::empty());
        Ok(decoder)
    }

    pub fn header(&self) -> (header: &Header)
        ensures
            header@ == self.header_model(),
    {
        &self.header
    }

    /// Hands the source back, as it was given. Nothing is read on the way:
    /// a decoder that is taken apart early has not looked at the trailer.
    pub fn into_inner(self) -> (inner: Vec<u8>)
        ensures
            inner@ == self.source(),
    {
        self.source
    }

    /// Runs the decompressor over the compressed payload, once.
    fn inflate(&mut self) -> (result: Result<(), Error>)
        requires
            old(self).wf(),
            !old(self).finished(),
        ensures
            final(self).wf(),
            final(self).header_model() == old(self).header_model(),
            final(self).source() == old(self).source(),
            final(self).start() == old(self).start(),
            final(self).produced() == old(self).produced(),
            !final(self).finished(),
            final(self).cursor == old(self).cursor,
            match result {
                Ok(_) => final(self).inflated && inflated_payload(
                    old(self).source(),
                    old(self).start(),
                ) == Ok::<Seq<u8>, Error>(final(self).payload@),
                Err(e) => inflated_payload(old(self).source(), old(self).start()) == Err::<
                    Seq<u8>,
                    Error,
                >(e),
            },
    {
        if self.inflated {
            return Ok(());
        }
        let len = self.source.len();
        let end = if len - self.start >= TRAILER_LEN {
            len - TRAILER_LEN
        } else {
            self.start
        };
        let compressed = slice_subrange(self.source.as_slice(), self.start, end);
        assert(compressed@ == compressed_part(self.source@, self.start as int));
        match payload_or_error(inflate_bytes(compressed)) {
            Err(e) => Err(e),
            Ok(payload) => {
                assert(self.payload@.take(self.cursor as int) =~= payload@.take(0));
                self.payload = payload;
                self.inflated = true;
                Ok(())
            },
        }
    }

    /// Hands out the next piece of the payload, as much as there is or as
    /// `buf` has room for, at the front of `buf`, and says how much that
    /// was.
    ///
    /// After the end of the stream nothing is handed out. Before it, the
    /// read that has nothing to hand out is the end: it answers with what
    /// the trailer says of the checksum of what was handed out. The size in
    /// the trailer is read and not compared with anything.
    pub fn read(&mut self, buf: &mut [u8]) -> (result: Result<usize, Error>)
        requires
            old(self).wf(),
        ensures
            final(self).wf(),
            final(self).header_model() == old(self).header_model(),
            final(self).source() == old(self).source(),
            final(self).start() == old(self).start(),
            final(buf)@.len() == old(buf)@.len(),
            old(self).finished() ==> {
                &&& result == Ok::<usize, Error>(0usize)
                &&& final(self).finished()
                &&& final(self).produced() == old(self).produced()
                &&& final(buf)@ == old(buf)@
            },
            !old(self).finished() ==> match inflated_payload(old(self).source(), old(self).start()) {
                Err(e) => {
                    &&& result == Err::<usize, Error>(e)
                    &&& !final(self).finished()
                    &&& final(self).produced() == old(self).produced()
                    &&& final(buf)@ == old(buf)@
                },
                Ok(payload) => {
                    let before = old(self).produced().len() as int;
                    let n = vstd::math::min(old(buf)@.len() as int, payload.len() - before);
                    &&& 0 <= n
                    &&& final(self).produced() == payload.take(before + n)
                    &&& final(buf)@ == payload.subrange(before, before + n) + old(buf)@.skip(n)
                    &&& n > 0 ==> !final(self).finished() && result == Ok::<usize, Error>(
                        n as usize,
                    )
                    &&& n == 0 ==> final(self).finished() && result == check_trailer(
                        old(self).source(),
                        trailer_start(old(self).source(), old(self).start()),
                        crc32_of(old(self).produced()),
                    )
                },
            },
    {
        if self.eos {
            return Ok(0);
        }
        match self.inflate() {
            Ok(_) => {},
            Err(e) => {
                return Err(e);
            },
        }
        let read_size = copy_from(buf, self.payload.as_slice(), self.cursor);
        let piece = slice_subrange(buf, 0, read_size);
        assert(piece@ =~= self.payload@.subrange(self.cursor as int, self.cursor + read_size));
        assert(self.payload@.take(self.cursor as int) + piece@ =~= self.payload@.take(
            self.cursor + read_size,
        ));
        self.crc32.update(piece);
        self.cursor = self.cursor + read_size;
        if read_size == 0 {
            self.eos = true;
            let len = self.source.len();
            let at = if len - self.start >= TRAILER_LEN {
                len - TRAILER_LEN
            } else {
                self.start
            };
            let trailer = match Trailer::read_from(self.source.as_slice(), at) {
                Ok(trailer) => trailer,
                Err(e) => {
                    return Err(e);
                },
            };
            trailer.check(self.crc32.value())
        } else {
            Ok(read_size)
        }
    }
}

/// Decodes a whole stream held in memory.
pub fn decode_all(buf: &[u8]) -> (result: Result<Vec<u8>, Error>)
    ensures
        match result {
            Ok(payload) => decoded(buf@) == Ok::<Seq<u8>, Error>(payload@),
            Err(e) => decoded(buf@) == Err::<Seq<u8>, Error>(e),
        },
{
    let mut decoder = match Decoder::new(slice_to_vec(buf)) {
        Ok(decoder) => decoder,
        Err(e) => {
            return Err(e);
        },
    };
    let mut out: Vec<u8> = Vec::new();
    let mut chunk: Vec<u8> = Vec::new();
    chunk.resize(CHUNK_LEN, 0u8);
    loop
        invariant_except_break
            !decoder.finished(),
        invariant
            decoder.wf(),
            decoder.source() == buf@,
            parse_header(buf@) == Ok::<(HeaderModel, int), Error>(
                (decoder.header_model(), decoder.start()),
            ),
            out@ == decoder.produced(),
            chunk@.len() == CHUNK_LEN,
        ensures
            decoded(buf@) == Ok::<Seq<u8>, Error>(out@),
        decreases
            match inflated_payload(decoder.source(), decoder.start()) {
                Ok(payload) => payload.len() - decoder.produced().len() + 1,
                Err(_) => 0,
            },
    {
        let ghost before = decoder.produced();
        let ghost payload = inflated_payload(buf@, decoder.start());
        proof {
            decoder.lemma_wf();
            if payload is Ok && payload->Ok_0.len() == before.len() {
                assert(before =~= payload->Ok_0);
            }
        }
        let n = match decoder.read(chunk.as_mut_slice()) {
            Ok(n) => n,
            Err(e) => {
                return Err(e);
            },
        };
        if n == 0 {
            break;
        }
        let piece = slice_subrange(chunk.as_slice(), 0, n);
        out.extend_from_slice(piece);
        proof {
            assert(piece@ =~= payload->Ok_0.subrange(before.len() as int, before.len() + n));
            assert(out@ =~= payload->Ok_0.take(before.len() + n));
        }
    }
    Ok(out)
}

} // verus!
