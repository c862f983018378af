//! The gzip encoder and its options.

use crate::compress::{deflate_bytes, deflated, CompressionLevel};
use crate::crc::{RunningCrc32, CRC32_CAPACITY};
use crate::finish::Finish;
use crate::gzip::error::Error;
use crate::gzip::header::{level_hint, lemma_body_len, plain_header};
use crate::gzip::header::{ExtraField, GZipCompressionLevel, Header, HeaderModel, NulFreeBytes, Os};
use crate::gzip::stream::trailer_of;
use crate::gzip::trailer::Trailer;
use vstd::prelude::*;
use vstd::slice::slice_subrange;

verus! {

/// What an encoder is made with: the header to write, and how hard to
/// compress. Options are put together step by step, each step giving the
/// options with one thing changed, and are final once an encoder is made.
#[derive(Debug)]
pub struct EncodeOptions {
    header: Header,
    level: CompressionLevel,
}

impl Clone for EncodeOptions {
    fn clone(&self) -> (copy: Self)
        ensures
            copy.header_model() == self.header_model(),
            copy.level() == self.level(),
    {
        EncodeOptions { header: self.header.clone(), level: self.level }
    }
}

impl Default for EncodeOptions {
    /// The options of `EncodeOptions::new`.
    fn default() -> (options: Self)
        ensures
            options.header_model() == plain_header(options.header_model().modification_time),
            options.level() == CompressionLevel::Balanced,
    {
        EncodeOptions { header: Header::default(), level: CompressionLevel::Balanced }
    }
}

impl EncodeOptions {
    /// The header that an encoder made with these options writes.
    pub closed spec fn header_model(&self) -> HeaderModel {
        self.header@
    }

    /// How hard an encoder made with these options compresses.
    pub closed spec fn level(&self) -> CompressionLevel {
        self.level
    }

    /// Options for a stream made now, on Unix, with nothing optional, and
    /// compressed at the middle level.
    pub fn new() -> (options: Self)
        ensures
            options.header_model() == plain_header(options.header_model().modification_time),
            options.level() == CompressionLevel::Balanced,
    {
        EncodeOptions { header: Header::default(), level: CompressionLevel::Balanced }
    }

    pub fn modification_time(self, unix_time_secs: u32) -> (options: Self)
        ensures
            options.header_model() == (HeaderModel {
                modification_time: unix_time_secs,
                ..self.header_model()
            }),
            options.level() == self.level(),
    {
        let mut options = self;
        options.header.set_modification_time(unix_time_secs);
        options
    }

    /// Marks the payload as text.
    pub fn text(self) -> (options: Self)
        ensures
            options.header_model() == (HeaderModel { is_text: true, ..self.header_model() }),
            options.level() == self.level(),
    {
        let mut options = self;
        options.header.set_text();
        options
    }

    /// Asks for a checksum of the header to be written after it.
    pub fn verify_header(self) -> (options: Self)
        ensures
            options.header_model() == (HeaderModel { is_verified: true, ..self.header_model() }),
            options.level() == self.level(),
    {
        let mut options = self;
        options.header.set_verified();
        options
    }

    pub fn os(self, os: Os) -> (options: Self)
        ensures
            options.header_model() == (HeaderModel { os, ..self.header_model() }),
            options.level() == self.level(),
    {
        let mut options = self;
        options.header.set_os(os);
        options
    }

    pub fn extra_field(self, extra: ExtraField) -> (options: Self)
        ensures
            options.header_model() == (HeaderModel {
                extra_field: Some(extra@),
                ..self.header_model()
            }),
            options.level() == self.level(),
    {
        let mut options = self;
        options.header.set_extra_field(extra);
        options
    }

    pub fn filename(self, filename: NulFreeBytes) -> (options: Self)
        ensures
            options.header_model() == (HeaderModel {
                filename: Some(filename@),
                ..self.header_model()
            }),
            options.level() == self.level(),
    {
        let mut options = self;
        options.header.set_filename(filename);
        options
    }

    pub fn comment(self, comment: NulFreeBytes) -> (options: Self)
        ensures
            options.header_model() == (HeaderModel {
                comment: Some(comment@),
                ..self.header_model()
            }),
            options.level() == self.level(),
    {
        let mut options = self;
        options.header.set_comment(comment);
        options
    }

    /// Sets how hard to compress, and lets the header say so.
    pub fn deflate_options(self, level: CompressionLevel) -> (options: Self)
        ensures
            options.header_model() == (HeaderModel {
                compression_level: level_hint(level),
                ..self.header_model()
            }),
            options.level() == level,
    {
        let mut options = self;
        options.header.set_compression_level(GZipCompressionLevel::from(level));
        options.level = level;
        options
    }
}

/// A gzip encoder over a sink of bytes.
///
/// The header is written to the sink when the encoder is made. The payload
/// is taken in by `write`, which keeps its checksum and its length up to
/// date with exactly the bytes it took. `finish` compresses the payload,
/// writes it and the trailer, and hands the sink back. An encoder that is
/// dropped without `finish` leaves no valid stream.
pub struct Encoder {
    header: Header,
    crc32: RunningCrc32,
    input_size: u32,
    level: CompressionLevel,
    payload: Vec<u8>,
    sink: Vec<u8>,
}

impl Encoder {
    /// The checksum and the length are those of the payload taken in.
    pub closed spec fn wf(&self) -> bool {
        &&& self.header.wf()
        &&& self.crc32.taken() == self.payload@
        &&& self.payload@.len() <= CRC32_CAPACITY
        &&& self.input_size == self.payload@.len()
    }

    /// The header that was written.
    pub closed spec fn header_model(&self) -> HeaderModel {
        self.header@
    }

    /// How hard the payload will be compressed.
    pub closed spec fn level(&self) -> CompressionLevel {
        self.level
    }

    /// The payload taken in so far.
    pub closed spec fn accepted(&self) -> Seq<u8> {
        self.payload@
    }

    /// What the sink holds.
    pub closed spec fn written(&self) -> Seq<u8> {
        self.sink@
    }

    /// An encoder with the options of `EncodeOptions::new`. This cannot
    /// fail.
    pub fn new(inner: Vec<u8>) -> (result: Result<Self, Error>)
        ensures
            result matches Ok(encoder) && encoder.wf() && encoder.header_model() == plain_header(
                encoder.header_model().modification_time,
            ) && encoder.level() == CompressionLevel::Balanced && encoder.written() == inner@
                + encoder.header_model().bytes() && encoder.accepted() == Seq::<u8>::empty(),
    {
        let options = EncodeOptions::new();
        proof {
            lemma_body_len(options.header_model());
        }
        Self::with_options(inner, &options)
    }

    /// An encoder that has written the header of `options` to `inner`. It
    /// fails, before anything is written, when that header cannot be
    /// written.
    pub fn with_options(inner: Vec<u8>, options: &EncodeOptions) -> (result: Result<Self, Error>)
        ensures
            match result {
                Ok(encoder) => {
                    &&& options.header_model().wf()
                    &&& encoder.wf()
                    &&& encoder.header_model() == options.header_model()
                    &&& encoder.level() == options.level()
                    &&& encoder.written() == inner@ + options.header_model().bytes()
                    &&& encoder.accepted() == Seq::<u8>::empty()
                },
                Err(e) => !options.header_model().wf() && e == Error::HeaderTooLarge,
            },
    {
        if !options.header.is_well_formed() {
            return Err(Error::HeaderTooLarge);
        }
        let mut inner = inner;
        options.header.write_to(&mut inner);
        Ok(
            Encoder {
                header: options.header.clone(),
                crc32: RunningCrc32::new(),
                input_size: 0,
                level: options.level,
                payload: Vec::new(),
                sink: inner,
            },
        )
    }

    pub fn header(&self) -> (header: &Header)
        ensures
            header@ == self.header_model(),
    {
        &self.header
    }

    /// Takes in as much of `buf` as the checksum has room for, and says how
    /// much that was. Only what was taken in goes into the checksum and the
    /// length.
    pub fn write(&mut self, buf: &[u8]) -> (result: Result<usize, Error>)
        requires
            old(self).wf(),
        ensures
            final(self).wf(),
            final(self).header_model() == old(self).header_model(),
            final(self).level() == old(self).level(),
            final(self).written() == old(self).written(),
            old(self).accepted().len() <= CRC32_CAPACITY,
            result matches Ok(taken) && taken == vstd::math::min(
                buf@.len() as int,
                CRC32_CAPACITY - old(self).accepted().len(),
            ) && final(self).accepted() == old(self).accepted() + buf@.take(taken as int),
    {
        let room = self.crc32.room() as usize;
        let taken = if buf.len() > room {
            room
        } else {
            buf.len()
        };
        let chunk = slice_subrange(buf, 0, taken);
        assert(chunk@ =~= buf@.take(taken as int));
        self.payload.extend_from_slice(chunk);
        self.crc32.update(chunk);
        self.input_size = self.input_size.wrapping_add(taken as u32);
        assert(self.crc32.taken() == self.payload@);
        assert(self.input_size == self.payload@.len());
        Ok(taken)
    }

    /// Does nothing: the payload is compressed by `finish`.
    pub fn flush(&mut self) -> (result: Result<(), Error>)
        requires
            old(self).wf(),
        ensures
            result is Ok,
            final(self).wf(),
            final(self).header_model() == old(self).header_model(),
            final(self).level() == old(self).level(),
            final(self).written() == old(self).written(),
            final(self).accepted() == old(self).accepted(),
    {
        Ok(())
    }

    /// Compresses the payload, writes it and the trailer to the sink, and
    /// hands the sink back. There is no error to report: the sink is a
    /// buffer.
    pub fn finish(self) -> (finish: Finish<Vec<u8>>)
        requires
            self.wf(),
        ensures
            finish.error() is None,
            finish.value()@ == self.written() + deflated(self.accepted(), self.level())
                + trailer_of(self.accepted()).bytes(),
    {
        let trailer = Trailer { crc32: self.crc32.value(), input_size: self.input_size };
        let compressed = deflate_bytes(self.payload.as_slice(), self.level);
        close_stream(self.sink, compressed.as_slice(), trailer)
    }
}

/// Ends a stream: writes the compressed payload and the trailer to the
/// sink, after what the sink holds, and hands the sink back.
pub fn close_stream(sink: Vec<u8>, compressed: &[u8], trailer: Trailer) -> (finish: Finish<Vec<u8>>)
    ensures
        finish.error() is None,
        finish.value()@ == sink@ + compressed@ + trailer.bytes(),
{
    let mut inner = sink;
    inner.extend_from_slice(compressed);
    trailer.write_to(&mut inner);
    Finish::new(inner, None)
}

} // verus!
