//! What can go wrong while a gzip stream is written or read.

use vstd::prelude::*;

verus! {

/// The errors of the gzip codec.
#[allow(inconsistent_fields)]
#[derive(Debug, Clone, Copy, PartialEq, Eq, Structural)]
pub enum Error {
    /// The stream ended before the field that was being read.
    UnexpectedEof,
    /// The stream does not start with the two bytes 31 and 139.
    InvalidMagic { first: u8, second: u8 },
    /// The compression method is not DEFLATE.
    UnsupportedMethod { method: u8 },
    /// The checksum stored in the header is not the checksum of the header.
    HeaderCrc16Mismatch { stored: u16, computed: u16 },
    /// The checksum stored in the trailer is not the checksum of the payload.
    Crc32Mismatch { stored: u32, computed: u32 },
    /// The decompressor rejected the compressed payload.
    InvalidDeflateStream,
    /// The header is longer than the format or the checksum can take.
    HeaderTooLarge,
    /// The payload is longer than the checksum can take.
    PayloadTooLarge,
}

impl Error {
    /// Whether the error says that the stream is not a well-formed gzip
    /// stream, as opposed to a failure of the source or of a delegate.
    pub open spec fn format(self) -> bool {
        self is InvalidMagic || self is UnsupportedMethod || self is HeaderCrc16Mismatch
            || self is Crc32Mismatch
    }

    /// Tells format errors from the rest.
    pub fn is_format_error(&self) -> (format: bool)
        ensures
            format == self.format(),
    {
        match self {
            Error::InvalidMagic { .. } => true,
            Error::UnsupportedMethod { .. } => true,
            Error::HeaderCrc16Mismatch { .. } => true,
            Error::Crc32Mismatch { .. } => true,
            _ => false,
        }
    }
}

} // verus!
