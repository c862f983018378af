//! The DEFLATE compressor and decompressor that the gzip codec delegates to.
//!
//! Both are taken from other crates. What they return is not described here
//! beyond a name: the contracts of the codec speak of `deflated` and
//! `inflated` and say nothing of what these are on a given input.

use vstd::prelude::*;

verus! {

/// How hard the compressor should try.
#[derive(Debug, Clone, Copy, PartialEq, Eq, Hash, Structural)]
pub enum CompressionLevel {
    /// Fast, with little compression.
    Fast,
    /// The compressor's own middle setting.
    Balanced,
    /// Slow, with the most compression the compressor offers.
    Best,
}

impl Default for CompressionLevel {
    fn default() -> (level: Self)
        ensures
            level == CompressionLevel::Balanced,
    {
        CompressionLevel::Balanced
    }
}

/// The DEFLATE stream that the compressor makes of `input` at `level`.
pub uninterp spec fn deflated(input: Seq<u8>, level: CompressionLevel) -> Seq<u8>;

/// The bytes that the decompressor makes of the DEFLATE stream `data`, or
/// `None` where it reports an error.
pub uninterp spec fn inflated(data: Seq<u8>) -> Option<Seq<u8>>;

/// Trusted: `deflate::deflate_bytes_conf`, which compresses a whole buffer
/// into a new one. Its result is a function of the input and the level.
#[verifier::external_body]
pub(crate) fn deflate_bytes(input: &[u8], level: CompressionLevel) -> (out: Vec<u8>)
    ensures
        out@ == deflated(input@, level),
{
    let options = match level {
        CompressionLevel::Fast => deflate::Compression::Fast,
        CompressionLevel::Balanced => deflate::Compression::Default,
        CompressionLevel::Best => deflate::Compression::Best,
    };
    deflate::deflate_bytes_conf(input, options)
}

/// Trusted: `inflate::inflate_bytes`, which decompresses a whole buffer into
/// a new one or reports an error. Its result is a function of the input; the
/// text of the error is dropped.
#[verifier::external_body]
pub(crate) fn inflate_bytes(data: &[u8]) -> (out: Option<Vec<u8>>)
    ensures
        out is Some <==> inflated(data@) is Some,
        out is Some ==> out->Some_0@ == inflated(data@)->Some_0,
{
    inflate::inflate_bytes(data).ok()
}

} // verus!
