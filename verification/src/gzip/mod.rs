//! The gzip container: header, trailer, encoder and decoder.

pub mod decoder;
pub mod encoder;
pub mod error;
pub mod format;
pub mod header;
pub mod stream;
pub mod trailer;

pub use self::error::Error;
pub use self::header::ExtraField;
pub use self::header::GZipCompressionLevel;
pub use self::header::Header;
pub use self::header::NulFreeBytes;
pub use self::header::Os;
pub use self::trailer::Trailer;
pub use self::encoder::EncodeOptions;
pub use self::encoder::Encoder;
pub use self::decoder::decode_all;
pub use self::decoder::Decoder;
