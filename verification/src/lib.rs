//! A gzip container codec layered over a pluggable LZ77 code abstraction.
//!
//! Every function in this crate carries a contract that is checked by Verus.
//! The items that call into other crates are marked as trusted in their
//! documentation; everything else is proved.

pub mod bytes;
pub mod compress;
pub mod crc;
pub mod finish;
pub mod gzip;
pub mod lz77;

pub use crate::finish::Finish;
