//! The gzip header: its fields, its bytes, and how the bytes are read back.
//!
//! The header is described twice. `HeaderModel` is the mathematical header,
//! with `bytes` (what it looks like in a stream) and `parse_header` (what a
//! stream says). `Header` is the value a program holds; its functions are
//! proved against the model.

use crate::bytes::{get_u16_le, get_u32_le, put_u16_le, put_u32_le, u16_le, u32_le};
use crate::compress::CompressionLevel;
use crate::gzip::format::{lemma_zero_at, lemma_zero_at_found, zero_at};
use crate::gzip::format::{parse_checksum, parse_cstring, parse_extra, parse_fields, parse_header};
use crate::crc::{crc32_of, RunningCrc32, CRC32_CAPACITY};
use crate::gzip::error::Error;
use vstd::prelude::*;
use vstd::slice::{slice_subrange, slice_to_vec};

verus! {

/// The first byte of every gzip stream.
pub const GZIP_ID1: u8 = 31;

/// The second byte of every gzip stream.
pub const GZIP_ID2: u8 = 139;

/// The only compression method there is: DEFLATE.
pub const COMPRESSION_METHOD_DEFLATE: u8 = 8;

/// Flag: the payload is probably text.
pub const F_TEXT: u8 = 0x01;

/// Flag: a checksum of the header follows the header.
pub const F_HCRC: u8 = 0x02;

/// Flag: an extra field is present.
pub const F_EXTRA: u8 = 0x04;

/// Flag: a file name is present.
pub const F_NAME: u8 = 0x08;

/// Flag: a comment is present.
pub const F_COMMENT: u8 = 0x10;

/// The longest payload of an extra field.
pub const MAX_EXTRA_LEN: usize = 0xffff;

/// The length of the part of the header that is always there.
pub const FIXED_LEN: usize = 10;

/// What the header says of the effort that went into the compression.
#[derive(Debug, Clone, Copy, PartialEq, Eq, Structural)]
pub enum GZipCompressionLevel {
    Fastest,
    Slowest,
    Unknown,
}

impl GZipCompressionLevel {
    /// The byte that stands for the level.
    pub open spec fn code(self) -> u8 {
        match self {
            GZipCompressionLevel::Fastest => 4,
            GZipCompressionLevel::Slowest => 2,
            GZipCompressionLevel::Unknown => 0,
        }
    }

    /// The level that a byte stands for: every byte but 4 and 2 is unknown.
    pub open spec fn of_code(code: u8) -> Self {
        if code == 4 {
            GZipCompressionLevel::Fastest
        } else if code == 2 {
            GZipCompressionLevel::Slowest
        } else {
            GZipCompressionLevel::Unknown
        }
    }

    pub fn to_u8(&self) -> (code: u8)
        ensures
            code == self.code(),
    {
        match *self {
            GZipCompressionLevel::Fastest => 4,
            GZipCompressionLevel::Slowest => 2,
            GZipCompressionLevel::Unknown => 0,
        }
    }

    pub fn from_u8(x: u8) -> (level: Self)
        ensures
            level == Self::of_code(x),
    {
        match x {
            4 => GZipCompressionLevel::Fastest,
            2 => GZipCompressionLevel::Slowest,
            _ => GZipCompressionLevel::Unknown,
        }
    }
}

impl From<CompressionLevel> for GZipCompressionLevel {
    /// What a header says of a payload compressed at `level`.
    fn from(level: CompressionLevel) -> (hint: Self) {
        match level {
            CompressionLevel::Fast => GZipCompressionLevel::Fastest,
            CompressionLevel::Best => GZipCompressionLevel::Slowest,
            CompressionLevel::Balanced => GZipCompressionLevel::Unknown,
        }
    }
}

impl vstd::std_specs::convert::FromSpecImpl<CompressionLevel> for GZipCompressionLevel {
    open spec fn obeys_from_spec() -> bool {
        true
    }

    open spec fn from_spec(level: CompressionLevel) -> Self {
        level_hint(level)
    }
}

/// What a header says of a payload compressed at `level`: the two ends of
/// the scale have a code, the middle has none.
pub open spec fn level_hint(level: CompressionLevel) -> GZipCompressionLevel {
    match level {
        CompressionLevel::Fast => GZipCompressionLevel::Fastest,
        CompressionLevel::Best => GZipCompressionLevel::Slowest,
        CompressionLevel::Balanced => GZipCompressionLevel::Unknown,
    }
}

/// The system on which a stream was made.
#[derive(Debug, Clone, Copy, PartialEq, Eq, Structural)]
pub enum Os {
    Fat,
    Amiga,
    Vms,
    Unix,
    VmCms,
    AtariTos,
    Hpfs,
    Macintosh,
    ZSystem,
    CpM,
    Tops20,
    Ntfs,
    Qdos,
    AcornRiscos,
    Unknown,
    /// A code that stands for no system of the list.
    Undefined(u8),
}

impl Os {
    /// The byte that stands for the system.
    pub open spec fn code(self) -> u8 {
        match self {
            Os::Fat => 0,
            Os::Amiga => 1,
            Os::Vms => 2,
            Os::Unix => 3,
            Os::VmCms => 4,
            Os::AtariTos => 5,
            Os::Hpfs => 6,
            Os::Macintosh => 7,
            Os::ZSystem => 8,
            Os::CpM => 9,
            Os::Tops20 => 10,
            Os::Ntfs => 11,
            Os::Qdos => 12,
            Os::AcornRiscos => 13,
            Os::Unknown => 255,
            Os::Undefined(raw) => raw,
        }
    }

    /// The system that a byte stands for.
    pub open spec fn of_code(code: u8) -> Self {
        if code == 0 {
            Os::Fat
        } else if code == 1 {
            Os::Amiga
        } else if code == 2 {
            Os::Vms
        } else if code == 3 {
            Os::Unix
        } else if code == 4 {
            Os::VmCms
        } else if code == 5 {
            Os::AtariTos
        } else if code == 6 {
            Os::Hpfs
        } else if code == 7 {
            Os::Macintosh
        } else if code == 8 {
            Os::ZSystem
        } else if code == 9 {
            Os::CpM
        } else if code == 10 {
            Os::Tops20
        } else if code == 11 {
            Os::Ntfs
        } else if code == 12 {
            Os::Qdos
        } else if code == 13 {
            Os::AcornRiscos
        } else if code == 255 {
            Os::Unknown
        } else {
            Os::Undefined(code)
        }
    }

    /// Whether the value is the one that its own code is read back as.
    /// `Undefined` with the code of a listed system is not.
    pub open spec fn canonical(self) -> bool {
        Self::of_code(self.code()) == self
    }

    pub fn to_u8(&self) -> (code: u8)
        ensures
            code == self.code(),
    {
        match *self {
            Os::Fat => 0,
            Os::Amiga => 1,
            Os::Vms => 2,
            Os::Unix => 3,
            Os::VmCms => 4,
            Os::AtariTos => 5,
            Os::Hpfs => 6,
            Os::Macintosh => 7,
            Os::ZSystem => 8,
            Os::CpM => 9,
            Os::Tops20 => 10,
            Os::Ntfs => 11,
            Os::Qdos => 12,
            Os::AcornRiscos => 13,
            Os::Unknown => 255,
            Os::Undefined(os) => os,
        }
    }

    pub fn from_u8(x: u8) -> (os: Self)
        ensures
            os == Self::of_code(x),
            os.canonical(),
            os.code() == x,
    {
        match x {
            0 => Os::Fat,
            1 => Os::Amiga,
            2 => Os::Vms,
            3 => Os::Unix,
            4 => Os::VmCms,
            5 => Os::AtariTos,
            6 => Os::Hpfs,
            7 => Os::Macintosh,
            8 => Os::ZSystem,
            9 => Os::CpM,
            10 => Os::Tops20,
            11 => Os::Ntfs,
            12 => Os::Qdos,
            13 => Os::AcornRiscos,
            255 => Os::Unknown,
            os => Os::Undefined(os),
        }
    }
}

/// Whether no byte of `bytes` is zero.
pub open spec fn nul_free(bytes: Seq<u8>) -> bool {
    forall|i: int| 0 <= i < bytes.len() ==> bytes[i] != 0
}

/// A byte string without a zero byte, as a file name or a comment must be to
/// stand in a header, where a zero byte ends it.
#[derive(Debug)]
pub struct NulFreeBytes {
    bytes: Vec<u8>,
}

impl View for NulFreeBytes {
    type V = Seq<u8>;

    closed spec fn view(&self) -> Seq<u8> {
        self.bytes@
    }
}

impl NulFreeBytes {
    #[verifier::type_invariant]
    spec fn inv(self) -> bool {
        nul_free(self.bytes@)
    }

    /// Keeps `bytes` if none of them is zero.
    pub fn new(bytes: Vec<u8>) -> (made: Option<Self>)
        ensures
            nul_free(bytes@) <==> made is Some,
            made is Some ==> made->Some_0@ == bytes@,
    {
        let mut i: usize = 0;
        while i < bytes.len()
            invariant
                i <= bytes.len(),
                nul_free(bytes@.take(i as int)),
            decreases bytes.len() - i,
        {
            if bytes[i] == 0 {
                return None;
            }
            i = i + 1;
        }
        assert(bytes@.take(bytes.len() as int) =~= bytes@);
        Some(NulFreeBytes { bytes })
    }

    /// Keeps bytes that are known to hold no zero.
    pub(crate) fn from_nul_free(bytes: Vec<u8>) -> (made: Self)
        requires
            nul_free(bytes@),
        ensures
            made@ == bytes@,
    {
        NulFreeBytes { bytes }
    }

    /// The bytes, without a zero at the end.
    pub fn as_bytes(&self) -> (bytes: &[u8])
        ensures
            bytes@ == self@,
            nul_free(self@),
    {
        proof {
            use_type_invariant(self);
        }
        self.bytes.as_slice()
    }

    pub fn len(&self) -> (len: usize)
        ensures
            len == self@.len(),
    {
        self.bytes.len()
    }
}

impl Clone for NulFreeBytes {
    fn clone(&self) -> (copy: Self)
        ensures
            copy@ == self@,
    {
        proof {
            use_type_invariant(self);
        }
        NulFreeBytes { bytes: slice_to_vec(self.bytes.as_slice()) }
    }
}

/// The mathematical extra field.
pub struct ExtraFieldModel {
    pub id: Seq<u8>,
    pub data: Seq<u8>,
}

/// An extra field: two bytes that say what it is, and its payload.
#[derive(Debug)]
pub struct ExtraField {
    pub id: [u8; 2],
    pub data: Vec<u8>,
}

impl View for ExtraField {
    type V = ExtraFieldModel;

    open spec fn view(&self) -> ExtraFieldModel {
        ExtraFieldModel { id: self.id@, data: self.data@ }
    }
}

impl Clone for ExtraField {
    fn clone(&self) -> (copy: Self)
        ensures
            copy@ == self@,
    {
        ExtraField { id: self.id, data: slice_to_vec(self.data.as_slice()) }
    }
}

/// The mathematical header.
pub struct HeaderModel {
    pub modification_time: u32,
    pub compression_level: GZipCompressionLevel,
    pub os: Os,
    pub is_text: bool,
    pub is_verified: bool,
    pub extra_field: Option<ExtraFieldModel>,
    pub filename: Option<Seq<u8>>,
    pub comment: Option<Seq<u8>>,
}

/// The low 16 bits of `crc32`.
pub open spec fn low_half(crc32: u32) -> u16 {
    (crc32 & 0xffff) as u16
}

/// The checksum of a header whose bytes have the CRC-32 `crc32`: its low 16
/// bits.
pub fn crc16_from_crc32(crc32: u32) -> (crc16: u16)
    ensures
        crc16 == low_half(crc32),
{
    assert(crc32 & 0xffff <= 0xffff) by (bit_vector);
    (crc32 & 0xffff) as u16
}

/// The bit `bit` if `present`, no bit otherwise.
pub open spec fn flag(present: bool, bit: u8) -> u8 {
    if present {
        bit
    } else {
        0
    }
}

/// The bytes of a string in a header: the string, then a zero.
pub open spec fn cstring_bytes(string: Option<Seq<u8>>) -> Seq<u8> {
    match string {
        Some(bytes) => bytes.push(0u8),
        None => Seq::empty(),
    }
}

/// The bytes of an extra field in a header: the id, the length of the
/// payload in two bytes, the payload.
pub open spec fn extra_bytes(extra: Option<ExtraFieldModel>) -> Seq<u8> {
    match extra {
        Some(field) => field.id + u16_le(field.data.len() as u16) + field.data,
        None => Seq::empty(),
    }
}

impl HeaderModel {
    /// The flags byte: one bit for each thing that is present, and no other.
    pub open spec fn flags(self) -> u8 {
        flag(self.is_text, F_TEXT) | flag(self.is_verified, F_HCRC) | flag(
            self.extra_field is Some,
            F_EXTRA,
        ) | flag(self.filename is Some, F_NAME) | flag(self.comment is Some, F_COMMENT)
    }

    /// The ten bytes that every header starts with.
    pub open spec fn fixed(self) -> Seq<u8> {
        seq![GZIP_ID1, GZIP_ID2, COMPRESSION_METHOD_DEFLATE, self.flags()] + u32_le(
            self.modification_time,
        ) + seq![self.compression_level.code(), self.os.code()]
    }

    /// The header without the checksum at its end.
    pub open spec fn body(self) -> Seq<u8> {
        self.fixed() + extra_bytes(self.extra_field) + cstring_bytes(self.filename)
            + cstring_bytes(self.comment)
    }

    /// The same header, taken as not verified.
    pub open spec fn unverified(self) -> Self {
        HeaderModel { is_verified: false, ..self }
    }

    /// The same header, taken as verified.
    pub open spec fn verified(self) -> Self {
        HeaderModel { is_verified: true, ..self }
    }

    /// The checksum of the header: the low 16 bits of the CRC-32 of the
    /// header as it would be written if it were not verified.
    pub open spec fn crc16(self) -> u16 {
        (crc32_of(self.unverified().body()) & 0xffff) as u16
    }

    /// The header as it stands in a stream.
    pub open spec fn bytes(self) -> Seq<u8> {
        if self.is_verified {
            self.body() + u16_le(self.crc16())
        } else {
            self.body()
        }
    }

    /// Whether each field can be written: the extra field has an id of two
    /// bytes and a payload whose length fits in two bytes, and no string
    /// holds a zero.
    pub open spec fn fields_wf(self) -> bool {
        &&& self.extra_field matches Some(field) ==> field.id.len() == 2 && field.data.len()
            <= MAX_EXTRA_LEN
        &&& self.filename matches Some(name) ==> nul_free(name)
        &&& self.comment matches Some(comment) ==> nul_free(comment)
    }

    /// Whether the header can be written: each field can, and the whole is
    /// short enough for its checksum to be taken.
    pub open spec fn wf(self) -> bool {
        self.fields_wf() && self.body().len() <= CRC32_CAPACITY
    }
}

/// Each flag bit is set exactly when what it stands for is present, and no
/// other bit is set.
pub proof fn lemma_flags_bits(header: HeaderModel)
    ensures
        header.flags() & F_TEXT != 0 <==> header.is_text,
        header.flags() & F_HCRC != 0 <==> header.is_verified,
        header.flags() & F_EXTRA != 0 <==> header.extra_field is Some,
        header.flags() & F_NAME != 0 <==> header.filename is Some,
        header.flags() & F_COMMENT != 0 <==> header.comment is Some,
        header.flags() & 0xe0 == 0,
{
    let a = flag(header.is_text, F_TEXT);
    let b = flag(header.is_verified, F_HCRC);
    let c = flag(header.extra_field is Some, F_EXTRA);
    let d = flag(header.filename is Some, F_NAME);
    let e = flag(header.comment is Some, F_COMMENT);
    assert(((a | b | c | d | e) & 0x01 != 0 <==> a != 0) && ((a | b | c | d | e) & 0x02 != 0 <==> b
        != 0) && ((a | b | c | d | e) & 0x04 != 0 <==> c != 0) && ((a | b | c | d | e) & 0x08 != 0
        <==> d != 0) && ((a | b | c | d | e) & 0x10 != 0 <==> e != 0) && (a | b | c | d | e) & 0xe0
        == 0) by (bit_vector)
        requires
            a == 0 || a == 0x01,
            b == 0 || b == 0x02,
            c == 0 || c == 0x04,
            d == 0 || d == 0x08,
            e == 0 || e == 0x10,
    ;
}

/// The checksum of a header is a function of its fields other than
/// `is_verified`: headers that agree on those have the same checksum, and
/// taking the checksum of the same header again gives the same value.
pub proof fn lemma_crc16_stable(first: HeaderModel, second: HeaderModel)
    requires
        first.unverified() == second.unverified(),
    ensures
        first.crc16() == second.crc16(),
{
    assert(first.unverified().unverified() == first.unverified());
}

/// Whether a header is verified changes neither its checksum, nor whether
/// it can be written, nor the length of what stands before the checksum.
pub proof fn lemma_crc16_ignores_verification(header: HeaderModel)
    ensures
        header.verified().crc16() == header.crc16(),
        header.unverified().crc16() == header.crc16(),
        header.verified().wf() == header.wf(),
        header.unverified().wf() == header.wf(),
        header.verified().body().len() == header.body().len(),
        header.unverified().body().len() == header.body().len(),
{
    assert(header.verified().unverified() == header.unverified());
    assert(header.unverified().unverified() == header.unverified());
}

/// A gzip header.
#[derive(Debug)]
pub struct Header {
    modification_time: u32,
    compression_level: GZipCompressionLevel,
    os: Os,
    is_text: bool,
    is_verified: bool,
    extra_field: Option<ExtraField>,
    filename: Option<NulFreeBytes>,
    comment: Option<NulFreeBytes>,
}

impl View for Header {
    type V = HeaderModel;

    closed spec fn view(&self) -> HeaderModel {
        HeaderModel {
            modification_time: self.modification_time,
            compression_level: self.compression_level,
            os: self.os,
            is_text: self.is_text,
            is_verified: self.is_verified,
            extra_field: match self.extra_field {
                Some(field) => Some(field@),
                None => None,
            },
            filename: match self.filename {
                Some(name) => Some(name@),
                None => None,
            },
            comment: match self.comment {
                Some(comment) => Some(comment@),
                None => None,
            },
        }
    }
}

impl Clone for Header {
    fn clone(&self) -> (copy: Self)
        ensures
            copy@ == self@,
    {
        Header {
            modification_time: self.modification_time,
            compression_level: self.compression_level,
            os: self.os,
            is_text: self.is_text,
            is_verified: self.is_verified,
            extra_field: match &self.extra_field {
                Some(field) => Some(field.clone()),
                None => None,
            },
            filename: match &self.filename {
                Some(name) => Some(name.clone()),
                None => None,
            },
            comment: match &self.comment {
                Some(comment) => Some(comment.clone()),
                None => None,
            },
        }
    }
}

impl Header {
    pub(crate) fn set_modification_time(&mut self, unix_time_secs: u32)
        ensures
            final(self)@ == (HeaderModel { modification_time: unix_time_secs, ..old(self)@ }),
    {
        self.modification_time = unix_time_secs;
    }

    pub(crate) fn set_compression_level(&mut self, level: GZipCompressionLevel)
        ensures
            final(self)@ == (HeaderModel { compression_level: level, ..old(self)@ }),
    {
        self.compression_level = level;
    }

    pub(crate) fn set_os(&mut self, os: Os)
        ensures
            final(self)@ == (HeaderModel { os, ..old(self)@ }),
    {
        self.os = os;
    }

    pub(crate) fn set_text(&mut self)
        ensures
            final(self)@ == (HeaderModel { is_text: true, ..old(self)@ }),
    {
        self.is_text = true;
    }

    pub(crate) fn set_verified(&mut self)
        ensures
            final(self)@ == (HeaderModel { is_verified: true, ..old(self)@ }),
    {
        self.is_verified = true;
    }

    pub(crate) fn set_extra_field(&mut self, extra: ExtraField)
        ensures
            final(self)@ == (HeaderModel { extra_field: Some(extra@), ..old(self)@ }),
    {
        self.extra_field = Some(extra);
    }

    pub(crate) fn set_filename(&mut self, filename: NulFreeBytes)
        ensures
            final(self)@ == (HeaderModel { filename: Some(filename@), ..old(self)@ }),
    {
        self.filename = Some(filename);
    }

    pub(crate) fn set_comment(&mut self, comment: NulFreeBytes)
        ensures
            final(self)@ == (HeaderModel { comment: Some(comment@), ..old(self)@ }),
    {
        self.comment = Some(comment);
    }
}

/// The header of a stream made on Unix at `modification_time`, with
/// nothing optional.
pub open spec fn plain_header(modification_time: u32) -> HeaderModel {
    HeaderModel {
        modification_time,
        compression_level: GZipCompressionLevel::Unknown,
        os: Os::Unix,
        is_text: false,
        is_verified: false,
        extra_field: None,
        filename: None,
        comment: None,
    }
}

/// Trusted: `std::time::SystemTime::elapsed` on `UNIX_EPOCH`: the time since
/// 1970 by the clock of the machine, or nothing when the clock is before
/// that. Nothing is claimed of it.
#[verifier::external_body]
fn elapsed_since_epoch() -> Option<core::time::Duration> {
    std::time::UNIX_EPOCH.elapsed().ok()
}

/// Trusted: `core::time::Duration::as_secs`: the whole seconds in a span of
/// time. Nothing is claimed of it.
#[verifier::external_body]
fn whole_seconds(elapsed: &core::time::Duration) -> u64 {
    elapsed.as_secs()
}

impl Default for Header {
    /// A header for a stream made now, on Unix, with nothing optional. The
    /// modification time is what the clock says, and is not specified.
    fn default() -> (header: Self)
        ensures
            header@ == plain_header(header@.modification_time),
            header.wf(),
    {
        let modification_time = match elapsed_since_epoch() {
            Some(elapsed) => #[verifier::truncate]
            (whole_seconds(&elapsed) as u32),
            None => 0,
        };
        let header = Header {
            modification_time,
            compression_level: GZipCompressionLevel::Unknown,
            os: Os::Unix,
            is_text: false,
            is_verified: false,
            extra_field: None,
            filename: None,
            comment: None,
        };
        proof {
            lemma_body_len(header@);
        }
        header
    }
}

/// The length of the header without its checksum.
pub open spec fn body_len(header: HeaderModel) -> int {
    FIXED_LEN + (match header.extra_field {
        Some(field) => field.id.len() + 2 + field.data.len(),
        None => 0,
    }) + (match header.filename {
        Some(name) => name.len() + 1,
        None => 0,
    }) + (match header.comment {
        Some(comment) => comment.len() + 1,
        None => 0,
    })
}

/// `body_len` is the length of `body`.
pub proof fn lemma_body_len(header: HeaderModel)
    ensures
        header.body().len() == body_len(header),
        header.fixed().len() == FIXED_LEN,
{
}

impl Header {
    /// Whether the header can be written.
    pub open spec fn wf(&self) -> bool {
        self@.wf()
    }

    pub fn modification_time(&self) -> (time: u32)
        ensures
            time == self@.modification_time,
    {
        self.modification_time
    }

    pub fn compression_level(&self) -> (level: GZipCompressionLevel)
        ensures
            level == self@.compression_level,
    {
        self.compression_level
    }

    pub fn os(&self) -> (os: Os)
        ensures
            os == self@.os,
    {
        self.os
    }

    pub fn is_text(&self) -> (is_text: bool)
        ensures
            is_text == self@.is_text,
    {
        self.is_text
    }

    pub fn is_verified(&self) -> (is_verified: bool)
        ensures
            is_verified == self@.is_verified,
    {
        self.is_verified
    }

    pub fn extra_field(&self) -> (field: Option<&ExtraField>)
        ensures
            field is Some <==> self@.extra_field is Some,
            field is Some ==> field->Some_0@ == self@.extra_field->Some_0,
    {
        self.extra_field.as_ref()
    }

    pub fn filename(&self) -> (name: Option<&NulFreeBytes>)
        ensures
            name is Some <==> self@.filename is Some,
            name is Some ==> name->Some_0@ == self@.filename->Some_0,
    {
        self.filename.as_ref()
    }

    pub fn comment(&self) -> (comment: Option<&NulFreeBytes>)
        ensures
            comment is Some <==> self@.comment is Some,
            comment is Some ==> comment->Some_0@ == self@.comment->Some_0,
    {
        self.comment.as_ref()
    }

    /// The flags byte.
    pub fn flags(&self) -> (flags: u8)
        ensures
            flags == self@.flags(),
            flags & F_TEXT != 0 <==> self@.is_text,
            flags & F_HCRC != 0 <==> self@.is_verified,
            flags & F_EXTRA != 0 <==> self@.extra_field is Some,
            flags & F_NAME != 0 <==> self@.filename is Some,
            flags & F_COMMENT != 0 <==> self@.comment is Some,
    {
        proof {
            lemma_flags_bits(self@);
        }
        self.flags_as(self.is_verified)
    }

    /// The flags byte that the header would have if `verified` said whether
    /// it is verified.
    fn flags_as(&self, verified: bool) -> (flags: u8)
        ensures
            flags == (HeaderModel { is_verified: verified, ..self@ }).flags(),
    {
        let text: u8 = if self.is_text {
            F_TEXT
        } else {
            0
        };
        let hcrc: u8 = if verified {
            F_HCRC
        } else {
            0
        };
        let extra: u8 = if self.extra_field.is_some() {
            F_EXTRA
        } else {
            0
        };
        let name: u8 = if self.filename.is_some() {
            F_NAME
        } else {
            0
        };
        let comment: u8 = if self.comment.is_some() {
            F_COMMENT
        } else {
            0
        };
        text | hcrc | extra | name | comment
    }
}

impl ExtraField {
    /// Whether the field can be written: its payload has a length that fits
    /// in two bytes.
    pub open spec fn wf(&self) -> bool {
        self.data@.len() <= MAX_EXTRA_LEN
    }

    /// Appends the field to `out` as it stands in a header.
    pub fn write_to(&self, out: &mut Vec<u8>)
        requires
            self.wf(),
        ensures
            final(out)@ == old(out)@ + extra_bytes(Some(self@)),
    {
        out.push(self.id[0]);
        out.push(self.id[1]);
        put_u16_le(out, self.data.len() as u16);
        out.extend_from_slice(self.data.as_slice());
        assert(out@ =~= old(out)@ + extra_bytes(Some(self@)));
    }

    /// Reads the field that starts at `at`, and says where it ends.
    pub fn read_from(input: &[u8], at: usize) -> (result: Result<(ExtraField, usize), Error>)
        requires
            at <= input@.len(),
        ensures
            match result {
                Ok((field, next)) => parse_extra(input@, at as int, true) == Ok::<
                    (Option<ExtraFieldModel>, int),
                    Error,
                >((Some(field@), next as int)) && field.wf() && next <= input@.len(),
                Err(e) => parse_extra(input@, at as int, true) == Err::<
                    (Option<ExtraFieldModel>, int),
                    Error,
                >(e),
            },
    {
        if input.len() - at < 4 {
            return Err(Error::UnexpectedEof);
        }
        let id = [input[at], input[at + 1]];
        let len = match get_u16_le(input, at + 2) {
            Some(len) => len as usize,
            None => {
                return Err(Error::UnexpectedEof);
            },
        };
        if input.len() - at - 4 < len {
            return Err(Error::UnexpectedEof);
        }
        let data = slice_to_vec(slice_subrange(input, at + 4, at + 4 + len));
        let field = ExtraField { id, data };
        assert(field@.id =~= input@.subrange(at as int, at + 2));
        Ok((field, at + 4 + len))
    }
}

/// Reads the string that starts at `at` and ends before the next zero byte,
/// and says where the byte after that zero is.
pub fn read_cstring(input: &[u8], at: usize) -> (result: Result<(NulFreeBytes, usize), Error>)
    requires
        at <= input@.len(),
    ensures
        match result {
            Ok((string, next)) => parse_cstring(input@, at as int, true) == Ok::<
                (Option<Seq<u8>>, int),
                Error,
            >((Some(string@), next as int)) && next <= input@.len(),
            Err(e) => parse_cstring(input@, at as int, true) == Err::<
                (Option<Seq<u8>>, int),
                Error,
            >(e),
        },
{
    let mut buf: Vec<u8> = Vec::new();
    let mut i: usize = at;
    while i < input.len()
        invariant
            at <= i <= input@.len(),
            buf@ == input@.subrange(at as int, i as int),
            nul_free(buf@),
        decreases input@.len() - i,
    {
        let b = input[i];
        if b == 0 {
            proof {
                assert forall|k: int| at <= k < i implies input@[k] != 0 by {
                    assert(buf@[k - at] == input@[k]);
                }
                lemma_zero_at_found(input@, at as int, i as int);
            }
            return Ok((NulFreeBytes::from_nul_free(buf), i + 1));
        }
        buf.push(b);
        assert(buf@ =~= input@.subrange(at as int, i + 1));
        i = i + 1;
    }
    proof {
        lemma_zero_at(input@, at as int);
        if zero_at(input@, at as int) < input@.len() {
            let z = zero_at(input@, at as int);
            assert(buf@[z - at] == input@[z]);
        }
    }
    Err(Error::UnexpectedEof)
}

/// What an optional extra field stands for.
pub open spec fn extra_model(field: Option<ExtraField>) -> Option<ExtraFieldModel> {
    match field {
        Some(field) => Some(field@),
        None => None,
    }
}

/// What an optional string stands for.
pub open spec fn string_model(string: Option<NulFreeBytes>) -> Option<Seq<u8>> {
    match string {
        Some(string) => Some(string@),
        None => None,
    }
}

impl Header {
    /// Tells whether the header can be written.
    pub fn is_well_formed(&self) -> (ok: bool)
        ensures
            ok == self.wf(),
    {
        proof {
            lemma_body_len(self@);
        }
        let mut total: u64 = FIXED_LEN as u64;
        match &self.extra_field {
            Some(field) => {
                if field.data.len() > MAX_EXTRA_LEN {
                    return false;
                }
                total = total + 4 + field.data.len() as u64;
            },
            None => {},
        }
        match &self.filename {
            Some(name) => {
                let bytes = name.as_bytes();
                if bytes.len() > CRC32_CAPACITY as usize {
                    return false;
                }
                total = total + 1 + bytes.len() as u64;
            },
            None => {},
        }
        match &self.comment {
            Some(comment) => {
                let bytes = comment.as_bytes();
                if bytes.len() > CRC32_CAPACITY as usize {
                    return false;
                }
                total = total + 1 + bytes.len() as u64;
            },
            None => {},
        }
        total <= CRC32_CAPACITY as u64
    }

    /// Appends the header without its checksum, with the checksum flag as
    /// `verified` says.
    fn write_body(&self, out: &mut Vec<u8>, verified: bool)
        requires
            self.wf(),
        ensures
            final(out)@ == old(out)@ + (HeaderModel { is_verified: verified, ..self@ }).body(),
    {
        let ghost model = HeaderModel { is_verified: verified, ..self@ };
        out.push(GZIP_ID1);
        out.push(GZIP_ID2);
        out.push(COMPRESSION_METHOD_DEFLATE);
        out.push(self.flags_as(verified));
        put_u32_le(out, self.modification_time);
        out.push(self.compression_level.to_u8());
        out.push(self.os.to_u8());
        assert(out@ =~= old(out)@ + model.fixed());
        match &self.extra_field {
            Some(field) => {
                field.write_to(out);
            },
            None => {},
        }
        assert(out@ =~= old(out)@ + model.fixed() + extra_bytes(model.extra_field));
        match &self.filename {
            Some(name) => {
                out.extend_from_slice(name.as_bytes());
                out.push(0);
            },
            None => {},
        }
        assert(out@ =~= old(out)@ + model.fixed() + extra_bytes(model.extra_field) + cstring_bytes(
            model.filename,
        ));
        match &self.comment {
            Some(comment) => {
                out.extend_from_slice(comment.as_bytes());
                out.push(0);
            },
            None => {},
        }
        assert(out@ =~= old(out)@ + model.body());
    }

    /// The checksum of the header: the low 16 bits of the CRC-32 of its
    /// bytes, written as if the header were not verified.
    pub fn crc16(&self) -> (crc: u16)
        requires
            self.wf(),
        ensures
            crc == self@.crc16(),
    {
        let mut buf: Vec<u8> = Vec::new();
        self.write_body(&mut buf, false);
        assert(buf@ =~= self@.unverified().body());
        proof {
            lemma_crc16_ignores_verification(self@);
        }
        let mut crc = RunningCrc32::new();
        crc.update(buf.as_slice());
        assert(crc.taken() =~= buf@);
        crc16_from_crc32(crc.value())
    }

    /// Appends the header to `out` as it stands in a stream.
    pub fn write_to(&self, out: &mut Vec<u8>)
        requires
            self.wf(),
        ensures
            final(out)@ == old(out)@ + self@.bytes(),
    {
        self.write_body(out, self.is_verified);
        assert((HeaderModel { is_verified: self@.is_verified, ..self@ }) == self@);
        if self.is_verified {
            put_u16_le(out, self.crc16());
        }
        assert(out@ =~= old(out)@ + self@.bytes());
    }

    /// Reads the optional fields of a stream whose first ten bytes are
    /// there and name gzip and DEFLATE, then the checksum if there is one.
    fn read_fields(input: &[u8]) -> (result: Result<(Header, usize), Error>)
        requires
            input@.len() >= FIXED_LEN,
        ensures
            match result {
                Ok((header, len)) => parse_fields(input@) == Ok::<(HeaderModel, int), Error>(
                    (header@, len as int),
                ) && header.wf() && header@.os.canonical() && len <= input@.len(),
                Err(e) => parse_fields(input@) == Err::<(HeaderModel, int), Error>(e),
            },
    {
        let flags = input[3];
        let (extra_field, after_extra) = match read_optional_extra(
            input,
            FIXED_LEN,
            flags & F_EXTRA != 0,
        ) {
            Ok(read) => read,
            Err(e) => {
                return Err(e);
            },
        };
        let (filename, after_name) = match read_optional_cstring(
            input,
            after_extra,
            flags & F_NAME != 0,
        ) {
            Ok(read) => read,
            Err(e) => {
                return Err(e);
            },
        };
        let (comment, after_comment) = match read_optional_cstring(
            input,
            after_name,
            flags & F_COMMENT != 0,
        ) {
            Ok(read) => read,
            Err(e) => {
                return Err(e);
            },
        };
        let modification_time = match get_u32_le(input, 4) {
            Some(time) => time,
            None => {
                return Err(Error::UnexpectedEof);
            },
        };
        let this = Header {
            modification_time,
            compression_level: GZipCompressionLevel::from_u8(input[8]),
            os: Os::from_u8(input[9]),
            is_text: flags & F_TEXT != 0,
            is_verified: false,
            extra_field,
            filename,
            comment,
        };
        proof {
            lemma_body_len(this@);
        }
        this.read_checksum(input, after_comment, flags & F_HCRC != 0)
    }

    /// Ends the reading of a header whose fields are read: judges its
    /// length, and with `present` the checksum that stands at `at`.
    fn read_checksum(self, input: &[u8], at: usize, present: bool) -> (result: Result<
        (Header, usize),
        Error,
    >)
        requires
            self@.fields_wf(),
            self@.body().len() == at,
            !self@.is_verified,
            at <= input@.len(),
        ensures
            match result {
                Ok((header, len)) => parse_checksum(input@, at as int, self@, present) == Ok::<
                    (HeaderModel, int),
                    Error,
                >((header@, len as int)) && header.wf() && header@.os == self@.os && len
                    <= input@.len(),
                Err(e) => parse_checksum(input@, at as int, self@, present) == Err::<
                    (HeaderModel, int),
                    Error,
                >(e),
            },
    {
        if at > CRC32_CAPACITY as usize {
            return Err(Error::HeaderTooLarge);
        }
        if !present {
            return Ok((self, at));
        }
        let stored = match get_u16_le(input, at) {
            Some(stored) => stored,
            None => {
                return Err(Error::UnexpectedEof);
            },
        };
        let end = input.len();
        assert(at + 2 <= end);
        let computed = self.crc16();
        proof {
            lemma_crc16_ignores_verification(self@);
        }
        match self.accept_checksum(stored, computed) {
            Ok(this) => Ok((this, at + 2)),
            Err(e) => Err(e),
        }
    }

    /// Takes the header as verified when `stored`, the checksum that stood
    /// after it, is `computed`, the checksum of the header itself, and
    /// refuses it otherwise.
    pub fn accept_checksum(self, stored: u16, computed: u16) -> (result: Result<Header, Error>)
        ensures
            stored == computed ==> (result matches Ok(header) && header@ == self@.verified()),
            stored != computed ==> result == Err::<Header, Error>(
                Error::HeaderCrc16Mismatch { stored, computed },
            ),
    {
        if stored != computed {
            return Err(Error::HeaderCrc16Mismatch { stored, computed });
        }
        let mut this = self;
        this.is_verified = true;
        Ok(this)
    }

    /// Reads the header that `input` starts with, and says how long it is.
    /// The error is the first thing that is wrong with `input`.
    pub fn read_from(input: &[u8]) -> (result: Result<(Header, usize), Error>)
        ensures
            match result {
                Ok((header, len)) => parse_header(input@) == Ok::<(HeaderModel, int), Error>(
                    (header@, len as int),
                ) && header.wf() && header@.os.canonical() && len <= input@.len(),
                Err(e) => parse_header(input@) == Err::<(HeaderModel, int), Error>(e),
            },
    {
        if input.len() < 2 {
            return Err(Error::UnexpectedEof);
        }
        if input[0] != GZIP_ID1 || input[1] != GZIP_ID2 {
            return Err(Error::InvalidMagic { first: input[0], second: input[1] });
        }
        if input.len() < 3 {
            return Err(Error::UnexpectedEof);
        }
        let compression_method = input[2];
        if compression_method != COMPRESSION_METHOD_DEFLATE {
            return Err(Error::UnsupportedMethod { method: compression_method });
        }
        if input.len() < FIXED_LEN {
            return Err(Error::UnexpectedEof);
        }
        Header::read_fields(input)
    }
}

/// Reads the extra field at `at` if one is `present`.
fn read_optional_extra(input: &[u8], at: usize, present: bool) -> (result: Result<
    (Option<ExtraField>, usize),
    Error,
>)
    requires
        at <= input@.len(),
    ensures
        match result {
            Ok((field, next)) => parse_extra(input@, at as int, present) == Ok::<
                (Option<ExtraFieldModel>, int),
                Error,
            >((extra_model(field), next as int)) && next <= input@.len() && next - at
                == extra_bytes(extra_model(field)).len() && (field matches Some(f) ==> f.wf()),
            Err(e) => parse_extra(input@, at as int, present) == Err::<
                (Option<ExtraFieldModel>, int),
                Error,
            >(e),
        },
{
    if !present {
        return Ok((None, at));
    }
    match ExtraField::read_from(input, at) {
        Ok((field, next)) => Ok((Some(field), next)),
        Err(e) => Err(e),
    }
}

/// Reads the string at `at` if one is `present`.
fn read_optional_cstring(input: &[u8], at: usize, present: bool) -> (result: Result<
    (Option<NulFreeBytes>, usize),
    Error,
>)
    requires
        at <= input@.len(),
    ensures
        match result {
            Ok((string, next)) => parse_cstring(input@, at as int, present) == Ok::<
                (Option<Seq<u8>>, int),
                Error,
            >((string_model(string), next as int)) && next <= input@.len() && next - at
                == cstring_bytes(string_model(string)).len() && (string matches Some(s)
                ==> nul_free(s@)),
            Err(e) => parse_cstring(input@, at as int, present) == Err::<
                (Option<Seq<u8>>, int),
                Error,
            >(e),
        },
{
    if !present {
        return Ok((None, at));
    }
    match read_cstring(input, at) {
        Ok((string, next)) => {
            proof {
                lemma_zero_at(input@, at as int);
            }
            let bytes = string.as_bytes();
            Ok((Some(string), next))
        },
        Err(e) => Err(e),
    }
}

} // verus!
