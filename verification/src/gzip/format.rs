//! What a stream says: the header that a sequence of bytes starts with.
//!
//! `parse_header` is the meaning of the bytes at the start of a stream. It
//! names the error for every stream that holds no header, in the order in
//! which the fields stand, and it is the inverse of `HeaderModel::bytes`.

use crate::bytes::{le_u16, le_u32, lemma_u16_le_round_trip, lemma_u32_le_round_trip, u16_le, u32_le};
use crate::crc::CRC32_CAPACITY;
use crate::gzip::error::Error;
use crate::gzip::header::{cstring_bytes, extra_bytes, lemma_body_len, lemma_flags_bits, nul_free};
use crate::gzip::header::{ExtraFieldModel, GZipCompressionLevel, HeaderModel, Os};
use crate::gzip::header::{COMPRESSION_METHOD_DEFLATE, FIXED_LEN, GZIP_ID1, GZIP_ID2};
use crate::gzip::header::{F_COMMENT, F_EXTRA, F_HCRC, F_NAME, F_TEXT};
use vstd::prelude::*;

verus! {

/// The place of the first zero byte of `s` at or after `from`, or the length
/// of `s` when there is none.
pub open spec fn zero_at(s: Seq<u8>, from: int) -> int
    decreases s.len() - from,
{
    if from < 0 || from >= s.len() {
        s.len() as int
    } else if s[from] == 0 {
        from
    } else {
        zero_at(s, from + 1)
    }
}

/// `zero_at` is at or after `from`, no byte before it is zero, and it is
/// zero itself unless it is the end.
pub proof fn lemma_zero_at(s: Seq<u8>, from: int)
    requires
        0 <= from <= s.len(),
    ensures
        from <= zero_at(s, from) <= s.len(),
        forall|i: int| from <= i < zero_at(s, from) ==> s[i] != 0,
        zero_at(s, from) < s.len() ==> s[zero_at(s, from)] == 0,
    decreases s.len() - from,
{
    if from < s.len() && s[from] != 0 {
        lemma_zero_at(s, from + 1);
    }
}

/// A zero byte with none before it is where `zero_at` stops.
pub proof fn lemma_zero_at_found(s: Seq<u8>, from: int, end: int)
    requires
        0 <= from <= end < s.len(),
        s[end] == 0,
        forall|i: int| from <= i < end ==> s[i] != 0,
    ensures
        zero_at(s, from) == end,
    decreases end - from,
{
    if from < end {
        lemma_zero_at_found(s, from + 1, end);
    }
}

/// The extra field at `at`, if one is `present`, and the place after it.
pub open spec fn parse_extra(s: Seq<u8>, at: int, present: bool) -> Result<
    (Option<ExtraFieldModel>, int),
    Error,
> {
    if !present {
        Ok((None, at))
    } else if s.len() < at + 4 {
        Err(Error::UnexpectedEof)
    } else {
        let len = le_u16(s.subrange(at + 2, at + 4)) as int;
        if s.len() < at + 4 + len {
            Err(Error::UnexpectedEof)
        } else {
            Ok(
                (
                    Some(
                        ExtraFieldModel {
                            id: s.subrange(at, at + 2),
                            data: s.subrange(at + 4, at + 4 + len),
                        },
                    ),
                    at + 4 + len,
                ),
            )
        }
    }
}

/// The string at `at`, if one is `present`, and the place after the zero
/// that ends it.
pub open spec fn parse_cstring(s: Seq<u8>, at: int, present: bool) -> Result<
    (Option<Seq<u8>>, int),
    Error,
> {
    if !present {
        Ok((None, at))
    } else if zero_at(s, at) >= s.len() {
        Err(Error::UnexpectedEof)
    } else {
        Ok((Some(s.subrange(at, zero_at(s, at))), zero_at(s, at) + 1))
    }
}

/// The header that the fields say, once the optional ones are read, and the
/// place where it ends. With the checksum flag set, the header is verified
/// when the two bytes at `at` are its checksum, and refused otherwise.
pub open spec fn parse_checksum(s: Seq<u8>, at: int, read: HeaderModel, present: bool) -> Result<
    (HeaderModel, int),
    Error,
> {
    if at > CRC32_CAPACITY {
        Err(Error::HeaderTooLarge)
    } else if !present {
        Ok((read, at))
    } else if s.len() < at + 2 {
        Err(Error::UnexpectedEof)
    } else if le_u16(s.subrange(at, at + 2)) != read.crc16() {
        Err(
            Error::HeaderCrc16Mismatch {
                stored: le_u16(s.subrange(at, at + 2)),
                computed: read.crc16(),
            },
        )
    } else {
        Ok((read.verified(), at + 2))
    }
}

/// The header of a stream whose first ten bytes are there and name gzip and
/// DEFLATE.
pub open spec fn parse_fields(s: Seq<u8>) -> Result<(HeaderModel, int), Error> {
    let flags = s[3];
    match parse_extra(s, FIXED_LEN as int, flags & F_EXTRA != 0) {
        Err(e) => Err(e),
        Ok((extra_field, after_extra)) => match parse_cstring(
            s,
            after_extra,
            flags & F_NAME != 0,
        ) {
            Err(e) => Err(e),
            Ok((filename, after_name)) => match parse_cstring(
                s,
                after_name,
                flags & F_COMMENT != 0,
            ) {
                Err(e) => Err(e),
                Ok((comment, after_comment)) => parse_checksum(
                    s,
                    after_comment,
                    HeaderModel {
                        modification_time: le_u32(s.subrange(4, 8)),
                        compression_level: GZipCompressionLevel::of_code(s[8]),
                        os: Os::of_code(s[9]),
                        is_text: flags & F_TEXT != 0,
                        is_verified: false,
                        extra_field,
                        filename,
                        comment,
                    },
                    flags & F_HCRC != 0,
                ),
            },
        },
    }
}

/// The header that `s` starts with and its length, or the first thing that
/// is wrong with `s`. The two bytes that name gzip are judged before
/// anything else is looked at, then the method, then the rest.
pub open spec fn parse_header(s: Seq<u8>) -> Result<(HeaderModel, int), Error> {
    if s.len() < 2 {
        Err(Error::UnexpectedEof)
    } else if s[0] != GZIP_ID1 || s[1] != GZIP_ID2 {
        Err(Error::InvalidMagic { first: s[0], second: s[1] })
    } else if s.len() < 3 {
        Err(Error::UnexpectedEof)
    } else if s[2] != COMPRESSION_METHOD_DEFLATE {
        Err(Error::UnsupportedMethod { method: s[2] })
    } else if s.len() < FIXED_LEN {
        Err(Error::UnexpectedEof)
    } else {
        parse_fields(s)
    }
}

/// An extra field that was written is read back as it was.
pub proof fn lemma_extra_round_trip(
    prefix: Seq<u8>,
    extra_field: Option<ExtraFieldModel>,
    suffix: Seq<u8>,
)
    requires
        extra_field matches Some(field) ==> field.id.len() == 2 && field.data.len() <= 0xffff,
    ensures
        parse_extra(
            prefix + extra_bytes(extra_field) + suffix,
            prefix.len() as int,
            extra_field is Some,
        ) == Ok::<(Option<ExtraFieldModel>, int), Error>(
            (extra_field, (prefix.len() + extra_bytes(extra_field).len()) as int),
        ),
{
    let s = prefix + extra_bytes(extra_field) + suffix;
    let at = prefix.len() as int;
    match extra_field {
        Some(field) => {
            let len = field.data.len() as u16;
            lemma_u16_le_round_trip(len, Seq::empty());
            assert(u16_le(len) + Seq::<u8>::empty() =~= u16_le(len));
            assert(s.subrange(at + 2, at + 4) =~= u16_le(len));
            assert(s.subrange(at, at + 2) =~= field.id);
            assert(s.subrange(at + 4, at + 4 + len) =~= field.data);
        },
        None => {},
    }
}

/// A string that was written is read back as it was.
pub proof fn lemma_cstring_round_trip(prefix: Seq<u8>, string: Option<Seq<u8>>, suffix: Seq<u8>)
    requires
        string matches Some(bytes) ==> nul_free(bytes),
    ensures
        parse_cstring(
            prefix + cstring_bytes(string) + suffix,
            prefix.len() as int,
            string is Some,
        ) == Ok::<(Option<Seq<u8>>, int), Error>(
            (string, (prefix.len() + cstring_bytes(string).len()) as int),
        ),
{
    let s = prefix + cstring_bytes(string) + suffix;
    let at = prefix.len() as int;
    match string {
        Some(bytes) => {
            let end = at + bytes.len();
            assert(s[end] == 0);
            assert forall|i: int| at <= i < end implies s[i] != 0 by {
                assert(s[i] == bytes[i - at]);
            }
            lemma_zero_at_found(s, at, end);
            assert(s.subrange(at, end) =~= bytes);
        },
        None => {},
    }
}

/// The ten bytes that a header starts with are read back as they were
/// written.
pub proof fn lemma_fixed_round_trip(header: HeaderModel, tail: Seq<u8>)
    ensures
        (header.fixed() + tail).len() >= FIXED_LEN,
        header.fixed().len() == FIXED_LEN,
        (header.fixed() + tail)[0] == GZIP_ID1,
        (header.fixed() + tail)[1] == GZIP_ID2,
        (header.fixed() + tail)[2] == COMPRESSION_METHOD_DEFLATE,
        (header.fixed() + tail)[3] == header.flags(),
        le_u32((header.fixed() + tail).subrange(4, 8)) == header.modification_time,
        (header.fixed() + tail)[8] == header.compression_level.code(),
        (header.fixed() + tail)[9] == header.os.code(),
{
    let s = header.fixed() + tail;
    lemma_u32_le_round_trip(header.modification_time, Seq::empty());
    assert(u32_le(header.modification_time) + Seq::<u8>::empty() =~= u32_le(
        header.modification_time,
    ));
    assert(s.subrange(4, 8) =~= u32_le(header.modification_time));
}

/// The checksum that was written after a header is found to be its
/// checksum; where none was written, none is looked for.
pub proof fn lemma_checksum_round_trip(header: HeaderModel, rest: Seq<u8>)
    requires
        header.wf(),
    ensures
        parse_checksum(
            header.bytes() + rest,
            header.body().len() as int,
            header.unverified(),
            header.is_verified,
        ) == Ok::<(HeaderModel, int), Error>((header, header.bytes().len() as int)),
{
    let s = header.bytes() + rest;
    let at = header.body().len() as int;
    let read = header.unverified();
    assert(read.body().len() == header.body().len()) by {
        lemma_body_len(header);
        lemma_body_len(read);
    }
    assert(read.unverified() == read);
    if header.is_verified {
        lemma_u16_le_round_trip(header.crc16(), Seq::empty());
        assert(u16_le(header.crc16()) + Seq::<u8>::empty() =~= u16_le(header.crc16()));
        assert(s.subrange(at, at + 2) =~= u16_le(header.crc16()));
        assert(read.verified() == header);
    } else {
        assert(read == header);
    }
}

/// The parts of a written header, one after the other, with what follows
/// each of them.
proof fn lemma_written_parts(header: HeaderModel, rest: Seq<u8>)
    ensures
        ({
            let s = header.bytes() + rest;
            let fixed = header.fixed();
            let extra = extra_bytes(header.extra_field);
            let name = cstring_bytes(header.filename);
            let comment = cstring_bytes(header.comment);
            let tail = s.skip(header.body().len() as int);
            &&& s == fixed + (extra + name + comment + tail)
            &&& s == fixed + extra + (name + comment + tail)
            &&& s == (fixed + extra) + name + (comment + tail)
            &&& s == (fixed + extra + name) + comment + tail
            &&& (fixed + extra + name).len() + comment.len() == header.body().len()
            &&& (fixed + extra).len() + name.len() == (fixed + extra + name).len()
            &&& fixed.len() + extra.len() == (fixed + extra).len()
        }),
{
    let s = header.bytes() + rest;
    let fixed = header.fixed();
    let extra = extra_bytes(header.extra_field);
    let name = cstring_bytes(header.filename);
    let comment = cstring_bytes(header.comment);
    let tail = s.skip(header.body().len() as int);
    assert(header.body() == fixed + extra + name + comment);
    assert(s =~= header.body() + tail);
    assert(s =~= fixed + (extra + name + comment + tail));
    assert(s =~= fixed + extra + (name + comment + tail));
    assert(s =~= (fixed + extra) + name + (comment + tail));
    assert(s =~= (fixed + extra + name) + comment + tail);
}

/// A stream whose fields read as those of `header`, one after the other,
/// reads as `header`.
proof fn lemma_fields_from_parts(
    s: Seq<u8>,
    header: HeaderModel,
    after_extra: int,
    after_name: int,
    after_comment: int,
    end: int,
)
    requires
        header.os.canonical(),
        s[3] == header.flags(),
        le_u32(s.subrange(4, 8)) == header.modification_time,
        s[8] == header.compression_level.code(),
        s[9] == header.os.code(),
        parse_extra(s, FIXED_LEN as int, header.extra_field is Some) == Ok::<
            (Option<ExtraFieldModel>, int),
            Error,
        >((header.extra_field, after_extra)),
        parse_cstring(s, after_extra, header.filename is Some) == Ok::<
            (Option<Seq<u8>>, int),
            Error,
        >((header.filename, after_name)),
        parse_cstring(s, after_name, header.comment is Some) == Ok::<
            (Option<Seq<u8>>, int),
            Error,
        >((header.comment, after_comment)),
        parse_checksum(s, after_comment, header.unverified(), header.is_verified) == Ok::<
            (HeaderModel, int),
            Error,
        >((header, end)),
    ensures
        parse_fields(s) == Ok::<(HeaderModel, int), Error>((header, end)),
{
    lemma_flags_bits(header);
    let flags = s[3];
    let read = HeaderModel {
        modification_time: le_u32(s.subrange(4, 8)),
        compression_level: GZipCompressionLevel::of_code(s[8]),
        os: Os::of_code(s[9]),
        is_text: flags & F_TEXT != 0,
        is_verified: false,
        extra_field: header.extra_field,
        filename: header.filename,
        comment: header.comment,
    };
    assert(read == header.unverified());
}

/// Writing a header and reading it back gives the same header, and the
/// reading stops where the writing stopped, whatever follows. The header is
/// read back as verified exactly when it was written as verified.
///
/// This holds of every header that can be written and whose system is
/// canonical: `Os::Undefined` with the code of a listed system is read back
/// as that system.
pub proof fn lemma_header_round_trip(header: HeaderModel, rest: Seq<u8>)
    requires
        header.wf(),
        header.os.canonical(),
    ensures
        parse_header(header.bytes() + rest) == Ok::<(HeaderModel, int), Error>(
            (header, header.bytes().len() as int),
        ),
{
    let s = header.bytes() + rest;
    let fixed = header.fixed();
    let extra = extra_bytes(header.extra_field);
    let name = cstring_bytes(header.filename);
    let comment = cstring_bytes(header.comment);
    let tail = s.skip(header.body().len() as int);
    lemma_written_parts(header, rest);
    lemma_fixed_round_trip(header, extra + name + comment + tail);
    lemma_extra_round_trip(fixed, header.extra_field, name + comment + tail);
    lemma_cstring_round_trip(fixed + extra, header.filename, comment + tail);
    lemma_cstring_round_trip(fixed + extra + name, header.comment, tail);
    lemma_checksum_round_trip(header, rest);
    lemma_fields_from_parts(
        s,
        header,
        (fixed + extra).len() as int,
        (fixed + extra + name).len() as int,
        header.body().len() as int,
        header.bytes().len() as int,
    );
}

} // verus!
