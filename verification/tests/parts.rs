use gzip_codec::bytes::{get_u16_le, get_u32_le, put_u16_le, put_u32_le};
use gzip_codec::crc::{crc32_from_register, RunningCrc32, CRC32_CAPACITY};
use gzip_codec::finish::Finish;
use gzip_codec::gzip::decoder::{copy_from, payload_or_error};
use gzip_codec::gzip::encoder::close_stream;
use gzip_codec::gzip::header::{crc16_from_crc32, read_cstring};
use gzip_codec::gzip::Error;
use gzip_codec::gzip::ExtraField;
use gzip_codec::gzip::Header;
use gzip_codec::gzip::Trailer;

#[test]
fn little_endian_writes() {
    let mut out = vec![9];
    put_u16_le(&mut out, 0x0102);
    put_u32_le(&mut out, 0x0304_0506);
    assert_eq!(out, vec![9, 2, 1, 6, 5, 4, 3]);
    let mut out = Vec::new();
    put_u16_le(&mut out, 0xffff);
    put_u32_le(&mut out, 0);
    put_u32_le(&mut out, 0xffff_ffff);
    assert_eq!(out, vec![255, 255, 0, 0, 0, 0, 255, 255, 255, 255]);
}

#[test]
fn little_endian_reads() {
    let input = [9u8, 2, 1, 6, 5, 4, 3];
    assert_eq!(get_u16_le(&input, 1), Some(0x0102));
    assert_eq!(get_u32_le(&input, 3), Some(0x0304_0506));
    assert_eq!(get_u16_le(&input, 5), Some(0x0304));
    assert_eq!(get_u16_le(&input, 6), None);
    assert_eq!(get_u32_le(&input, 4), None);
    assert_eq!(get_u16_le(&input, usize::MAX), None);
    assert_eq!(get_u32_le(&input, usize::MAX), None);
    assert_eq!(get_u16_le(&[], 0), None);
    assert_eq!(get_u32_le(&[1, 2, 3], 0), None);
}

#[test]
fn running_crc32_of_known_texts() {
    let mut crc = RunningCrc32::new();
    assert_eq!(crc.value(), 0);
    assert_eq!(crc.room(), CRC32_CAPACITY);
    crc.update(b"0000");
    assert_eq!(crc.value(), 0x0c9b_c472);
    assert_eq!(crc.room(), CRC32_CAPACITY - 4);
    let mut whole = RunningCrc32::new();
    whole.update(b"Hello World! Hello ZLIB!!");
    let mut pieces = RunningCrc32::new();
    pieces.update(b"Hello World!");
    pieces.update(b"");
    pieces.update(b" Hello ZLIB!!");
    assert_eq!(whole.value(), 0x1e71_4cde);
    assert_eq!(pieces.value(), 0x1e71_4cde);
    assert_eq!(pieces.room(), CRC32_CAPACITY - 25);
}

#[test]
fn register_is_flipped() {
    assert_eq!(crc32_from_register(0xffff_ffff), 0);
    assert_eq!(crc32_from_register(0), 0xffff_ffff);
    assert_eq!(crc32_from_register(0x0f0f_1234), 0xf0f0_edcb);
}

#[test]
fn header_checksum_keeps_the_low_half() {
    assert_eq!(crc16_from_crc32(0xd63d_668e), 0x668e);
    assert_eq!(crc16_from_crc32(0xffff_0000), 0);
    assert_eq!(crc16_from_crc32(0x0000_ffff), 0xffff);
}

#[test]
fn header_is_verified_by_an_equal_checksum() {
    let header = Header::default();
    assert!(!header.is_verified());
    let verified = header.clone().accept_checksum(7, 7).unwrap();
    assert!(verified.is_verified());
    assert_eq!(verified.modification_time(), header.modification_time());
    assert_eq!(
        header.accept_checksum(7, 8).err().unwrap(),
        Error::HeaderCrc16Mismatch { stored: 7, computed: 8 }
    );
}

#[test]
fn trailer_is_checked_against_the_checksum() {
    let trailer = Trailer { crc32: 5, input_size: 1 };
    assert_eq!(trailer.check(5), Ok(0));
    assert_eq!(trailer.check(6), Err(Error::Crc32Mismatch { stored: 5, computed: 6 }));
}

#[test]
fn stream_is_closed_with_payload_and_trailer() {
    let trailer = Trailer { crc32: 0x0403_0201, input_size: 0x0807_0605 };
    let finish = close_stream(vec![1, 2], &[3, 4, 5], trailer);
    assert_eq!(finish.result().unwrap(), vec![1, 2, 3, 4, 5, 1, 2, 3, 4, 5, 6, 7, 8]);
    let finish = close_stream(Vec::new(), &[], Trailer { crc32: 0, input_size: 0 });
    assert_eq!(finish.into_inner(), vec![0; 8]);
}

#[test]
fn answer_of_the_decompressor() {
    assert_eq!(payload_or_error(None), Err(Error::InvalidDeflateStream));
    assert_eq!(payload_or_error(Some(vec![1, 2])), Ok(vec![1, 2]));
    assert_eq!(payload_or_error(Some(Vec::new())), Ok(Vec::new()));
}

#[test]
fn pieces_are_copied_to_the_front() {
    let from = [1u8, 2, 3, 4, 5];
    let mut buf = [0u8; 3];
    assert_eq!(copy_from(&mut buf, &from, 1), 3);
    assert_eq!(buf, [2, 3, 4]);
    let mut buf = [9u8; 4];
    assert_eq!(copy_from(&mut buf, &from, 3), 2);
    assert_eq!(buf, [4, 5, 9, 9]);
    assert_eq!(copy_from(&mut buf, &from, 5), 0);
    assert_eq!(buf, [4, 5, 9, 9]);
    let mut none = [0u8; 0];
    assert_eq!(copy_from(&mut none, &from, 0), 0);
}

#[test]
fn strings_end_at_the_first_zero() {
    let input = b"ab\0cd\0\0e";
    let (string, next) = read_cstring(input, 0).unwrap();
    assert_eq!((string.as_bytes(), next), (&b"ab"[..], 3));
    let (string, next) = read_cstring(input, 1).unwrap();
    assert_eq!((string.as_bytes(), next), (&b"b"[..], 3));
    let (string, next) = read_cstring(input, 3).unwrap();
    assert_eq!((string.as_bytes(), next), (&b"cd"[..], 6));
    let (string, next) = read_cstring(input, 6).unwrap();
    assert_eq!((string.as_bytes(), next), (&b""[..], 7));
    assert_eq!(read_cstring(input, 7).err().unwrap(), Error::UnexpectedEof);
    assert_eq!(read_cstring(input, 8).err().unwrap(), Error::UnexpectedEof);
}

#[test]
fn extra_field_bytes() {
    let field = ExtraField { id: [b'A', b'p'], data: vec![7, 8, 9] };
    let mut out = vec![0xee];
    field.write_to(&mut out);
    assert_eq!(out, vec![0xee, b'A', b'p', 3, 0, 7, 8, 9]);
    let (read, next) = ExtraField::read_from(&out, 1).unwrap();
    assert_eq!((read.id, read.data, next), ([b'A', b'p'], vec![7, 8, 9], 8));
    assert_eq!(ExtraField::read_from(&out[..7], 1).err().unwrap(), Error::UnexpectedEof);
    assert_eq!(ExtraField::read_from(&out[..4], 1).err().unwrap(), Error::UnexpectedEof);
    let long = ExtraField { id: [0, 1], data: vec![5; 0x0102] };
    let mut out = Vec::new();
    long.write_to(&mut out);
    assert_eq!(&out[..5], &[0, 1, 2, 1, 5]);
    assert_eq!(out.len(), 4 + 0x0102);
}

#[test]
fn header_well_formedness_is_told() {
    assert!(Header::default().is_well_formed());
    let (header, _) = Header::read_from(&[31, 139, 8, 0, 0, 0, 0, 0, 0, 3]).unwrap();
    assert!(header.is_well_formed());
}

#[test]
fn finish_with_and_without_error() {
    let good = Finish::new(vec![1u8], None);
    assert_eq!(good.result(), Ok(vec![1u8]));
    let bad = Finish::new(vec![1u8], Some(Error::UnexpectedEof));
    assert_eq!(bad.result(), Err(Error::UnexpectedEof));
    let good = Finish::new(2u8, None);
    assert_eq!(good.into_result(), Ok(2u8));
    let bad = Finish::new(2u8, Some(Error::HeaderTooLarge));
    assert_eq!(bad.into_result(), Err((2u8, Error::HeaderTooLarge)));
    let bad = Finish::new(vec![3u8], Some(Error::UnexpectedEof));
    assert_eq!(bad.into_inner(), vec![3u8]);
}
