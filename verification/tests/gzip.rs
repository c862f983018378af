use gzip_codec::compress::CompressionLevel;
use gzip_codec::gzip::decode_all;
use gzip_codec::gzip::Decoder;
use gzip_codec::gzip::EncodeOptions;
use gzip_codec::gzip::Encoder;
use gzip_codec::gzip::Error;
use gzip_codec::gzip::ExtraField;
use gzip_codec::gzip::GZipCompressionLevel;
use gzip_codec::gzip::Header;
use gzip_codec::gzip::NulFreeBytes;
use gzip_codec::gzip::Os;
use gzip_codec::gzip::Trailer;

fn encode(options: &EncodeOptions, payload: &[u8]) -> Vec<u8> {
    let mut encoder = Encoder::with_options(Vec::new(), options).unwrap();
    let mut done = 0;
    while done < payload.len() {
        let taken = encoder.write(&payload[done..]).unwrap();
        assert!(taken > 0);
        done += taken;
    }
    encoder.finish().result().unwrap()
}

#[test]
fn encode_works() {
    let plain = b"Hello World! Hello ZLIB!!";
    let mut encoder = Encoder::new(Vec::new()).unwrap();
    assert_eq!(encoder.write(&plain[..]).unwrap(), plain.len());
    let encoded = encoder.finish().result().unwrap();
    assert_eq!(decode_all(&encoded).unwrap(), plain);
}

#[test]
fn default_header_is_plain_unix() {
    let plain = b"Hello World! Hello ZLIB!!";
    let mut encoder = Encoder::new(Vec::new()).unwrap();
    encoder.write(&plain[..]).unwrap();
    let encoded = encoder.finish().result().unwrap();
    let decoder = Decoder::new(encoded).unwrap();
    assert_eq!(decoder.header().os(), Os::Unix);
    assert_eq!(decoder.header().os().to_u8(), 3);
    assert!(!decoder.header().is_text());
    assert!(!decoder.header().is_verified());
    assert_eq!(decoder.header().compression_level(), GZipCompressionLevel::Unknown);
    assert!(decoder.header().extra_field().is_none());
    assert!(decoder.header().filename().is_none());
    assert!(decoder.header().comment().is_none());
}

#[test]
fn empty_payload_round_trips() {
    let encoded = encode(&EncodeOptions::new(), b"");
    assert_eq!(decode_all(&encoded).unwrap(), Vec::<u8>::new());
}

#[test]
fn long_payload_round_trips_at_every_level() {
    let mut payload = Vec::new();
    for i in 0..100_000u32 {
        payload.push((i % 251) as u8 ^ (i / 997) as u8);
    }
    for level in [CompressionLevel::Fast, CompressionLevel::Balanced, CompressionLevel::Best] {
        let encoded = encode(&EncodeOptions::new().deflate_options(level), &payload);
        assert_eq!(decode_all(&encoded).unwrap(), payload);
    }
}

#[test]
fn payload_is_compressed_not_copied() {
    let payload = vec![b'a'; 10_000];
    let encoded = encode(&EncodeOptions::new().modification_time(0), &payload);
    assert!(encoded.len() < 200);
    assert_eq!(decode_all(&encoded).unwrap(), payload);
}

#[test]
fn stream_layout_is_header_payload_trailer() {
    let payload = b"Hello World! Hello ZLIB!!";
    let encoded = encode(&EncodeOptions::new().modification_time(0x0403_0201), payload);
    assert_eq!(&encoded[..10], &[31, 139, 8, 0, 1, 2, 3, 4, 0, 3]);
    let n = encoded.len();
    let trailer = Trailer::read_from(&encoded, n - 8).unwrap();
    assert_eq!(trailer.input_size, 25);
    // The CRC-32 of the text, as every gzip tool computes it.
    assert_eq!(trailer.crc32, 0x1e71_4cde);
    assert_eq!(&encoded[n - 4..], &[25, 0, 0, 0]);
}

#[test]
fn sink_keeps_what_it_held() {
    let mut encoder = Encoder::new(vec![7, 7, 7]).unwrap();
    encoder.write(b"abc").unwrap();
    let encoded = encoder.finish().result().unwrap();
    assert_eq!(&encoded[..5], &[7, 7, 7, 31, 139]);
    assert_eq!(decode_all(&encoded[3..]).unwrap(), b"abc");
}

#[test]
fn flush_changes_nothing() {
    let options = EncodeOptions::new().modification_time(1);
    let mut encoder = Encoder::with_options(Vec::new(), &options).unwrap();
    encoder.write(b"abc").unwrap();
    encoder.flush().unwrap();
    encoder.write(b"def").unwrap();
    let flushed = encoder.finish().result().unwrap();
    assert_eq!(flushed, encode(&options, b"abcdef"));
}

#[test]
fn header_with_filename_and_checksum() {
    let options = EncodeOptions::new()
        .modification_time(0)
        .filename(NulFreeBytes::new(b"a.txt".to_vec()).unwrap())
        .verify_header();
    let encoder = Encoder::with_options(Vec::new(), &options).unwrap();
    assert_eq!(encoder.header().flags(), 0x0a);
    let mut bytes = Vec::new();
    encoder.header().write_to(&mut bytes);
    assert_eq!(bytes[3], 0x0a);
    assert_eq!(&bytes[10..16], b"a.txt\0");
    assert_eq!(bytes.len(), 18);
    let (header, len) = Header::read_from(&bytes).unwrap();
    assert_eq!(len, 18);
    assert!(header.is_verified());
    assert_eq!(header.filename().unwrap().as_bytes(), b"a.txt");
    assert_eq!(header.crc16(), encoder.header().crc16());
    assert_eq!(header.crc16(), u16::from(bytes[16]) | u16::from(bytes[17]) << 8);
}

#[test]
fn header_checksum_is_low_half_of_crc32() {
    // The ten bytes of a plain header with time 0: 1f 8b 08 00 00 00 00 00 00 03.
    let options = EncodeOptions::new().modification_time(0).verify_header();
    let encoder = Encoder::with_options(Vec::new(), &options).unwrap();
    // Their CRC-32 is 0xd63d668e.
    assert_eq!(encoder.header().crc16(), 0x668e);
    assert_eq!(encoder.header().crc16(), encoder.header().crc16());
    let mut bytes = Vec::new();
    encoder.header().write_to(&mut bytes);
    assert_eq!(bytes, vec![31, 139, 8, 2, 0, 0, 0, 0, 0, 3, 0x8e, 0x66]);
}

#[test]
fn header_with_everything_round_trips() {
    let options = EncodeOptions::new()
        .modification_time(0xdead_beef)
        .text()
        .verify_header()
        .os(Os::Ntfs)
        .extra_field(ExtraField { id: [b'x', b'y'], data: vec![1, 2, 3, 0, 5] })
        .filename(NulFreeBytes::new(b"name".to_vec()).unwrap())
        .comment(NulFreeBytes::new(b"a comment".to_vec()).unwrap())
        .deflate_options(CompressionLevel::Best);
    let encoded = encode(&options, b"payload");
    assert_eq!(encoded[3], 0x1f);
    assert_eq!(encoded[8], 2);
    assert_eq!(encoded[9], 11);
    let decoder = Decoder::new(encoded.clone()).unwrap();
    let header = decoder.header();
    assert_eq!(header.modification_time(), 0xdead_beef);
    assert!(header.is_text());
    assert!(header.is_verified());
    assert_eq!(header.os(), Os::Ntfs);
    assert_eq!(header.compression_level(), GZipCompressionLevel::Slowest);
    assert_eq!(header.extra_field().unwrap().id, [b'x', b'y']);
    assert_eq!(header.extra_field().unwrap().data, vec![1, 2, 3, 0, 5]);
    assert_eq!(header.filename().unwrap().as_bytes(), b"name");
    assert_eq!(header.comment().unwrap().as_bytes(), b"a comment");
    assert_eq!(header.flags(), 0x1f);
    assert_eq!(decode_all(&encoded).unwrap(), b"payload");
}

#[test]
fn flags_follow_the_fields() {
    let name = || NulFreeBytes::new(b"n".to_vec()).unwrap();
    let flags = |options: EncodeOptions| {
        Encoder::with_options(Vec::new(), &options).unwrap().header().flags()
    };
    assert_eq!(flags(EncodeOptions::new()), 0x00);
    assert_eq!(flags(EncodeOptions::new().text()), 0x01);
    assert_eq!(flags(EncodeOptions::new().verify_header()), 0x02);
    assert_eq!(
        flags(EncodeOptions::new().extra_field(ExtraField { id: [0, 0], data: vec![] })),
        0x04
    );
    assert_eq!(flags(EncodeOptions::new().filename(name())), 0x08);
    assert_eq!(flags(EncodeOptions::new().comment(name())), 0x10);
    assert_eq!(flags(EncodeOptions::new().comment(name()).text()), 0x11);
}

#[test]
fn level_hint_follows_the_compressor() {
    let level = |level: CompressionLevel| {
        let options = EncodeOptions::new().deflate_options(level);
        Encoder::with_options(Vec::new(), &options).unwrap().header().compression_level()
    };
    assert_eq!(level(CompressionLevel::Fast), GZipCompressionLevel::Fastest);
    assert_eq!(level(CompressionLevel::Balanced), GZipCompressionLevel::Unknown);
    assert_eq!(level(CompressionLevel::Best), GZipCompressionLevel::Slowest);
    assert_eq!(GZipCompressionLevel::from(CompressionLevel::Best), GZipCompressionLevel::Slowest);
}

#[test]
fn level_codes() {
    assert_eq!(GZipCompressionLevel::Fastest.to_u8(), 4);
    assert_eq!(GZipCompressionLevel::Slowest.to_u8(), 2);
    assert_eq!(GZipCompressionLevel::Unknown.to_u8(), 0);
    assert_eq!(GZipCompressionLevel::from_u8(4), GZipCompressionLevel::Fastest);
    assert_eq!(GZipCompressionLevel::from_u8(2), GZipCompressionLevel::Slowest);
    for code in 0..=255u8 {
        if code != 4 && code != 2 {
            assert_eq!(GZipCompressionLevel::from_u8(code), GZipCompressionLevel::Unknown);
        }
    }
}

#[test]
fn os_codes() {
    let listed = [
        (Os::Fat, 0u8),
        (Os::Amiga, 1),
        (Os::Vms, 2),
        (Os::Unix, 3),
        (Os::VmCms, 4),
        (Os::AtariTos, 5),
        (Os::Hpfs, 6),
        (Os::Macintosh, 7),
        (Os::ZSystem, 8),
        (Os::CpM, 9),
        (Os::Tops20, 10),
        (Os::Ntfs, 11),
        (Os::Qdos, 12),
        (Os::AcornRiscos, 13),
        (Os::Unknown, 255),
    ];
    for (os, code) in listed {
        assert_eq!(os.to_u8(), code);
        assert_eq!(Os::from_u8(code), os);
    }
    for code in 14..255u8 {
        assert_eq!(Os::from_u8(code), Os::Undefined(code));
        assert_eq!(Os::Undefined(code).to_u8(), code);
    }
    // A listed code under `Undefined` is written as it is and read back as
    // the listed system.
    assert_eq!(Os::Undefined(3).to_u8(), 3);
    assert_eq!(Os::from_u8(Os::Undefined(3).to_u8()), Os::Unix);
}

#[test]
fn unknown_level_byte_does_not_survive() {
    let mut encoded = encode(&EncodeOptions::new().modification_time(0), b"x");
    encoded[8] = 9;
    let (header, _) = Header::read_from(&encoded).unwrap();
    assert_eq!(header.compression_level(), GZipCompressionLevel::Unknown);
    let mut written = Vec::new();
    header.write_to(&mut written);
    assert_eq!(written[8], 0);
}

#[test]
fn bad_magic_fails_first() {
    assert_eq!(
        decode_all(&[30, 139, 9, 0xff]).unwrap_err(),
        Error::InvalidMagic { first: 30, second: 139 }
    );
    assert_eq!(
        decode_all(&[31, 140]).unwrap_err(),
        Error::InvalidMagic { first: 31, second: 140 }
    );
    let mut encoded = encode(&EncodeOptions::new(), b"abc");
    encoded[1] = 0;
    assert_eq!(
        Decoder::new(encoded).err().unwrap(),
        Error::InvalidMagic { first: 31, second: 0 }
    );
}

#[test]
fn bad_method_fails_next() {
    assert_eq!(decode_all(&[31, 139, 7]).unwrap_err(), Error::UnsupportedMethod { method: 7 });
    let mut encoded = encode(&EncodeOptions::new(), b"abc");
    encoded[2] = 0;
    assert_eq!(decode_all(&encoded).unwrap_err(), Error::UnsupportedMethod { method: 0 });
}

#[test]
fn short_streams_end_unexpectedly() {
    assert_eq!(decode_all(&[]).unwrap_err(), Error::UnexpectedEof);
    assert_eq!(decode_all(&[31]).unwrap_err(), Error::UnexpectedEof);
    assert_eq!(decode_all(&[31, 139]).unwrap_err(), Error::UnexpectedEof);
    assert_eq!(decode_all(&[31, 139, 8, 0, 0, 0, 0, 0, 0]).unwrap_err(), Error::UnexpectedEof);
    // An extra field that says it is longer than what is left.
    assert_eq!(
        decode_all(&[31, 139, 8, 4, 0, 0, 0, 0, 0, 3, b'a', b'b', 9, 0, 1]).unwrap_err(),
        Error::UnexpectedEof
    );
    // A file name without its zero.
    assert_eq!(
        decode_all(&[31, 139, 8, 8, 0, 0, 0, 0, 0, 3, b'a', b'b']).unwrap_err(),
        Error::UnexpectedEof
    );
    // A checksum flag without the checksum.
    assert_eq!(
        decode_all(&[31, 139, 8, 2, 0, 0, 0, 0, 0, 3, 1]).unwrap_err(),
        Error::UnexpectedEof
    );
}

#[test]
fn header_checksum_is_checked() {
    let options = EncodeOptions::new().modification_time(77).verify_header();
    let good = encode(&options, b"abc");
    assert!(Decoder::new(good.clone()).unwrap().header().is_verified());
    let stored = u16::from(good[10]) | u16::from(good[11]) << 8;
    let mut bad = good.clone();
    bad[11] ^= 0x40;
    assert_eq!(
        Decoder::new(bad).err().unwrap(),
        Error::HeaderCrc16Mismatch { stored: stored ^ 0x4000, computed: stored }
    );
    // Any change of a header byte that the checksum covers is noticed.
    for at in 4..10 {
        let mut changed = good.clone();
        changed[at] ^= 1;
        if at == 8 {
            // The level byte 1 reads as unknown, as 0 does.
            assert!(Decoder::new(changed).is_ok());
        } else {
            assert!(matches!(
                Decoder::new(changed).err().unwrap(),
                Error::HeaderCrc16Mismatch { .. }
            ));
        }
    }
}

#[test]
fn trailer_checksum_is_checked() {
    let good = encode(&EncodeOptions::new(), b"Hello World! Hello ZLIB!!");
    let n = good.len();
    for at in n - 8..n - 4 {
        let mut bad = good.clone();
        bad[at] ^= 0x10;
        assert!(matches!(decode_all(&bad).unwrap_err(), Error::Crc32Mismatch { .. }));
    }
    let mut bad = good.clone();
    bad[n - 8] ^= 1;
    assert_eq!(
        decode_all(&bad).unwrap_err(),
        Error::Crc32Mismatch { stored: 0x1e71_4cde ^ 1, computed: 0x1e71_4cde }
    );
    // The size in the trailer is read and not compared.
    let mut odd = good.clone();
    odd[n - 1] = 9;
    assert_eq!(decode_all(&odd).unwrap(), b"Hello World! Hello ZLIB!!");
}

#[test]
fn changed_payload_never_decodes_to_something_else() {
    let plain = b"Hello World! Hello ZLIB!!";
    let good = encode(&EncodeOptions::new(), plain);
    let n = good.len();
    for at in 10..n - 8 {
        for bit in 0..8 {
            let mut bad = good.clone();
            bad[at] ^= 1 << bit;
            match decode_all(&bad) {
                Ok(out) => assert_eq!(out, plain),
                Err(e) => assert!(matches!(
                    e,
                    Error::Crc32Mismatch { .. } | Error::InvalidDeflateStream
                )),
            }
        }
    }
}

#[test]
fn garbage_is_refused_without_a_panic() {
    let mut state: u32 = 0x1234_5678;
    let mut next = move || {
        state ^= state << 13;
        state ^= state >> 17;
        state ^= state << 5;
        state
    };
    for round in 0..3000u32 {
        let len = (next() % 64) as usize;
        let mut stream = vec![31, 139, 8, 0, 0, 0, 0, 0, 0, 3];
        for _ in 0..len {
            stream.push((next() >> 11) as u8);
        }
        if round % 2 == 0 {
            // Often a plausible first block: not final, fixed or dynamic codes.
            if let Some(first) = stream.get_mut(10) {
                *first = (*first & 0xf8) | (2 + (round as u8 & 2));
            }
        }
        stream.extend_from_slice(&[0; 8]);
        match gzip_codec::gzip::decode_all(&stream) {
            Ok(_) => {}
            Err(e) => assert!(matches!(
                e,
                Error::InvalidDeflateStream | Error::Crc32Mismatch { .. }
            )),
        }
    }
}

#[test]
fn missing_trailer_is_noticed() {
    let good = encode(&EncodeOptions::new(), b"abc");
    let cut = &good[..10];
    assert_eq!(decode_all(cut).unwrap_err(), Error::UnexpectedEof);
}

#[test]
fn reading_piece_by_piece() {
    let plain = b"Hello World! Hello ZLIB!!";
    let encoded = encode(&EncodeOptions::new(), plain);
    let mut decoder = Decoder::new(encoded.clone()).unwrap();
    let mut out = Vec::new();
    let mut buf = [0u8; 7];
    loop {
        let n = decoder.read(&mut buf).unwrap();
        if n == 0 {
            break;
        }
        out.extend_from_slice(&buf[..n]);
    }
    assert_eq!(out, plain);
    // After the end every read hands out nothing.
    assert_eq!(decoder.read(&mut buf).unwrap(), 0);
    assert_eq!(decoder.read(&mut buf).unwrap(), 0);
    assert_eq!(decoder.into_inner(), encoded);
}

#[test]
fn reads_after_a_bad_trailer_hand_out_nothing() {
    let mut encoded = encode(&EncodeOptions::new(), b"abc");
    let n = encoded.len();
    encoded[n - 8] ^= 1;
    let mut decoder = Decoder::new(encoded).unwrap();
    let mut buf = [0u8; 16];
    assert_eq!(decoder.read(&mut buf).unwrap(), 3);
    assert_eq!(&buf[..3], b"abc");
    assert!(matches!(decoder.read(&mut buf).unwrap_err(), Error::Crc32Mismatch { .. }));
    assert_eq!(decoder.read(&mut buf).unwrap(), 0);
}

#[test]
fn a_read_with_no_room_ends_the_stream() {
    let encoded = encode(&EncodeOptions::new(), b"abc");
    let mut decoder = Decoder::new(encoded).unwrap();
    let mut none = [0u8; 0];
    // Nothing was handed out, so the checksum of nothing is compared.
    assert!(matches!(decoder.read(&mut none).unwrap_err(), Error::Crc32Mismatch { .. }));
    let mut buf = [0u8; 4];
    assert_eq!(decoder.read(&mut buf).unwrap(), 0);
}

#[test]
fn early_into_inner_reads_no_trailer() {
    let mut encoded = encode(&EncodeOptions::new(), b"abc");
    let n = encoded.len();
    encoded[n - 8] ^= 1;
    let decoder = Decoder::new(encoded.clone()).unwrap();
    assert_eq!(decoder.into_inner(), encoded);
}

#[test]
fn garbage_payload_is_refused() {
    let mut stream = vec![31, 139, 8, 0, 0, 0, 0, 0, 0, 3];
    stream.extend_from_slice(&[0xff; 20]);
    stream.extend_from_slice(&[0; 8]);
    assert_eq!(decode_all(&stream).unwrap_err(), Error::InvalidDeflateStream);
    assert!(!Error::InvalidDeflateStream.is_format_error());
    assert!(Error::InvalidMagic { first: 0, second: 0 }.is_format_error());
    assert!(Error::UnsupportedMethod { method: 0 }.is_format_error());
    assert!(Error::HeaderCrc16Mismatch { stored: 0, computed: 1 }.is_format_error());
    assert!(Error::Crc32Mismatch { stored: 0, computed: 1 }.is_format_error());
    assert!(!Error::UnexpectedEof.is_format_error());
}

#[test]
fn oversized_extra_field_is_refused() {
    let options =
        EncodeOptions::new().extra_field(ExtraField { id: [1, 2], data: vec![0; 0x1_0000] });
    assert_eq!(
        Encoder::with_options(vec![9], &options).err().unwrap(),
        Error::HeaderTooLarge
    );
    let options =
        EncodeOptions::new().extra_field(ExtraField { id: [1, 2], data: vec![0; 0xffff] });
    let encoder = Encoder::with_options(Vec::new(), &options).unwrap();
    let encoded = encoder.finish().result().unwrap();
    assert_eq!(&encoded[10..14], &[1, 2, 0xff, 0xff]);
    assert_eq!(decode_all(&encoded).unwrap(), b"");
}

#[test]
fn strings_with_a_zero_are_refused() {
    assert!(NulFreeBytes::new(b"a\0b".to_vec()).is_none());
    assert!(NulFreeBytes::new(vec![0]).is_none());
    assert_eq!(NulFreeBytes::new(Vec::new()).unwrap().len(), 0);
    assert_eq!(NulFreeBytes::new(b"abc".to_vec()).unwrap().as_bytes(), b"abc");
}

#[test]
fn trailer_bytes() {
    let trailer = Trailer { crc32: 0x0403_0201, input_size: 0x0807_0605 };
    let mut out = vec![0xaa];
    trailer.write_to(&mut out);
    assert_eq!(out, vec![0xaa, 1, 2, 3, 4, 5, 6, 7, 8]);
    assert_eq!(Trailer::read_from(&out, 1).unwrap(), trailer);
    assert_eq!(Trailer::read_from(&out, 2).unwrap_err(), Error::UnexpectedEof);
    assert_eq!(Trailer::read_from(&out[..4], 0).unwrap_err(), Error::UnexpectedEof);
}
