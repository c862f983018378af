use gzip_codec::lz77::Code;
use gzip_codec::lz77::CodeError;
use gzip_codec::lz77::CompressionMode;
use gzip_codec::lz77::Lz77Encode;
use gzip_codec::lz77::NonCompressedLz77Encoder;
use gzip_codec::lz77::Sink;
use gzip_codec::lz77::{MAX_DISTANCE, MAX_LENGTH, MAX_WINDOW_SIZE, MIN_LENGTH};

#[test]
fn literal_holds_its_byte() {
    assert_eq!(Code::new_literal(0), Code::Literal(0));
    assert_eq!(Code::new_literal(255), Code::Literal(255));
}

#[test]
fn pointer_in_range_is_built() {
    assert_eq!(
        Code::new_pointer(3, 1),
        Ok(Code::Pointer { length: 3, backward_distance: 1 })
    );
    assert_eq!(
        Code::new_pointer(258, 32768),
        Ok(Code::Pointer { length: 258, backward_distance: 32768 })
    );
    assert_eq!(MIN_LENGTH, 3);
    assert_eq!(MAX_LENGTH, 258);
    assert_eq!(MAX_DISTANCE, 32768);
    assert_eq!(MAX_WINDOW_SIZE, 32768);
}

#[test]
fn pointer_out_of_range_is_refused() {
    assert_eq!(Code::new_pointer(259, 1), Err(CodeError::LengthOutOfRange(259)));
    assert_eq!(Code::new_pointer(2, 1), Err(CodeError::LengthOutOfRange(2)));
    assert_eq!(Code::new_pointer(0, 1), Err(CodeError::LengthOutOfRange(0)));
    assert_eq!(Code::new_pointer(3, 32769), Err(CodeError::DistanceOutOfRange(32769)));
    assert_eq!(Code::new_pointer(3, 0), Err(CodeError::DistanceOutOfRange(0)));
    assert_eq!(Code::new_pointer(65535, 65535), Err(CodeError::LengthOutOfRange(65535)));
}

#[test]
fn default_mode_is_balance() {
    assert_eq!(CompressionMode::default(), CompressionMode::Balance);
}

#[test]
fn vec_takes_codes_in_order() {
    let mut sink: Vec<Code> = Vec::new();
    sink.consume(Code::Literal(1));
    sink.consume(Code::Pointer { length: 3, backward_distance: 1 });
    assert_eq!(
        sink,
        vec![Code::Literal(1), Code::Pointer { length: 3, backward_distance: 1 }]
    );
}

#[test]
fn no_compression_emits_one_literal_per_byte() {
    let mut encoder = NonCompressedLz77Encoder::new();
    let mut sink: Vec<Code> = vec![Code::Literal(9)];
    encoder.encode(b"aaaa", &mut sink);
    encoder.encode(b"", &mut sink);
    encoder.encode(&[0, 255], &mut sink);
    encoder.flush(&mut sink);
    assert_eq!(
        sink,
        vec![
            Code::Literal(9),
            Code::Literal(b'a'),
            Code::Literal(b'a'),
            Code::Literal(b'a'),
            Code::Literal(b'a'),
            Code::Literal(0),
            Code::Literal(255),
        ]
    );
    assert!(sink.iter().all(|code| matches!(code, Code::Literal(_))));
    assert_eq!(encoder.compression_mode(), CompressionMode::NoCompression);
    assert_eq!(encoder.window_size(), 32768);
}

#[test]
fn a_handle_to_a_sink_is_a_sink() {
    let mut sink: Vec<Code> = Vec::new();
    {
        let mut handle = &mut sink;
        Sink::consume(&mut handle, Code::Literal(1));
        let mut encoder = NonCompressedLz77Encoder::new();
        encoder.encode(b"ab", &mut handle);
        encoder.flush(&mut handle);
    }
    assert_eq!(sink, vec![Code::Literal(1), Code::Literal(b'a'), Code::Literal(b'b')]);
}
