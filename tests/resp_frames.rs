use shotover_codec::resp::{decode_frames, encode_frame, EncodeError, RedisFrame};

fn encoded(f: &RedisFrame) -> Vec<u8> {
    let mut out = Vec::new();
    encode_frame(f, &mut out).unwrap();
    out
}

fn sample_frames() -> Vec<RedisFrame> {
    vec![
        RedisFrame::SimpleString(b"OK".to_vec()),
        RedisFrame::SimpleString(b"a\nb".to_vec()),
        RedisFrame::Error(b"ERR wrong type".to_vec()),
        RedisFrame::Integer(0),
        RedisFrame::Integer(-42),
        RedisFrame::Integer(i64::MIN + 1),
        RedisFrame::Integer(i64::MAX),
        RedisFrame::BulkString(Vec::new()),
        RedisFrame::BulkString(b"a\r\nb".to_vec()),
        RedisFrame::Null,
        RedisFrame::Array(Vec::new()),
        RedisFrame::Array(vec![
            RedisFrame::BulkString(b"x".to_vec()),
            RedisFrame::Array(vec![RedisFrame::Integer(7), RedisFrame::Null]),
        ]),
    ]
}

#[test]
fn exact_encodings() {
    assert_eq!(encoded(&RedisFrame::SimpleString(b"OK".to_vec())), b"+OK\r\n".to_vec());
    assert_eq!(encoded(&RedisFrame::Error(b"ERR x".to_vec())), b"-ERR x\r\n".to_vec());
    assert_eq!(encoded(&RedisFrame::Integer(-42)), b":-42\r\n".to_vec());
    assert_eq!(encoded(&RedisFrame::BulkString(b"abc".to_vec())), b"$3\r\nabc\r\n".to_vec());
    assert_eq!(encoded(&RedisFrame::Null), b"$-1\r\n".to_vec());
    assert_eq!(encoded(&RedisFrame::Integer(9999999999999999)), b":9999999999999999\r\n".to_vec());
    assert_eq!(
        encoded(&RedisFrame::Integer(999999999999999999)),
        b":999999999999999999\r\n".to_vec()
    );
    assert_eq!(
        encoded(&RedisFrame::Array(vec![RedisFrame::Integer(1), RedisFrame::Null])),
        b"*2\r\n:1\r\n$-1\r\n".to_vec()
    );
}

#[test]
fn decode_of_encode_gives_the_frame_back() {
    for f in sample_frames() {
        let mut buf = encoded(&f);
        let frames = decode_frames(&mut buf).unwrap().unwrap();
        assert_eq!(frames.len(), 1);
        assert_eq!(format!("{:?}", frames[0]), format!("{:?}", f));
        assert!(buf.is_empty());
    }
}

#[test]
fn unencodable_frames_are_encode_errors() {
    let mut out = b"kept".to_vec();
    let r = encode_frame(&RedisFrame::SimpleString(b"a\r\nb".to_vec()), &mut out);
    assert_eq!(r, Err(EncodeError::UnrepresentableFrame));
    let r = encode_frame(&RedisFrame::Error(vec![0xff, 0xfe]), &mut out);
    assert_eq!(r, Err(EncodeError::UnrepresentableFrame));
    let r = encode_frame(&RedisFrame::Integer(i64::MIN), &mut out);
    assert_eq!(r, Err(EncodeError::UnrepresentableFrame));
    assert_eq!(out, b"kept".to_vec());
    assert_eq!(encode_frame(&RedisFrame::Integer(5), &mut out), Ok(()));
    assert_eq!(out, b"kept:5\r\n".to_vec());
}

#[test]
fn null_array_decodes_to_null() {
    let mut buf = b"*-1\r\n".to_vec();
    let frames = decode_frames(&mut buf).unwrap().unwrap();
    assert!(matches!(frames[..], [RedisFrame::Null]));
}

#[test]
fn lenient_integers_are_accepted() {
    let mut buf = b":007\r\n:+5\r\n".to_vec();
    let frames = decode_frames(&mut buf).unwrap().unwrap();
    assert!(matches!(frames[..], [RedisFrame::Integer(7), RedisFrame::Integer(5)]));
}

#[test]
fn empty_buffer_needs_more_bytes() {
    let mut buf = Vec::new();
    assert!(decode_frames(&mut buf).unwrap().is_none());
}
