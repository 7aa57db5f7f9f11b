use shotover_codec::codec::{DecodeType, RedisCodec};

fn hex(s: &str) -> Vec<u8> {
    (0..s.len())
        .step_by(2)
        .map(|i| u8::from_str_radix(&s[i..i + 2], 16).unwrap())
        .collect()
}

const SET_MESSAGE: &str = "2a330d0a24330d0a5345540d0a2431360d0a6b65793a5f5f72616e645f696e745f5f0d0a24330d0a7878780d0a";
const OK_MESSAGE: &str = "2b4f4b0d0a";
const GET_MESSAGE: &str = "2a320d0a24330d0a4745540d0a2431360d0a6b65793a5f5f72616e645f696e745f5f0d0a";
const INC_MESSAGE: &str = "2a320d0a24340d0a494e43520d0a2432300d0a636f756e7465723a5f5f72616e645f696e745f5f0d0a";
const LPUSH_MESSAGE: &str = "2a330d0a24350d0a4c505553480d0a24360d0a6d796c6973740d0a24330d0a7878780d0a";
const RPUSH_MESSAGE: &str = "2a330d0a24350d0a52505553480d0a24360d0a6d796c6973740d0a24330d0a7878780d0a";
const LPOP_MESSAGE: &str = "2a320d0a24340d0a4c504f500d0a24360d0a6d796c6973740d0a";
const SADD_MESSAGE: &str = "2a330d0a24340d0a534144440d0a24350d0a6d797365740d0a2432300d0a656c656d656e743a5f5f72616e645f696e745f5f0d0a";
const HSET_MESSAGE: &str = "2a340d0a24340d0a485345540d0a2431380d0a6d797365743a5f5f72616e645f696e745f5f0d0a2432300d0a656c656d656e743a5f5f72616e645f696e745f5f0d0a24330d0a7878780d0a";

fn test_frame(codec: &mut RedisCodec, raw_frame: &[u8]) {
    let mut src = raw_frame.to_vec();
    let message = codec.decode(&mut src).unwrap().unwrap();
    assert!(src.is_empty());
    let mut dest = Vec::new();
    codec.encode(message, &mut dest).unwrap();
    assert_eq!(raw_frame, &dest[..]);
}

#[test]
fn test_ok_codec() {
    let mut codec = RedisCodec::new(DecodeType::Response);
    test_frame(&mut codec, &hex(OK_MESSAGE));
}

#[test]
fn test_set_codec() {
    let mut codec = RedisCodec::new(DecodeType::Query);
    test_frame(&mut codec, &hex(SET_MESSAGE));
}

#[test]
fn test_get_codec() {
    let mut codec = RedisCodec::new(DecodeType::Query);
    test_frame(&mut codec, &hex(GET_MESSAGE));
}

#[test]
fn test_inc_codec() {
    let mut codec = RedisCodec::new(DecodeType::Query);
    test_frame(&mut codec, &hex(INC_MESSAGE));
}

#[test]
fn test_lpush_codec() {
    let mut codec = RedisCodec::new(DecodeType::Query);
    test_frame(&mut codec, &hex(LPUSH_MESSAGE));
}

#[test]
fn test_rpush_codec() {
    let mut codec = RedisCodec::new(DecodeType::Query);
    test_frame(&mut codec, &hex(RPUSH_MESSAGE));
}

#[test]
fn test_lpop_codec() {
    let mut codec = RedisCodec::new(DecodeType::Query);
    test_frame(&mut codec, &hex(LPOP_MESSAGE));
}

#[test]
fn test_sadd_codec() {
    let mut codec = RedisCodec::new(DecodeType::Query);
    test_frame(&mut codec, &hex(SADD_MESSAGE));
}

#[test]
fn test_hset_codec() {
    let mut codec = RedisCodec::new(DecodeType::Query);
    test_frame(&mut codec, &hex(HSET_MESSAGE));
}

#[test]
fn passthrough_with_classification_on() {
    for (kind, raw) in [
        (DecodeType::Query, SET_MESSAGE),
        (DecodeType::Query, GET_MESSAGE),
        (DecodeType::Query, INC_MESSAGE),
        (DecodeType::Query, LPUSH_MESSAGE),
        (DecodeType::Query, RPUSH_MESSAGE),
        (DecodeType::Query, LPOP_MESSAGE),
        (DecodeType::Query, SADD_MESSAGE),
        (DecodeType::Query, HSET_MESSAGE),
        (DecodeType::Response, OK_MESSAGE),
    ] {
        let mut codec = RedisCodec::new(kind);
        codec.set_enable_metadata(true);
        test_frame(&mut codec, &hex(raw));
    }
}

#[test]
fn strict_prefixes_need_more_bytes() {
    let raw = hex(HSET_MESSAGE);
    for n in 0..raw.len() {
        let mut codec = RedisCodec::new(DecodeType::Query);
        let mut src = raw[..n].to_vec();
        assert!(codec.decode(&mut src).unwrap().is_none(), "prefix of {} bytes", n);
        assert_eq!(src, raw[..n].to_vec());
    }
}

#[test]
fn complete_frames_then_partial_frame() {
    let mut src = hex(SET_MESSAGE);
    src.extend(hex(GET_MESSAGE));
    let partial = hex(LPOP_MESSAGE)[..7].to_vec();
    src.extend(partial.clone());
    let mut codec = RedisCodec::new(DecodeType::Query);
    let batch = codec.decode(&mut src).unwrap().unwrap();
    assert_eq!(batch.len(), 2);
    assert_eq!(src, partial);
    let mut dest = Vec::new();
    codec.encode(batch, &mut dest).unwrap();
    let mut expected = hex(SET_MESSAGE);
    expected.extend(hex(GET_MESSAGE));
    assert_eq!(dest, expected);
}

#[test]
fn malformed_bytes_are_a_decode_error() {
    let mut codec = RedisCodec::new(DecodeType::Query);
    let mut src = b"?oops\r\n".to_vec();
    let err = codec.decode(&mut src).unwrap_err();
    assert_eq!(err.position, 0);
    assert_eq!(src, b"?oops\r\n".to_vec());
    let mut bad_length = b"$x\r\nabc\r\n".to_vec();
    assert!(codec.decode(&mut bad_length).is_err());
    assert_eq!(bad_length, b"$x\r\nabc\r\n".to_vec());
}
