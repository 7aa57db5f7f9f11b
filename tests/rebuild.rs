use shotover_codec::cassandra::{build_cassandra_response_frame, frame_length, frame_step, FrameStep};
use shotover_codec::classify::handle_redis_array_query;
use shotover_codec::codec::{DecodeType, RedisCodec};
use shotover_codec::message::{
    CassandraFrame, IntSize, RawFrame, Message, MessageDetails, MessageValue, QueryMessage,
    QueryResponse,
};
use shotover_codec::resp::{EncodeError, RedisFrame};

fn query_frame() -> CassandraFrame {
    CassandraFrame {
        version: 4,
        flags: 0,
        stream: 7,
        opcode: 7,
        tracing_id: None,
        body: Vec::new(),
    }
}

fn query(namespace: Vec<&str>, projection: Option<Vec<&str>>) -> Message {
    let mut q = QueryMessage::empty();
    q.namespace = namespace.into_iter().map(|s| s.as_bytes().to_vec()).collect();
    q.projection = projection.map(|p| p.into_iter().map(|s| s.as_bytes().to_vec()).collect());
    Message::new(MessageDetails::Query(q), false, RawFrame::Cassandra(query_frame()))
}

fn response(rows: Vec<Vec<MessageValue>>, matching: Option<Message>) -> QueryResponse {
    QueryResponse {
        matching_query: matching.map(Box::new),
        result: Some(MessageValue::Rows(rows)),
        error: None,
        response_meta: None,
    }
}

#[test]
fn rows_result_layout() {
    let rows = vec![vec![
        MessageValue::Integer(-2, IntSize::I64),
        MessageValue::Strings(b"hi".to_vec()),
        MessageValue::Boolean(true),
        MessageValue::NULL,
    ]];
    let m = query(vec!["ks", "t"], Some(vec!["a", "b", "c", "d"]));
    let f = build_cassandra_response_frame(response(rows, Some(m))).unwrap();
    assert_eq!((f.version, f.opcode, f.stream, f.flags), (0x84, 0x08, 7, 0));
    let mut expected: Vec<u8> = vec![0, 0, 0, 2, 0, 0, 0, 0, 0, 0, 0, 4];
    for col in ["a", "b", "c", "d"] {
        expected.extend([0, 2, b'k', b's', 0, 1, b't', 0, 1, col.as_bytes()[0], 0, 1]);
    }
    expected.extend([0, 0, 0, 1]);
    expected.extend([0, 0, 0, 8, 0xff, 0xff, 0xff, 0xff, 0xff, 0xff, 0xff, 0xfe]);
    expected.extend([0, 0, 0, 2, b'h', b'i']);
    expected.extend([0, 0, 0, 4, 0, 0, 0, 1]);
    expected.extend([0xff, 0xff, 0xff, 0xff]);
    assert_eq!(f.body, expected);
}

#[test]
fn timestamp_cells_are_rfc2822_text() {
    let m = query(vec!["ks", "t"], Some(vec!["a"]));
    let f = build_cassandra_response_frame(response(vec![vec![MessageValue::Timestamp(0)]], Some(m)))
        .unwrap();
    let text = b"Thu, 1 Jan 1970 00:00:00 +0000";
    let mut cell = vec![0, 0, 0, text.len() as u8];
    cell.extend_from_slice(text);
    assert!(f.body.ends_with(&cell));
    let m = query(vec!["ks", "t"], Some(vec!["a"]));
    let late = MessageValue::Timestamp(253402300800);
    let r = build_cassandra_response_frame(response(vec![vec![late]], Some(m)));
    assert_eq!(r.unwrap_err(), EncodeError::UnsupportedCell);
}

#[test]
fn missing_projection_is_an_error() {
    let m = query(vec!["ks", "t"], None);
    let r = build_cassandra_response_frame(response(vec![vec![MessageValue::NULL]], Some(m)));
    assert_eq!(r.unwrap_err(), EncodeError::MissingQueryMetadata);
}

#[test]
fn missing_namespace_is_an_error() {
    let m = query(vec!["ks"], Some(vec!["a"]));
    let r = build_cassandra_response_frame(response(vec![vec![MessageValue::NULL]], Some(m)));
    assert_eq!(r.unwrap_err(), EncodeError::MissingQueryMetadata);
}

#[test]
fn missing_matching_query_is_an_error() {
    let r = build_cassandra_response_frame(response(vec![vec![MessageValue::NULL]], None));
    assert_eq!(r.unwrap_err(), EncodeError::MissingQueryMetadata);
}

#[test]
fn nested_rows_are_an_error() {
    let m = query(vec!["ks", "t"], Some(vec!["a"]));
    let rows = vec![vec![MessageValue::Rows(Vec::new())]];
    let r = build_cassandra_response_frame(response(rows, Some(m)));
    assert_eq!(r.unwrap_err(), EncodeError::UnsupportedCell);
}

#[test]
fn row_of_the_wrong_arity_is_an_error() {
    let m = query(vec!["ks", "t"], Some(vec!["a", "b"]));
    let r = build_cassandra_response_frame(response(vec![vec![MessageValue::NULL]], Some(m)));
    assert_eq!(r.unwrap_err(), EncodeError::UnsupportedCell);
}

#[test]
fn rewritten_messages_are_rebuilt() {
    let mut codec = RedisCodec::new(DecodeType::Response);
    let resp = QueryResponse {
        matching_query: None,
        result: None,
        error: Some(MessageValue::Strings(b"ERR no".to_vec())),
        response_meta: None,
    };
    let rewritten = Message::new(
        MessageDetails::Response(resp),
        true,
        RawFrame::Redis(RedisFrame::Null),
    );
    let mut q = QueryMessage::empty();
    q.query_string = b"PING".to_vec();
    let rewritten_query = Message::new(MessageDetails::Query(q), true, RawFrame::Redis(RedisFrame::Null));
    let mut dest = Vec::new();
    codec.encode(vec![rewritten, rewritten_query], &mut dest).unwrap();
    assert_eq!(dest, b"-ERR no\r\n+PING\r\n".to_vec());
}

#[test]
fn rewritten_query_rebuilds_its_command_frames() {
    let command = vec![
        RedisFrame::BulkString(b"ECHO".to_vec()),
        RedisFrame::Error(b"ERR kept".to_vec()),
        RedisFrame::Integer(3),
    ];
    let q = handle_redis_array_query(command);
    let m = Message::new(MessageDetails::Query(q), true, RawFrame::Redis(RedisFrame::Null));
    let mut codec = RedisCodec::new(DecodeType::Query);
    let mut dest = Vec::new();
    codec.encode(vec![m], &mut dest).unwrap();
    assert_eq!(dest, b"*3\r\n$4\r\nECHO\r\n-ERR kept\r\n:3\r\n".to_vec());
}

#[test]
fn encoding_stops_at_a_foreign_frame_and_keeps_earlier_bytes() {
    let mut codec = RedisCodec::new(DecodeType::Query);
    let first = Message::new(MessageDetails::Unknown, false, RawFrame::Redis(RedisFrame::Integer(1)));
    let foreign = Message::new(MessageDetails::Unknown, false, RawFrame::Cassandra(query_frame()));
    let last = Message::new(MessageDetails::Unknown, false, RawFrame::Redis(RedisFrame::Integer(2)));
    let mut dest = Vec::new();
    let r = codec.encode(vec![first, foreign, last], &mut dest);
    assert_eq!(r, Err(EncodeError::UnsupportedFrame));
    assert_eq!(dest, b":1\r\n".to_vec());
}

#[test]
fn frame_length_needs_the_whole_header() {
    assert_eq!(frame_length(&vec![0x84, 0, 0, 1, 8, 0, 0, 1]), None);
    assert_eq!(frame_length(&vec![0x84, 0, 0, 1, 8, 0, 0, 1, 2]), Some(9 + 258));
}

#[test]
fn frame_step_reads_the_header_once() {
    let header = vec![0x84, 0, 0, 1, 8, 0, 0, 0, 3];
    assert_eq!(frame_step(None, &header[..4].to_vec(), 4), FrameStep::Wait(None));
    assert_eq!(frame_step(None, &header, 10), FrameStep::Wait(Some(12)));
    assert_eq!(frame_step(Some(12), &Vec::new(), 11), FrameStep::Wait(Some(12)));
    assert_eq!(frame_step(Some(12), &Vec::new(), 12), FrameStep::Take(12));
}

#[test]
fn malformed_number_lines_are_decode_errors() {
    let mut codec = RedisCodec::new(DecodeType::Query);
    for bad in [&b"$x\r\nabc\r\n"[..], &b"*1a\r\n"[..], &b":12z\r\n"[..]] {
        let mut src = bad.to_vec();
        assert!(codec.decode(&mut src).is_err());
        assert_eq!(src, bad.to_vec());
    }
}
