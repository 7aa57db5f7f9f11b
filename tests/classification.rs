use shotover_codec::classify::{
    handle_redis_array_query, process_redis_frame_query, process_redis_frame_response,
    redis_query_type,
};
use shotover_codec::message::{ASTHolder, Field, IntSize, MessageValue, QueryType};
use shotover_codec::resp::RedisFrame;

fn bulk(s: &str) -> RedisFrame {
    RedisFrame::BulkString(s.as_bytes().to_vec())
}

fn command(words: &[&str]) -> Vec<RedisFrame> {
    words.iter().map(|w| bulk(w)).collect()
}

fn lookup<'a>(fields: &'a [Field], name: &str) -> Option<&'a MessageValue> {
    fields.iter().find(|f| f.name == name.as_bytes()).map(|f| &f.value)
}

fn bytes_list(v: &MessageValue) -> Vec<Vec<u8>> {
    match v {
        MessageValue::List(l) => l
            .iter()
            .map(|x| match x {
                MessageValue::Bytes(b) => b.clone(),
                other => panic!("not bytes: {:?}", other),
            })
            .collect(),
        other => panic!("not a list: {:?}", other),
    }
}

#[test]
fn set_is_a_write_with_its_key_and_value() {
    let q = handle_redis_array_query(command(&["SET", "key", "value"]));
    assert_eq!(q.query_type, QueryType::Write);
    assert_eq!(bytes_list(lookup(&q.primary_key, "key").unwrap()), vec![b"key".to_vec()]);
    let values = q.query_values.as_ref().unwrap();
    assert_eq!(values.len(), 1);
    assert_eq!(bytes_list(lookup(values, "key").unwrap()), vec![b"value".to_vec()]);
    assert_eq!(q.query_string, b"SET key value".to_vec());
    match &q.ast {
        Some(ASTHolder::Commands(l)) => assert_eq!(l.len(), 3),
        other => panic!("unexpected {:?}", other),
    }
}

#[test]
fn get_is_a_read_with_no_value() {
    let q = handle_redis_array_query(command(&["get", "key"]));
    assert_eq!(q.query_type, QueryType::Read);
    assert_eq!(bytes_list(lookup(&q.primary_key, "key").unwrap()), vec![b"key".to_vec()]);
    let values = q.query_values.as_ref().unwrap();
    assert_eq!(values.len(), 1);
    assert!(matches!(lookup(values, "key"), Some(MessageValue::NULL)));
}

#[test]
fn lpush_stores_values_under_the_list_name() {
    let q = handle_redis_array_query(command(&["LPUSH", "list", "x"]));
    assert_eq!(q.query_type, QueryType::Write);
    assert_eq!(bytes_list(lookup(&q.primary_key, "key").unwrap()), vec![b"list".to_vec()]);
    let values = q.query_values.as_ref().unwrap();
    assert_eq!(bytes_list(lookup(values, "list").unwrap()), vec![b"x".to_vec()]);
}

#[test]
fn mset_records_every_pair() {
    let q = handle_redis_array_query(command(&["MSET", "a", "1", "b", "2"]));
    assert_eq!(
        bytes_list(lookup(&q.primary_key, "key").unwrap()),
        vec![b"a".to_vec(), b"b".to_vec()]
    );
    let values = q.query_values.as_ref().unwrap();
    assert_eq!(bytes_list(lookup(values, "a").unwrap()), vec![b"1".to_vec()]);
    assert_eq!(bytes_list(lookup(values, "b").unwrap()), vec![b"2".to_vec()]);
}

#[test]
fn hset_builds_a_document() {
    let q = handle_redis_array_query(command(&["HSET", "h", "f1", "v1", "f2", "v2"]));
    let values = q.query_values.as_ref().unwrap();
    match lookup(values, "h").unwrap() {
        MessageValue::Document(d) => {
            assert_eq!(d.len(), 2);
            assert_eq!(d[0].name, b"f1".to_vec());
            assert_eq!(d[1].name, b"f2".to_vec());
            assert!(matches!(lookup(d, "f1"), Some(MessageValue::Bytes(b)) if b == b"v1"));
            assert!(matches!(lookup(d, "f2"), Some(MessageValue::Bytes(b)) if b == b"v2"));
        }
        other => panic!("unexpected {:?}", other),
    }
}

#[test]
fn document_entries_are_sorted_by_name() {
    let q = handle_redis_array_query(command(&["HSET", "h", "zz", "1", "aa", "2", "zz", "3"]));
    let values = q.query_values.as_ref().unwrap();
    match lookup(values, "h").unwrap() {
        MessageValue::Document(d) => {
            let names: Vec<Vec<u8>> = d.iter().map(|f| f.name.clone()).collect();
            assert_eq!(names, vec![b"aa".to_vec(), b"zz".to_vec()]);
            assert!(matches!(lookup(d, "zz"), Some(MessageValue::Bytes(b)) if b == b"3"));
        }
        other => panic!("unexpected {:?}", other),
    }
}

#[test]
fn unknown_command_is_a_keys_only_write() {
    let q = handle_redis_array_query(command(&["FLUSHALL", "ASYNC"]));
    assert_eq!(q.query_type, QueryType::Write);
    assert_eq!(bytes_list(lookup(&q.primary_key, "key").unwrap()), vec![b"ASYNC".to_vec()]);
    let values = q.query_values.as_ref().unwrap();
    assert_eq!(values.len(), 1);
    assert!(matches!(lookup(values, "ASYNC"), Some(MessageValue::NULL)));
    assert_eq!(q.query_string, b"FLUSHALL ASYNC".to_vec());
}

#[test]
fn query_string_skips_non_string_elements() {
    let q = handle_redis_array_query(vec![bulk("EXPIRE"), bulk("k"), RedisFrame::Integer(10)]);
    assert_eq!(q.query_string, b"EXPIRE k".to_vec());
}

#[test]
fn empty_or_nameless_arrays_degrade_to_an_empty_query() {
    let q = handle_redis_array_query(Vec::new());
    assert!(q.query_string.is_empty() && q.ast.is_none() && q.query_values.is_none());
    let q = handle_redis_array_query(vec![RedisFrame::Integer(1)]);
    assert!(q.query_string.is_empty() && q.ast.is_none());
}

#[test]
fn scalar_queries_keep_their_text() {
    let q = process_redis_frame_query(&RedisFrame::Integer(-12));
    assert_eq!(q.query_string, b"-12".to_vec());
    assert_eq!(q.query_type, QueryType::ReadWrite);
    let q = process_redis_frame_query(&RedisFrame::SimpleString(b"PING".to_vec()));
    assert_eq!(q.query_string, b"PING".to_vec());
}

#[test]
fn response_shapes() {
    let r = process_redis_frame_response(&RedisFrame::SimpleString(b"OK".to_vec()));
    assert!(matches!(&r.result, Some(MessageValue::Strings(s)) if s == b"OK"));
    assert!(r.error.is_none());
    let r = process_redis_frame_response(&RedisFrame::Error(b"ERR bad".to_vec()));
    assert!(r.result.is_none());
    assert!(matches!(&r.error, Some(MessageValue::Strings(s)) if s == b"ERR bad"));
    let r = process_redis_frame_response(&RedisFrame::Null);
    assert!(r.result.is_none() && r.error.is_none());
    let r = process_redis_frame_response(&RedisFrame::Integer(3));
    assert!(matches!(&r.result, Some(MessageValue::Integer(3, IntSize::I32))));
    let r = process_redis_frame_response(&RedisFrame::BulkString(b"v".to_vec()));
    assert!(matches!(&r.result, Some(MessageValue::Bytes(b)) if b == b"v"));
    let r = process_redis_frame_response(&RedisFrame::Array(vec![RedisFrame::Null]));
    assert!(matches!(&r.result, Some(MessageValue::List(l)) if l.len() == 1));
}

#[test]
fn read_list_decides_query_type() {
    let f = RedisFrame::Array(command(&["hgetall", "h"]));
    assert_eq!(redis_query_type(&f), QueryType::Read);
    let f = RedisFrame::Array(command(&["append", "k", "v"]));
    assert_eq!(redis_query_type(&f), QueryType::Write);
    assert_eq!(handle_redis_array_query(command(&["append", "k", "v"])).query_type, QueryType::Write);
    let f = RedisFrame::Array(command(&["DEL", "h"]));
    assert_eq!(redis_query_type(&f), QueryType::Write);
    assert_eq!(redis_query_type(&RedisFrame::Null), QueryType::Write);
}
