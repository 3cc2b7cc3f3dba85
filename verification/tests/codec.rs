use host_bridge::action::Record;
use host_bridge::codec::{
    decode_request, decode_response, encode_request, encode_response, GetRequest,
};

fn request(key: &str) -> GetRequest {
    GetRequest { key: key.to_string() }
}

fn record(content: &str) -> Option<Record> {
    Some(Record { content: content.to_string() })
}

fn content_of(found: Option<Option<Record>>) -> Option<Option<String>> {
    found.map(|inner| inner.map(|record| record.content))
}

#[test]
fn request_with_key_decodes() {
    let decoded = decode_request(b"{\"key\":\"foo\"}".to_vec()).unwrap();
    assert_eq!(decoded.key, "foo");
}

#[test]
fn request_decoding_picks_the_key_not_the_text() {
    let decoded = decode_request(b"  { \"key\" : \"a b\" }  ".to_vec()).unwrap();
    assert_eq!(decoded.key, "a b");
}

#[test]
fn request_may_carry_other_members() {
    let decoded = decode_request(b"{\"n\":1,\"key\":\"foo\",\"deep\":{\"x\":[]}}".to_vec()).unwrap();
    assert_eq!(decoded.key, "foo");
}

#[test]
fn request_with_escapes_decodes() {
    let decoded = decode_request(b"{\"key\":\"a\\\"b\\u0000c\\n\"}".to_vec()).unwrap();
    assert_eq!(decoded.key, "a\"b\0c\n");
}

#[test]
fn malformed_request_is_refused() {
    assert!(decode_request(b"{\"key\":".to_vec()).is_none());
    assert!(decode_request(b"not json".to_vec()).is_none());
    assert!(decode_request(Vec::new()).is_none());
    assert!(decode_request(b"{\"key\":\"foo\"} trailing".to_vec()).is_none());
}

#[test]
fn request_without_key_is_refused() {
    assert!(decode_request(b"{}".to_vec()).is_none());
    assert!(decode_request(b"{\"other\":\"foo\"}".to_vec()).is_none());
}

#[test]
fn request_with_key_of_other_type_is_refused() {
    assert!(decode_request(b"{\"key\":1}".to_vec()).is_none());
    assert!(decode_request(b"{\"key\":null}".to_vec()).is_none());
    assert!(decode_request(b"{\"key\":[\"foo\"]}".to_vec()).is_none());
}

#[test]
fn request_that_is_no_object_is_refused() {
    assert!(decode_request(b"\"foo\"".to_vec()).is_none());
    assert!(decode_request(b"[\"foo\"]".to_vec()).is_none());
    assert!(decode_request(b"17".to_vec()).is_none());
}

#[test]
fn request_in_invalid_utf8_is_refused() {
    assert!(decode_request(vec![0xff, 0xfe, 0x7b, 0x7d]).is_none());
    let mut bytes = b"{\"key\":\"fo".to_vec();
    bytes.push(0xc3);
    bytes.extend_from_slice(b"\"}");
    assert!(decode_request(bytes).is_none());
}

#[test]
fn request_encodes_as_compact_json() {
    assert_eq!(encode_request(&request("foo")), b"{\"key\":\"foo\"}".to_vec());
    assert_eq!(encode_request(&request("")), b"{\"key\":\"\"}".to_vec());
}

#[test]
fn request_encoding_escapes() {
    assert_eq!(
        encode_request(&request("a\"b\0")),
        b"{\"key\":\"a\\\"b\\u0000\"}".to_vec()
    );
}

#[test]
fn request_round_trip() {
    for key in ["foo", "", "a b", "quote\"back\\slash", "z\u{fc}rich \u{1f980}", "nul\0tab\t", "{\"key\":\"x\"}"] {
        let decoded = decode_request(encode_request(&request(key))).unwrap();
        assert_eq!(decoded.key, key);
    }
}

#[test]
fn absent_response_is_the_terminator_alone() {
    assert_eq!(encode_response(&None), vec![0u8]);
}

#[test]
fn found_response_is_json_then_terminator() {
    assert_eq!(encode_response(&record("bar")), b"{\"content\":\"bar\"}\0".to_vec());
}

#[test]
fn response_ends_with_exactly_one_zero_byte() {
    for content in ["", "bar", "nul\0inside", "\u{1f980}"] {
        let bytes = encode_response(&record(content));
        assert_eq!(bytes.iter().filter(|byte| **byte == 0).count(), 1);
        assert_eq!(*bytes.last().unwrap(), 0);
    }
}

#[test]
fn response_round_trip() {
    assert_eq!(content_of(decode_response(&encode_response(&None))), Some(None));
    for content in ["bar", "", "a\"b", "nul\0inside", "z\u{fc}rich \u{1f980}", "line\nbreak"] {
        let decoded = decode_response(&encode_response(&record(content)));
        assert_eq!(content_of(decoded), Some(Some(content.to_string())));
    }
}

#[test]
fn response_decoding_stops_at_the_terminator() {
    let mut bytes = encode_response(&record("bar"));
    bytes.extend_from_slice(b"left over from the request\0");
    assert_eq!(content_of(decode_response(&bytes)), Some(Some("bar".to_string())));
    assert_eq!(content_of(decode_response(&vec![0u8, b'x', 0u8])), Some(None));
}

#[test]
fn response_without_terminator_is_refused() {
    assert!(decode_response(&b"{\"content\":\"bar\"}".to_vec()).is_none());
    assert!(decode_response(&Vec::new()).is_none());
}

#[test]
fn response_that_is_no_record_is_refused() {
    assert!(decode_response(&b"{\"other\":\"bar\"}\0".to_vec()).is_none());
    assert!(decode_response(&b"garbage\0".to_vec()).is_none());
    assert!(decode_response(&vec![0xff, 0x00]).is_none());
}
