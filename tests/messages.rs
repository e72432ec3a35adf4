use synurang::message::{Empty, GetCacheRequest, GetCacheResponse, Message, PingResponse};

#[test]
fn ping_response_encodes_with_tag() {
    let mut buf = Vec::new();
    PingResponse { message: "pong".to_string() }.encode(&mut buf).unwrap();
    assert_eq!(buf, b"ping:pong".to_vec());
}

#[test]
fn encode_appends_to_existing_bytes() {
    let mut buf = b"xy".to_vec();
    GetCacheResponse { value: "v".to_string() }.encode(&mut buf).unwrap();
    assert_eq!(buf, b"xyresp:v".to_vec());
    Empty.encode(&mut buf).unwrap();
    assert_eq!(buf, b"xyresp:v".to_vec());
}

#[test]
fn get_cache_request_encodes_both_fields() {
    let mut buf = Vec::new();
    let request = GetCacheRequest {
        store_name: "default".to_string(),
        key: "test-key".to_string(),
    };
    request.encode(&mut buf).unwrap();
    assert_eq!(buf, b"get:default:test-key".to_vec());
}

#[test]
fn get_cache_request_splits_at_first_colon() {
    let request = GetCacheRequest::decode(b"get:a:b:c").unwrap();
    assert_eq!(request.store_name, "a");
    assert_eq!(request.key, "b:c");
}

#[test]
fn get_cache_request_without_colon_is_invalid() {
    assert_eq!(GetCacheRequest::decode(b"get:abc").err().unwrap(), "Invalid format");
    assert_eq!(GetCacheRequest::decode(b"got:a:b").err().unwrap(), "Invalid format");
}

#[test]
fn decode_rejects_wrong_tag() {
    assert_eq!(PingResponse::decode(b"pong:x").err().unwrap(), "Invalid format");
    assert_eq!(GetCacheResponse::decode(b"resp").err().unwrap(), "Invalid format");
    assert!(Empty::decode(b"anything").is_ok());
}

#[test]
fn messages_round_trip() {
    let ping = PingResponse { message: "héllo".to_string() };
    let mut buf = Vec::new();
    ping.encode(&mut buf).unwrap();
    assert_eq!(PingResponse::decode(&buf).unwrap().message, "héllo");

    let request = GetCacheRequest {
        store_name: "store".to_string(),
        key: "k:1".to_string(),
    };
    let mut buf = Vec::new();
    request.encode(&mut buf).unwrap();
    let back = GetCacheRequest::decode(&buf).unwrap();
    assert_eq!(back.store_name, "store");
    assert_eq!(back.key, "k:1");

    let response = GetCacheResponse { value: String::new() };
    let mut buf = Vec::new();
    response.encode(&mut buf).unwrap();
    assert_eq!(GetCacheResponse::decode(&buf).unwrap().value, "");
}

#[test]
fn invalid_utf8_is_read_lossily() {
    let response = PingResponse::decode(b"ping:a\xffb").unwrap();
    assert_eq!(response.message, "a\u{fffd}b");
}

#[test]
fn store_name_with_colon_and_backslash_round_trips() {
    let request = GetCacheRequest {
        store_name: "a:b\\c".to_string(),
        key: "k:1".to_string(),
    };
    let mut buf = Vec::new();
    request.encode(&mut buf).unwrap();
    assert_eq!(buf, b"get:a\\:b\\\\c:k:1".to_vec());
    let back = GetCacheRequest::decode(&buf).unwrap();
    assert_eq!(back.store_name, "a:b\\c");
    assert_eq!(back.key, "k:1");

    let request = GetCacheRequest {
        store_name: ":".to_string(),
        key: String::new(),
    };
    let mut buf = Vec::new();
    request.encode(&mut buf).unwrap();
    assert_eq!(buf, b"get:\\::".to_vec());
    let back = GetCacheRequest::decode(&buf).unwrap();
    assert_eq!(back.store_name, ":");
    assert_eq!(back.key, "");
}

#[test]
fn store_name_ending_in_lone_backslash_is_invalid() {
    assert_eq!(GetCacheRequest::decode(b"get:ab\\").err().unwrap(), "Invalid format");
    assert_eq!(GetCacheRequest::decode(b"get:ab\\:").err().unwrap(), "Invalid format");
}
