use synurang::boundary::{c_str_to_str, c_str_to_string, STREAM_UNAVAILABLE};
use synurang::dispatch::{DispatchError, Dispatcher};
use synurang::service::{same_text, MockFfiServer};
use synurang::transfer::{request_view_len, AllocInfo, AllocRegistry, FfiData};

fn get_request(key: &str) -> Vec<u8> {
    let mut data = b"get:default:".to_vec();
    data.extend_from_slice(key.as_bytes());
    data
}

#[test]
fn empty_buffer_is_null_and_zero() {
    let e = FfiData::empty();
    assert_eq!(e.data, 0);
    assert_eq!(e.len, 0);
}

#[test]
fn transfer_then_release_reclaims_once() {
    let mut registry = AllocRegistry::new();
    let buffer = registry.transfer(4096, 5, 8);
    assert_eq!(buffer, FfiData { data: 4096, len: 5 });
    assert!(registry.is_live(4096));
    assert_eq!(registry.release(4096), Some(AllocInfo { len: 5, cap: 8 }));
    assert_eq!(registry.release(4096), None);
    assert!(!registry.is_live(4096));
    assert_eq!(registry.live_count(), 0);
}

#[test]
fn release_of_unknown_or_null_is_a_no_op() {
    let mut registry = AllocRegistry::new();
    registry.transfer(100, 1, 1);
    assert_eq!(registry.release(0), None);
    assert_eq!(registry.release(200), None);
    assert_eq!(registry.live_count(), 1);
    assert!(registry.is_live(100));
}

#[test]
fn entries_for_different_addresses_are_independent() {
    let mut registry = AllocRegistry::new();
    registry.transfer(10, 0, 0);
    registry.transfer(20, 3, 16);
    assert_eq!(registry.live_count(), 2);
    assert_eq!(registry.release(20), Some(AllocInfo { len: 3, cap: 16 }));
    assert_eq!(registry.release(10), Some(AllocInfo { len: 0, cap: 0 }));
    assert_eq!(registry.live_count(), 0);
}

#[test]
fn request_view_is_empty_for_null_or_non_positive_length() {
    assert_eq!(request_view_len(true, 10), 0);
    assert_eq!(request_view_len(false, 0), 0);
    assert_eq!(request_view_len(false, -5), 0);
    assert_eq!(request_view_len(true, -1), 0);
    assert_eq!(request_view_len(false, 1), 1);
    assert_eq!(request_view_len(false, 1 << 20), 1 << 20);
}

#[test]
fn invoke_before_register_fails_with_no_handler() {
    let mut dispatcher: Dispatcher<MockFfiServer> = Dispatcher::new();
    assert!(!dispatcher.is_registered());
    let r = dispatcher.invoke("/core.v1.HealthService/Ping", b"anything");
    assert!(matches!(r, Err(DispatchError::NoHandler)));
    let r = dispatcher.invoke("", &[]);
    assert!(matches!(r, Err(DispatchError::NoHandler)));
}

#[test]
fn last_registered_handler_answers() {
    let mut a = MockFfiServer::new();
    a.set_cache("k", "from-a");
    let mut b = MockFfiServer::new();
    b.set_cache("k", "from-b");
    let mut dispatcher = Dispatcher::new();
    dispatcher.register(a);
    dispatcher.register(b);
    assert!(dispatcher.is_registered());
    for _ in 0..3 {
        let r = dispatcher.invoke("/core.v1.CacheService/Get", &get_request("k")).unwrap();
        assert_eq!(r, b"resp:from-b".to_vec());
    }
}

#[test]
fn ten_callers_of_ten_pings_count_one_hundred() {
    let mut dispatcher = Dispatcher::new();
    dispatcher.register(MockFfiServer::new());
    for _caller in 0..10 {
        for _ in 0..10 {
            let r = dispatcher.invoke("/core.v1.HealthService/Ping", &[]).unwrap();
            assert_eq!(r, b"ping:pong".to_vec());
        }
    }
    let r = dispatcher.invoke("/core.v1.CacheService/Get", b"bad").unwrap_err();
    assert!(matches!(r, DispatchError::HandlerError(ref m) if m == "Invalid format"));
}

#[test]
fn unknown_method_through_dispatcher_is_a_handler_error() {
    let mut dispatcher = Dispatcher::new();
    dispatcher.register(MockFfiServer::new());
    match dispatcher.invoke("/unknown.Service/Method", b"x") {
        Err(DispatchError::HandlerError(m)) => {
            assert!(m.contains("/unknown.Service/Method"));
            assert_eq!(m, "unknown method: /unknown.Service/Method");
        }
        _ => panic!("expected a handler error"),
    }
}

#[test]
fn request_bytes_reach_the_handler_intact() {
    for len in [0usize, 1, 1 << 20] {
        let key: String = (0..len).map(|i| (b'a' + (i % 26) as u8) as char).collect();
        let mut server = MockFfiServer::new();
        server.set_cache(&key, "found");
        let mut dispatcher = Dispatcher::new();
        dispatcher.register(server);
        let r = dispatcher.invoke("/core.v1.CacheService/Get", &get_request(&key)).unwrap();
        assert_eq!(r, b"resp:found".to_vec());
    }
}

#[test]
fn method_names_from_c_strings() {
    assert_eq!(c_str_to_str(None), "");
    assert_eq!(c_str_to_str(Some(b"\xff\xfe")), "");
    assert_eq!(c_str_to_str(Some("/a.B/C".as_bytes())), "/a.B/C");
    assert_eq!(c_str_to_str(Some("é".as_bytes())), "é");
}

#[test]
fn display_text_from_c_strings() {
    assert_eq!(c_str_to_string(None), "null");
    assert_eq!(c_str_to_string(Some(b"tok")), "tok");
    assert_eq!(c_str_to_string(Some(b"a\xffb")), "a\u{fffd}b");
    assert_eq!(STREAM_UNAVAILABLE, -1);
}

#[test]
fn same_text_compares_exactly() {
    assert!(same_text("abc", "abc"));
    assert!(!same_text("abc", "abd"));
    assert!(!same_text("abc", "ab"));
    assert!(same_text("", ""));
}

#[test]
fn backend_invocation_degrades_failures_to_nothing() {
    let mut dispatcher: Dispatcher<MockFfiServer> = Dispatcher::new();
    assert_eq!(
        synurang::boundary::invoke_backend(&mut dispatcher, Some(b"/core.v1.HealthService/Ping"), &[]),
        None
    );
    dispatcher.register(MockFfiServer::new());
    assert_eq!(
        synurang::boundary::invoke_backend(&mut dispatcher, Some(b"/core.v1.HealthService/Ping"), &[]),
        Some(b"ping:pong".to_vec())
    );
    assert_eq!(
        synurang::boundary::invoke_backend(&mut dispatcher, Some(b"/unknown.Service/Method"), b"x"),
        None
    );
    assert_eq!(synurang::boundary::invoke_backend(&mut dispatcher, None, &[]), None);
    assert_eq!(
        synurang::boundary::invoke_backend(&mut dispatcher, Some(b"/core.v1.HealthService/Ping\xff"), &[]),
        None
    );
}

#[test]
fn many_releases_reclaim_once() {
    let mut registry = AllocRegistry::new();
    registry.transfer(64, 2, 4);
    assert_eq!(registry.release(64), Some(AllocInfo { len: 2, cap: 4 }));
    for _ in 0..5 {
        assert_eq!(registry.release(64), None);
        assert_eq!(registry.live_count(), 0);
    }
}

#[test]
fn cache_lookup_through_store_name_with_colon() {
    let mut server = MockFfiServer::new();
    server.set_cache("key", "value");
    let mut client = synurang::service::CacheServiceFfiClient::new(server);
    let request = synurang::message::GetCacheRequest {
        store_name: "st:ore".to_string(),
        key: "key".to_string(),
    };
    assert_eq!(client.get(&request).unwrap().value, "value");
}
