use synurang::message::{Empty, GetCacheRequest, PingResponse};
use synurang::service::{CacheServiceFfiClient, FfiChannel, HealthServiceFfiClient, MockFfiServer};

#[test]
fn test_ping() {
    let mut client = HealthServiceFfiClient::new(MockFfiServer::new());

    let response = client.ping(&Empty).unwrap();

    assert_eq!(response.message, "pong");
    assert_eq!(client.server().ping_count, 1);
}

#[test]
fn test_get_cache() {
    let mut server = MockFfiServer::new();
    server.set_cache("test-key", "test-value");

    let mut client = CacheServiceFfiClient::new(server);
    let request = GetCacheRequest {
        store_name: "default".to_string(),
        key: "test-key".to_string(),
    };

    let response = client.get(&request).unwrap();

    assert_eq!(response.value, "test-value");
    assert_eq!(client.server().get_count, 1);
}

#[test]
fn test_get_cache_not_found() {
    let mut client = CacheServiceFfiClient::new(MockFfiServer::new());

    let request = GetCacheRequest {
        store_name: "default".to_string(),
        key: "non-existent".to_string(),
    };

    let response = client.get(&request).unwrap();
    assert!(response.value.is_empty());
}

#[test]
fn test_multiple_pings() {
    let mut client = HealthServiceFfiClient::new(MockFfiServer::new());

    for _ in 0..100 {
        let response = client.ping(&Empty).unwrap();
        assert_eq!(response.message, "pong");
    }

    assert_eq!(client.server().ping_count, 100);
}

#[test]
fn test_channel_direct_invoke() {
    let mut channel = FfiChannel::new(MockFfiServer::new());

    let response: PingResponse = channel
        .invoke("/core.v1.HealthService/Ping", &Empty)
        .unwrap();

    assert_eq!(response.message, "pong");
}

#[test]
fn test_unknown_method() {
    let mut channel = FfiChannel::new(MockFfiServer::new());

    let result: Result<PingResponse, String> =
        channel.invoke("/unknown.Service/Method", &Empty);

    assert!(result.is_err());
    assert!(result.unwrap_err().contains("unknown method"));
}

#[test]
fn later_cache_value_replaces_earlier() {
    let mut server = MockFfiServer::new();
    server.set_cache("k", "first");
    server.set_cache("other", "x");
    server.set_cache("k", "second");
    let mut client = CacheServiceFfiClient::new(server);
    let request = GetCacheRequest {
        store_name: "s".to_string(),
        key: "k".to_string(),
    };
    assert_eq!(client.get(&request).unwrap().value, "second");
    let request = GetCacheRequest {
        store_name: "s".to_string(),
        key: "other".to_string(),
    };
    assert_eq!(client.get(&request).unwrap().value, "x");
    assert_eq!(client.server().get_count, 2);
    assert_eq!(client.server().ping_count, 0);
}

#[test]
fn unknown_method_error_names_the_method() {
    let mut channel = FfiChannel::new(MockFfiServer::new());
    let result: Result<PingResponse, String> = channel.invoke("/unknown.Service/Method", &Empty);
    assert_eq!(result.unwrap_err(), "unknown method: /unknown.Service/Method");
    assert_eq!(channel.server().ping_count, 0);
}

#[test]
fn ping_response_read_as_cache_response_is_invalid() {
    let mut channel = FfiChannel::new(MockFfiServer::new());
    let result: Result<synurang::message::GetCacheResponse, String> =
        channel.invoke("/core.v1.HealthService/Ping", &Empty);
    assert_eq!(result.unwrap_err(), "Invalid format");
    assert_eq!(channel.server().ping_count, 1);
}
