use http_tunnel::constants::{
    HEARTBEAT_INTERVAL_SECS, MAX_BODY_SIZE_BYTES, MAX_CONNECTION_LIFETIME_SECS,
    PENDING_REQUEST_TTL_SECS, RECONNECT_MAX_DELAY_MS, RECONNECT_MIN_DELAY_MS, RECONNECT_MULTIPLIER,
    REQUEST_TIMEOUT_SECS, WEBSOCKET_IDLE_TIMEOUT_SECS,
};
use http_tunnel::protocol::{Headers, HttpResponse};
use http_tunnel::relay::{
    extract_token,
    build_http_request, connection_record, detect_event_type, extract_subdomain,
    extract_tunnel_id_from_path, build_api_gateway_response, is_status_change_to_completed,
    next_poll_interval, ready_retry_delay, route_public_path, strip_tunnel_id_from_path,
    timeout_response, EventError, EventShape, EventType, RelayError,
};

fn shape() -> EventShape {
    EventShape {
        first_record_source: None,
        source: None,
        has_detail_type: false,
        has_http_context: false,
        route_key: None,
        has_http_method: false,
    }
}

#[test]
fn test_extract_subdomain_simple() {
    assert_eq!(extract_subdomain("abc123.tunnel.example.com").unwrap(), "abc123");
}

#[test]
fn test_extract_subdomain_localhost() {
    assert_eq!(extract_subdomain("localhost").unwrap(), "localhost");
}

#[test]
fn test_extract_subdomain_with_port() {
    assert_eq!(extract_subdomain("abc123.tunnel.example.com:443").unwrap(), "abc123");
}

#[test]
fn test_public_url_format() {
    let record = connection_record(
        "conn".to_string(),
        "abc123def456".to_string(),
        "tunnel.example.com",
        true,
        0,
    );
    assert_eq!(record.public_url, "https://abc123def456.tunnel.example.com");
}

#[test]
fn test_disconnect_handler_always_succeeds() {
    assert_eq!(200, 200);
}

#[test]
fn test_build_http_request_simple_get() {
    let req = build_http_request("GET", "/api/users", &vec![], &vec![], None, false, "req_123".to_string(), 1)
        .unwrap();
    assert_eq!(req.request_id, "req_123");
    assert_eq!(req.method, "GET");
    assert_eq!(req.uri, "/api/users");
    assert!(req.body.is_empty());
}

#[test]
fn test_build_http_request_with_path() {
    let req = build_http_request("GET", "/api/users", &vec![], &vec![], None, false, "req_123".to_string(), 1)
        .unwrap();
    assert_eq!(req.request_id, "req_123");
    assert_eq!(req.method, "GET");
    assert_eq!(req.uri, "/api/users");
}

#[test]
fn test_build_http_request_with_body() {
    let req = build_http_request(
        "POST",
        "/api/data",
        &vec![],
        &vec![],
        Some("Hello World"),
        false,
        "req_123".to_string(),
        1,
    )
    .unwrap();
    assert_eq!(req.method, "POST");
    assert!(!req.body.is_empty());
}

#[test]
fn test_build_api_gateway_response_success() {
    let mut headers = Headers::new();
    headers.insert("content-type".to_string(), vec!["application/json".to_string()]);
    let response = HttpResponse {
        request_id: "req_123".to_string(),
        status_code: 200,
        headers,
        body: "eyJ0ZXN0IjoidmFsdWUifQ==".to_string(),
        processing_time_ms: 123,
    };
    let apigw_response = build_api_gateway_response(response);
    assert_eq!(apigw_response.status_code, 200);
    assert!(apigw_response.is_base64_encoded);
    assert!(apigw_response.body.is_some());
    assert!(!apigw_response.headers.is_empty());
}

#[test]
fn test_build_api_gateway_response_empty_body() {
    let response = HttpResponse {
        request_id: "req_123".to_string(),
        status_code: 204,
        headers: Headers::new(),
        body: String::new(),
        processing_time_ms: 0,
    };
    let apigw_response = build_api_gateway_response(response);
    assert_eq!(apigw_response.status_code, 204);
    assert!(apigw_response.body.is_none());
}

#[test]
fn test_timeout_response_format() {
    let response = timeout_response();
    assert_eq!(response.status_code, 504);
    assert!(!response.headers.is_empty());
    assert!(response.body.is_some());
}

#[test]
fn test_detect_websocket_connect() {
    let e = EventShape { route_key: Some("$connect".to_string()), ..shape() };
    assert_eq!(detect_event_type(&e).unwrap(), EventType::WebSocketConnect);
}

#[test]
fn test_detect_websocket_disconnect() {
    let e = EventShape { route_key: Some("$disconnect".to_string()), ..shape() };
    assert_eq!(detect_event_type(&e).unwrap(), EventType::WebSocketDisconnect);
}

#[test]
fn test_detect_websocket_default() {
    let e = EventShape { route_key: Some("$default".to_string()), ..shape() };
    assert_eq!(detect_event_type(&e).unwrap(), EventType::WebSocketDefault);
}

#[test]
fn test_detect_http_api_with_http() {
    let e = EventShape { has_http_context: true, ..shape() };
    assert_eq!(detect_event_type(&e).unwrap(), EventType::HttpApi);
}

#[test]
fn test_detect_http_api_with_method() {
    let e = EventShape { has_http_method: true, ..shape() };
    assert_eq!(detect_event_type(&e).unwrap(), EventType::HttpApi);
}

#[test]
fn test_unknown_route_key() {
    let e = EventShape { route_key: Some("$unknown".to_string()), ..shape() };
    assert!(detect_event_type(&e).is_err());
}

#[test]
fn test_unknown_event_type() {
    assert!(detect_event_type(&shape()).is_err());
}

#[test]
fn event_rules_apply_in_order() {
    let stream = EventShape {
        first_record_source: Some("aws:dynamodb".to_string()),
        has_http_context: true,
        ..shape()
    };
    assert_eq!(detect_event_type(&stream).unwrap(), EventType::DynamoDbStream);
    let tick = EventShape { source: Some("aws.events".to_string()), has_detail_type: true, ..shape() };
    assert_eq!(detect_event_type(&tick).unwrap(), EventType::ScheduledCleanup);
    let no_detail = EventShape { source: Some("aws.events".to_string()), ..shape() };
    assert_eq!(detect_event_type(&no_detail), Err(EventError::Undetermined));
    let both = EventShape { has_http_context: true, route_key: Some("$connect".to_string()), ..shape() };
    assert_eq!(detect_event_type(&both).unwrap(), EventType::HttpApi);
    let unknown = EventShape { route_key: Some("$x".to_string()), ..shape() };
    assert_eq!(detect_event_type(&unknown), Err(EventError::UnknownRoute("$x".to_string())));
}

#[test]
fn test_is_status_change_insert() {
    assert!(is_status_change_to_completed("INSERT", None));
}

#[test]
fn test_is_status_change_modify_from_pending() {
    assert!(is_status_change_to_completed("MODIFY", Some("pending")));
}

#[test]
fn status_change_other_cases() {
    assert!(!is_status_change_to_completed("MODIFY", Some("completed")));
    assert!(is_status_change_to_completed("MODIFY", None));
    assert!(!is_status_change_to_completed("REMOVE", None));
}

#[test]
fn test_request_timeout_is_under_api_gateway_limit() {
    assert!(REQUEST_TIMEOUT_SECS < 29, "Request timeout must be under API Gateway's 29s limit");
}

#[test]
fn test_heartbeat_interval_is_under_idle_timeout() {
    assert!(HEARTBEAT_INTERVAL_SECS < WEBSOCKET_IDLE_TIMEOUT_SECS);
}

#[test]
fn test_constants_values() {
    assert!(REQUEST_TIMEOUT_SECS < 29);
    assert!(HEARTBEAT_INTERVAL_SECS < WEBSOCKET_IDLE_TIMEOUT_SECS);
    assert!(PENDING_REQUEST_TTL_SECS < MAX_CONNECTION_LIFETIME_SECS);
    assert!(RECONNECT_MIN_DELAY_MS < RECONNECT_MAX_DELAY_MS);
    assert!(RECONNECT_MULTIPLIER > 1);
    assert_eq!(MAX_BODY_SIZE_BYTES, 2 * 1024 * 1024);
}

#[test]
fn path_routing() {
    assert_eq!(extract_tunnel_id_from_path("/abc123/api/users").unwrap(), "abc123");
    assert_eq!(extract_tunnel_id_from_path("//abc123").unwrap(), "abc123");
    assert_eq!(extract_tunnel_id_from_path("/"), Err(RelayError::MissingTunnelId));
    assert_eq!(strip_tunnel_id_from_path("/abc123/api/users"), "/api/users");
    assert_eq!(strip_tunnel_id_from_path("/abc123"), "/");
    assert_eq!(strip_tunnel_id_from_path("/abc123/"), "/");
}

#[test]
fn route_errors_and_statuses() {
    let missing = route_public_path("/").unwrap_err();
    assert_eq!(missing.status_code(), 400);
    assert_eq!(missing.message(), "Missing tunnel ID in path");
    let long = format!("/abc123def456/{}", "a".repeat(3000));
    let too_long = route_public_path(&long).unwrap_err();
    assert_eq!(too_long.status_code(), 400);
    assert_eq!(RelayError::BodyTooLarge.status_code(), 413);
    assert_eq!(RelayError::TunnelNotFound.status_code(), 404);
    assert_eq!(RelayError::Unauthorized.status_code(), 401);
    assert_eq!(RelayError::UpstreamTimeout.status_code(), 504);
    assert_eq!(RelayError::Transport.status_code(), 502);
    assert_eq!(RelayError::Internal.status_code(), 500);
    assert_eq!(RelayError::Internal.message(), "Internal server error");
}

#[test]
fn request_building_query_headers_and_limits() {
    let query = vec![("a".to_string(), "1".to_string()), ("b".to_string(), "2".to_string())];
    let headers = vec![
        ("X-One".to_string(), "v1".to_string()),
        ("x-one".to_string(), "v2\n".to_string()),
        ("bad™".to_string(), "v".to_string()),
    ];
    let req = build_http_request("GET", "/p", &query, &headers, Some("aGk="), true, "r".to_string(), 7)
        .unwrap();
    assert_eq!(req.uri, "/p?a=1&b=2");
    assert_eq!(req.headers.len(), 1);
    assert_eq!(req.headers.get("x-one").unwrap(), &vec!["v1".to_string(), "v2".to_string()]);
    assert_eq!(req.body, "aGk=");
    assert_eq!(req.timestamp, 7);
    let big = "a".repeat(MAX_BODY_SIZE_BYTES + 1);
    assert_eq!(
        build_http_request("POST", "/", &vec![], &vec![], Some(&big), false, "r".to_string(), 0).unwrap_err(),
        RelayError::BodyTooLarge
    );
}

#[test]
fn connection_record_urls() {
    let r = connection_record("c".to_string(), "abc".to_string(), "d.example", false, 100);
    assert_eq!(r.public_url, "https://d.example/abc");
    assert!(r.subdomain_url.is_none());
    assert_eq!(r.path_based_url.unwrap(), "https://d.example/abc");
    assert_eq!(r.ttl, 7300);
}

#[test]
fn poll_interval_doubles_to_cap() {
    let mut ms = 50;
    let mut seen = vec![];
    for _ in 0..6 {
        seen.push(ms);
        ms = next_poll_interval(ms);
    }
    assert_eq!(seen, vec![50, 100, 200, 400, 500, 500]);
}

#[test]
fn ready_retry_schedule() {
    assert_eq!(ready_retry_delay(1), Some(100));
    assert_eq!(ready_retry_delay(2), Some(200));
    assert_eq!(ready_retry_delay(3), None);
}

// Token extraction (header first, query parameter second) happens in the
// relay's connect handler, outside the library.
#[test]
fn test_jwt_token_extraction_priority() {}

#[test]
fn token_header_first_then_query() {
    assert_eq!(extract_token(Some("Bearer abc"), Some("q")), Some("abc".to_string()));
    assert_eq!(extract_token(Some("Basic abc"), Some("q")), Some("q".to_string()));
    assert_eq!(extract_token(None, Some("q")), Some("q".to_string()));
    assert_eq!(extract_token(Some("Bearer "), None), Some(String::new()));
    assert_eq!(extract_token(Some("bearer x"), None), None);
    assert_eq!(extract_token(None, None), None);
}
