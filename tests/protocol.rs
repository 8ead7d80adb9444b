use http_tunnel::protocol::{
    agent_action, error_response, status_for_error, AgentAction, ErrorCode, Headers, HttpRequest,
    HttpResponse, Message,
};

#[test]
fn test_http_request_creation() {
    let req = HttpRequest::new(
        "GET".to_string(),
        "/api/users".to_string(),
        "req_123".to_string(),
        1234567890,
    );
    assert_eq!(req.method, "GET");
    assert_eq!(req.uri, "/api/users");
    assert_eq!(req.request_id, "req_123");
    assert_eq!(req.timestamp, 1234567890);
    assert!(req.headers.is_empty());
    assert!(!req.has_body());
}

#[test]
fn test_http_request_with_headers() {
    let mut headers = Headers::new();
    headers.insert("content-type".to_string(), vec!["application/json".to_string()]);
    headers.insert("authorization".to_string(), vec!["Bearer token123".to_string()]);
    let req = HttpRequest {
        request_id: "req_123".to_string(),
        method: "POST".to_string(),
        uri: "/api/data".to_string(),
        headers,
        body: "eyJ0ZXN0IjoidmFsdWUifQ==".to_string(),
        timestamp: 1234567890,
    };
    assert_eq!(req.headers.len(), 2);
    assert!(req.has_body());
}

#[test]
fn test_http_response_creation() {
    let res = HttpResponse::new("req_123".to_string(), 200);
    assert_eq!(res.request_id, "req_123");
    assert_eq!(res.status_code, 200);
    assert!(res.headers.is_empty());
    assert!(!res.has_body());
    assert_eq!(res.processing_time_ms, 0);
}

#[test]
fn test_http_response_status_checks() {
    let success = HttpResponse::new("req_1".to_string(), 200);
    assert!(success.is_success());
    assert!(!success.is_client_error());
    assert!(!success.is_server_error());

    let client_error = HttpResponse::new("req_2".to_string(), 404);
    assert!(!client_error.is_success());
    assert!(client_error.is_client_error());
    assert!(!client_error.is_server_error());

    let server_error = HttpResponse::new("req_3".to_string(), 500);
    assert!(!server_error.is_success());
    assert!(!server_error.is_client_error());
    assert!(server_error.is_server_error());
}

#[test]
fn test_http_response_with_headers() {
    let mut headers = Headers::new();
    headers.insert("content-type".to_string(), vec!["application/json".to_string()]);
    headers.insert("x-custom-header".to_string(), vec!["value".to_string()]);
    let res = HttpResponse {
        request_id: "req_123".to_string(),
        status_code: 200,
        headers,
        body: "eyJ0ZXN0IjoidmFsdWUifQ==".to_string(),
        processing_time_ms: 123,
    };
    assert_eq!(res.headers.len(), 2);
    assert!(res.has_body());
    assert_eq!(res.processing_time_ms, 123);
}

#[test]
fn test_status_code_ranges() {
    let codes = vec![
        (100, false, false, false),
        (200, true, false, false),
        (299, true, false, false),
        (300, false, false, false),
        (400, false, true, false),
        (404, false, true, false),
        (499, false, true, false),
        (500, false, false, true),
        (503, false, false, true),
        (599, false, false, true),
    ];
    for (code, is_success, is_client_err, is_server_err) in codes {
        let res = HttpResponse::new("req".to_string(), code);
        assert_eq!(res.is_success(), is_success, "Failed for status code {}", code);
        assert_eq!(res.is_client_error(), is_client_err, "Failed for status code {}", code);
        assert_eq!(res.is_server_error(), is_server_err, "Failed for status code {}", code);
    }
}

#[test]
fn test_error_code_to_status_code() {
    let codes = vec![
        (ErrorCode::InvalidRequest, 400),
        (ErrorCode::Timeout, 504),
        (ErrorCode::LocalServiceUnavailable, 503),
        (ErrorCode::InternalError, 502),
    ];
    for (error_code, expected_status) in codes {
        assert_eq!(status_for_error(error_code), expected_status);
    }
}

#[test]
fn test_error_response_format() {
    let error_response = error_response("req_123", ErrorCode::InternalError, "Service error");
    assert_eq!(error_response.status_code, 502);
    assert_eq!(error_response.headers.get("Content-Type").unwrap()[0], "text/plain");
    assert!(!error_response.body.is_empty());
}

#[test]
fn error_response_body_is_the_message_in_base64() {
    let r = error_response("req_1", ErrorCode::Timeout, "Request timed out");
    assert_eq!(r.status_code, 504);
    assert_eq!(r.body, "UmVxdWVzdCB0aW1lZCBvdXQ=");
    assert_eq!(r.request_id, "req_1");
}

#[test]
fn headers_keep_first_insertion_order_and_replace() {
    let mut h = Headers::new();
    h.insert("a".to_string(), vec!["1".to_string()]);
    h.insert("b".to_string(), vec!["2".to_string()]);
    h.insert("a".to_string(), vec!["3".to_string()]);
    assert_eq!(h.len(), 2);
    assert_eq!(h.entry(0).0, "a");
    assert_eq!(h.get("a").unwrap(), &vec!["3".to_string()]);
    h.append("b".to_string(), "4".to_string());
    assert_eq!(h.get("b").unwrap(), &vec!["2".to_string(), "4".to_string()]);
    h.remove("a");
    assert!(h.get("a").is_none());
    assert_eq!(h.len(), 1);
    h.remove("missing");
    assert_eq!(h.len(), 1);
}

#[test]
fn agent_messages_map_to_actions() {
    assert!(matches!(agent_action(Message::Ready), AgentAction::SendConnectionInfo));
    assert!(matches!(agent_action(Message::Ping), AgentAction::Ignore));
    assert!(matches!(agent_action(Message::Pong), AgentAction::Ignore));
    let resp = HttpResponse::new("req_9".to_string(), 201);
    match agent_action(Message::HttpResponse(resp)) {
        AgentAction::Complete(r) => assert_eq!(r.status_code, 201),
        other => panic!("unexpected {:?}", other),
    }
    let err = Message::Error {
        request_id: Some("req_7".to_string()),
        code: ErrorCode::LocalServiceUnavailable,
        message: "down".to_string(),
    };
    match agent_action(err) {
        AgentAction::Complete(r) => {
            assert_eq!(r.status_code, 503);
            assert_eq!(r.request_id, "req_7");
            assert_eq!(r.body, "ZG93bg==");
        }
        other => panic!("unexpected {:?}", other),
    }
    let anonymous = Message::Error { request_id: None, code: ErrorCode::Timeout, message: "x".to_string() };
    assert!(matches!(agent_action(anonymous), AgentAction::Ignore));
}
