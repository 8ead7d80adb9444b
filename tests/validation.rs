use http_tunnel::constants::MAX_BODY_SIZE_BYTES;
use http_tunnel::validation::{
    sanitize_header_name, sanitize_header_value, validate_connection_id, validate_path,
    validate_request_id, validate_tunnel_id, ValidationError,
};

#[test]
fn test_validate_tunnel_id_valid() {
    assert!(validate_tunnel_id("abc123def456").is_ok());
    assert!(validate_tunnel_id("000000000000").is_ok());
    assert!(validate_tunnel_id("zzz999yyy888").is_ok());
}

#[test]
fn test_validate_tunnel_id_invalid() {
    assert!(validate_tunnel_id("ABC123").is_err());
    assert!(validate_tunnel_id("abc123").is_err());
    assert!(validate_tunnel_id("abc123def456extra").is_err());
    assert!(validate_tunnel_id("abc-123-def").is_err());
    assert!(validate_tunnel_id("").is_err());
}

#[test]
fn test_validate_request_id_valid() {
    assert!(validate_request_id("req_550e8400-e29b-41d4-a716-446655440000").is_ok());
    assert!(validate_request_id("req_00000000-0000-0000-0000-000000000000").is_ok());
}

#[test]
fn test_validate_request_id_invalid() {
    assert!(validate_request_id("invalid").is_err());
    assert!(validate_request_id("req_12345").is_err());
    assert!(validate_request_id("550e8400-e29b-41d4-a716-446655440000").is_err());
    assert!(validate_request_id("").is_err());
}

#[test]
fn test_validate_connection_id() {
    assert!(validate_connection_id("abc123XYZ").is_ok());
    assert!(validate_connection_id("test-conn_id=123").is_ok());
    assert!(validate_connection_id("").is_err());
    assert!(validate_connection_id("a".repeat(129).as_str()).is_err());
}

#[test]
fn test_validate_path() {
    assert_eq!(validate_path("/foo/bar").unwrap(), "/foo/bar");
    assert_eq!(validate_path("foo/bar").unwrap(), "/foo/bar");
    assert_eq!(validate_path("").unwrap(), "/");

    let path_with_controls = "/foo\x00/bar\n/baz";
    let sanitized = validate_path(path_with_controls).unwrap();
    assert!(!sanitized.contains('\x00'));
    assert!(!sanitized.contains('\n'));

    let long_path = "/".to_string() + &"a".repeat(3000);
    assert!(validate_path(&long_path).is_err());
}

#[test]
fn test_sanitize_header_value() {
    assert_eq!(sanitize_header_value("normal value").unwrap(), "normal value");
    assert_eq!(sanitize_header_value("value\twith\ttabs").unwrap(), "value\twith\ttabs");

    let value_with_controls = "value\x00with\nnull\rand\rcr";
    let sanitized = sanitize_header_value(value_with_controls).unwrap();
    assert!(!sanitized.contains('\x00'));
    assert!(!sanitized.contains('\n'));
    assert!(!sanitized.contains('\r'));

    let long_value = "a".repeat(10000);
    assert!(sanitize_header_value(&long_value).is_err());
}

#[test]
fn test_sanitize_header_name() {
    assert_eq!(sanitize_header_name("Content-Type").unwrap(), "content-type");
    assert_eq!(sanitize_header_name("X-Custom-Header").unwrap(), "x-custom-header");
    assert!(sanitize_header_name("header\nname").is_ok());
    assert!(sanitize_header_name("header™").is_err());
}

#[test]
fn test_invalid_tunnel_id_format() {
    let invalid_ids = vec!["UPPERCASE123", "short", "toolongid123456", "special-chars!", "../../../etc"];
    for id in invalid_ids {
        let result = validate_tunnel_id(id);
        assert!(result.is_err(), "Should reject invalid tunnel ID: {}", id);
    }
}

#[test]
fn test_request_body_size_limit() {
    let small_body = "a".repeat(1000);
    assert!(small_body.len() < MAX_BODY_SIZE_BYTES);
    let large_body = "a".repeat(MAX_BODY_SIZE_BYTES + 1);
    assert!(large_body.len() > MAX_BODY_SIZE_BYTES);
}

#[test]
fn test_header_sanitization() {
    let dirty_header = "value\x00with\nnull\rand\rcr";
    let clean = sanitize_header_value(dirty_header).unwrap();
    assert!(!clean.contains('\x00'));
    assert!(!clean.contains('\n'));
    assert!(!clean.contains('\r'));

    let header_with_tab = "value\twith\ttab";
    let result = sanitize_header_value(header_with_tab).unwrap();
    assert_eq!(result, "value\twith\ttab");
}

#[test]
fn test_path_validation_edge_cases() {
    assert_eq!(validate_path("").unwrap(), "/");
    assert_eq!(validate_path("foo/bar").unwrap(), "/foo/bar");
    let bad_path = "/foo\x00/bar\n/baz";
    let clean = validate_path(bad_path).unwrap();
    assert!(!clean.contains('\x00'));
    assert!(!clean.contains('\n'));
}

#[test]
fn test_request_id_format_validation() {
    assert!(validate_request_id("req_550e8400-e29b-41d4-a716-446655440000").is_ok());
    assert!(validate_request_id("invalid").is_err());
    assert!(validate_request_id("req_notauuid").is_err());
    assert!(validate_request_id("550e8400-e29b-41d4-a716-446655440000").is_err());
}

#[test]
fn test_connection_id_validation() {
    assert!(validate_connection_id("abc123XYZ").is_ok());
    assert!(validate_connection_id("test_conn-id=123").is_ok());
    assert!(validate_connection_id("").is_err());
    assert!(validate_connection_id(&"a".repeat(200)).is_err());
}

#[test]
fn validate_path_boundary_examples() {
    assert_eq!(validate_path("").unwrap(), "/");
    assert_eq!(validate_path("foo/bar").unwrap(), "/foo/bar");
    assert_eq!(validate_path("/a\x00b").unwrap(), "/ab");
    assert_eq!(validate_path("a\tb").unwrap(), "/a\tb");
    assert_eq!(validate_path("\u{85}x").unwrap(), "/x");
}

#[test]
fn validate_path_length_limit_is_in_bytes() {
    let at_limit = "/".to_string() + &"a".repeat(2047);
    assert!(validate_path(&at_limit).is_ok());
    let over = "/".to_string() + &"a".repeat(2048);
    assert_eq!(validate_path(&over), Err(ValidationError::PathTooLong(2049, 2048)));
    let wide = "é".repeat(1025);
    assert_eq!(validate_path(&wide), Err(ValidationError::PathTooLong(2050, 2048)));
}

#[test]
fn header_value_length_limit() {
    let v = "a".repeat(8193);
    assert_eq!(sanitize_header_value(&v), Err(ValidationError::HeaderValueTooLong(8193, 8192)));
    assert!(sanitize_header_value(&"a".repeat(8192)).is_ok());
}

#[test]
fn header_name_errors() {
    assert_eq!(sanitize_header_name("\n\r"), Err(ValidationError::InvalidHeaderValue));
    assert_eq!(sanitize_header_name(""), Err(ValidationError::InvalidHeaderValue));
    assert_eq!(sanitize_header_name("X-\tA").unwrap(), "x-a");
}

#[test]
fn rejected_ids_are_echoed_up_to_fifty_chars() {
    let long = "Z".repeat(60);
    match validate_tunnel_id(&long) {
        Err(ValidationError::InvalidTunnelId(m)) => assert_eq!(m, "Z".repeat(50)),
        other => panic!("unexpected {:?}", other),
    }
    match validate_request_id("nope") {
        Err(ValidationError::InvalidRequestId(m)) => assert_eq!(m, "nope"),
        other => panic!("unexpected {:?}", other),
    }
    match validate_connection_id("bad id") {
        Err(ValidationError::InvalidConnectionId(m)) => assert_eq!(m, "bad id"),
        other => panic!("unexpected {:?}", other),
    }
}

#[test]
fn validation_messages() {
    assert_eq!(
        ValidationError::InvalidTunnelId("UPPER".to_string()).message(),
        "Invalid tunnel ID format: UPPER"
    );
    assert_eq!(
        ValidationError::PathTooLong(3001, 2048).message(),
        "Path too long: 3001 bytes (max: 2048)"
    );
    assert_eq!(
        ValidationError::HeaderValueTooLong(10000, 8192).message(),
        "Header value too long: 10000 bytes (max: 8192)"
    );
    assert_eq!(
        ValidationError::InvalidHeaderValue.message(),
        "Invalid header value contains control characters"
    );
    assert_eq!(
        ValidationError::InvalidRequestId("x".to_string()).message(),
        "Invalid request ID format: x"
    );
    assert_eq!(
        ValidationError::InvalidConnectionId("y".to_string()).message(),
        "Invalid connection ID format: y"
    );
}
