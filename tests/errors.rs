use http_tunnel::error_handling::{
    TunnelError,
    get_client_error_message, is_safe_error, sanitize_error, sanitize_error_with_message,
};

#[test]
fn test_sanitize_error_hides_details() {
    let sanitized = sanitize_error("Failed to connect to DynamoDB at 10.0.1.5:8000");
    assert_eq!(sanitized, "Internal server error");
    assert!(!sanitized.contains("DynamoDB"));
    assert!(!sanitized.contains("10.0.1.5"));
}

#[test]
fn test_sanitize_error_with_custom_message() {
    let sanitized =
        sanitize_error_with_message("AWS IAM credentials not found", "Service temporarily unavailable");
    assert_eq!(sanitized, "Service temporarily unavailable");
    assert!(!sanitized.contains("IAM"));
    assert!(!sanitized.contains("credentials"));
}

#[test]
fn test_safe_errors_are_identified() {
    assert!(is_safe_error("Invalid tunnel ID: ABC"));
    assert!(is_safe_error("Request timeout waiting for response"));
    assert!(!is_safe_error("DynamoDB throttling error"));
}

#[test]
fn test_client_error_message() {
    let msg = get_client_error_message("Invalid tunnel ID format");
    assert!(msg.contains("Invalid tunnel ID"));
    let msg = get_client_error_message("AWS SDK error: InvalidParameterException");
    assert_eq!(msg, "Internal server error");
    assert!(!msg.contains("AWS"));
}

#[test]
fn test_error_message_sanitization() {
    let sanitized = sanitize_error("DynamoDB connection failed: timeout at 10.0.1.5:8000");
    assert_eq!(sanitized, "Internal server error");
    assert!(!sanitized.contains("DynamoDB"));
    assert!(!sanitized.contains("10.0.1.5"));
    assert!(is_safe_error("Invalid tunnel ID format: test"));
}

#[test]
fn every_safe_marker_is_recognised() {
    for m in [
        "ValidationError",
        "InvalidTunnelId",
        "InvalidRequestId",
        "PathTooLong",
        "HeaderValueTooLong",
        "Request timeout",
        "Missing tunnel ID",
        "Request entity too large",
    ] {
        let text = format!("x {} y", m);
        assert!(is_safe_error(&text), "{}", m);
        assert_eq!(get_client_error_message(&text), text);
    }
    assert!(!is_safe_error(""));
}

#[test]
fn test_error_display() {
    let err = TunnelError::InvalidMessage("test".to_string());
    assert_eq!(err.message(), "Invalid message format: test");
    let err = TunnelError::Timeout;
    assert_eq!(err.message(), "Timeout waiting for response");
}

#[test]
fn tunnel_error_messages() {
    assert_eq!(TunnelError::ConnectionError("x".to_string()).message(), "Connection error: x");
    assert_eq!(TunnelError::Base64Error("y".to_string()).message(), "Base64 decode error: y");
    assert_eq!(TunnelError::InternalError("z".to_string()).message(), "Internal error: z");
}
