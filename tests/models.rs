use http_tunnel::models::{ClientInfo, ConnectionMetadata, PendingRequest};

#[test]
fn test_connection_metadata_creation() {
    let metadata = ConnectionMetadata::new(
        "conn_123".to_string(),
        "abc123def456".to_string(),
        "https://abc123def456.tunnel.example.com".to_string(),
        1234567890,
        1234574090,
    );
    assert_eq!(metadata.connection_id, "conn_123");
    assert_eq!(metadata.tunnel_id, "abc123def456");
    assert_eq!(metadata.created_at, 1234567890);
    assert_eq!(metadata.ttl, 1234574090);
    assert!(metadata.client_info.is_none());
}

#[test]
fn test_connection_metadata_with_client_info() {
    let client_info = ClientInfo::new("1.0.0".to_string(), "linux-x86_64".to_string());
    let metadata = ConnectionMetadata::new(
        "conn_123".to_string(),
        "abc123def456".to_string(),
        "https://abc123def456.tunnel.example.com".to_string(),
        1234567890,
        1234574090,
    )
    .with_client_info(client_info);
    assert!(metadata.client_info.is_some());
    let info = metadata.client_info.unwrap();
    assert_eq!(info.version, "1.0.0");
    assert_eq!(info.platform, "linux-x86_64");
}

#[test]
fn test_pending_request_creation() {
    let pending = PendingRequest::new(
        "req_123".to_string(),
        "conn_abc".to_string(),
        "gw_req_xyz".to_string(),
        1234567890,
        1234567920,
    );
    assert_eq!(pending.request_id, "req_123");
    assert_eq!(pending.connection_id, "conn_abc");
    assert_eq!(pending.api_gateway_request_id, "gw_req_xyz");
    assert_eq!(pending.created_at, 1234567890);
    assert_eq!(pending.ttl, 1234567920);
}

#[test]
fn test_pending_request_expiration() {
    let pending = PendingRequest::new(
        "req_123".to_string(),
        "conn_abc".to_string(),
        "gw_req_xyz".to_string(),
        1234567890,
        1234567920,
    );
    assert!(!pending.is_expired(1234567900));
    assert!(!pending.is_expired(1234567920));
    assert!(pending.is_expired(1234567921));
    assert!(pending.is_expired(1234568000));
}

#[test]
fn test_pending_request_age() {
    let pending = PendingRequest::new(
        "req_123".to_string(),
        "conn_abc".to_string(),
        "gw_req_xyz".to_string(),
        1234567890,
        1234567920,
    );
    assert_eq!(pending.age_secs(1234567890), 0);
    assert_eq!(pending.age_secs(1234567900), 10);
    assert_eq!(pending.age_secs(1234567920), 30);
}
