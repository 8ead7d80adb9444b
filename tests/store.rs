use http_tunnel::models::PendingRequest;
use http_tunnel::store::{PendingTable, StoreError};

fn pending(id: &str, ttl: i64) -> PendingRequest {
    PendingRequest::new(id.to_string(), "conn".to_string(), "gw".to_string(), 0, ttl)
}

#[test]
fn completed_record_stays_completed_until_taken() {
    let mut t = PendingTable::new();
    t.put_pending(pending("req_a", 30)).unwrap();
    t.put_pending(pending("req_b", 30)).unwrap();
    assert!(t.get_pending("req_a").unwrap().response_data.is_none());
    t.complete_pending("req_a", "blob-x".to_string()).unwrap();
    for _ in 0..3 {
        let r = t.get_pending("req_a").unwrap();
        assert_eq!(r.response_data.as_deref(), Some("blob-x"));
    }
    assert_eq!(t.complete_pending("req_a", "other".to_string()), Err(StoreError::AlreadyCompleted));
    t.complete_pending("req_b", "blob-y".to_string()).unwrap();
    t.take_pending("req_b").unwrap();
    assert_eq!(t.put_pending(pending("req_a", 1)), Err(StoreError::DuplicateRequest));
    assert_eq!(t.get_pending("req_a").unwrap().response_data.as_deref(), Some("blob-x"));
    let taken = t.take_pending("req_a").unwrap();
    assert_eq!(taken.response_data.as_deref(), Some("blob-x"));
    assert!(t.get_pending("req_a").is_none());
    assert_eq!(t.len(), 0);
}

#[test]
fn completing_unknown_request_fails() {
    let mut t = PendingTable::new();
    assert_eq!(t.complete_pending("req_x", "b".to_string()), Err(StoreError::UnknownRequest));
    assert!(t.take_pending("req_x").is_none());
}

#[test]
fn expired_records_are_found() {
    let mut t = PendingTable::new();
    t.put_pending(pending("a", 10)).unwrap();
    t.put_pending(pending("b", 50)).unwrap();
    t.put_pending(pending("c", 20)).unwrap();
    assert_eq!(t.scan_expired(21), vec!["a".to_string(), "c".to_string()]);
    assert!(t.scan_expired(10).is_empty());
}
