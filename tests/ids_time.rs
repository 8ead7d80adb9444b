use http_tunnel::ids::{generate_request_id, generate_subdomain, request_id_from_uuid, tunnel_id_from_draw};
use http_tunnel::time::{calculate_ttl, current_timestamp_millis, current_timestamp_secs, ttl_at};
use http_tunnel::validation::{validate_request_id, validate_tunnel_id};
use std::collections::HashSet;
use uuid::Uuid;

#[test]
fn test_generate_subdomain_length() {
    assert_eq!(generate_subdomain().len(), 12);
}

#[test]
fn test_generate_subdomain_format() {
    let subdomain = generate_subdomain();
    assert!(subdomain.chars().all(|c| c.is_ascii_alphanumeric()));
    assert!(subdomain.chars().all(|c| !c.is_ascii_uppercase()));
}

#[test]
fn test_generate_subdomain_uniqueness() {
    let mut subdomains = HashSet::new();
    for _ in 0..1000 {
        assert!(subdomains.insert(generate_subdomain()), "Generated duplicate subdomain");
    }
}

#[test]
fn test_subdomain_format() {
    let subdomain = generate_subdomain();
    assert_eq!(subdomain.len(), 12);
    assert!(subdomain.chars().all(|c| c.is_ascii_alphanumeric()));
}

#[test]
fn test_generate_request_id_format() {
    let request_id = generate_request_id();
    assert_eq!(request_id.len(), 40);
    assert!(request_id.starts_with("req_"));
    assert_eq!(request_id.chars().filter(|&c| c == '-').count(), 4);
    assert!(Uuid::parse_str(&request_id[4..]).is_ok());
}

#[test]
fn test_generate_request_id_uniqueness() {
    let mut ids = HashSet::new();
    for _ in 0..1000 {
        assert!(ids.insert(generate_request_id()), "Generated duplicate request ID");
    }
}

#[test]
fn test_generate_request_id_is_v4() {
    let uuid = Uuid::parse_str(&generate_request_id()[4..]).unwrap();
    assert_eq!(uuid.get_version_num(), 4);
}

#[test]
fn minted_ids_pass_validation() {
    for _ in 0..100 {
        assert!(validate_tunnel_id(&generate_subdomain()).is_ok());
        let r = generate_request_id();
        assert!(r.starts_with("req_"));
        assert!(validate_request_id(&r).is_ok());
    }
}

#[test]
fn tunnel_ids_do_not_collide_over_many_draws() {
    let mut seen = HashSet::new();
    for _ in 0..100000 {
        assert!(seen.insert(generate_subdomain()));
    }
}

#[test]
fn test_timestamp_relationship() {
    let secs = current_timestamp_secs();
    let millis = current_timestamp_millis();
    let expected_millis = secs as u64 * 1000;
    let diff = millis.abs_diff(expected_millis);
    assert!(diff < 1000, "Timestamp mismatch too large: {}", diff);
}

#[test]
fn test_calculate_ttl_positive() {
    let now = current_timestamp_secs();
    let ttl = calculate_ttl(3600);
    assert_eq!(ttl, now + 3600);
}

#[test]
fn test_calculate_ttl_zero() {
    let now = current_timestamp_secs();
    assert_eq!(calculate_ttl(0), now);
}

#[test]
fn test_calculate_ttl_various_durations() {
    for duration in vec![1, 60, 300, 3600, 7200, 86400] {
        let now = current_timestamp_secs();
        let ttl = calculate_ttl(duration);
        assert!(ttl >= now + duration - 1);
        assert!(ttl <= now + duration + 1);
    }
}

#[test]
fn test_ttl_in_future() {
    let now = current_timestamp_secs();
    let ttl = calculate_ttl(100);
    assert!(ttl > now);
    assert_eq!(ttl - now, 100);
}

#[test]
fn ttl_arithmetic_saturates() {
    assert_eq!(ttl_at(1000, 30), 1030);
    assert_eq!(ttl_at(i64::MAX - 1, 30), i64::MAX);
    assert_eq!(ttl_at(i64::MIN + 1, -30), i64::MIN);
}

#[test]
fn tunnel_id_spelled_from_draw() {
    let draw: Vec<u8> = vec![0, 1, 25, 26, 35, 7, 30, 12, 0, 34, 19, 27];
    assert_eq!(tunnel_id_from_draw(&draw), "abz09h4ma8t1");
}

#[test]
fn request_id_is_prefixed_uuid() {
    let u = "550e8400-e29b-41d4-a716-446655440000";
    let r = request_id_from_uuid(u);
    assert_eq!(r, "req_550e8400-e29b-41d4-a716-446655440000");
    assert!(validate_request_id(&r).is_ok());
}

#[test]
fn tunnel_id_draws_cover_digits_and_letters_evenly() {
    let mut digits = 0usize;
    let n = 20000;
    for _ in 0..n {
        digits += generate_subdomain().chars().filter(|c| c.is_ascii_digit()).count();
    }
    let share = digits as f64 / (n * 12) as f64;
    assert!((share - 10.0 / 36.0).abs() < 0.01, "digit share {}", share);
}
