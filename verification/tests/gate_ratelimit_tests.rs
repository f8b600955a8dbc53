use mento_core::config::Config;
use mento_core::errors::{STATUS_UNAUTHORIZED, STATUS_FORBIDDEN, STATUS_TOO_MANY_REQUESTS};
use mento_core::gates::{authenticate, kyc_gate, AuthGuard};
use mento_core::ratelimit::RateLimiter;
use mento_core::token::JwtService;
use mento_core::users::{register_user, KycStatus, User};

fn gate_config() -> Config {
    Config::new(
        b"access-secret".to_vec(),
        b"refresh-secret".to_vec(),
        900,
        604800,
        b"gateway-secret".to_vec(),
    )
}

const GATE_OID: &[u8] = b"abcdefabcdefabcdefabcdef";

fn user_with_status(status: KycStatus) -> User {
    let mut u = register_user(b"9876543210".to_vec(), 1000);
    u.id = Some(GATE_OID.to_vec());
    u.kyc_status = status;
    u
}

#[test]
fn authenticate_accepts_a_bearer_token() {
    let config = gate_config();
    let now: i64 = 1_700_000_000;
    let token = JwtService::generate_access_token(&config, GATE_OID, b"9876543210", now);
    let mut header = b"Bearer ".to_vec();
    header.extend_from_slice(&token);
    let guard = authenticate(&config, now, Some(&header)).expect("must authenticate");
    assert_eq!(guard.user_id, GATE_OID.to_vec());
    assert_eq!(guard.mobile, b"9876543210".to_vec());
}

#[test]
fn authenticate_rejects_a_missing_header() {
    let config = gate_config();
    let err = authenticate(&config, 0, None).unwrap_err();
    assert_eq!(err.status, STATUS_UNAUTHORIZED);
}

#[test]
fn authenticate_rejects_garbage() {
    let config = gate_config();
    let err = authenticate(&config, 0, Some(b"Bearer garbage")).unwrap_err();
    assert_eq!(err.status, STATUS_UNAUTHORIZED);
}

#[test]
fn authenticate_rejects_an_expired_token() {
    let config = gate_config();
    let now: i64 = 1_700_000_000;
    let token = JwtService::generate_access_token(&config, GATE_OID, b"9876543210", now);
    let mut header = b"Bearer ".to_vec();
    header.extend_from_slice(&token);
    let err = authenticate(&config, now + 901, Some(&header)).unwrap_err();
    assert_eq!(err.status, STATUS_UNAUTHORIZED);
}

fn dummy_auth() -> AuthGuard {
    AuthGuard { user_id: GATE_OID.to_vec(), mobile: b"9876543210".to_vec() }
}

#[test]
fn kyc_gate_accepts_approved() {
    let u = user_with_status(KycStatus::Approved);
    assert!(kyc_gate(dummy_auth(), Some(&u)).is_ok());
}

#[test]
fn kyc_gate_accepts_submitted() {
    let u = user_with_status(KycStatus::Submitted);
    assert!(kyc_gate(dummy_auth(), Some(&u)).is_ok());
}

#[test]
fn kyc_gate_rejects_pending() {
    let u = user_with_status(KycStatus::Pending);
    let err = kyc_gate(dummy_auth(), Some(&u)).unwrap_err();
    assert_eq!(err.status, STATUS_FORBIDDEN);
}

#[test]
fn kyc_gate_rejects_rejected() {
    let u = user_with_status(KycStatus::Rejected);
    let err = kyc_gate(dummy_auth(), Some(&u)).unwrap_err();
    assert_eq!(err.status, STATUS_FORBIDDEN);
}

#[test]
fn kyc_gate_rejects_a_missing_user() {
    let err = kyc_gate(dummy_auth(), None).unwrap_err();
    assert_eq!(err.status, STATUS_FORBIDDEN);
}

#[test]
fn rate_limiter_allows_three_then_rejects_the_fourth() {
    let mut limiter = RateLimiter::new(3, 600_000);
    let now: i64 = 1_000_000;
    assert!(limiter.check(b"send_otp:9876543210", now).is_ok());
    assert!(limiter.check(b"send_otp:9876543210", now + 1).is_ok());
    assert!(limiter.check(b"send_otp:9876543210", now + 2).is_ok());
    let err = limiter.check(b"send_otp:9876543210", now + 3).unwrap_err();
    assert_eq!(err.status, STATUS_TOO_MANY_REQUESTS);
}

#[test]
fn rate_limiter_resets_after_the_window() {
    let mut limiter = RateLimiter::new(3, 600_000);
    let now: i64 = 1_000_000;
    for i in 0..3 {
        assert!(limiter.check(b"k", now + i).is_ok());
    }
    assert!(limiter.check(b"k", now + 4).is_err());
    // the window expires 600 000 ms after the first call
    let later = now + 600_001;
    assert!(limiter.check(b"k", later).is_ok());
    assert_eq!(limiter.entries[0].count, 1);
    assert_eq!(limiter.entries[0].expires_at, later + 600_000);
}

#[test]
fn rate_limiter_keys_are_independent() {
    let mut limiter = RateLimiter::new(1, 600_000);
    let now: i64 = 5_000;
    assert!(limiter.check(b"a", now).is_ok());
    assert!(limiter.check(b"b", now).is_ok());
    assert!(limiter.check(b"a", now + 1).is_err());
}
