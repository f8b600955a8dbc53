use hmac::Mac;
use mento_core::config::Config;
use mento_core::crypto::verify_payment_signature;
use mento_core::text::{hex_encode, hex_decode, bytes_eq};
use mento_core::token::JwtService;

fn gateway_signature(secret: &[u8], order_id: &[u8], payment_id: &[u8]) -> Vec<u8> {
    let mut mac = hmac::Hmac::<sha2::Sha256>::new_from_slice(secret).unwrap();
    mac.update(order_id);
    mac.update(b"|");
    mac.update(payment_id);
    hex::encode(mac.finalize().into_bytes()).into_bytes()
}

fn test_config() -> Config {
    Config::new(
        b"access-secret".to_vec(),
        b"refresh-secret".to_vec(),
        900,
        604800,
        b"gateway-secret".to_vec(),
    )
}

const OID: &[u8] = b"0123456789abcdef01234567";

#[test]
fn payment_signature_accepts_the_exact_hmac() {
    let secret = b"gateway-secret";
    let sig = gateway_signature(secret, b"order_123", b"pay_456");
    assert!(verify_payment_signature(secret, b"order_123", b"pay_456", &sig));
}

#[test]
fn payment_signature_rejects_any_mutation() {
    let secret = b"gateway-secret";
    let sig = gateway_signature(secret, b"order_123", b"pay_456");
    for i in 0..sig.len() {
        let mut altered = sig.clone();
        altered[i] = if altered[i] == b'0' { b'1' } else { b'0' };
        if altered != sig {
            assert!(!verify_payment_signature(secret, b"order_123", b"pay_456", &altered));
        }
    }
}

#[test]
fn payment_signature_rejects_wrong_secret() {
    let sig = gateway_signature(b"other-secret", b"order_123", b"pay_456");
    assert!(!verify_payment_signature(b"gateway-secret", b"order_123", b"pay_456", &sig));
}

#[test]
fn payment_signature_rejects_swapped_ids() {
    let secret = b"gateway-secret";
    let sig = gateway_signature(secret, b"order_123", b"pay_456");
    assert!(!verify_payment_signature(secret, b"pay_456", b"order_123", &sig));
}

#[test]
fn hex_encode_matches_the_hex_crate() {
    let data: Vec<u8> = vec![0x00, 0x01, 0x7f, 0x80, 0xff, 0xab];
    let ours = hex_encode(&data);
    let theirs = hex::encode(&data).into_bytes();
    assert_eq!(ours, theirs);
}

#[test]
fn hex_decode_inverts_encode_and_rejects_junk() {
    let data: Vec<u8> = vec![0xde, 0xad, 0xbe, 0xef];
    let encoded = hex_encode(&data);
    assert_eq!(hex_decode(&encoded), Some(data));
    assert_eq!(hex_decode(b"abc"), None);
    assert_eq!(hex_decode(b"zz"), None);
    assert_eq!(hex_decode(b"AbCd"), Some(vec![0xab, 0xcd]));
}

#[test]
fn bytes_eq_compares_contents() {
    assert!(bytes_eq(b"abc", b"abc"));
    assert!(!bytes_eq(b"abc", b"abd"));
    assert!(!bytes_eq(b"abc", b"ab"));
}

#[test]
fn access_token_roundtrip_returns_the_claims() {
    let config = test_config();
    let now: i64 = 1_700_000_000;
    let token = JwtService::generate_access_token(&config, OID, b"9876543210", now);
    let claims = JwtService::verify_token(&token, false, &config, now).expect("token must verify");
    assert_eq!(claims.sub, OID.to_vec());
    assert_eq!(claims.mobile, b"9876543210".to_vec());
    assert_eq!(claims.exp, now + 900);
    assert_eq!(claims.iat, now);
}

#[test]
fn refresh_token_fails_access_verification() {
    let config = test_config();
    let now: i64 = 1_700_000_000;
    let refresh = JwtService::generate_refresh_token(&config, OID, b"9876543210", now);
    assert!(JwtService::verify_token(&refresh, true, &config, now).is_some());
    assert!(JwtService::verify_token(&refresh, false, &config, now).is_none());
}

#[test]
fn access_token_fails_refresh_verification() {
    let config = test_config();
    let now: i64 = 1_700_000_000;
    let access = JwtService::generate_access_token(&config, OID, b"9876543210", now);
    assert!(JwtService::verify_token(&access, false, &config, now).is_some());
    assert!(JwtService::verify_token(&access, true, &config, now).is_none());
}

#[test]
fn expired_token_is_rejected() {
    let config = test_config();
    let now: i64 = 1_700_000_000;
    let token = JwtService::generate_access_token(&config, OID, b"9876543210", now);
    // valid strictly before expiry
    assert!(JwtService::verify_token(&token, false, &config, now + 899).is_some());
    assert!(JwtService::verify_token(&token, false, &config, now + 900).is_none());
    assert!(JwtService::verify_token(&token, false, &config, now + 901).is_none());
}

#[test]
fn tampered_token_is_rejected() {
    let config = test_config();
    let now: i64 = 1_700_000_000;
    let token = JwtService::generate_access_token(&config, OID, b"9876543210", now);
    for i in 0..token.len() {
        let mut altered = token.clone();
        altered[i] = if altered[i] == b'0' { b'1' } else { b'0' };
        if altered != token {
            assert!(JwtService::verify_token(&altered, false, &config, now).is_none());
        }
    }
}

#[test]
fn garbage_token_is_rejected() {
    let config = test_config();
    assert!(JwtService::verify_token(b"", false, &config, 0).is_none());
    assert!(JwtService::verify_token(b"not-a-token", false, &config, 0).is_none());
}
