//! The identity token issuer and verifier.
//!
//! A token binds a user id and mobile number to an expiry window and is
//! signed with HMAC-SHA256.  Access and refresh tokens use distinct secrets,
//! so one kind can never validate as the other.  The format is positional:
//!
//! `sub(24 hex) . exp(16 hex) . iat(16 hex) . mobile(hex) . sig(64 hex)`
//!
//! where `sig` is the lowercase hex HMAC-SHA256 tag over everything before
//! its separating dot.

use vstd::prelude::*;
use vstd::slice::slice_subrange;
use crate::config::Config;
use crate::crypto::hmac_sha256_of;
use crate::crypto::hmac_sha256;
use crate::ids::is_oid;
use crate::text::{
    hex_of,
    hex_encode,
    hex_decode,
    hex_decode_seq,
    is_hex_seq,
    is_hex_digit,
    be8_of,
    be8_val,
    be8_encode,
    be8_decode,
    bytes_eq,
    append_bytes,
    lemma_hex_of_len,
    lemma_hex_roundtrip,
};

verus! {

/// ASCII `.`, the field separator.
pub const DOT: u8 = 0x2e;

/// The claims a token carries.
pub struct Claims {
    /// User id: 24 hex digits.
    pub sub: Vec<u8>,
    /// Mobile number the identity was established with.
    pub mobile: Vec<u8>,
    /// Expiry, Unix seconds: the token is valid strictly before this time.
    pub exp: i64,
    /// Issued-at, Unix seconds.
    pub iat: i64,
}

/// The HMAC-SHA256 tag as a 32-byte sequence.  The trusted wrapper
/// guarantees the length, so the padding branch never describes a real tag;
/// it only keeps the spec total.
pub open spec fn mac32(key: Seq<u8>, msg: Seq<u8>) -> Seq<u8> {
    let t = hmac_sha256_of(key, msg);
    if t.len() == 32 {
        t
    } else {
        Seq::new(32, |i: int| 0u8)
    }
}

/// The signed part of a token: sub, exp, iat and hex-encoded mobile,
/// separated by dots.
pub open spec fn payload_of(sub: Seq<u8>, exp: i64, iat: i64, mobile: Seq<u8>) -> Seq<u8> {
    sub + seq![DOT] + hex_of(be8_of(exp as u64)) + seq![DOT] + hex_of(be8_of(iat as u64))
        + seq![DOT] + hex_of(mobile)
}

/// The full token: payload, dot, hex tag.
pub open spec fn token_of(secret: Seq<u8>, sub: Seq<u8>, exp: i64, iat: i64, mobile: Seq<u8>) -> Seq<
    u8,
> {
    payload_of(sub, exp, iat, mobile) + seq![DOT] + hex_of(
        mac32(secret, payload_of(sub, exp, iat, mobile)),
    )
}

/// Structural well-formedness: the dots sit where the format puts them and
/// every field is hex of the right width, with exp and iat inside `i64`.
pub open spec fn token_wf(t: Seq<u8>) -> bool {
    &&& t.len() >= 124
    &&& t[24] == DOT
    &&& t[41] == DOT
    &&& t[58] == DOT
    &&& t[t.len() - 65] == DOT
    &&& is_hex_seq(t.subrange(0, 24))
    &&& is_hex_seq(t.subrange(25, 41))
    &&& is_hex_seq(t.subrange(42, 58))
    &&& is_hex_seq(t.subrange(59, t.len() - 65))
    &&& be8_val(hex_decode_seq(t.subrange(25, 41))) <= i64::MAX
    &&& be8_val(hex_decode_seq(t.subrange(42, 58))) <= i64::MAX
}

/// Everything the signature covers.
pub open spec fn token_payload(t: Seq<u8>) -> Seq<u8> {
    t.subrange(0, t.len() - 65)
}

/// The signature field.
pub open spec fn token_sig(t: Seq<u8>) -> Seq<u8> {
    t.subrange(t.len() - 64, t.len() as int)
}

pub open spec fn token_sub(t: Seq<u8>) -> Seq<u8> {
    t.subrange(0, 24)
}

pub open spec fn token_exp(t: Seq<u8>) -> int {
    be8_val(hex_decode_seq(t.subrange(25, 41))) as int
}

pub open spec fn token_iat(t: Seq<u8>) -> int {
    be8_val(hex_decode_seq(t.subrange(42, 58))) as int
}

pub open spec fn token_mobile(t: Seq<u8>) -> Seq<u8> {
    hex_decode_seq(t.subrange(59, t.len() - 65))
}

/// A token whose signature checks out under `secret`.
pub open spec fn token_signed(t: Seq<u8>, secret: Seq<u8>) -> bool {
    token_wf(t) && token_sig(t) == hex_of(mac32(secret, token_payload(t)))
}

/// A token the verifier accepts at time `now`: signed and not yet expired.
pub open spec fn token_valid(t: Seq<u8>, secret: Seq<u8>, now: i64) -> bool {
    token_signed(t, secret) && token_exp(t) > now
}

/// Builds the signed payload for the given claims.
fn build_payload(sub: &[u8], exp: i64, iat: i64, mobile: &[u8]) -> (r: Vec<u8>)
    requires
        sub@.len() == 24,
        exp >= 0,
        iat >= 0,
    ensures
        r@ == payload_of(sub@, exp, iat, mobile@),
        r@.len() == 59 + 2 * mobile@.len(),
{
    let mut payload: Vec<u8> = Vec::new();
    append_bytes(&mut payload, sub);
    payload.push(DOT);
    let exp_bytes = be8_encode(exp as u64);
    let exp_hex = hex_encode(exp_bytes.as_slice());
    append_bytes(&mut payload, exp_hex.as_slice());
    payload.push(DOT);
    let iat_bytes = be8_encode(iat as u64);
    let iat_hex = hex_encode(iat_bytes.as_slice());
    append_bytes(&mut payload, iat_hex.as_slice());
    payload.push(DOT);
    let mobile_hex = hex_encode(mobile);
    append_bytes(&mut payload, mobile_hex.as_slice());
    proof {
        lemma_hex_of_len(be8_of(exp as u64));
        lemma_hex_of_len(be8_of(iat as u64));
        lemma_hex_of_len(mobile@);
        assert(payload@ =~= payload_of(sub@, exp, iat, mobile@));
    }
    payload
}

/// Signs the claims with `secret` and assembles the token.
fn build_token(secret: &[u8], sub: &[u8], exp: i64, iat: i64, mobile: &[u8]) -> (r: Vec<u8>)
    requires
        sub@.len() == 24,
        exp >= 0,
        iat >= 0,
    ensures
        r@ == token_of(secret@, sub@, exp, iat, mobile@),
{
    let payload = build_payload(sub, exp, iat, mobile);
    let tag = hmac_sha256(secret, payload.as_slice());
    let sig = hex_encode(tag.as_slice());
    let mut token = payload;
    token.push(DOT);
    append_bytes(&mut token, sig.as_slice());
    proof {
        assert(token@ =~= token_of(secret@, sub@, exp, iat, mobile@));
    }
    token
}

/// The token issuer and verifier.
pub struct JwtService;

impl JwtService {
    /// Issues a short-lived access token for the identity, expiring
    /// `config.jwt_expiry` seconds after `now`.
    pub fn generate_access_token(config: &Config, user_id: &[u8], mobile: &[u8], now: i64) -> (r:
        Vec<u8>)
        requires
            config.wf(),
            is_oid(user_id@),
            0 <= now < 0x4000000000000000,
        ensures
            r@ == token_of(
                config.jwt_secret@,
                user_id@,
                (now + config.jwt_expiry) as i64,
                now,
                mobile@,
            ),
    {
        build_token(config.jwt_secret.as_slice(), user_id, now + config.jwt_expiry, now, mobile)
    }

    /// Issues a long-lived refresh token, signed with the refresh secret.
    pub fn generate_refresh_token(config: &Config, user_id: &[u8], mobile: &[u8], now: i64) -> (r:
        Vec<u8>)
        requires
            config.wf(),
            is_oid(user_id@),
            0 <= now < 0x4000000000000000,
        ensures
            r@ == token_of(
                config.jwt_refresh_secret@,
                user_id@,
                (now + config.jwt_refresh_expiry) as i64,
                now,
                mobile@,
            ),
    {
        build_token(
            config.jwt_refresh_secret.as_slice(),
            user_id,
            (now + config.jwt_refresh_expiry) as i64,
            now,
            mobile,
        )
    }

    /// Verifies a token against the secret of the requested kind at time
    /// `now`.  Accepts exactly the structurally well-formed tokens whose
    /// signature matches that secret and whose expiry lies after `now`;
    /// on success returns the claims the token carries.
    pub fn verify_token(token: &[u8], is_refresh: bool, config: &Config, now: i64) -> (r: Option<
        Claims,
    >)
        ensures
            ({
                let secret = if is_refresh {
                    config.jwt_refresh_secret@
                } else {
                    config.jwt_secret@
                };
                &&& r is Some <==> token_valid(token@, secret, now)
                &&& (r matches Some(c) ==> {
                    &&& c.sub@ == token_sub(token@)
                    &&& c.mobile@ == token_mobile(token@)
                    &&& c.exp == token_exp(token@)
                    &&& c.iat == token_iat(token@)
                })
            }),
    {
        let secret: &[u8] = if is_refresh {
            config.jwt_refresh_secret.as_slice()
        } else {
            config.jwt_secret.as_slice()
        };
        let n = token.len();
        if n < 124 {
            return None;
        }
        if token[24] != DOT || token[41] != DOT || token[58] != DOT || token[n - 65] != DOT {
            return None;
        }
        let sub_part = slice_subrange(token, 0, 24);
        let exp_part = slice_subrange(token, 25, 41);
        let iat_part = slice_subrange(token, 42, 58);
        let mobile_part = slice_subrange(token, 59, n - 65);
        let sub_ok = match hex_decode(sub_part) {
            Some(_) => true,
            None => false,
        };
        if !sub_ok {
            return None;
        }
        let exp_bytes = match hex_decode(exp_part) {
            Some(b) => b,
            None => {
                return None;
            },
        };
        let iat_bytes = match hex_decode(iat_part) {
            Some(b) => b,
            None => {
                return None;
            },
        };
        let mobile = match hex_decode(mobile_part) {
            Some(b) => b,
            None => {
                return None;
            },
        };
        let exp_val = be8_decode(exp_bytes.as_slice());
        let iat_val = be8_decode(iat_bytes.as_slice());
        if exp_val > i64::MAX as u64 || iat_val > i64::MAX as u64 {
            return None;
        }
        let payload = slice_subrange(token, 0, n - 65);
        let sig_part = slice_subrange(token, n - 64, n);
        let tag = hmac_sha256(secret, payload);
        let expected = hex_encode(tag.as_slice());
        if !bytes_eq(expected.as_slice(), sig_part) {
            return None;
        }
        let exp = exp_val as i64;
        let iat = iat_val as i64;
        if !(exp > now) {
            return None;
        }
        let mut sub: Vec<u8> = Vec::new();
        append_bytes(&mut sub, sub_part);
        proof {
            assert(sub@ =~= token_sub(token@));
        }
        Some(Claims { sub, mobile, exp, iat })
    }
}

/// A token built by the issuer parses back to the claims it was built from,
/// and its signature checks out under the signing secret.
pub proof fn lemma_token_roundtrip(secret: Seq<u8>, sub: Seq<u8>, exp: i64, iat: i64, mobile: Seq<
    u8,
>)
    requires
        sub.len() == 24,
        forall|i: int| 0 <= i < sub.len() ==> is_hex_digit(#[trigger] sub[i]),
        0 <= exp,
        0 <= iat,
    ensures
        token_signed(token_of(secret, sub, exp, iat, mobile), secret),
        token_sub(token_of(secret, sub, exp, iat, mobile)) == sub,
        token_exp(token_of(secret, sub, exp, iat, mobile)) == exp,
        token_iat(token_of(secret, sub, exp, iat, mobile)) == iat,
        token_mobile(token_of(secret, sub, exp, iat, mobile)) == mobile,
{
    let p = payload_of(sub, exp, iat, mobile);
    let t = token_of(secret, sub, exp, iat, mobile);
    lemma_hex_of_len(be8_of(exp as u64));
    lemma_hex_of_len(be8_of(iat as u64));
    lemma_hex_of_len(mobile);
    lemma_hex_of_len(mac32(secret, p));
    assert(p.len() == 59 + 2 * mobile.len());
    assert(t.len() == 124 + 2 * mobile.len());
    lemma_hex_roundtrip(be8_of(exp as u64));
    lemma_hex_roundtrip(be8_of(iat as u64));
    lemma_hex_roundtrip(mobile);
    crate::text::lemma_be8_roundtrip(exp as u64);
    crate::text::lemma_be8_roundtrip(iat as u64);
    assert(t.subrange(0, 24) =~= sub);
    assert(t.subrange(25, 41) =~= hex_of(be8_of(exp as u64)));
    assert(t.subrange(42, 58) =~= hex_of(be8_of(iat as u64)));
    assert(t.subrange(59, t.len() - 65) =~= hex_of(mobile));
    assert(t.subrange(0, t.len() - 65) =~= p);
    assert(t.subrange(t.len() - 64, t.len() as int) =~= hex_of(mac32(secret, p)));
    assert(t[24] == DOT);
    assert(t[41] == DOT);
    assert(t[58] == DOT);
    assert(t[t.len() - 65] == DOT);
}

/// Token kinds do not cross: a token that validates under one secret cannot
/// validate under another unless HMAC-SHA256 maps its payload to the same
/// tag under both secrets.  In particular a refresh token never passes
/// access-token verification (and vice versa) as long as the two secrets'
/// tags differ on that payload.
pub proof fn lemma_kind_separation(t: Seq<u8>, secret_a: Seq<u8>, secret_b: Seq<u8>, now: i64)
    requires
        token_valid(t, secret_b, now),
        mac32(secret_a, token_payload(t)) != mac32(secret_b, token_payload(t)),
    ensures
        !token_valid(t, secret_a, now),
{
    let p = token_payload(t);
    lemma_hex_roundtrip(mac32(secret_a, p));
    lemma_hex_roundtrip(mac32(secret_b, p));
    if token_valid(t, secret_a, now) {
        assert(hex_of(mac32(secret_a, p)) == hex_of(mac32(secret_b, p)));
        assert(hex_decode_seq(hex_of(mac32(secret_a, p))) == hex_decode_seq(
            hex_of(mac32(secret_b, p)),
        ));
        assert(mac32(secret_a, p) =~= mac32(secret_b, p));
        assert(false);
    }
}

} // verus!
