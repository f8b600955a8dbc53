//! The OTP and token endpoints' decision logic: validation and rate
//! limiting before an OTP goes out, and the silent-refresh flow that trades
//! a refresh token for a fresh access token.

use vstd::prelude::*;
use crate::config::Config;
use crate::errors::{ApiError, STATUS_BAD_REQUEST, STATUS_UNAUTHORIZED, STATUS_TOO_MANY_REQUESTS};
use crate::ratelimit::{RateLimiter, check_allows, check_transition};
use crate::token::{JwtService, token_valid, token_sub, token_mobile, token_of};
use crate::users::User;
use crate::validation::{
    is_valid_mobile,
    is_valid_email,
    validate_mobile,
    validate_email,
};

verus! {

/// Request to send a fresh OTP.
pub struct SendOtpDto {
    pub mobile: Vec<u8>,
    pub email: Vec<u8>,
}

/// Request to check an OTP the user typed.
pub struct VerifyOtpDto {
    pub mobile: Vec<u8>,
    pub otp: Vec<u8>,
}

/// Request to resend an OTP.
pub struct ResendOtpDto {
    pub mobile: Vec<u8>,
    pub email: Vec<u8>,
}

/// Request to trade a refresh token for a new access token.
pub struct RefreshTokenDto {
    pub refresh_token: Vec<u8>,
}

/// The rate-limiter key for sending an OTP to a mobile: `send_otp:` and
/// the number.
pub open spec fn send_otp_key(mobile: Seq<u8>) -> Seq<u8> {
    seq![0x73u8, 0x65u8, 0x6eu8, 0x64u8, 0x5fu8, 0x6fu8, 0x74u8, 0x70u8, 0x3au8] + mobile
}

fn build_send_otp_key(mobile: &[u8]) -> (r: Vec<u8>)
    ensures
        r@ == send_otp_key(mobile@),
{
    let mut r: Vec<u8> = Vec::new();
    r.push(0x73);
    r.push(0x65);
    r.push(0x6e);
    r.push(0x64);
    r.push(0x5f);
    r.push(0x6f);
    r.push(0x74);
    r.push(0x70);
    r.push(0x3a);
    crate::text::append_bytes(&mut r, mobile);
    proof {
        assert(r@ =~= send_otp_key(mobile@));
    }
    r
}

/// Decides whether an OTP may be sent: the mobile and email must be valid
/// (`400`), and one send is then recorded against the per-mobile counter —
/// allowed exactly when the fixed window permits it, `429` otherwise.
/// `Ok` means the caller should now ask the SMS provider to send the code.
pub fn send_otp_request(limiter: &mut RateLimiter, dto: &SendOtpDto, now: i64) -> (r: Result<
    (),
    ApiError,
>)
    requires
        old(limiter).wf(),
        0 <= now < 0x4000000000000000,
    ensures
        final(limiter).wf(),
        !is_valid_mobile(dto.mobile@) ==> (r matches Err(e) && e.status == STATUS_BAD_REQUEST
            && final(limiter).entries@ == old(limiter).entries@),
        is_valid_mobile(dto.mobile@) && !is_valid_email(dto.email@) ==> (r matches Err(e)
            && e.status == STATUS_BAD_REQUEST && final(limiter).entries@ == old(limiter).entries@),
        is_valid_mobile(dto.mobile@) && is_valid_email(dto.email@) ==> ({
            &&& (r is Ok <==> check_allows(*old(limiter), send_otp_key(dto.mobile@), now))
            &&& check_transition(*old(limiter), *final(limiter), send_otp_key(dto.mobile@), now)
            &&& (r matches Err(e) ==> e.status == STATUS_TOO_MANY_REQUESTS
                && final(limiter).entries@ == old(limiter).entries@)
        }),
{
    if !validate_mobile(dto.mobile.as_slice()) {
        return Err(ApiError {
            status: STATUS_BAD_REQUEST,
            message: "Invalid mobile number".to_owned(),
        });
    }
    if !validate_email(dto.email.as_slice()) {
        return Err(ApiError { status: STATUS_BAD_REQUEST, message: "Invalid email".to_owned() });
    }
    let key = build_send_otp_key(dto.mobile.as_slice());
    limiter.check(key.as_slice(), now)
}

/// Like `send_otp_request` for a resend, whose email is not validated:
/// the mobile must be valid (`400`), and one send is then recorded against
/// the same per-mobile counter.
pub fn resend_otp_request(limiter: &mut RateLimiter, dto: &ResendOtpDto, now: i64) -> (r: Result<
    (),
    ApiError,
>)
    requires
        old(limiter).wf(),
        0 <= now < 0x4000000000000000,
    ensures
        final(limiter).wf(),
        !is_valid_mobile(dto.mobile@) ==> (r matches Err(e) && e.status == STATUS_BAD_REQUEST
            && final(limiter).entries@ == old(limiter).entries@),
        is_valid_mobile(dto.mobile@) ==> ({
            &&& (r is Ok <==> check_allows(*old(limiter), send_otp_key(dto.mobile@), now))
            &&& check_transition(*old(limiter), *final(limiter), send_otp_key(dto.mobile@), now)
            &&& (r matches Err(e) ==> e.status == STATUS_TOO_MANY_REQUESTS
                && final(limiter).entries@ == old(limiter).entries@)
        }),
{
    if !validate_mobile(dto.mobile.as_slice()) {
        return Err(ApiError {
            status: STATUS_BAD_REQUEST,
            message: "Invalid mobile number".to_owned(),
        });
    }
    let key = build_send_otp_key(dto.mobile.as_slice());
    limiter.check(key.as_slice(), now)
}

/// Completes an OTP login after the provider accepted the code: an
/// existing user gets the login stamped, an unknown mobile gets a fresh
/// registration (whose id the store will assign before tokens are issued).
/// The flag says whether this was a registration.
pub fn complete_login(existing: Option<User>, mobile: Vec<u8>, now: i64) -> (r: (User, bool))
    ensures
        existing matches Some(u) ==> ({
            &&& !r.1
            &&& r.0.id == u.id
            &&& r.0.mobile == u.mobile
            &&& r.0.kyc_status == u.kyc_status
            &&& r.0.last_login_at == now
        }),
        existing is None ==> ({
            &&& r.1
            &&& r.0.id is None
            &&& r.0.mobile == mobile
            &&& r.0.kyc_status == crate::users::KycStatus::Pending
            &&& r.0.is_active
            &&& r.0.last_login_at == now
            &&& r.0.created_at == now
        }),
{
    match existing {
        Some(mut u) => {
            crate::users::login_user(&mut u, now);
            (u, false)
        },
        None => (crate::users::register_user(mobile, now), true),
    }
}

/// Tokens issued on a successful login.
pub struct LoginTokens {
    pub access_token: Vec<u8>,
    pub refresh_token: Vec<u8>,
}

/// Issues the access and refresh token pair for a logged-in user.
pub fn issue_login_tokens(config: &Config, user: &User, now: i64) -> (r: LoginTokens)
    requires
        config.wf(),
        user.stored(),
        0 <= now < 0x4000000000000000,
    ensures
        r.access_token@ == token_of(
            config.jwt_secret@,
            user.id.unwrap()@,
            (now + config.jwt_expiry) as i64,
            now,
            user.mobile@,
        ),
        r.refresh_token@ == token_of(
            config.jwt_refresh_secret@,
            user.id.unwrap()@,
            (now + config.jwt_refresh_expiry) as i64,
            now,
            user.mobile@,
        ),
{
    let id = match &user.id {
        Some(id) => id,
        None => {
            // unreachable: a stored user has an id
            proof {
                assert(false);
            }
            return LoginTokens { access_token: Vec::new(), refresh_token: Vec::new() };
        },
    };
    let access_token = JwtService::generate_access_token(
        config,
        id.as_slice(),
        user.mobile.as_slice(),
        now,
    );
    let refresh_token = JwtService::generate_refresh_token(
        config,
        id.as_slice(),
        user.mobile.as_slice(),
        now,
    );
    LoginTokens { access_token, refresh_token }
}

/// The key all refresh calls share in the rate limiter: `refresh_token`.
pub open spec fn refresh_key() -> Seq<u8> {
    seq![
        0x72u8, 0x65u8, 0x66u8, 0x72u8, 0x65u8, 0x73u8, 0x68u8, 0x5fu8, 0x74u8, 0x6fu8, 0x6bu8,
        0x65u8, 0x6eu8,
    ]
}

/// The silent refresh: one call is recorded against the shared key, and a
/// blocked window is `429`.  When the window permits, the flow succeeds
/// exactly when the refresh token validates against the refresh secret at
/// `now` — an invalid one is `401` — and the result is a fresh access
/// token for the identity the refresh token carries.  The refresh token
/// itself is neither rotated nor invalidated.
pub fn refresh_access_token(
    limiter: &mut RateLimiter,
    config: &Config,
    dto: &RefreshTokenDto,
    now: i64,
) -> (r: Result<Vec<u8>, ApiError>)
    requires
        old(limiter).wf(),
        config.wf(),
        0 <= now < 0x4000000000000000,
    ensures
        final(limiter).wf(),
        check_transition(*old(limiter), *final(limiter), refresh_key(), now),
        !check_allows(*old(limiter), refresh_key(), now) ==> (r matches Err(e) && e.status
            == STATUS_TOO_MANY_REQUESTS && final(limiter).entries@ == old(limiter).entries@),
        check_allows(*old(limiter), refresh_key(), now) ==> (r is Ok <==> token_valid(
            dto.refresh_token@,
            config.jwt_refresh_secret@,
            now,
        )),
        check_allows(*old(limiter), refresh_key(), now) && !token_valid(
            dto.refresh_token@,
            config.jwt_refresh_secret@,
            now,
        ) ==> (r matches Err(e) && e.status == STATUS_UNAUTHORIZED),
        r matches Ok(t) ==> t@ == token_of(
            config.jwt_secret@,
            crate::ids::oid_canon(token_sub(dto.refresh_token@)),
            (now + config.jwt_expiry) as i64,
            now,
            token_mobile(dto.refresh_token@),
        ),
{
    let mut key: Vec<u8> = Vec::new();
    key.push(0x72);
    key.push(0x65);
    key.push(0x66);
    key.push(0x72);
    key.push(0x65);
    key.push(0x73);
    key.push(0x68);
    key.push(0x5f);
    key.push(0x74);
    key.push(0x6f);
    key.push(0x6b);
    key.push(0x65);
    key.push(0x6e);
    proof {
        assert(key@ =~= refresh_key());
    }
    match limiter.check(key.as_slice(), now) {
        Ok(_) => {},
        Err(e) => {
            return Err(e);
        },
    }
    let claims = match JwtService::verify_token(dto.refresh_token.as_slice(), true, config, now) {
        Some(c) => c,
        None => {
            return Err(ApiError {
                status: STATUS_UNAUTHORIZED,
                message: "Invalid refresh token".to_owned(),
            });
        },
    };
    let user_id = match crate::ids::parse_oid(claims.sub.as_slice()) {
        Some(o) => o,
        None => {
            return Err(ApiError {
                status: STATUS_UNAUTHORIZED,
                message: "Invalid user id in token".to_owned(),
            });
        },
    };
    let access = JwtService::generate_access_token(
        config,
        user_id.as_slice(),
        claims.mobile.as_slice(),
        now,
    );
    Ok(access)
}

} // verus!
