//! The access-control gate chain: authentication from a bearer token, then
//! KYC approval layered on top.  Each gate is read-only and fails closed.

use vstd::prelude::*;
use vstd::slice::slice_subrange;
use crate::config::Config;
use crate::errors::{ApiError, STATUS_UNAUTHORIZED, STATUS_FORBIDDEN};
use crate::ids::{parse_oid, oid_canon, is_oid};
use crate::token::{JwtService, token_valid, token_sub, token_mobile};
use crate::users::{User, KycStatus};

verus! {

/// The bytes of `Bearer `.
pub open spec fn bearer_prefix() -> Seq<u8> {
    seq![0x42u8, 0x65u8, 0x61u8, 0x72u8, 0x65u8, 0x72u8, 0x20u8]
}

/// The header value with every leading `Bearer ` occurrence removed, the
/// way `trim_start_matches` strips repeated prefixes.
pub open spec fn strip_bearer(s: Seq<u8>) -> Seq<u8>
    decreases s.len(),
{
    if s.len() >= 7 && s.subrange(0, 7) == bearer_prefix() {
        strip_bearer(s.skip(7))
    } else {
        s
    }
}

/// A verified identity: the capability the authentication gate yields.
#[derive(Debug)]
pub struct AuthGuard {
    /// Canonical user id, 24 lowercase hex digits.
    pub user_id: Vec<u8>,
    pub mobile: Vec<u8>,
}

impl AuthGuard {
    pub open spec fn wf(&self) -> bool {
        is_oid(self.user_id@)
    }
}

/// Authenticates a request from its `Authorization` header value.  Succeeds
/// exactly when the header is present and, once `Bearer ` prefixes are
/// stripped, holds a token that validates against the access secret at
/// `now`; every failure is `401`.
pub fn authenticate(config: &Config, now: i64, authorization: Option<&[u8]>) -> (r: Result<
    AuthGuard,
    ApiError,
>)
    ensures
        r is Ok <==> (authorization matches Some(h) && token_valid(
            strip_bearer(h@),
            config.jwt_secret@,
            now,
        )),
        r matches Ok(g) ==> (authorization matches Some(h) && {
            &&& g.user_id@ == oid_canon(token_sub(strip_bearer(h@)))
            &&& g.mobile@ == token_mobile(strip_bearer(h@))
            &&& g.wf()
        }),
        r matches Err(e) ==> e.status == STATUS_UNAUTHORIZED,
{
    let header = match authorization {
        Some(h) => h,
        None => {
            return Err(ApiError {
                status: STATUS_UNAUTHORIZED,
                message: "Missing authorization header".to_owned(),
            });
        },
    };
    let n = header.len();
    let mut start: usize = 0;
    proof {
        assert(header@.skip(0) =~= header@);
    }
    while n - start >= 7 && header[start] == 0x42 && header[start + 1] == 0x65 && header[start + 2]
        == 0x61 && header[start + 3] == 0x72 && header[start + 4] == 0x65 && header[start + 5]
        == 0x72 && header[start + 6] == 0x20
        invariant
            n == header@.len(),
            start <= n,
            strip_bearer(header@) == strip_bearer(header@.skip(start as int)),
        decreases n - start,
    {
        proof {
            assert(header@.skip(start as int).subrange(0, 7) =~= bearer_prefix());
            assert(header@.skip(start as int).skip(7) =~= header@.skip(start + 7));
        }
        start = start + 7;
    }
    proof {
        if header@.skip(start as int).len() >= 7 {
            if header@.skip(start as int).subrange(0, 7) == bearer_prefix() {
                assert(header@[start as int] == 0x42);
                assert(header@[start + 1] == 0x65);
                assert(header@[start + 2] == 0x61);
                assert(header@[start + 3] == 0x72);
                assert(header@[start + 4] == 0x65);
                assert(header@[start + 5] == 0x72);
                assert(header@[start + 6] == 0x20);
            }
        }
        assert(strip_bearer(header@.skip(start as int)) == header@.skip(start as int));
    }
    let token = slice_subrange(header, start, n);
    proof {
        assert(token@ =~= header@.skip(start as int));
    }
    let claims = match JwtService::verify_token(token, false, config, now) {
        Some(c) => c,
        None => {
            return Err(ApiError {
                status: STATUS_UNAUTHORIZED,
                message: "Invalid or expired token".to_owned(),
            });
        },
    };
    let user_id = match parse_oid(claims.sub.as_slice()) {
        Some(o) => o,
        None => {
            // Unreachable for a token the verifier accepted: its subject
            // field is 24 hex digits by well-formedness.
            return Err(ApiError {
                status: STATUS_UNAUTHORIZED,
                message: "Invalid subject in token".to_owned(),
            });
        },
    };
    Ok(AuthGuard { user_id, mobile: claims.mobile })
}

/// The capability of a KYC-cleared user, wrapping the authenticated
/// identity.
#[derive(Debug)]
pub struct KycGuard {
    pub auth: AuthGuard,
}

/// The KYC gate: takes the authenticated identity and the caller's user
/// record as the store returned it (`None` both for a missing record and
/// for a store error, so doubt denies access).  Succeeds exactly when
/// the record exists with status Approved or Submitted — provisional access
/// while a submission is under review is deliberate; Pending and Rejected
/// fail with `403`.
pub fn kyc_gate(auth: AuthGuard, user: Option<&User>) -> (r: Result<KycGuard, ApiError>)
    ensures
        r is Ok <==> (user matches Some(u) && (u.kyc_status == KycStatus::Approved
            || u.kyc_status == KycStatus::Submitted)),
        r matches Ok(g) ==> g.auth == auth,
        r matches Err(e) ==> e.status == STATUS_FORBIDDEN,
{
    match user {
        Some(u) => {
            if matches!(u.kyc_status, KycStatus::Approved | KycStatus::Submitted) {
                Ok(KycGuard { auth })
            } else {
                Err(ApiError {
                    status: STATUS_FORBIDDEN,
                    message: "KYC approval required".to_owned(),
                })
            }
        },
        None => Err(ApiError { status: STATUS_FORBIDDEN, message: "KYC approval required".to_owned() }),
    }
}

} // verus!
