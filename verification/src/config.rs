//! Runtime configuration, constructed once at process start and passed by
//! reference to the components that need it.  The library never reads the
//! environment itself.

use vstd::prelude::*;

verus! {

/// Signing secrets and validity windows.  Times are Unix seconds.
pub struct Config {
    /// Secret that signs access tokens.
    pub jwt_secret: Vec<u8>,
    /// Secret that signs refresh tokens; distinct from `jwt_secret` so that
    /// one kind of token can never validate as the other.
    pub jwt_refresh_secret: Vec<u8>,
    /// Access-token lifetime in seconds.
    pub jwt_expiry: i64,
    /// Refresh-token lifetime in seconds.
    pub jwt_refresh_expiry: i64,
    /// Shared secret of the payment gateway, used to check order signatures.
    pub razorpay_key_secret: Vec<u8>,
}

impl Config {
    /// A sane configuration: non-negative lifetimes that keep expiry
    /// arithmetic inside `i64`.
    pub open spec fn wf(&self) -> bool {
        0 <= self.jwt_expiry < 0x4000000000000000 && 0 <= self.jwt_refresh_expiry
            < 0x4000000000000000
    }

    pub fn new(
        jwt_secret: Vec<u8>,
        jwt_refresh_secret: Vec<u8>,
        jwt_expiry: i64,
        jwt_refresh_expiry: i64,
        razorpay_key_secret: Vec<u8>,
    ) -> (r: Config)
        requires
            0 <= jwt_expiry < 0x4000000000000000,
            0 <= jwt_refresh_expiry < 0x4000000000000000,
        ensures
            r.wf(),
            r.jwt_secret == jwt_secret,
            r.jwt_refresh_secret == jwt_refresh_secret,
            r.jwt_expiry == jwt_expiry,
            r.jwt_refresh_expiry == jwt_refresh_expiry,
            r.razorpay_key_secret == razorpay_key_secret,
    {
        Config { jwt_secret, jwt_refresh_secret, jwt_expiry, jwt_refresh_expiry, razorpay_key_secret }
    }
}

} // verus!
