//! Fixed-window rate limiting keyed by an arbitrary byte string.  Each key
//! holds a counter and a window expiry; the first request in a fresh or
//! expired window resets the counter to one, later requests increment it
//! until the limit, and anything beyond is rejected.

use vstd::prelude::*;
use crate::errors::{ApiError, STATUS_TOO_MANY_REQUESTS};

verus! {

/// Default limit for OTP sends per mobile number.
pub const OTP_LIMIT: u32 = 3;

/// Default OTP window: ten minutes, in milliseconds.
pub const OTP_WINDOW_MS: i64 = 600000;

/// Default limit for token refreshes.
pub const REFRESH_LIMIT: u32 = 10;

/// Default refresh window: one minute, in milliseconds.
pub const REFRESH_WINDOW_MS: i64 = 60000;

/// Counter state for one key.
pub struct RateLimitEntry {
    pub key: Vec<u8>,
    pub count: u32,
    pub expires_at: i64,
}

/// A fixed-window limiter: at most `limit` requests per key inside each
/// window of `window_ms` milliseconds.
pub struct RateLimiter {
    pub limit: u32,
    pub window_ms: i64,
    pub entries: Vec<RateLimitEntry>,
}

/// Whether some entry carries `key`.
pub open spec fn has_key(entries: Seq<RateLimitEntry>, key: Seq<u8>) -> bool {
    exists|i: int| 0 <= i < entries.len() && entries[i].key@ == key
}

/// Whether a request for `key` at `now` goes through: the key has no
/// entry yet, or its window has expired, or its counter is still under
/// the limit.
pub open spec fn check_allows(l: RateLimiter, key: Seq<u8>, now: i64) -> bool {
    ||| !has_key(l.entries@, key)
    ||| exists|i: int|
        0 <= i < l.entries@.len() && (#[trigger] l.entries@[i]).key@ == key && (l.entries@[
            i
        ].expires_at < now || l.entries@[i].count < l.limit)
}

/// How one recorded request moves the limiter from `l0` to `l1`: an
/// unseen key gains a fresh entry with count one; a matching entry is
/// reset when expired, incremented when live and under the limit, and
/// left untouched — along with everything else — when at the limit.
pub open spec fn check_transition(l0: RateLimiter, l1: RateLimiter, key: Seq<u8>, now: i64) -> bool {
    &&& l1.limit == l0.limit
    &&& l1.window_ms == l0.window_ms
    &&& (!has_key(l0.entries@, key) ==> {
        &&& l1.entries@.len() == l0.entries@.len() + 1
        &&& (forall|j: int| 0 <= j < l0.entries@.len() ==> l1.entries@[j] == l0.entries@[j])
        &&& l1.entries@.last().key@ == key
        &&& l1.entries@.last().count == 1
        &&& l1.entries@.last().expires_at == now + l0.window_ms
    })
    &&& (forall|i: int|
        0 <= i < l0.entries@.len() && (#[trigger] l0.entries@[i]).key@ == key ==> {
            let e = l0.entries@[i];
            &&& (e.expires_at < now ==> {
                &&& l1.entries@.len() == l0.entries@.len()
                &&& (forall|j: int|
                    0 <= j < l0.entries@.len() && j != i ==> l1.entries@[j] == l0.entries@[j])
                &&& l1.entries@[i].key@ == key
                &&& l1.entries@[i].count == 1
                &&& l1.entries@[i].expires_at == now + l0.window_ms
            })
            &&& (e.expires_at >= now && e.count >= l0.limit ==> l1.entries@ == l0.entries@)
            &&& (e.expires_at >= now && e.count < l0.limit ==> {
                &&& l1.entries@.len() == l0.entries@.len()
                &&& (forall|j: int|
                    0 <= j < l0.entries@.len() && j != i ==> l1.entries@[j] == l0.entries@[j])
                &&& l1.entries@[i].key@ == key
                &&& l1.entries@[i].count == e.count + 1
                &&& l1.entries@[i].expires_at == e.expires_at
            })
        })
}

impl RateLimiter {
    /// Keys are unique and the parameters keep the arithmetic in bounds.
    pub open spec fn wf(&self) -> bool {
        &&& self.limit >= 1
        &&& 0 <= self.window_ms < 0x4000000000000000
        &&& forall|i: int, j: int|
            0 <= i < j < self.entries@.len() ==> self.entries@[i].key@ != self.entries@[j].key@
    }

    pub fn new(limit: u32, window_ms: i64) -> (r: RateLimiter)
        requires
            limit >= 1,
            0 <= window_ms < 0x4000000000000000,
        ensures
            r.wf(),
            r.limit == limit,
            r.window_ms == window_ms,
            r.entries@.len() == 0,
    {
        RateLimiter { limit, window_ms, entries: Vec::new() }
    }

    /// Records one request for `key` at time `now`.  The request is
    /// allowed exactly when `check_allows` says so — a fresh or expired
    /// window starts at count one, a live key under the limit increments —
    /// and a live key at the limit is rejected with `429`, with nothing
    /// changed; the state moves as `check_transition` describes.
    pub fn check(&mut self, key: &[u8], now: i64) -> (r: Result<(), ApiError>)
        requires
            old(self).wf(),
            0 <= now < 0x4000000000000000,
        ensures
            final(self).wf(),
            final(self).limit == old(self).limit,
            final(self).window_ms == old(self).window_ms,
            r is Ok <==> check_allows(*old(self), key@, now),
            r matches Err(e) ==> e.status == STATUS_TOO_MANY_REQUESTS && final(self).entries@
                == old(self).entries@,
            check_transition(*old(self), *final(self), key@, now),
    {
        let n = self.entries.len();
        let mut idx: usize = 0;
        let mut found = false;
        while idx < n && !found
            invariant
                n == self.entries@.len(),
                idx <= n,
                found ==> idx < n && self.entries@[idx as int].key@ == key@,
                !found ==> forall|j: int| 0 <= j < idx ==> self.entries@[j].key@ != key@,
            decreases n - idx + (if found { 0int } else { 1int }),
        {
            if crate::text::bytes_eq(self.entries[idx].key.as_slice(), key) {
                found = true;
            } else {
                idx = idx + 1;
            }
        }
        if !found {
            let mut key_copy: Vec<u8> = Vec::new();
            crate::text::append_bytes(&mut key_copy, key);
            proof {
                assert(key_copy@ =~= key@);
            }
            let entry = RateLimitEntry {
                key: key_copy,
                count: 1,
                expires_at: now + self.window_ms,
            };
            self.entries.push(entry);
            return Ok(());
        }
        let expired = self.entries[idx].expires_at < now;
        if expired {
            let mut key_copy: Vec<u8> = Vec::new();
            crate::text::append_bytes(&mut key_copy, key);
            proof {
                assert(key_copy@ =~= key@);
            }
            let entry = RateLimitEntry {
                key: key_copy,
                count: 1,
                expires_at: now + self.window_ms,
            };
            self.entries.set(idx, entry);
            return Ok(());
        }
        if self.entries[idx].count >= self.limit {
            return Err(ApiError {
                status: STATUS_TOO_MANY_REQUESTS,
                message: "Too many requests. Please try later.".to_owned(),
            });
        }
        let mut key_copy: Vec<u8> = Vec::new();
        crate::text::append_bytes(&mut key_copy, key);
        proof {
            assert(key_copy@ =~= key@);
        }
        let entry = RateLimitEntry {
            key: key_copy,
            count: self.entries[idx].count + 1,
            expires_at: self.entries[idx].expires_at,
        };
        self.entries.set(idx, entry);
        Ok(())
    }
}

} // verus!
