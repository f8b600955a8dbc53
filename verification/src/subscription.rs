//! The subscription and payment state machine.
//!
//! A subscription is born `PendingPayment` when an order is placed with the
//! gateway, becomes `Active` once the gateway's signature over the order and
//! payment ids checks out, and ends `Expired` or `Cancelled`.  Creation
//! refuses a second subscription of a type the user already holds actively.

use vstd::prelude::*;
use crate::crypto::{expected_payment_signature, verify_payment_signature};
use crate::errors::{ApiError, STATUS_BAD_REQUEST, STATUS_NOT_FOUND};
use crate::ids::{oid_canon, parse_oid};
use crate::text::{lower_seq, ascii_lower, append_bytes, is_hex_digit};

verus! {

/// What a subscription entitles its holder to.
#[derive(Clone, Copy, PartialEq, Eq, Structural, Debug)]
pub enum SubscriptionType {
    Worker,
    JobSeeker,
}

/// Lifecycle states.  `PendingPayment` is a state of its own: a
/// subscription whose order was placed but whose payment was never
/// verified, distinct from one a user cancelled.
#[derive(Clone, Copy, PartialEq, Eq, Structural, Debug)]
pub enum SubscriptionStatus {
    PendingPayment,
    Active,
    Expired,
    Cancelled,
}

/// One year, in milliseconds: the term of every paid plan.
pub const SUBSCRIPTION_TERM_MS: i64 = 31536000000;

/// A subscription record.  Timestamps are Unix milliseconds.
pub struct Subscription {
    pub id: Vec<u8>,
    pub user_id: Vec<u8>,
    pub subscription_type: SubscriptionType,
    pub plan_name: Vec<u8>,
    /// Price in minor currency units (paise).
    pub price_minor: i64,
    pub status: SubscriptionStatus,
    pub starts_at: i64,
    pub expires_at: i64,
    pub auto_renew: bool,
    pub payment_id: Option<Vec<u8>>,
    pub created_at: i64,
    pub updated_at: i64,
}

/// The plan-name bytes.
pub open spec fn silver_name() -> Seq<u8> {
    seq![0x73u8, 0x69u8, 0x6cu8, 0x76u8, 0x65u8, 0x72u8]
}

pub open spec fn gold_name() -> Seq<u8> {
    seq![0x67u8, 0x6fu8, 0x6cu8, 0x64u8]
}

pub open spec fn basic_name() -> Seq<u8> {
    seq![0x62u8, 0x61u8, 0x73u8, 0x69u8, 0x63u8]
}

pub open spec fn premium_name() -> Seq<u8> {
    seq![0x70u8, 0x72u8, 0x65u8, 0x6du8, 0x69u8, 0x75u8, 0x6du8]
}

/// Price in minor units of a plan of the given type, `None` for an unknown
/// plan.  Worker plans: silver and gold; job-seeker plans: basic and
/// premium.
pub open spec fn plan_price_minor(t: SubscriptionType, plan: Seq<u8>) -> Option<i64> {
    match t {
        SubscriptionType::Worker => if plan == silver_name() {
            Some(100i64)
        } else if plan == gold_name() {
            Some(200i64)
        } else {
            None
        },
        SubscriptionType::JobSeeker => if plan == basic_name() {
            Some(50i64)
        } else if plan == premium_name() {
            Some(150i64)
        } else {
            None
        },
    }
}

/// Resolves a plan name, case-insensitively, to its price.
pub fn resolve_plan(t: SubscriptionType, plan_name: &[u8]) -> (r: Option<(Vec<u8>, i64)>)
    ensures
        r is Some <==> plan_price_minor(t, lower_seq(plan_name@)) is Some,
        r matches Some(p) ==> p.0@ == lower_seq(plan_name@) && Some(p.1) == plan_price_minor(
            t,
            lower_seq(plan_name@),
        ),
{
    let lowered = ascii_lower(plan_name);
    let is_silver = lowered.len() == 6 && lowered[0] == 0x73 && lowered[1] == 0x69 && lowered[2]
        == 0x6c && lowered[3] == 0x76 && lowered[4] == 0x65 && lowered[5] == 0x72;
    let is_gold = lowered.len() == 4 && lowered[0] == 0x67 && lowered[1] == 0x6f && lowered[2]
        == 0x6c && lowered[3] == 0x64;
    let is_basic = lowered.len() == 5 && lowered[0] == 0x62 && lowered[1] == 0x61 && lowered[2]
        == 0x73 && lowered[3] == 0x69 && lowered[4] == 0x63;
    let is_premium = lowered.len() == 7 && lowered[0] == 0x70 && lowered[1] == 0x72 && lowered[2]
        == 0x65 && lowered[3] == 0x6d && lowered[4] == 0x69 && lowered[5] == 0x75 && lowered[6]
        == 0x6d;
    proof {
        assert(is_silver == (lowered@ =~= silver_name()));
        assert(is_gold == (lowered@ =~= gold_name()));
        assert(is_basic == (lowered@ =~= basic_name()));
        assert(is_premium == (lowered@ =~= premium_name()));
    }
    match t {
        SubscriptionType::Worker => {
            if is_silver {
                Some((lowered, 100))
            } else if is_gold {
                Some((lowered, 200))
            } else {
                None
            }
        },
        SubscriptionType::JobSeeker => {
            if is_basic {
                Some((lowered, 50))
            } else if is_premium {
                Some((lowered, 150))
            } else {
                None
            }
        },
    }
}

/// All subscription records.
pub struct SubscriptionBook {
    pub subs: Vec<Subscription>,
}

/// Whether the user holds a subscription of this type that is `Active` and
/// unexpired at `now`.
pub open spec fn has_active(subs: Seq<Subscription>, user_id: Seq<u8>, t: SubscriptionType, now: i64) -> bool {
    exists|i: int| 0 <= i < subs.len() && is_active_at(#[trigger] subs[i], user_id, t, now)
}

/// The record is the user's, of the type, `Active`, and unexpired.
pub open spec fn is_active_at(s: Subscription, user_id: Seq<u8>, t: SubscriptionType, now: i64) -> bool {
    s.user_id@ == user_id && s.subscription_type == t && s.status == SubscriptionStatus::Active
        && s.expires_at > now
}

/// Whether some record carries `id`.
pub open spec fn has_sub_id(subs: Seq<Subscription>, id: Seq<u8>) -> bool {
    exists|i: int| 0 <= i < subs.len() && #[trigger] subs[i].id@ == id
}

/// The record is named by `id`, owned by `user_id` and of type `t`.
pub open spec fn sub_matches(s: Subscription, id: Seq<u8>, user_id: Seq<u8>, t: SubscriptionType) -> bool {
    s.id@ == id && s.user_id@ == user_id && s.subscription_type == t
}

/// The record a payment may activate: matched as above and still awaiting
/// payment.  The lifecycle has no edge back to `Active`, so an already
/// active, expired or cancelled subscription never re-activates.
pub open spec fn sub_awaits_payment(
    s: Subscription,
    id: Seq<u8>,
    user_id: Seq<u8>,
    t: SubscriptionType,
) -> bool {
    sub_matches(s, id, user_id, t) && s.status == SubscriptionStatus::PendingPayment
}

/// What payment verification does, for any outcome: an invalid signature
/// or malformed id is `400` with nothing changed; an id that does not name
/// a pending subscription of this user and type — missing, someone else's,
/// or no longer awaiting payment — is `404` with nothing changed; on the
/// one match the subscription becomes `Active` with the payment id stamped
/// at `now`.
pub open spec fn verify_payment_post(
    subs0: Seq<Subscription>,
    subs1: Seq<Subscription>,
    r: Result<usize, ApiError>,
    secret: Seq<u8>,
    user_id: Seq<u8>,
    sub_type: SubscriptionType,
    sub_id: Seq<u8>,
    order_id: Seq<u8>,
    payment_id: Seq<u8>,
    signature: Seq<u8>,
    now: i64,
) -> bool {
    let sig_ok = signature == expected_payment_signature(secret, order_id, payment_id);
    let id_ok = sub_id.len() == 24 && (forall|i: int|
        0 <= i < sub_id.len() ==> is_hex_digit(#[trigger] sub_id[i]));
    let target = oid_canon(sub_id);
    let found = exists|i: int|
        0 <= i < subs0.len() && sub_awaits_payment(#[trigger] subs0[i], target, user_id, sub_type);
    &&& (r is Ok <==> (sig_ok && id_ok && found))
    &&& (!sig_ok ==> (r matches Err(e) && e.status == STATUS_BAD_REQUEST && subs1 == subs0))
    &&& (sig_ok && !id_ok ==> (r matches Err(e) && e.status == STATUS_BAD_REQUEST && subs1
        == subs0))
    &&& (sig_ok && id_ok && !found ==> (r matches Err(e) && e.status == STATUS_NOT_FOUND && subs1
        == subs0))
    &&& (r matches Ok(i) ==> {
        &&& 0 <= i < subs0.len()
        &&& sub_awaits_payment(subs0[i as int], target, user_id, sub_type)
        &&& subs1.len() == subs0.len()
        &&& (forall|j: int| 0 <= j < subs0.len() && j != i ==> subs1[j] == subs0[j])
        &&& ({
            let s0 = subs0[i as int];
            let s1 = subs1[i as int];
            &&& s1.id == s0.id
            &&& s1.user_id == s0.user_id
            &&& s1.subscription_type == s0.subscription_type
            &&& s1.plan_name == s0.plan_name
            &&& s1.price_minor == s0.price_minor
            &&& s1.status == SubscriptionStatus::Active
            &&& s1.starts_at == s0.starts_at
            &&& s1.expires_at == s0.expires_at
            &&& s1.auto_renew == s0.auto_renew
            &&& s1.payment_id matches Some(p) && p@ == payment_id
            &&& s1.created_at == s0.created_at
            &&& s1.updated_at == now
        })
    })
}

/// A worker-subscription payment callback from the gateway.
pub struct VerifySubscriptionPaymentDto {
    pub subscription_id: Vec<u8>,
    pub razorpay_order_id: Vec<u8>,
    pub razorpay_payment_id: Vec<u8>,
    pub razorpay_signature: Vec<u8>,
}

/// A job-seeker-subscription payment callback from the gateway.
pub struct VerifyJobSeekerPaymentDto {
    pub subscription_id: Vec<u8>,
    pub razorpay_order_id: Vec<u8>,
    pub razorpay_payment_id: Vec<u8>,
    pub razorpay_signature: Vec<u8>,
}

impl SubscriptionBook {
    /// Record ids are unique.
    pub open spec fn wf(&self) -> bool {
        forall|i: int, j: int|
            0 <= i < j < self.subs@.len() ==> self.subs@[i].id@ != self.subs@[j].id@
    }

    pub fn new() -> (r: SubscriptionBook)
        ensures
            r.wf(),
            r.subs@.len() == 0,
    {
        SubscriptionBook { subs: Vec::new() }
    }

    /// First step of creation, before any money moves: resolves the plan
    /// and refuses a user who already holds an active subscription of this
    /// type.  Succeeds exactly when the plan is known and no such active
    /// subscription exists; the caller then places the gateway order for
    /// the returned price and records the pending subscription.
    pub fn prepare_subscription(
        &self,
        user_id: &[u8],
        sub_type: SubscriptionType,
        plan_name: &[u8],
        now: i64,
    ) -> (r: Result<(Vec<u8>, i64), ApiError>)
        ensures
            r is Ok <==> (plan_price_minor(sub_type, lower_seq(plan_name@)) is Some && !has_active(
                self.subs@,
                user_id@,
                sub_type,
                now,
            )),
            r matches Ok(p) ==> p.0@ == lower_seq(plan_name@) && Some(p.1) == plan_price_minor(
                sub_type,
                lower_seq(plan_name@),
            ),
            r matches Err(e) ==> e.status == STATUS_BAD_REQUEST,
    {
        let plan = match resolve_plan(sub_type, plan_name) {
            Some(p) => p,
            None => {
                return Err(ApiError {
                    status: STATUS_BAD_REQUEST,
                    message: "Invalid plan".to_owned(),
                });
            },
        };
        let n = self.subs.len();
        for i in 0..n
            invariant
                n == self.subs@.len(),
                forall|j: int|
                    0 <= j < i ==> !is_active_at(#[trigger] self.subs@[j], user_id@, sub_type, now),
        {
            let s = &self.subs[i];
            let matches_user = crate::text::bytes_eq(s.user_id.as_slice(), user_id);
            let matches_type = matches!(s.subscription_type, SubscriptionType::Worker)
                == matches!(sub_type, SubscriptionType::Worker);
            let active = matches!(s.status, SubscriptionStatus::Active);
            if matches_user && matches_type && active && s.expires_at > now {
                return Err(ApiError {
                    status: STATUS_BAD_REQUEST,
                    message: "You already have an active subscription".to_owned(),
                });
            }
        }
        Ok(plan)
    }

    /// Second step of creation, after the gateway accepted the order:
    /// stores the subscription in `PendingPayment` state under the id the
    /// store assigned, with a one-year term from `now`.
    pub fn record_pending(
        &mut self,
        id: Vec<u8>,
        user_id: Vec<u8>,
        sub_type: SubscriptionType,
        plan_name: Vec<u8>,
        price_minor: i64,
        now: i64,
    )
        requires
            old(self).wf(),
            !has_sub_id(old(self).subs@, id@),
            0 <= now < 0x4000000000000000,
        ensures
            final(self).wf(),
            final(self).subs@.len() == old(self).subs@.len() + 1,
            forall|j: int|
                0 <= j < old(self).subs@.len() ==> final(self).subs@[j] == old(self).subs@[j],
            ({
                let s = final(self).subs@.last();
                &&& s.id == id
                &&& s.user_id == user_id
                &&& s.subscription_type == sub_type
                &&& s.plan_name == plan_name
                &&& s.price_minor == price_minor
                &&& s.status == SubscriptionStatus::PendingPayment
                &&& s.starts_at == now
                &&& s.expires_at == now + SUBSCRIPTION_TERM_MS
                &&& !s.auto_renew
                &&& s.payment_id is None
                &&& s.created_at == now
                &&& s.updated_at == now
            }),
    {
        let sub = Subscription {
            id,
            user_id,
            subscription_type: sub_type,
            plan_name,
            price_minor,
            status: SubscriptionStatus::PendingPayment,
            starts_at: now,
            expires_at: now + SUBSCRIPTION_TERM_MS,
            auto_renew: false,
            payment_id: None,
            created_at: now,
            updated_at: now,
        };
        self.subs.push(sub);
    }

    /// Payment verification.  Recomputes the gateway signature over
    /// `orderId|paymentId` with the shared secret and compares byte for
    /// byte; a mismatch is `400` and nothing changes.  Then the
    /// subscription named by `sub_id` must exist, belong to the caller, be
    /// of the requested type and still await payment, else `404` — a
    /// subscription someone else owns, or one already decided (a replayed
    /// callback), is indistinguishable from a missing one.  On success
    /// that subscription becomes `Active` with the payment id stamped.
    pub fn verify_payment(
        &mut self,
        secret: &[u8],
        user_id: &[u8],
        sub_type: SubscriptionType,
        sub_id: &[u8],
        order_id: &[u8],
        payment_id: &[u8],
        signature: &[u8],
        now: i64,
    ) -> (r: Result<usize, ApiError>)
        requires
            old(self).wf(),
        ensures
            final(self).wf(),
            verify_payment_post(
                old(self).subs@,
                final(self).subs@,
                r,
                secret@,
                user_id@,
                sub_type,
                sub_id@,
                order_id@,
                payment_id@,
                signature@,
                now,
            ),
    {
        if !verify_payment_signature(secret, order_id, payment_id, signature) {
            return Err(ApiError {
                status: STATUS_BAD_REQUEST,
                message: "Invalid payment signature".to_owned(),
            });
        }
        let target = match parse_oid(sub_id) {
            Some(t) => t,
            None => {
                return Err(ApiError {
                    status: STATUS_BAD_REQUEST,
                    message: "Invalid subscription ID".to_owned(),
                });
            },
        };
        let n = self.subs.len();
        let mut idx: usize = 0;
        let mut found = false;
        while idx < n && !found
            invariant
                n == self.subs@.len(),
                idx <= n,
                found ==> idx < n && sub_awaits_payment(
                    self.subs@[idx as int],
                    target@,
                    user_id@,
                    sub_type,
                ),
                !found ==> forall|j: int|
                    0 <= j < idx ==> !sub_awaits_payment(
                        #[trigger] self.subs@[j],
                        target@,
                        user_id@,
                        sub_type,
                    ),
            decreases n - idx + (if found { 0int } else { 1int }),
        {
            let s = &self.subs[idx];
            let id_match = crate::text::bytes_eq(s.id.as_slice(), target.as_slice());
            let user_match = crate::text::bytes_eq(s.user_id.as_slice(), user_id);
            let type_match = matches!(s.subscription_type, SubscriptionType::Worker) == matches!(
                sub_type,
                SubscriptionType::Worker,
            );
            let pending = matches!(s.status, SubscriptionStatus::PendingPayment);
            if id_match && user_match && type_match && pending {
                found = true;
            } else {
                idx = idx + 1;
            }
        }
        if !found {
            return Err(ApiError {
                status: STATUS_NOT_FOUND,
                message: "Subscription not found".to_owned(),
            });
        }
        let mut payment_copy: Vec<u8> = Vec::new();
        append_bytes(&mut payment_copy, payment_id);
        proof {
            assert(payment_copy@ =~= payment_id@);
        }
        let old_sub = self.subs.remove(idx);
        let updated = Subscription {
            id: old_sub.id,
            user_id: old_sub.user_id,
            subscription_type: old_sub.subscription_type,
            plan_name: old_sub.plan_name,
            price_minor: old_sub.price_minor,
            status: SubscriptionStatus::Active,
            starts_at: old_sub.starts_at,
            expires_at: old_sub.expires_at,
            auto_renew: old_sub.auto_renew,
            payment_id: Some(payment_copy),
            created_at: old_sub.created_at,
            updated_at: now,
        };
        self.subs.insert(idx, updated);
        Ok(idx)
    }

    /// The index of the user's active subscription of this type at `now`,
    /// the first if several exist.
    pub fn find_active(&self, user_id: &[u8], sub_type: SubscriptionType, now: i64) -> (r: Option<
        usize,
    >)
        ensures
            r is Some <==> has_active(self.subs@, user_id@, sub_type, now),
            r matches Some(i) ==> 0 <= i < self.subs@.len() && is_active_at(
                self.subs@[i as int],
                user_id@,
                sub_type,
                now,
            ) && (forall|j: int|
                0 <= j < i ==> !is_active_at(#[trigger] self.subs@[j], user_id@, sub_type, now)),
    {
        let n = self.subs.len();
        for i in 0..n
            invariant
                n == self.subs@.len(),
                forall|j: int|
                    0 <= j < i ==> !is_active_at(#[trigger] self.subs@[j], user_id@, sub_type, now),
        {
            let s = &self.subs[i];
            let matches_user = crate::text::bytes_eq(s.user_id.as_slice(), user_id);
            let matches_type = matches!(s.subscription_type, SubscriptionType::Worker) == matches!(
                sub_type,
                SubscriptionType::Worker,
            );
            let active = matches!(s.status, SubscriptionStatus::Active);
            if matches_user && matches_type && active && s.expires_at > now {
                return Some(i);
            }
        }
        None
    }

    /// The subscribed gate: yields the active subscription's index or a
    /// `400` naming the missing entitlement — the caller is identified,
    /// just not entitled.
    pub fn require_active(&self, user_id: &[u8], sub_type: SubscriptionType, now: i64) -> (r:
        Result<usize, ApiError>)
        ensures
            r is Ok <==> has_active(self.subs@, user_id@, sub_type, now),
            r matches Ok(i) ==> 0 <= i < self.subs@.len() && is_active_at(
                self.subs@[i as int],
                user_id@,
                sub_type,
                now,
            ),
            r matches Err(e) ==> e.status == STATUS_BAD_REQUEST,
    {
        match self.find_active(user_id, sub_type, now) {
            Some(i) => Ok(i),
            None => Err(ApiError {
                status: STATUS_BAD_REQUEST,
                message: "Active subscription required".to_owned(),
            }),
        }
    }

    /// Worker-subscription payment verification from the gateway's
    /// callback fields.
    pub fn verify_subscription_payment(
        &mut self,
        secret: &[u8],
        user_id: &[u8],
        dto: &VerifySubscriptionPaymentDto,
        now: i64,
    ) -> (r: Result<usize, ApiError>)
        requires
            old(self).wf(),
        ensures
            final(self).wf(),
            verify_payment_post(
                old(self).subs@,
                final(self).subs@,
                r,
                secret@,
                user_id@,
                SubscriptionType::Worker,
                dto.subscription_id@,
                dto.razorpay_order_id@,
                dto.razorpay_payment_id@,
                dto.razorpay_signature@,
                now,
            ),
    {
        self.verify_payment(
            secret,
            user_id,
            SubscriptionType::Worker,
            dto.subscription_id.as_slice(),
            dto.razorpay_order_id.as_slice(),
            dto.razorpay_payment_id.as_slice(),
            dto.razorpay_signature.as_slice(),
            now,
        )
    }

    /// Job-seeker-subscription payment verification from the gateway's
    /// callback fields.
    pub fn verify_job_seeker_payment(
        &mut self,
        secret: &[u8],
        user_id: &[u8],
        dto: &VerifyJobSeekerPaymentDto,
        now: i64,
    ) -> (r: Result<usize, ApiError>)
        requires
            old(self).wf(),
        ensures
            final(self).wf(),
            verify_payment_post(
                old(self).subs@,
                final(self).subs@,
                r,
                secret@,
                user_id@,
                SubscriptionType::JobSeeker,
                dto.subscription_id@,
                dto.razorpay_order_id@,
                dto.razorpay_payment_id@,
                dto.razorpay_signature@,
                now,
            ),
    {
        self.verify_payment(
            secret,
            user_id,
            SubscriptionType::JobSeeker,
            dto.subscription_id.as_slice(),
            dto.razorpay_order_id.as_slice(),
            dto.razorpay_payment_id.as_slice(),
            dto.razorpay_signature.as_slice(),
            now,
        )
    }

    /// Marks every `Active` subscription whose term has run out at `now`
    /// as `Expired`; everything else is untouched.
    pub fn sweep_expired(&mut self, now: i64)
        requires
            old(self).wf(),
        ensures
            final(self).wf(),
            final(self).subs@.len() == old(self).subs@.len(),
            forall|i: int|
                0 <= i < old(self).subs@.len() ==> ({
                    let s0 = #[trigger] old(self).subs@[i];
                    let s1 = final(self).subs@[i];
                    if s0.status == SubscriptionStatus::Active && s0.expires_at <= now {
                        &&& s1.status == SubscriptionStatus::Expired
                        &&& s1.id == s0.id
                        &&& s1.user_id == s0.user_id
                        &&& s1.subscription_type == s0.subscription_type
                        &&& s1.plan_name == s0.plan_name
                        &&& s1.price_minor == s0.price_minor
                        &&& s1.starts_at == s0.starts_at
                        &&& s1.expires_at == s0.expires_at
                        &&& s1.auto_renew == s0.auto_renew
                        &&& s1.payment_id == s0.payment_id
                        &&& s1.created_at == s0.created_at
                        &&& s1.updated_at == now
                    } else {
                        s1 == s0
                    }
                }),
    {
        let ghost orig = self.subs@;
        let n = self.subs.len();
        for i in 0..n
            invariant
                n == self.subs@.len(),
                n == orig.len(),
                forall|j: int| i <= j < n ==> self.subs@[j] == orig[j],
                forall|j: int|
                    0 <= j < i ==> ({
                        let s0 = #[trigger] orig[j];
                        let s1 = self.subs@[j];
                        if s0.status == SubscriptionStatus::Active && s0.expires_at <= now {
                            &&& s1.status == SubscriptionStatus::Expired
                            &&& s1.id == s0.id
                            &&& s1.user_id == s0.user_id
                            &&& s1.subscription_type == s0.subscription_type
                            &&& s1.plan_name == s0.plan_name
                            &&& s1.price_minor == s0.price_minor
                            &&& s1.starts_at == s0.starts_at
                            &&& s1.expires_at == s0.expires_at
                            &&& s1.auto_renew == s0.auto_renew
                            &&& s1.payment_id == s0.payment_id
                            &&& s1.created_at == s0.created_at
                            &&& s1.updated_at == now
                        } else {
                            s1 == s0
                        }
                    }),
        {
            let expired = matches!(self.subs[i].status, SubscriptionStatus::Active)
                && self.subs[i].expires_at <= now;
            if expired {
                let s = self.subs.remove(i);
                let updated = Subscription {
                    id: s.id,
                    user_id: s.user_id,
                    subscription_type: s.subscription_type,
                    plan_name: s.plan_name,
                    price_minor: s.price_minor,
                    status: SubscriptionStatus::Expired,
                    starts_at: s.starts_at,
                    expires_at: s.expires_at,
                    auto_renew: s.auto_renew,
                    payment_id: s.payment_id,
                    created_at: s.created_at,
                    updated_at: now,
                };
                self.subs.insert(i, updated);
            }
        }
        proof {
            assert forall|k: int| 0 <= k < self.subs@.len() implies self.subs@[k].id@
                == old(self).subs@[k].id@ by {
                assert(orig[k] == old(self).subs@[k]);
            }
        }
    }
}

} // verus!
