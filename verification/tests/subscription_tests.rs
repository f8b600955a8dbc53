use hmac::Mac;
use mento_core::errors::{STATUS_BAD_REQUEST, STATUS_NOT_FOUND};
use mento_core::subscription::{
    resolve_plan,
    SubscriptionBook,
    SubscriptionStatus,
    SubscriptionType,
    VerifySubscriptionPaymentDto,
    SUBSCRIPTION_TERM_MS,
};

const SUB_USER: &[u8] = b"0000000000000000000000aa";
const SUB_OTHER_USER: &[u8] = b"0000000000000000000000bb";
const SUB_ID: &[u8] = b"00000000000000000000cc01";

fn hex_signature(secret: &[u8], order_id: &[u8], payment_id: &[u8]) -> Vec<u8> {
    let mut mac = hmac::Hmac::<sha2::Sha256>::new_from_slice(secret).unwrap();
    mac.update(order_id);
    mac.update(b"|");
    mac.update(payment_id);
    hex::encode(mac.finalize().into_bytes()).into_bytes()
}

#[test]
fn plan_prices_resolve_case_insensitively() {
    let (name, price) = resolve_plan(SubscriptionType::Worker, b"Silver").unwrap();
    assert_eq!(name, b"silver".to_vec());
    assert_eq!(price, 100);
    assert_eq!(resolve_plan(SubscriptionType::Worker, b"GOLD").unwrap().1, 200);
    assert!(resolve_plan(SubscriptionType::Worker, b"platinum").is_none());
    assert!(resolve_plan(SubscriptionType::Worker, b"basic").is_none());
    assert_eq!(resolve_plan(SubscriptionType::JobSeeker, b"basic").unwrap().1, 50);
    assert_eq!(resolve_plan(SubscriptionType::JobSeeker, b"Premium").unwrap().1, 150);
    assert!(resolve_plan(SubscriptionType::JobSeeker, b"silver").is_none());
}

#[test]
fn create_verify_and_block_second_active() {
    let secret = b"gateway-secret";
    let mut book = SubscriptionBook::new();
    let now: i64 = 1_700_000_000_000;

    let (plan, price) = book
        .prepare_subscription(SUB_USER, SubscriptionType::Worker, b"silver", now)
        .expect("first subscription must be allowed");
    assert_eq!(price, 100);
    book.record_pending(SUB_ID.to_vec(), SUB_USER.to_vec(), SubscriptionType::Worker, plan, price, now);
    assert_eq!(book.subs[0].expires_at, now + SUBSCRIPTION_TERM_MS);
    assert!(matches!(book.subs[0].status, SubscriptionStatus::PendingPayment));

    // a pending subscription is not an active one
    assert!(book.find_active(SUB_USER, SubscriptionType::Worker, now).is_none());

    let dto = VerifySubscriptionPaymentDto {
        subscription_id: SUB_ID.to_vec(),
        razorpay_order_id: b"order_1".to_vec(),
        razorpay_payment_id: b"pay_1".to_vec(),
        razorpay_signature: hex_signature(secret, b"order_1", b"pay_1"),
    };
    let idx = book
        .verify_subscription_payment(secret, SUB_USER, &dto, now + 60_000)
        .expect("payment must verify");
    assert!(matches!(book.subs[idx].status, SubscriptionStatus::Active));
    assert_eq!(book.subs[idx].payment_id, Some(b"pay_1".to_vec()));
    assert_eq!(book.subs[idx].updated_at, now + 60_000);

    // the user now holds an active subscription
    assert!(book.find_active(SUB_USER, SubscriptionType::Worker, now + 60_000).is_some());

    // a second subscription of the same type is refused
    let err = book
        .prepare_subscription(SUB_USER, SubscriptionType::Worker, b"gold", now + 60_000)
        .unwrap_err();
    assert_eq!(err.status, STATUS_BAD_REQUEST);

    // but a different type is fine
    assert!(book
        .prepare_subscription(SUB_USER, SubscriptionType::JobSeeker, b"basic", now + 60_000)
        .is_ok());
}

#[test]
fn verify_with_anothers_subscription_is_not_found() {
    let secret = b"gateway-secret";
    let mut book = SubscriptionBook::new();
    let now: i64 = 1_700_000_000_000;
    let (plan, price) = book
        .prepare_subscription(SUB_USER, SubscriptionType::Worker, b"silver", now)
        .unwrap();
    book.record_pending(SUB_ID.to_vec(), SUB_USER.to_vec(), SubscriptionType::Worker, plan, price, now);

    let dto = VerifySubscriptionPaymentDto {
        subscription_id: SUB_ID.to_vec(),
        razorpay_order_id: b"order_1".to_vec(),
        razorpay_payment_id: b"pay_1".to_vec(),
        razorpay_signature: hex_signature(secret, b"order_1", b"pay_1"),
    };
    // a valid signature, but the caller does not own the subscription
    let err = book.verify_subscription_payment(secret, SUB_OTHER_USER, &dto, now).unwrap_err();
    assert_eq!(err.status, STATUS_NOT_FOUND);
    assert!(matches!(book.subs[0].status, SubscriptionStatus::PendingPayment));
}

#[test]
fn verify_with_a_bad_signature_is_rejected() {
    let secret = b"gateway-secret";
    let mut book = SubscriptionBook::new();
    let now: i64 = 1_700_000_000_000;
    let (plan, price) = book
        .prepare_subscription(SUB_USER, SubscriptionType::Worker, b"silver", now)
        .unwrap();
    book.record_pending(SUB_ID.to_vec(), SUB_USER.to_vec(), SubscriptionType::Worker, plan, price, now);

    let dto = VerifySubscriptionPaymentDto {
        subscription_id: SUB_ID.to_vec(),
        razorpay_order_id: b"order_1".to_vec(),
        razorpay_payment_id: b"pay_1".to_vec(),
        razorpay_signature: hex_signature(b"wrong-secret", b"order_1", b"pay_1"),
    };
    let err = book.verify_subscription_payment(secret, SUB_USER, &dto, now).unwrap_err();
    assert_eq!(err.status, STATUS_BAD_REQUEST);
    assert!(matches!(book.subs[0].status, SubscriptionStatus::PendingPayment));
}

#[test]
fn invalid_plan_is_rejected() {
    let book = SubscriptionBook::new();
    let err = book
        .prepare_subscription(SUB_USER, SubscriptionType::Worker, b"diamond", 0)
        .unwrap_err();
    assert_eq!(err.status, STATUS_BAD_REQUEST);
}

#[test]
fn sweep_marks_run_out_subscriptions_expired() {
    let secret = b"gateway-secret";
    let mut book = SubscriptionBook::new();
    let now: i64 = 1_700_000_000_000;
    let (plan, price) = book
        .prepare_subscription(SUB_USER, SubscriptionType::Worker, b"silver", now)
        .unwrap();
    book.record_pending(SUB_ID.to_vec(), SUB_USER.to_vec(), SubscriptionType::Worker, plan, price, now);
    let dto = VerifySubscriptionPaymentDto {
        subscription_id: SUB_ID.to_vec(),
        razorpay_order_id: b"order_1".to_vec(),
        razorpay_payment_id: b"pay_1".to_vec(),
        razorpay_signature: hex_signature(secret, b"order_1", b"pay_1"),
    };
    book.verify_subscription_payment(secret, SUB_USER, &dto, now).unwrap();

    let after_term = now + SUBSCRIPTION_TERM_MS;
    // at read time an expired Active subscription no longer counts
    assert!(book.find_active(SUB_USER, SubscriptionType::Worker, after_term).is_none());
    book.sweep_expired(after_term);
    assert!(matches!(book.subs[0].status, SubscriptionStatus::Expired));
}

#[test]
fn a_replayed_payment_callback_is_not_found() {
    let secret = b"gateway-secret";
    let mut book = SubscriptionBook::new();
    let now: i64 = 1_700_000_000_000;
    let (plan, price) = book
        .prepare_subscription(SUB_USER, SubscriptionType::Worker, b"silver", now)
        .unwrap();
    book.record_pending(SUB_ID.to_vec(), SUB_USER.to_vec(), SubscriptionType::Worker, plan, price, now);
    let dto = VerifySubscriptionPaymentDto {
        subscription_id: SUB_ID.to_vec(),
        razorpay_order_id: b"order_1".to_vec(),
        razorpay_payment_id: b"pay_1".to_vec(),
        razorpay_signature: hex_signature(secret, b"order_1", b"pay_1"),
    };
    book.verify_subscription_payment(secret, SUB_USER, &dto, now).unwrap();
    assert!(matches!(book.subs[0].status, SubscriptionStatus::Active));

    // the lifecycle has no edge back to Active: replaying the same valid
    // callback finds no subscription awaiting payment
    let err = book.verify_subscription_payment(secret, SUB_USER, &dto, now + 1).unwrap_err();
    assert_eq!(err.status, STATUS_NOT_FOUND);
    assert_eq!(book.subs[0].updated_at, now);
}
