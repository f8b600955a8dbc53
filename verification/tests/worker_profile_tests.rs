use mento_core::errors::{STATUS_BAD_REQUEST, STATUS_NOT_FOUND};
use mento_core::subscription::{Subscription, SubscriptionBook, SubscriptionStatus, SubscriptionType};
use mento_core::workers::{
    CreateWorkerProfileDto,
    UpdateLocationDto,
    UpdateWorkerProfileDto,
    WorkerDirectory,
    WorkerSubscriptionPlan,
};

const WP_USER: &[u8] = b"000000000000000000001101";
const WP_PROFILE: &[u8] = b"000000000000000000001201";
const WP_SUB: &[u8] = b"000000000000000000001301";

fn active_worker_subscription(plan: &[u8], now: i64) -> Subscription {
    Subscription {
        id: WP_SUB.to_vec(),
        user_id: WP_USER.to_vec(),
        subscription_type: SubscriptionType::Worker,
        plan_name: plan.to_vec(),
        price_minor: 200,
        status: SubscriptionStatus::Active,
        starts_at: now,
        expires_at: now + 1_000_000,
        auto_renew: false,
        payment_id: Some(b"pay_9".to_vec()),
        created_at: now,
        updated_at: now,
    }
}

fn worker_dto() -> CreateWorkerProfileDto {
    CreateWorkerProfileDto {
        categories: vec!["plumbing".to_string()],
        subcategories: vec!["repair".to_string()],
        experience_years: Some(3),
        description: None,
        hourly_rate_minor: Some(25_000),
        license_number: None,
        longitude_udeg: Some(72_800_000),
        latitude_udeg: Some(21_100_000),
        service_areas: vec!["Surat".to_string()],
    }
}

#[test]
fn creating_a_profile_requires_an_active_subscription() {
    let now: i64 = 1000;
    let subs = SubscriptionBook::new();
    let mut dir = WorkerDirectory::new();
    let err = dir
        .create_profile(&subs, WP_PROFILE.to_vec(), WP_USER.to_vec(), worker_dto(), now)
        .unwrap_err();
    assert_eq!(err.status, STATUS_BAD_REQUEST);
    assert!(dir.profiles.is_empty());
}

#[test]
fn the_subscription_plan_sets_the_tier() {
    let now: i64 = 1000;
    let subs = SubscriptionBook { subs: vec![active_worker_subscription(b"gold", now)] };
    let mut dir = WorkerDirectory::new();
    let idx = dir
        .create_profile(&subs, WP_PROFILE.to_vec(), WP_USER.to_vec(), worker_dto(), now)
        .unwrap();
    let p = &dir.profiles[idx];
    assert!(matches!(p.subscription_plan, WorkerSubscriptionPlan::Gold));
    assert!(!p.is_verified);
    assert!(p.is_available);
    assert_eq!(p.rating_hundredths, 0);
    assert_eq!(p.location.longitude_udeg, 72_800_000);

    // a second profile for the same user is refused
    let err = dir
        .create_profile(&subs, b"000000000000000000001202".to_vec(), WP_USER.to_vec(), worker_dto(), now)
        .unwrap_err();
    assert_eq!(err.status, STATUS_BAD_REQUEST);
}

#[test]
fn profile_updates_replace_only_the_given_fields() {
    let now: i64 = 1000;
    let subs = SubscriptionBook { subs: vec![active_worker_subscription(b"silver", now)] };
    let mut dir = WorkerDirectory::new();
    dir.create_profile(&subs, WP_PROFILE.to_vec(), WP_USER.to_vec(), worker_dto(), now).unwrap();

    let dto = UpdateWorkerProfileDto {
        categories: None,
        subcategories: None,
        experience_years: Some(7),
        description: Some("emergency plumbing".to_string()),
        hourly_rate_minor: None,
        service_areas: None,
        is_available: Some(false),
    };
    dir.update_profile(WP_USER, dto, now + 10).unwrap();
    let p = &dir.profiles[0];
    assert_eq!(p.experience_years, Some(7));
    assert_eq!(p.description, Some("emergency plumbing".to_string()));
    assert_eq!(p.hourly_rate_minor, Some(25_000));
    assert!(!p.is_available);
    assert_eq!(p.updated_at, now + 10);

    let dto = UpdateWorkerProfileDto {
        categories: None,
        subcategories: None,
        experience_years: None,
        description: None,
        hourly_rate_minor: None,
        service_areas: None,
        is_available: None,
    };
    let err = dir.update_profile(b"000000000000000000009999", dto, now).unwrap_err();
    assert_eq!(err.status, STATUS_NOT_FOUND);
}

#[test]
fn location_updates_are_validated() {
    let now: i64 = 1000;
    let subs = SubscriptionBook { subs: vec![active_worker_subscription(b"silver", now)] };
    let mut dir = WorkerDirectory::new();
    dir.create_profile(&subs, WP_PROFILE.to_vec(), WP_USER.to_vec(), worker_dto(), now).unwrap();

    let bad_lat = UpdateLocationDto { latitude_udeg: 91_000_000, longitude_udeg: 0 };
    assert_eq!(dir.update_location(WP_USER, bad_lat, now).unwrap_err().status, STATUS_BAD_REQUEST);
    let bad_lon = UpdateLocationDto { latitude_udeg: 0, longitude_udeg: -180_000_001 };
    assert_eq!(dir.update_location(WP_USER, bad_lon, now).unwrap_err().status, STATUS_BAD_REQUEST);

    let good = UpdateLocationDto { latitude_udeg: 19_076_000, longitude_udeg: 72_877_000 };
    dir.update_location(WP_USER, good, now + 5).unwrap();
    assert_eq!(dir.profiles[0].location.latitude_udeg, 19_076_000);
    assert_eq!(dir.profiles[0].location.longitude_udeg, 72_877_000);

    let other = UpdateLocationDto { latitude_udeg: 0, longitude_udeg: 0 };
    assert_eq!(
        dir.update_location(b"000000000000000000009999", other, now).unwrap_err().status,
        STATUS_NOT_FOUND
    );
}
