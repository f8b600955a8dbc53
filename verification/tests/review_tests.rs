use mento_core::errors::{STATUS_BAD_REQUEST, STATUS_NOT_FOUND, STATUS_UNAUTHORIZED};
use mento_core::reviews::{create_review, delete_review, CreateReviewDto, ReviewBook};
use mento_core::workers::{GeoLocation, WorkerDirectory, WorkerProfile, WorkerSubscriptionPlan};

const RV_WORKER: &[u8] = b"00000000000000000000dd01";
const RV_OWNER: &[u8] = b"00000000000000000000dd02";
const RV_USER1: &[u8] = b"00000000000000000000ee01";
const RV_USER2: &[u8] = b"00000000000000000000ee02";
const RV_USER3: &[u8] = b"00000000000000000000ee03";

fn reviewed_worker_profile() -> WorkerProfile {
    WorkerProfile {
        id: RV_WORKER.to_vec(),
        user_id: RV_OWNER.to_vec(),
        categories: Vec::new(),
        subcategories: Vec::new(),
        experience_years: None,
        description: None,
        hourly_rate_minor: None,
        license_number: None,
        service_areas: Vec::new(),
        subscription_plan: WorkerSubscriptionPlan::Free,
        subscription_expires_at: None,
        is_verified: true,
        is_available: true,
        rating_hundredths: 0,
        total_reviews: 0,
        total_jobs_completed: 0,
        created_at: 0,
        updated_at: 0,
        location: GeoLocation { longitude_udeg: 0, latitude_udeg: 0 },
    }
}

fn review_dto(rating: i32) -> CreateReviewDto {
    CreateReviewDto { worker_id: RV_WORKER.to_vec(), rating, comment: None }
}

fn review_id(n: u8) -> Vec<u8> {
    let mut id = b"00000000000000000000ff0".to_vec();
    id.push(b'0' + n);
    id
}

#[test]
fn rating_aggregation_follows_creates_and_deletes() {
    let mut workers = WorkerDirectory { profiles: vec![reviewed_worker_profile()] };
    let mut book = ReviewBook::new();
    let now: i64 = 1000;

    create_review(&mut book, &mut workers, review_id(1), RV_USER1, review_dto(5), now).unwrap();
    create_review(&mut book, &mut workers, review_id(2), RV_USER2, review_dto(3), now).unwrap();
    create_review(&mut book, &mut workers, review_id(3), RV_USER3, review_dto(4), now).unwrap();

    // [5, 3, 4] -> average 4.0 over 3 reviews
    assert_eq!(workers.profiles[0].rating_hundredths, 400);
    assert_eq!(workers.profiles[0].total_reviews, 3);

    // deleting the rating-3 review leaves [5, 4] -> average 4.5 over 2
    delete_review(&mut book, &mut workers, RV_USER2, &review_id(2), now).unwrap();
    assert_eq!(workers.profiles[0].rating_hundredths, 450);
    assert_eq!(workers.profiles[0].total_reviews, 2);

    // deleting everything resets the aggregate to zero
    delete_review(&mut book, &mut workers, RV_USER1, &review_id(1), now).unwrap();
    delete_review(&mut book, &mut workers, RV_USER3, &review_id(3), now).unwrap();
    assert_eq!(workers.profiles[0].rating_hundredths, 0);
    assert_eq!(workers.profiles[0].total_reviews, 0);
}

#[test]
fn rating_outside_range_is_rejected() {
    let mut workers = WorkerDirectory { profiles: vec![reviewed_worker_profile()] };
    let mut book = ReviewBook::new();
    let err = create_review(&mut book, &mut workers, review_id(1), RV_USER1, review_dto(0), 0)
        .unwrap_err();
    assert_eq!(err.status, STATUS_BAD_REQUEST);
    let err = create_review(&mut book, &mut workers, review_id(1), RV_USER1, review_dto(6), 0)
        .unwrap_err();
    assert_eq!(err.status, STATUS_BAD_REQUEST);
    assert_eq!(book.reviews.len(), 0);
}

#[test]
fn reviewing_an_unknown_worker_is_not_found() {
    let mut workers = WorkerDirectory { profiles: Vec::new() };
    let mut book = ReviewBook::new();
    let err = create_review(&mut book, &mut workers, review_id(1), RV_USER1, review_dto(4), 0)
        .unwrap_err();
    assert_eq!(err.status, STATUS_NOT_FOUND);
}

#[test]
fn a_malformed_worker_id_is_rejected() {
    let mut workers = WorkerDirectory { profiles: vec![reviewed_worker_profile()] };
    let mut book = ReviewBook::new();
    let dto = CreateReviewDto { worker_id: b"not-an-id".to_vec(), rating: 4, comment: None };
    let err = create_review(&mut book, &mut workers, review_id(1), RV_USER1, dto, 0).unwrap_err();
    assert_eq!(err.status, STATUS_BAD_REQUEST);
}

#[test]
fn a_second_review_by_the_same_user_is_rejected() {
    let mut workers = WorkerDirectory { profiles: vec![reviewed_worker_profile()] };
    let mut book = ReviewBook::new();
    create_review(&mut book, &mut workers, review_id(1), RV_USER1, review_dto(5), 0).unwrap();
    let err = create_review(&mut book, &mut workers, review_id(2), RV_USER1, review_dto(1), 0)
        .unwrap_err();
    assert_eq!(err.status, STATUS_BAD_REQUEST);
    assert_eq!(book.reviews.len(), 1);
}

#[test]
fn only_the_author_may_delete_a_review() {
    let mut workers = WorkerDirectory { profiles: vec![reviewed_worker_profile()] };
    let mut book = ReviewBook::new();
    create_review(&mut book, &mut workers, review_id(1), RV_USER1, review_dto(5), 0).unwrap();
    let err = delete_review(&mut book, &mut workers, RV_USER2, &review_id(1), 0).unwrap_err();
    assert_eq!(err.status, STATUS_UNAUTHORIZED);
    assert_eq!(book.reviews.len(), 1);
}

#[test]
fn deleting_an_unknown_review_is_not_found() {
    let mut workers = WorkerDirectory { profiles: vec![reviewed_worker_profile()] };
    let mut book = ReviewBook::new();
    let err = delete_review(&mut book, &mut workers, RV_USER1, &review_id(7), 0).unwrap_err();
    assert_eq!(err.status, STATUS_NOT_FOUND);
}
