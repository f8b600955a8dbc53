use mento_core::errors::STATUS_BAD_REQUEST;
use mento_core::jobseekers::{JobSeekerDirectory, JobSeekerProfile, JobSeekerSubscriptionPlan, UpdateJobSeekerVerificationDto};
use mento_core::kyc::{list_kyc_submissions, DocumentType, Kyc, KycListQuery, KycStatusEnum};
use mento_core::reviews::{list_worker_reviews, Review, WorkerReviewsQuery};
use mento_core::workers::{GeoLocation, UpdateWorkerVerificationDto, WorkerDirectory, WorkerProfile, WorkerSubscriptionPlan};

const LS_WORKER_A: &[u8] = b"000000000000000000002101";
const LS_WORKER_B: &[u8] = b"000000000000000000002102";

fn listed_review(tag: u8, worker: &[u8], created_at: i64) -> Review {
    let mut id = b"000000000000000000002a0".to_vec();
    id.push(b'0' + tag);
    let mut user = b"000000000000000000002b0".to_vec();
    user.push(b'0' + tag);
    Review {
        id,
        worker_id: worker.to_vec(),
        user_id: user,
        rating: 5,
        comment: None,
        helpful_count: 0,
        created_at,
        updated_at: created_at,
    }
}

#[test]
fn worker_reviews_come_newest_first() {
    let reviews = vec![
        listed_review(1, LS_WORKER_A, 100),
        listed_review(2, LS_WORKER_B, 500),
        listed_review(3, LS_WORKER_A, 300),
        listed_review(4, LS_WORKER_A, 200),
    ];
    let query = WorkerReviewsQuery { page: None, limit: None };
    let (page, total) = list_worker_reviews(reviews, LS_WORKER_A, &query).unwrap();
    assert_eq!(total, 3);
    let stamps: Vec<i64> = page.iter().map(|r| r.created_at).collect();
    assert_eq!(stamps, vec![300, 200, 100]);
}

#[test]
fn worker_reviews_reject_a_malformed_id() {
    let query = WorkerReviewsQuery { page: None, limit: None };
    let err = match list_worker_reviews(Vec::new(), b"xyz", &query) {
        Err(e) => e,
        Ok(_) => panic!("a malformed id must be rejected"),
    };
    assert_eq!(err.status, STATUS_BAD_REQUEST);
}

fn listed_kyc(tag: u8, status: KycStatusEnum, created_at: i64) -> Kyc {
    let mut id = b"000000000000000000002c0".to_vec();
    id.push(b'0' + tag);
    let mut user = b"000000000000000000002d0".to_vec();
    user.push(b'0' + tag);
    Kyc {
        id,
        user_id: user,
        full_name: "Name".to_string(),
        date_of_birth: 0,
        address: "A".to_string(),
        city: "B".to_string(),
        state: "C".to_string(),
        pincode: b"395007".to_vec(),
        document_type: DocumentType::Pan,
        document_number: "N".to_string(),
        document_front_image: "f".to_string(),
        document_back_image: None,
        selfie_image: "s".to_string(),
        status,
        rejection_reason: None,
        verified_by: None,
        verified_at: None,
        created_at,
        updated_at: created_at,
    }
}

#[test]
fn kyc_queue_filters_by_status_and_sorts_by_recency() {
    let kycs = vec![
        listed_kyc(1, KycStatusEnum::Submitted, 10),
        listed_kyc(2, KycStatusEnum::Approved, 20),
        listed_kyc(3, KycStatusEnum::Submitted, 30),
    ];
    let query = KycListQuery { status: Some(b"submitted".to_vec()), page: None, limit: None };
    let (page, total) = list_kyc_submissions(kycs, &query);
    assert_eq!(total, 2);
    assert_eq!(page[0].created_at, 30);
    assert_eq!(page[1].created_at, 10);
}

#[test]
fn kyc_queue_with_an_unknown_status_matches_nothing() {
    let kycs = vec![listed_kyc(1, KycStatusEnum::Submitted, 10)];
    let query = KycListQuery { status: Some(b"weird".to_vec()), page: None, limit: None };
    let (page, total) = list_kyc_submissions(kycs, &query);
    assert_eq!(total, 0);
    assert!(page.is_empty());
}

#[test]
fn kyc_queue_without_a_filter_lists_everything() {
    let kycs = vec![
        listed_kyc(1, KycStatusEnum::Submitted, 10),
        listed_kyc(2, KycStatusEnum::Rejected, 20),
    ];
    let query = KycListQuery { status: None, page: None, limit: None };
    let (_, total) = list_kyc_submissions(kycs, &query);
    assert_eq!(total, 2);
}

fn verifiable_worker() -> WorkerProfile {
    WorkerProfile {
        id: LS_WORKER_A.to_vec(),
        user_id: b"000000000000000000002e01".to_vec(),
        categories: Vec::new(),
        subcategories: Vec::new(),
        experience_years: None,
        description: None,
        hourly_rate_minor: None,
        license_number: None,
        service_areas: Vec::new(),
        subscription_plan: WorkerSubscriptionPlan::Free,
        subscription_expires_at: None,
        is_verified: false,
        is_available: true,
        rating_hundredths: 0,
        total_reviews: 0,
        total_jobs_completed: 0,
        created_at: 0,
        updated_at: 0,
        location: GeoLocation { longitude_udeg: 0, latitude_udeg: 0 },
    }
}

#[test]
fn admin_toggles_worker_verification() {
    let mut dir = WorkerDirectory { profiles: vec![verifiable_worker()] };
    let dto = UpdateWorkerVerificationDto { is_verified: true };
    dir.set_worker_verification(LS_WORKER_A, &dto, 77).unwrap();
    assert!(dir.profiles[0].is_verified);
    assert_eq!(dir.profiles[0].updated_at, 77);

    // an unknown id still succeeds, matching the store's blind update
    dir.set_worker_verification(LS_WORKER_B, &dto, 78).unwrap();
    let err = dir.set_worker_verification(b"nope", &dto, 79).unwrap_err();
    assert_eq!(err.status, STATUS_BAD_REQUEST);
}

#[test]
fn admin_toggles_job_seeker_verification() {
    let profile = JobSeekerProfile {
        id: LS_WORKER_A.to_vec(),
        user_id: b"000000000000000000002e02".to_vec(),
        full_name: "N".to_string(),
        headline: None,
        bio: None,
        skills: vec!["s".to_string()],
        experience_years: None,
        education: Vec::new(),
        work_experience: Vec::new(),
        preferred_categories: Vec::new(),
        preferred_job_types: Vec::new(),
        preferred_locations: Vec::new(),
        expected_salary_min_minor: None,
        expected_salary_max_minor: None,
        willing_to_relocate: false,
        resume_url: None,
        portfolio_url: None,
        linkedin_url: None,
        subscription_plan: JobSeekerSubscriptionPlan::Basic,
        subscription_expires_at: None,
        is_verified: false,
        is_available: true,
        profile_views: 0,
        applications_count: 0,
        created_at: 0,
        updated_at: 0,
    };
    let mut dir = JobSeekerDirectory { profiles: vec![profile] };
    let dto = UpdateJobSeekerVerificationDto { is_verified: true, rejection_reason: None };
    dir.set_seeker_verification(LS_WORKER_A, &dto, 80).unwrap();
    assert!(dir.profiles[0].is_verified);
}
