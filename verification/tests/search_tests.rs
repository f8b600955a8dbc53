use mento_core::jobseekers::{search_job_seekers, JobSeekerDirectory, JobSeekerProfile, JobSeekerSubscriptionPlan, SearchJobSeekersQuery};
use mento_core::workers::{
    find_nearby_workers,
    search_workers,
    GeoLocation,
    NearbyCandidate,
    SearchWorkersQuery,
    WorkerProfile,
    WorkerSubscriptionPlan,
};

fn search_worker(tag: u8, plan: WorkerSubscriptionPlan, rating: u32, reviews: u32) -> WorkerProfile {
    let mut id = b"000000000000000000000a0".to_vec();
    id.push(b'0' + tag);
    let mut uid = b"000000000000000000000b0".to_vec();
    uid.push(b'0' + tag);
    WorkerProfile {
        id,
        user_id: uid,
        categories: vec!["plumbing".to_string()],
        subcategories: vec!["repair".to_string()],
        experience_years: None,
        description: None,
        hourly_rate_minor: None,
        license_number: None,
        service_areas: Vec::new(),
        subscription_plan: plan,
        subscription_expires_at: None,
        is_verified: true,
        is_available: true,
        rating_hundredths: rating,
        total_reviews: reviews,
        total_jobs_completed: 0,
        created_at: 0,
        updated_at: 0,
        location: GeoLocation { longitude_udeg: 72_831_100, latitude_udeg: 21_170_200 },
    }
}

fn candidate(tag: u8, distance_m: u64, plan: WorkerSubscriptionPlan, rating: u32) -> NearbyCandidate {
    NearbyCandidate { profile: search_worker(tag, plan, rating, 0), distance_m }
}

#[test]
fn nearby_orders_by_distance_then_tier_then_rating() {
    let candidates = vec![
        candidate(1, 5000, WorkerSubscriptionPlan::Gold, 500),
        candidate(2, 100, WorkerSubscriptionPlan::Free, 100),
        candidate(3, 100, WorkerSubscriptionPlan::Gold, 300),
        candidate(4, 100, WorkerSubscriptionPlan::Gold, 450),
        candidate(5, 100, WorkerSubscriptionPlan::Silver, 500),
    ];
    let (page, total) = find_nearby_workers(candidates, None, None, None, None);
    assert_eq!(total, 5);
    let tags: Vec<u8> = page.iter().map(|c| *c.profile.id.last().unwrap() - b'0').collect();
    // same distance: gold 4.5 before gold 3.0 before silver before free; then the far gold
    assert_eq!(tags, vec![4, 3, 5, 2, 1]);
}

#[test]
fn nearby_excludes_far_unverified_and_unavailable_workers() {
    let mut far = candidate(1, 10_001, WorkerSubscriptionPlan::Gold, 500);
    far.distance_m = 10_001;
    let mut unverified = candidate(2, 50, WorkerSubscriptionPlan::Gold, 500);
    unverified.profile.is_verified = false;
    let mut unavailable = candidate(3, 50, WorkerSubscriptionPlan::Gold, 500);
    unavailable.profile.is_available = false;
    let good = candidate(4, 9_999, WorkerSubscriptionPlan::Free, 0);
    let (page, total) = find_nearby_workers(vec![far, unverified, unavailable, good], None, None, None, None);
    assert_eq!(total, 1);
    assert_eq!(page.len(), 1);
    assert_eq!(*page[0].profile.id.last().unwrap(), b'4');
}

#[test]
fn nearby_filters_by_category() {
    let mut electrician = candidate(1, 100, WorkerSubscriptionPlan::Free, 0);
    electrician.profile.categories = vec!["electrical".to_string()];
    let plumber = candidate(2, 200, WorkerSubscriptionPlan::Free, 0);
    let category = Some("plumbing".to_string());
    let (page, total) = find_nearby_workers(
        vec![electrician, plumber],
        category.as_ref(),
        None,
        None,
        None,
    );
    assert_eq!(total, 1);
    assert_eq!(*page[0].profile.id.last().unwrap(), b'2');
}

#[test]
fn nearby_paginates_after_sorting() {
    let candidates: Vec<NearbyCandidate> = (1..=5)
        .map(|i| candidate(i, 100 * i as u64, WorkerSubscriptionPlan::Free, 0))
        .collect();
    let (page2, total) = find_nearby_workers(candidates, None, None, Some(2), Some(2));
    assert_eq!(total, 5);
    let tags: Vec<u8> = page2.iter().map(|c| *c.profile.id.last().unwrap() - b'0').collect();
    assert_eq!(tags, vec![3, 4]);
}

#[test]
fn worker_search_orders_by_tier_rating_and_reviews() {
    let profiles = vec![
        search_worker(1, WorkerSubscriptionPlan::Free, 500, 90),
        search_worker(2, WorkerSubscriptionPlan::Gold, 300, 5),
        search_worker(3, WorkerSubscriptionPlan::Gold, 450, 2),
        search_worker(4, WorkerSubscriptionPlan::Silver, 500, 1),
        search_worker(5, WorkerSubscriptionPlan::Gold, 450, 9),
    ];
    let query = SearchWorkersQuery {
        category: None,
        subcategory: None,
        city: None,
        min_rating_hundredths: None,
        page: None,
        limit: None,
    };
    let (page, total) = search_workers(profiles, &query);
    assert_eq!(total, 5);
    let tags: Vec<u8> = page.iter().map(|p| *p.id.last().unwrap() - b'0').collect();
    assert_eq!(tags, vec![5, 3, 2, 4, 1]);
}

#[test]
fn worker_search_applies_the_rating_floor() {
    let profiles = vec![
        search_worker(1, WorkerSubscriptionPlan::Free, 390, 1),
        search_worker(2, WorkerSubscriptionPlan::Free, 400, 1),
    ];
    let query = SearchWorkersQuery {
        category: None,
        subcategory: None,
        city: None,
        min_rating_hundredths: Some(400),
        page: None,
        limit: None,
    };
    let (page, total) = search_workers(profiles, &query);
    assert_eq!(total, 1);
    assert_eq!(*page[0].id.last().unwrap(), b'2');
}

fn seeker(tag: u8, plan: JobSeekerSubscriptionPlan, views: u32, created_at: i64) -> JobSeekerProfile {
    let mut id = b"000000000000000000000c0".to_vec();
    id.push(b'0' + tag);
    let mut uid = b"000000000000000000000d0".to_vec();
    uid.push(b'0' + tag);
    JobSeekerProfile {
        id,
        user_id: uid,
        full_name: "Worker".to_string(),
        headline: None,
        bio: None,
        skills: vec!["welding".to_string()],
        experience_years: Some(4),
        education: Vec::new(),
        work_experience: Vec::new(),
        preferred_categories: vec!["manufacturing".to_string()],
        preferred_job_types: vec!["fulltime".to_string()],
        preferred_locations: vec!["Surat".to_string()],
        expected_salary_min_minor: None,
        expected_salary_max_minor: None,
        willing_to_relocate: false,
        resume_url: None,
        portfolio_url: None,
        linkedin_url: None,
        subscription_plan: plan,
        subscription_expires_at: None,
        is_verified: true,
        is_available: true,
        profile_views: views,
        applications_count: 0,
        created_at,
        updated_at: created_at,
    }
}

fn empty_seeker_query() -> SearchJobSeekersQuery {
    SearchJobSeekersQuery {
        skills: None,
        category: None,
        job_type: None,
        location: None,
        min_experience: None,
        max_experience: None,
        page: None,
        limit: None,
    }
}

#[test]
fn seeker_search_orders_by_tier_views_and_recency() {
    let profiles = vec![
        seeker(1, JobSeekerSubscriptionPlan::Free, 900, 10),
        seeker(2, JobSeekerSubscriptionPlan::Premium, 5, 10),
        seeker(3, JobSeekerSubscriptionPlan::Premium, 50, 10),
        seeker(4, JobSeekerSubscriptionPlan::Basic, 999, 10),
        seeker(5, JobSeekerSubscriptionPlan::Premium, 50, 99),
    ];
    let (page, total) = search_job_seekers(profiles, &empty_seeker_query());
    assert_eq!(total, 5);
    let tags: Vec<u8> = page.iter().map(|p| *p.id.last().unwrap() - b'0').collect();
    // premium first (more views first, newer first on ties), then basic, then free
    assert_eq!(tags, vec![5, 3, 2, 4, 1]);
}

#[test]
fn seeker_search_matches_any_requested_skill() {
    let mut fitter = seeker(1, JobSeekerSubscriptionPlan::Free, 0, 0);
    fitter.skills = vec!["fitting".to_string()];
    let welder = seeker(2, JobSeekerSubscriptionPlan::Free, 0, 0);
    let mut query = empty_seeker_query();
    query.skills = Some(vec!["welding".to_string(), "turning".to_string()]);
    let (page, total) = search_job_seekers(vec![fitter, welder], &query);
    assert_eq!(total, 1);
    assert_eq!(*page[0].id.last().unwrap(), b'2');
}

#[test]
fn seeker_search_applies_experience_bounds() {
    let mut junior = seeker(1, JobSeekerSubscriptionPlan::Free, 0, 0);
    junior.experience_years = Some(1);
    let mid = seeker(2, JobSeekerSubscriptionPlan::Free, 0, 0);
    let mut veteran = seeker(3, JobSeekerSubscriptionPlan::Free, 0, 0);
    veteran.experience_years = Some(20);
    let mut query = empty_seeker_query();
    query.min_experience = Some(2);
    query.max_experience = Some(10);
    let (page, total) = search_job_seekers(vec![junior, mid, veteran], &query);
    assert_eq!(total, 1);
    assert_eq!(*page[0].id.last().unwrap(), b'2');
}

#[test]
fn jobseeker_directory_records_views() {
    let mut dir = JobSeekerDirectory { profiles: vec![seeker(1, JobSeekerSubscriptionPlan::Free, 7, 0)] };
    dir.record_view(0);
    assert_eq!(dir.profiles[0].profile_views, 8);
}
