//! Worker profiles: creation gated on KYC and an active subscription,
//! profile updates, geo-located availability, and the two search paths —
//! plain search and geo-proximity search with tiered ranking.
//!
//! Coordinates are micro-degrees (degree × 10⁶) so that validation and
//! comparison are exact; the store computes each candidate's spherical
//! distance in metres and hands it in as a plain value.

use vstd::prelude::*;
use crate::errors::{ApiError, STATUS_BAD_REQUEST, STATUS_NOT_FOUND};
use crate::ids::is_oid;
use crate::sorting::{Ranked, sorted_by_rank, sort_by_rank};
use crate::subscription::{
    SubscriptionBook,
    SubscriptionType,
    has_active,
    is_active_at,
    silver_name,
    gold_name,
};
use crate::paging::{page_params, page_window, slice_page, norm_page, norm_limit};

verus! {

/// Paid tier of a worker profile; `Free` for a plan the mapping does not
/// know.
#[derive(Clone, Copy, PartialEq, Eq, Structural, Debug)]
pub enum WorkerSubscriptionPlan {
    Free,
    Silver,
    Gold,
}

/// Numeric height of a tier: higher ranks better.
pub open spec fn plan_tier(p: WorkerSubscriptionPlan) -> int {
    match p {
        WorkerSubscriptionPlan::Free => 0,
        WorkerSubscriptionPlan::Silver => 1,
        WorkerSubscriptionPlan::Gold => 2,
    }
}

/// The tier a stored plan name buys.
pub open spec fn plan_of_name(name: Seq<u8>) -> WorkerSubscriptionPlan {
    if name == silver_name() {
        WorkerSubscriptionPlan::Silver
    } else if name == gold_name() {
        WorkerSubscriptionPlan::Gold
    } else {
        WorkerSubscriptionPlan::Free
    }
}

/// A point on the globe in micro-degrees, stored longitude first as the
/// store does.
#[derive(Clone, Copy, PartialEq, Eq, Structural, Debug)]
pub struct GeoLocation {
    pub longitude_udeg: i64,
    pub latitude_udeg: i64,
}

/// Longitude within [-180°, 180°], latitude within [-90°, 90°].
pub open spec fn location_valid(l: GeoLocation) -> bool {
    -180000000 <= l.longitude_udeg <= 180000000 && -90000000 <= l.latitude_udeg <= 90000000
}

/// Default location for a profile created without one.
pub const DEFAULT_LONGITUDE_UDEG: i64 = 72831100;

pub const DEFAULT_LATITUDE_UDEG: i64 = 21170200;

/// A worker profile.  Rating is the stored aggregate: average × 100,
/// rounded, together with the review count.
pub struct WorkerProfile {
    pub id: Vec<u8>,
    pub user_id: Vec<u8>,
    pub categories: Vec<String>,
    pub subcategories: Vec<String>,
    pub experience_years: Option<i32>,
    pub description: Option<String>,
    /// Hourly rate in minor currency units.
    pub hourly_rate_minor: Option<i64>,
    pub license_number: Option<String>,
    pub service_areas: Vec<String>,
    pub subscription_plan: WorkerSubscriptionPlan,
    pub subscription_expires_at: Option<i64>,
    pub is_verified: bool,
    pub is_available: bool,
    /// Average rating times 100, rounded to the nearest integer.
    pub rating_hundredths: u32,
    pub total_reviews: u32,
    pub total_jobs_completed: u32,
    pub created_at: i64,
    pub updated_at: i64,
    pub location: GeoLocation,
}

impl WorkerProfile {
    pub open spec fn wf(&self) -> bool {
        &&& is_oid(self.id@)
        &&& is_oid(self.user_id@)
        &&& self.rating_hundredths <= 500
        &&& location_valid(self.location)
    }
}

/// Whether `v` holds a string whose characters are `s`.
pub open spec fn contains_str(v: Seq<String>, s: Seq<char>) -> bool {
    exists|i: int| 0 <= i < v.len() && #[trigger] v[i]@ == s
}

/// Says whether `v` holds `s`.
pub fn vec_contains_string(v: &Vec<String>, s: &String) -> (r: bool)
    ensures
        r == contains_str(v@, s@),
{
    let n = v.len();
    for i in 0..n
        invariant
            n == v@.len(),
            forall|j: int| 0 <= j < i ==> #[trigger] v@[j]@ != s@,
    {
        if v[i] == *s {
            return true;
        }
    }
    false
}

/// Fields given when creating a worker profile.
pub struct CreateWorkerProfileDto {
    pub categories: Vec<String>,
    pub subcategories: Vec<String>,
    pub experience_years: Option<i32>,
    pub description: Option<String>,
    pub hourly_rate_minor: Option<i64>,
    pub license_number: Option<String>,
    pub longitude_udeg: Option<i64>,
    pub latitude_udeg: Option<i64>,
    pub service_areas: Vec<String>,
}

/// Optional replacements for an existing profile's fields.
pub struct UpdateWorkerProfileDto {
    pub categories: Option<Vec<String>>,
    pub subcategories: Option<Vec<String>>,
    pub experience_years: Option<i32>,
    pub description: Option<String>,
    pub hourly_rate_minor: Option<i64>,
    pub service_areas: Option<Vec<String>>,
    pub is_available: Option<bool>,
}

/// A location update.
pub struct UpdateLocationDto {
    pub latitude_udeg: i64,
    pub longitude_udeg: i64,
}

/// Whether some profile belongs to `user_id`.
pub open spec fn has_profile_for(profiles: Seq<WorkerProfile>, user_id: Seq<u8>) -> bool {
    exists|i: int| 0 <= i < profiles.len() && #[trigger] profiles[i].user_id@ == user_id
}

/// All worker profiles.
pub struct WorkerDirectory {
    pub profiles: Vec<WorkerProfile>,
}

impl WorkerDirectory {
    /// Profiles are well-formed with unique ids and one per user.
    pub open spec fn wf(&self) -> bool {
        &&& forall|i: int| 0 <= i < self.profiles@.len() ==> (#[trigger] self.profiles@[i]).wf()
        &&& forall|i: int, j: int|
            0 <= i < j < self.profiles@.len() ==> self.profiles@[i].id@ != self.profiles@[j].id@
                && self.profiles@[i].user_id@ != self.profiles@[j].user_id@
    }

    pub fn new() -> (r: WorkerDirectory)
        ensures
            r.wf(),
            r.profiles@.len() == 0,
    {
        WorkerDirectory { profiles: Vec::new() }
    }

    /// Creates the caller's worker profile.  The caller must hold an
    /// active worker subscription — its plan name decides the tier — and
    /// must not have a profile yet; missing subscription and duplicate
    /// profile are both `400`.  The new profile starts unverified,
    /// available and unrated, at the given location or the default.
    pub fn create_profile(
        &mut self,
        subs: &SubscriptionBook,
        id: Vec<u8>,
        user_id: Vec<u8>,
        dto: CreateWorkerProfileDto,
        now: i64,
    ) -> (r: Result<usize, ApiError>)
        requires
            old(self).wf(),
            is_oid(id@),
            is_oid(user_id@),
            !has_sub_profile_id(old(self).profiles@, id@),
            dto.longitude_udeg matches Some(lo) ==> -180000000 <= lo <= 180000000,
            dto.latitude_udeg matches Some(la) ==> -90000000 <= la <= 90000000,
        ensures
            final(self).wf(),
            r is Ok <==> (has_active(subs.subs@, user_id@, SubscriptionType::Worker, now)
                && !has_profile_for(old(self).profiles@, user_id@)),
            r matches Err(e) ==> e.status == STATUS_BAD_REQUEST && final(self).profiles@ == old(self).profiles@,
            r matches Ok(idx) ==> ({
                &&& idx == old(self).profiles@.len()
                &&& final(self).profiles@.len() == old(self).profiles@.len() + 1
                &&& (forall|j: int|
                    0 <= j < old(self).profiles@.len() ==> final(self).profiles@[j] == old(self).profiles@[j])
                &&& ({
                    let p = final(self).profiles@.last();
                    &&& p.id == id
                    &&& p.user_id == user_id
                    &&& p.categories == dto.categories
                    &&& p.subcategories == dto.subcategories
                    &&& p.experience_years == dto.experience_years
                    &&& p.description == dto.description
                    &&& p.hourly_rate_minor == dto.hourly_rate_minor
                    &&& p.license_number == dto.license_number
                    &&& p.service_areas == dto.service_areas
                    &&& (exists|i: int|
                        0 <= i < subs.subs@.len() && is_active_at(
                            #[trigger] subs.subs@[i],
                            user_id@,
                            SubscriptionType::Worker,
                            now,
                        ) && p.subscription_plan == plan_of_name(subs.subs@[i].plan_name@))
                    &&& !p.is_verified
                    &&& p.is_available
                    &&& p.rating_hundredths == 0
                    &&& p.total_reviews == 0
                    &&& p.total_jobs_completed == 0
                    &&& p.created_at == now
                    &&& p.updated_at == now
                    &&& p.location.longitude_udeg == (if dto.longitude_udeg is Some {
                        dto.longitude_udeg.unwrap()
                    } else {
                        DEFAULT_LONGITUDE_UDEG
                    })
                    &&& p.location.latitude_udeg == (if dto.latitude_udeg is Some {
                        dto.latitude_udeg.unwrap()
                    } else {
                        DEFAULT_LATITUDE_UDEG
                    })
                })
            }),
    {
        let sub_idx = match subs.find_active(user_id.as_slice(), SubscriptionType::Worker, now) {
            Some(i) => i,
            None => {
                return Err(ApiError {
                    status: STATUS_BAD_REQUEST,
                    message: "Active subscription required to create worker profile".to_owned(),
                });
            },
        };
        if self.find_by_user(user_id.as_slice()).is_some() {
            return Err(ApiError {
                status: STATUS_BAD_REQUEST,
                message: "Worker profile already exists".to_owned(),
            });
        }
        let plan_name = &subs.subs[sub_idx].plan_name;
        let is_silver = plan_name.len() == 6 && plan_name[0] == 0x73 && plan_name[1] == 0x69
            && plan_name[2] == 0x6c && plan_name[3] == 0x76 && plan_name[4] == 0x65 && plan_name[5]
            == 0x72;
        let is_gold = plan_name.len() == 4 && plan_name[0] == 0x67 && plan_name[1] == 0x6f
            && plan_name[2] == 0x6c && plan_name[3] == 0x64;
        proof {
            assert(is_silver == (plan_name@ =~= silver_name()));
            assert(is_gold == (plan_name@ =~= gold_name()));
        }
        let plan = if is_silver {
            WorkerSubscriptionPlan::Silver
        } else if is_gold {
            WorkerSubscriptionPlan::Gold
        } else {
            WorkerSubscriptionPlan::Free
        };
        let longitude = match dto.longitude_udeg {
            Some(lo) => lo,
            None => DEFAULT_LONGITUDE_UDEG,
        };
        let latitude = match dto.latitude_udeg {
            Some(la) => la,
            None => DEFAULT_LATITUDE_UDEG,
        };
        let profile = WorkerProfile {
            id,
            user_id,
            categories: dto.categories,
            subcategories: dto.subcategories,
            experience_years: dto.experience_years,
            description: dto.description,
            hourly_rate_minor: dto.hourly_rate_minor,
            license_number: dto.license_number,
            service_areas: dto.service_areas,
            subscription_plan: plan,
            subscription_expires_at: Some(subs.subs[sub_idx].expires_at),
            is_verified: false,
            is_available: true,
            rating_hundredths: 0,
            total_reviews: 0,
            total_jobs_completed: 0,
            created_at: now,
            updated_at: now,
            location: GeoLocation { longitude_udeg: longitude, latitude_udeg: latitude },
        };
        let idx = self.profiles.len();
        self.profiles.push(profile);
        Ok(idx)
    }

    /// Index of the profile owned by `user_id`.
    pub fn find_by_user(&self, user_id: &[u8]) -> (r: Option<usize>)
        ensures
            r is Some <==> has_profile_for(self.profiles@, user_id@),
            r matches Some(i) ==> 0 <= i < self.profiles@.len() && self.profiles@[
                i as int
            ].user_id@ == user_id@,
    {
        let n = self.profiles.len();
        for i in 0..n
            invariant
                n == self.profiles@.len(),
                forall|j: int| 0 <= j < i ==> #[trigger] self.profiles@[j].user_id@ != user_id@,
        {
            if crate::text::bytes_eq(self.profiles[i].user_id.as_slice(), user_id) {
                return Some(i);
            }
        }
        None
    }

    /// Index of the profile with the given id.
    pub fn find_by_id(&self, id: &[u8]) -> (r: Option<usize>)
        ensures
            r is Some <==> has_sub_profile_id(self.profiles@, id@),
            r matches Some(i) ==> 0 <= i < self.profiles@.len() && self.profiles@[i as int].id@
                == id@,
    {
        let n = self.profiles.len();
        for i in 0..n
            invariant
                n == self.profiles@.len(),
                forall|j: int| 0 <= j < i ==> #[trigger] self.profiles@[j].id@ != id@,
        {
            if crate::text::bytes_eq(self.profiles[i].id.as_slice(), id) {
                return Some(i);
            }
        }
        None
    }

    /// Applies a partial update to the caller's profile: each given field
    /// replaces the stored one, `updated_at` is stamped; a caller without
    /// a profile gets `404`.
    pub fn update_profile(&mut self, user_id: &[u8], dto: UpdateWorkerProfileDto, now: i64) -> (r:
        Result<(), ApiError>)
        requires
            old(self).wf(),
        ensures
            final(self).wf(),
            r is Ok <==> has_profile_for(old(self).profiles@, user_id@),
            r matches Err(e) ==> e.status == STATUS_NOT_FOUND && final(self).profiles@ == old(self).profiles@,
            r is Ok ==> exists|i: int|
                {
                    &&& 0 <= i < old(self).profiles@.len()
                    &&& (#[trigger] old(self).profiles@[i]).user_id@ == user_id@
                    &&& final(self).profiles@.len() == old(self).profiles@.len()
                    &&& (forall|j: int|
                        0 <= j < old(self).profiles@.len() && j != i
                            ==> final(self).profiles@[j] == old(self).profiles@[j])
                    &&& ({
                        let p0 = old(self).profiles@[i];
                        let p1 = final(self).profiles@[i];
                        &&& p1.categories == (if dto.categories is Some {
                            dto.categories.unwrap()
                        } else {
                            p0.categories
                        })
                        &&& p1.subcategories == (if dto.subcategories is Some {
                            dto.subcategories.unwrap()
                        } else {
                            p0.subcategories
                        })
                        &&& p1.experience_years == (if dto.experience_years is Some {
                            dto.experience_years
                        } else {
                            p0.experience_years
                        })
                        &&& p1.description == (if dto.description is Some {
                            dto.description
                        } else {
                            p0.description
                        })
                        &&& p1.hourly_rate_minor == (if dto.hourly_rate_minor is Some {
                            dto.hourly_rate_minor
                        } else {
                            p0.hourly_rate_minor
                        })
                        &&& p1.service_areas == (if dto.service_areas is Some {
                            dto.service_areas.unwrap()
                        } else {
                            p0.service_areas
                        })
                        &&& p1.is_available == (if dto.is_available is Some {
                            dto.is_available.unwrap()
                        } else {
                            p0.is_available
                        })
                        &&& p1.updated_at == now
                        &&& p1.id == p0.id
                        &&& p1.user_id == p0.user_id
                        &&& p1.license_number == p0.license_number
                        &&& p1.subscription_plan == p0.subscription_plan
                        &&& p1.subscription_expires_at == p0.subscription_expires_at
                        &&& p1.is_verified == p0.is_verified
                        &&& p1.rating_hundredths == p0.rating_hundredths
                        &&& p1.total_reviews == p0.total_reviews
                        &&& p1.total_jobs_completed == p0.total_jobs_completed
                        &&& p1.created_at == p0.created_at
                        &&& p1.location == p0.location
                    })
                },
    {
        let idx = match self.find_by_user(user_id) {
            Some(i) => i,
            None => {
                return Err(ApiError {
                    status: STATUS_NOT_FOUND,
                    message: "Worker profile not found".to_owned(),
                });
            },
        };
        let p0 = self.profiles.remove(idx);
        let p1 = WorkerProfile {
            categories: match dto.categories {
                Some(c) => c,
                None => p0.categories,
            },
            subcategories: match dto.subcategories {
                Some(c) => c,
                None => p0.subcategories,
            },
            experience_years: match dto.experience_years {
                Some(e) => Some(e),
                None => p0.experience_years,
            },
            description: match dto.description {
                Some(d) => Some(d),
                None => p0.description,
            },
            hourly_rate_minor: match dto.hourly_rate_minor {
                Some(hr) => Some(hr),
                None => p0.hourly_rate_minor,
            },
            service_areas: match dto.service_areas {
                Some(s) => s,
                None => p0.service_areas,
            },
            is_available: match dto.is_available {
                Some(a) => a,
                None => p0.is_available,
            },
            updated_at: now,
            id: p0.id,
            user_id: p0.user_id,
            license_number: p0.license_number,
            subscription_plan: p0.subscription_plan,
            subscription_expires_at: p0.subscription_expires_at,
            is_verified: p0.is_verified,
            rating_hundredths: p0.rating_hundredths,
            total_reviews: p0.total_reviews,
            total_jobs_completed: p0.total_jobs_completed,
            created_at: p0.created_at,
            location: p0.location,
        };
        self.profiles.insert(idx, p1);
        Ok(())
    }

    /// Moves the caller's location.  Latitude and longitude are validated
    /// first (`400`); a caller without a profile gets `404`.
    pub fn update_location(&mut self, user_id: &[u8], dto: UpdateLocationDto, now: i64) -> (r:
        Result<(), ApiError>)
        requires
            old(self).wf(),
        ensures
            final(self).wf(),
            r is Ok <==> (-90000000 <= dto.latitude_udeg <= 90000000 && -180000000
                <= dto.longitude_udeg <= 180000000 && has_profile_for(
                old(self).profiles@,
                user_id@,
            )),
            !(-90000000 <= dto.latitude_udeg <= 90000000) ==> (r matches Err(e) && e.status
                == STATUS_BAD_REQUEST && final(self).profiles@ == old(self).profiles@),
            (-90000000 <= dto.latitude_udeg <= 90000000) && !(-180000000 <= dto.longitude_udeg
                <= 180000000) ==> (r matches Err(e) && e.status == STATUS_BAD_REQUEST && final(self).profiles@ == old(self).profiles@),
            (-90000000 <= dto.latitude_udeg <= 90000000) && (-180000000 <= dto.longitude_udeg
                <= 180000000) && !has_profile_for(old(self).profiles@, user_id@) ==> (
            r matches Err(e) && e.status == STATUS_NOT_FOUND && final(self).profiles@ == old(self).profiles@),
            r is Ok ==> exists|i: int|
                {
                    &&& 0 <= i < old(self).profiles@.len()
                    &&& (#[trigger] old(self).profiles@[i]).user_id@ == user_id@
                    &&& final(self).profiles@.len() == old(self).profiles@.len()
                    &&& (forall|j: int|
                        0 <= j < old(self).profiles@.len() && j != i
                            ==> final(self).profiles@[j] == old(self).profiles@[j])
                    &&& final(self).profiles@[i].location.latitude_udeg == dto.latitude_udeg
                    &&& final(self).profiles@[i].location.longitude_udeg == dto.longitude_udeg
                    &&& final(self).profiles@[i].updated_at == now
                    &&& final(self).profiles@[i].id == old(self).profiles@[i].id
                    &&& final(self).profiles@[i].user_id == old(self).profiles@[i].user_id
                },
    {
        if !(-90000000 <= dto.latitude_udeg && dto.latitude_udeg <= 90000000) {
            return Err(ApiError {
                status: STATUS_BAD_REQUEST,
                message: "Invalid latitude".to_owned(),
            });
        }
        if !(-180000000 <= dto.longitude_udeg && dto.longitude_udeg <= 180000000) {
            return Err(ApiError {
                status: STATUS_BAD_REQUEST,
                message: "Invalid longitude".to_owned(),
            });
        }
        let idx = match self.find_by_user(user_id) {
            Some(i) => i,
            None => {
                return Err(ApiError {
                    status: STATUS_NOT_FOUND,
                    message: "Worker profile not found".to_owned(),
                });
            },
        };
        let p0 = self.profiles.remove(idx);
        let p1 = WorkerProfile {
            location: GeoLocation {
                longitude_udeg: dto.longitude_udeg,
                latitude_udeg: dto.latitude_udeg,
            },
            updated_at: now,
            ..p0
        };
        self.profiles.insert(idx, p1);
        Ok(())
    }
}

/// An admin's verification verdict on a worker.
pub struct UpdateWorkerVerificationDto {
    pub is_verified: bool,
}

impl WorkerDirectory {
    /// An admin marks a worker verified or revokes it.  A malformed id is
    /// `400`; an id that names no profile changes nothing and still
    /// succeeds, as the store's blind update would.
    pub fn set_worker_verification(
        &mut self,
        worker_id: &[u8],
        dto: &UpdateWorkerVerificationDto,
        now: i64,
    ) -> (r: Result<(), ApiError>)
        requires
            old(self).wf(),
        ensures
            final(self).wf(),
            r is Ok <==> (worker_id@.len() == 24 && (forall|i: int|
                0 <= i < worker_id@.len() ==> crate::text::is_hex_digit(#[trigger] worker_id@[i]))),
            r matches Err(e) ==> e.status == STATUS_BAD_REQUEST && final(self).profiles@ == old(
                self,
            ).profiles@,
            r is Ok && !has_sub_profile_id(old(self).profiles@, crate::ids::oid_canon(worker_id@))
                ==> final(self).profiles@ == old(self).profiles@,
            r is Ok && has_sub_profile_id(old(self).profiles@, crate::ids::oid_canon(worker_id@))
                ==> exists|i: int|
                {
                    &&& 0 <= i < old(self).profiles@.len()
                    &&& (#[trigger] old(self).profiles@[i]).id@ == crate::ids::oid_canon(
                        worker_id@,
                    )
                    &&& final(self).profiles@.len() == old(self).profiles@.len()
                    &&& (forall|j: int|
                        0 <= j < old(self).profiles@.len() && j != i
                            ==> final(self).profiles@[j] == old(self).profiles@[j])
                    &&& final(self).profiles@[i].is_verified == dto.is_verified
                    &&& final(self).profiles@[i].updated_at == now
                    &&& final(self).profiles@[i].id == old(self).profiles@[i].id
                    &&& final(self).profiles@[i].user_id == old(self).profiles@[i].user_id
                    &&& final(self).profiles@[i].rating_hundredths == old(self).profiles@[
                        i
                    ].rating_hundredths
                },
    {
        let target = match crate::ids::parse_oid(worker_id) {
            Some(t) => t,
            None => {
                return Err(ApiError {
                    status: STATUS_BAD_REQUEST,
                    message: "Invalid worker ID".to_owned(),
                });
            },
        };
        let idx = match self.find_by_id(target.as_slice()) {
            Some(i) => i,
            None => {
                return Ok(());
            },
        };
        let p0 = self.profiles.remove(idx);
        let p1 = WorkerProfile { is_verified: dto.is_verified, updated_at: now, ..p0 };
        self.profiles.insert(idx, p1);
        proof {
            assert(old(self).profiles@[idx as int].id@ == crate::ids::oid_canon(worker_id@));
        }
        Ok(())
    }

    /// Stores a freshly computed rating aggregate on the profile at `idx`.
    pub fn set_rating(&mut self, idx: usize, rating_hundredths: u32, total_reviews: u32, now: i64)
        requires
            old(self).wf(),
            idx < old(self).profiles@.len(),
            rating_hundredths <= 500,
        ensures
            final(self).wf(),
            final(self).profiles@.len() == old(self).profiles@.len(),
            forall|j: int|
                0 <= j < old(self).profiles@.len() && j != idx ==> final(self).profiles@[j] == old(
                    self,
                ).profiles@[j],
            ({
                let p0 = old(self).profiles@[idx as int];
                let p1 = final(self).profiles@[idx as int];
                &&& p1.rating_hundredths == rating_hundredths
                &&& p1.total_reviews == total_reviews
                &&& p1.updated_at == now
                &&& p1.id == p0.id
                &&& p1.user_id == p0.user_id
                &&& p1.categories == p0.categories
                &&& p1.subcategories == p0.subcategories
                &&& p1.subscription_plan == p0.subscription_plan
                &&& p1.is_verified == p0.is_verified
                &&& p1.is_available == p0.is_available
                &&& p1.location == p0.location
                &&& p1.created_at == p0.created_at
            }),
    {
        let p0 = self.profiles.remove(idx);
        let p1 = WorkerProfile { rating_hundredths, total_reviews, updated_at: now, ..p0 };
        self.profiles.insert(idx, p1);
    }
}

/// Whether some profile carries `id`.
pub open spec fn has_sub_profile_id(profiles: Seq<WorkerProfile>, id: Seq<u8>) -> bool {
    exists|i: int| 0 <= i < profiles.len() && #[trigger] profiles[i].id@ == id
}

/// Geo search cap: workers farther than this never appear.
pub const MAX_NEARBY_DISTANCE_M: u64 = 10000;

/// A worker together with the spherical distance in metres from the query
/// point to the worker's stored location, as the store's geo stage
/// computed it.
pub struct NearbyCandidate {
    pub profile: WorkerProfile,
    pub distance_m: u64,
}

/// Rating clamped to its valid range, for ranking.
pub open spec fn rating_clamped(r: u32) -> int {
    if r <= 500 {
        r as int
    } else {
        500
    }
}

impl Ranked for NearbyCandidate {
    /// Three-tier order: distance ascending dominates, then subscription
    /// tier descending, then rating descending.  The factors keep the
    /// fields in disjoint bit ranges, so the numeric order is exactly the
    /// lexicographic one.
    open spec fn rank(&self) -> int {
        self.distance_m * 0x1000000000000 + (2 - plan_tier(self.profile.subscription_plan))
            * 0x10000000000 + (500 - rating_clamped(self.profile.rating_hundredths))
    }

    fn key(&self) -> (r: u128)
        ensures
            r == self.rank(),
    {
        let tier: u128 = match self.profile.subscription_plan {
            WorkerSubscriptionPlan::Free => 0,
            WorkerSubscriptionPlan::Silver => 1,
            WorkerSubscriptionPlan::Gold => 2,
        };
        let rating: u128 = if self.profile.rating_hundredths <= 500 {
            self.profile.rating_hundredths as u128
        } else {
            500
        };
        (self.distance_m as u128) * 0x1000000000000 + (2 - tier) * 0x10000000000 + (500 - rating)
    }
}

/// `a` strictly precedes `b` in the geo ranking: nearer, or as near with a
/// higher tier, or as near and as high with a better rating.
pub open spec fn nearby_before(a: NearbyCandidate, b: NearbyCandidate) -> bool {
    ||| a.distance_m < b.distance_m
    ||| (a.distance_m == b.distance_m && plan_tier(a.profile.subscription_plan) > plan_tier(
        b.profile.subscription_plan,
    ))
    ||| (a.distance_m == b.distance_m && plan_tier(a.profile.subscription_plan) == plan_tier(
        b.profile.subscription_plan,
    ) && rating_clamped(a.profile.rating_hundredths) > rating_clamped(b.profile.rating_hundredths))
}

/// The numeric rank realises the business order: a smaller rank means
/// nearer, or equally near with a higher tier, or with a better rating;
/// equal ranks mean all three agree.
pub proof fn lemma_nearby_rank_orders(a: NearbyCandidate, b: NearbyCandidate)
    ensures
        a.rank() < b.rank() <==> nearby_before(a, b),
        a.rank() == b.rank() <==> (a.distance_m == b.distance_m && plan_tier(
            a.profile.subscription_plan,
        ) == plan_tier(b.profile.subscription_plan) && rating_clamped(a.profile.rating_hundredths)
            == rating_clamped(b.profile.rating_hundredths)),
{
    let da = a.distance_m as int;
    let db = b.distance_m as int;
    let ta = plan_tier(a.profile.subscription_plan);
    let tb = plan_tier(b.profile.subscription_plan);
    let ra = rating_clamped(a.profile.rating_hundredths);
    let rb = rating_clamped(b.profile.rating_hundredths);
    assert(0 <= ta <= 2 && 0 <= tb <= 2);
    assert(0 <= ra <= 500 && 0 <= rb <= 500);
    assert(a.rank() == da * 0x1000000000000 + (2 - ta) * 0x10000000000 + (500 - ra));
    assert(b.rank() == db * 0x1000000000000 + (2 - tb) * 0x10000000000 + (500 - rb));
    assert((da < db ==> (da + 1) * 0x1000000000000 <= db * 0x1000000000000) && (da > db ==> (db
        + 1) * 0x1000000000000 <= da * 0x1000000000000)) by (nonlinear_arith);
    if da == db {
        assert(a.rank() - b.rank() == (tb - ta) * 0x10000000000 + (rb - ra)) by (nonlinear_arith)
            requires
                a.rank() == da * 0x1000000000000 + (2 - ta) * 0x10000000000 + (500 - ra),
                b.rank() == db * 0x1000000000000 + (2 - tb) * 0x10000000000 + (500 - rb),
                da == db,
        ;
        assert((ta < tb ==> (ta + 1) * 0x10000000000 <= tb * 0x10000000000) && (ta > tb ==> (tb
            + 1) * 0x10000000000 <= ta * 0x10000000000)) by (nonlinear_arith);
    }
}

/// The view of an optional string filter.
pub open spec fn opt_str_view(o: Option<&String>) -> Option<Seq<char>> {
    match o {
        Some(s) => Some(s@),
        None => None,
    }
}

/// The view of an owned optional string filter.
pub open spec fn opt_string_view(o: Option<String>) -> Option<Seq<char>> {
    match o {
        Some(s) => Some(s@),
        None => None,
    }
}

/// A candidate passes the geo filter: verified, available, within the
/// distance cap, and matching the optional category and subcategory.
pub open spec fn nearby_eligible(
    c: NearbyCandidate,
    cat: Option<Seq<char>>,
    sub: Option<Seq<char>>,
) -> bool {
    &&& c.profile.is_verified
    &&& c.profile.is_available
    &&& c.distance_m <= MAX_NEARBY_DISTANCE_M
    &&& (cat matches Some(s) ==> contains_str(c.profile.categories@, s))
    &&& (sub matches Some(s) ==> contains_str(c.profile.subcategories@, s))
}

/// The eligible candidates, in input order.
pub open spec fn filter_nearby(
    s: Seq<NearbyCandidate>,
    cat: Option<Seq<char>>,
    sub: Option<Seq<char>>,
) -> Seq<NearbyCandidate>
    decreases s.len(),
{
    if s.len() == 0 {
        Seq::empty()
    } else {
        let prefix = filter_nearby(s.drop_last(), cat, sub);
        if nearby_eligible(s.last(), cat, sub) {
            prefix.push(s.last())
        } else {
            prefix
        }
    }
}

/// Everything the filter keeps is eligible.
pub proof fn lemma_filter_nearby_eligible(
    s: Seq<NearbyCandidate>,
    cat: Option<Seq<char>>,
    sub: Option<Seq<char>>,
)
    ensures
        forall|k: int|
            0 <= k < filter_nearby(s, cat, sub).len() ==> nearby_eligible(
                #[trigger] filter_nearby(s, cat, sub)[k],
                cat,
                sub,
            ),
    decreases s.len(),
{
    if s.len() > 0 {
        lemma_filter_nearby_eligible(s.drop_last(), cat, sub);
        let prefix = filter_nearby(s.drop_last(), cat, sub);
        let whole = filter_nearby(s, cat, sub);
        assert forall|k: int| 0 <= k < whole.len() implies nearby_eligible(
            whole[k],
            cat,
            sub,
        ) by {
            if nearby_eligible(s.last(), cat, sub) {
                assert(whole == prefix.push(s.last()));
                if k < prefix.len() {
                    assert(whole[k] == prefix[k]);
                } else {
                    assert(whole[k] == s.last());
                }
            } else {
                assert(whole == prefix);
                assert(whole[k] == prefix[k]);
            }
        }
    }
}

/// The geo-proximity search over the store's candidates: keeps the
/// verified, available workers within the distance cap that match the
/// optional category filters, orders them by distance, then tier, then
/// rating, and returns the requested page together with the unpaginated
/// total.  The page is a window of one sorted arrangement of exactly the
/// eligible candidates.
pub fn find_nearby_workers(
    candidates: Vec<NearbyCandidate>,
    category: Option<&String>,
    subcategory: Option<&String>,
    page: Option<i64>,
    limit: Option<i64>,
) -> (r: (Vec<NearbyCandidate>, usize))
    ensures
        ({
            let elig = filter_nearby(
                candidates@,
                opt_str_view(category),
                opt_str_view(subcategory),
            );
            &&& r.1 == elig.len()
            &&& sorted_by_rank(r.0@)
            &&& (forall|k: int|
                0 <= k < r.0@.len() ==> nearby_eligible(
                    #[trigger] r.0@[k],
                    opt_str_view(category),
                    opt_str_view(subcategory),
                ))
            &&& exists|s: Seq<NearbyCandidate>|
                {
                    &&& s.to_multiset() == elig.to_multiset()
                    &&& sorted_by_rank(s)
                    &&& r.0@ == #[trigger] s.subrange(
                        page_window(s.len() as int, norm_page(page), norm_limit(limit, 50)).0,
                        page_window(s.len() as int, norm_page(page), norm_limit(limit, 50)).1,
                    )
                }
        }),
{
    let ghost cat = opt_str_view(category);
    let ghost sub = opt_str_view(subcategory);
    let ghost orig = candidates@;
    let mut rest = candidates;
    let mut kept: Vec<NearbyCandidate> = Vec::new();
    let ghost t: int = 0;
    proof {
        assert(orig.take(0) =~= Seq::<NearbyCandidate>::empty());
    }
    while rest.len() > 0
        invariant
            0 <= t <= orig.len(),
            rest@ =~= orig.subrange(t, orig.len() as int),
            kept@ =~= filter_nearby(orig.take(t), cat, sub),
            cat == opt_str_view(category),
            sub == opt_str_view(subcategory),
        decreases rest@.len(),
    {
        let c = rest.remove(0);
        proof {
            assert(c == orig[t]);
            assert(rest@ =~= orig.subrange(t + 1, orig.len() as int));
        }
        let mut ok = c.profile.is_verified && c.profile.is_available && c.distance_m
            <= MAX_NEARBY_DISTANCE_M;
        if ok {
            if let Some(cs) = category {
                if !vec_contains_string(&c.profile.categories, cs) {
                    ok = false;
                }
            }
        }
        if ok {
            if let Some(ss) = subcategory {
                if !vec_contains_string(&c.profile.subcategories, ss) {
                    ok = false;
                }
            }
        }
        proof {
            assert(ok == nearby_eligible(c, cat, sub));
            assert(orig.take(t + 1).drop_last() =~= orig.take(t));
            assert(orig.take(t + 1).last() == orig[t]);
        }
        if ok {
            kept.push(c);
        }
        proof {
            t = t + 1;
        }
    }
    proof {
        assert(orig.take(orig.len() as int) =~= orig);
    }
    let total = kept.len();
    sort_by_rank(&mut kept);
    let ghost full = kept@;
    proof {
        let elig = filter_nearby(orig, cat, sub);
        lemma_filter_nearby_eligible(orig, cat, sub);
        kept@.to_multiset_ensures();
        elig.to_multiset_ensures();
        assert forall|k: int| 0 <= k < kept@.len() implies nearby_eligible(
            #[trigger] kept@[k],
            cat,
            sub,
        ) by {
            assert(kept@.contains(kept@[k]));
            assert(kept@.to_multiset().count(kept@[k]) > 0);
            assert(elig.to_multiset().count(kept@[k]) > 0);
            assert(elig.contains(kept@[k]));
            let j = choose|j: int| 0 <= j < elig.len() && elig[j] == kept@[k];
            assert(nearby_eligible(elig[j], cat, sub));
        }
    }
    let (pg, lim) = page_params(page, limit, 50);
    let items = slice_page(kept, pg, lim);
    proof {
        assert(forall|k: int|
            0 <= k < items@.len() ==> nearby_eligible(#[trigger] items@[k], cat, sub));
        assert forall|a: int, b: int| 0 <= a < b < items@.len() implies items@[a].rank()
            <= items@[b].rank() by {
            let w = page_window(full.len() as int, norm_page(page), norm_limit(limit, 50));
            assert(items@[a] == full[w.0 + a]);
            assert(items@[b] == full[w.0 + b]);
        }
    }
    (items, total)
}

/// A plain worker search query; `city` is carried for the caller but does
/// not narrow the results.
pub struct SearchWorkersQuery {
    pub category: Option<String>,
    pub subcategory: Option<String>,
    pub city: Option<String>,
    /// Minimum stored rating, in hundredths.
    pub min_rating_hundredths: Option<u32>,
    pub page: Option<i64>,
    pub limit: Option<i64>,
}

impl Ranked for WorkerProfile {
    /// Plain search order: subscription tier descending, then rating
    /// descending, then review count descending.
    open spec fn rank(&self) -> int {
        (2 - plan_tier(self.subscription_plan)) * 0x1000000000000 + (500 - rating_clamped(
            self.rating_hundredths,
        )) * 0x100000000 + (0xffffffff - self.total_reviews)
    }

    fn key(&self) -> (r: u128)
        ensures
            r == self.rank(),
    {
        let tier: u128 = match self.subscription_plan {
            WorkerSubscriptionPlan::Free => 0,
            WorkerSubscriptionPlan::Silver => 1,
            WorkerSubscriptionPlan::Gold => 2,
        };
        let rating: u128 = if self.rating_hundredths <= 500 {
            self.rating_hundredths as u128
        } else {
            500
        };
        (2 - tier) * 0x1000000000000 + (500 - rating) * 0x100000000 + (0xffffffffu128
            - self.total_reviews as u128)
    }
}

/// A profile passes the plain search filter: available, verified, matching
/// the optional category filters and the rating floor.
pub open spec fn search_eligible(
    p: WorkerProfile,
    cat: Option<Seq<char>>,
    sub: Option<Seq<char>>,
    min_rating: Option<u32>,
) -> bool {
    &&& p.is_available
    &&& p.is_verified
    &&& (cat matches Some(s) ==> contains_str(p.categories@, s))
    &&& (sub matches Some(s) ==> contains_str(p.subcategories@, s))
    &&& (min_rating matches Some(m) ==> p.rating_hundredths >= m)
}

/// The matching profiles, in directory order.
pub open spec fn filter_search(
    s: Seq<WorkerProfile>,
    cat: Option<Seq<char>>,
    sub: Option<Seq<char>>,
    min_rating: Option<u32>,
) -> Seq<WorkerProfile>
    decreases s.len(),
{
    if s.len() == 0 {
        Seq::empty()
    } else {
        let prefix = filter_search(s.drop_last(), cat, sub, min_rating);
        if search_eligible(s.last(), cat, sub, min_rating) {
            prefix.push(s.last())
        } else {
            prefix
        }
    }
}

/// The plain worker search: keeps the available, verified workers that
/// match the query, orders them by tier, then rating, then review count,
/// and returns the requested page with the unpaginated total.
pub fn search_workers(profiles: Vec<WorkerProfile>, query: &SearchWorkersQuery) -> (r: (
    Vec<WorkerProfile>,
    usize,
))
    ensures
        ({
            let cat = opt_string_view(query.category);
            let sub = opt_string_view(query.subcategory);
            let elig = filter_search(profiles@, cat, sub, query.min_rating_hundredths);
            &&& r.1 == elig.len()
            &&& sorted_by_rank(r.0@)
            &&& exists|s: Seq<WorkerProfile>|
                {
                    &&& s.to_multiset() == elig.to_multiset()
                    &&& sorted_by_rank(s)
                    &&& r.0@ == #[trigger] s.subrange(
                        page_window(
                            s.len() as int,
                            norm_page(query.page),
                            norm_limit(query.limit, 100),
                        ).0,
                        page_window(
                            s.len() as int,
                            norm_page(query.page),
                            norm_limit(query.limit, 100),
                        ).1,
                    )
                }
        }),
{
    let ghost cat = opt_string_view(query.category);
    let ghost sub = opt_string_view(query.subcategory);
    let ghost orig = profiles@;
    let mut rest = profiles;
    let mut kept: Vec<WorkerProfile> = Vec::new();
    let ghost t: int = 0;
    proof {
        assert(orig.take(0) =~= Seq::<WorkerProfile>::empty());
    }
    while rest.len() > 0
        invariant
            0 <= t <= orig.len(),
            rest@ =~= orig.subrange(t, orig.len() as int),
            kept@ =~= filter_search(orig.take(t), cat, sub, query.min_rating_hundredths),
            cat == opt_string_view(query.category),
            sub == opt_string_view(query.subcategory),
        decreases rest@.len(),
    {
        let p = rest.remove(0);
        proof {
            assert(p == orig[t]);
            assert(rest@ =~= orig.subrange(t + 1, orig.len() as int));
        }
        let mut ok = p.is_available && p.is_verified;
        if ok {
            if let Some(cs) = query.category.as_ref() {
                if !vec_contains_string(&p.categories, cs) {
                    ok = false;
                }
            }
        }
        if ok {
            if let Some(ss) = query.subcategory.as_ref() {
                if !vec_contains_string(&p.subcategories, ss) {
                    ok = false;
                }
            }
        }
        if ok {
            if let Some(m) = query.min_rating_hundredths {
                if p.rating_hundredths < m {
                    ok = false;
                }
            }
        }
        proof {
            assert(ok == search_eligible(p, cat, sub, query.min_rating_hundredths));
            assert(orig.take(t + 1).drop_last() =~= orig.take(t));
            assert(orig.take(t + 1).last() == orig[t]);
        }
        if ok {
            kept.push(p);
        }
        proof {
            t = t + 1;
        }
    }
    proof {
        assert(orig.take(orig.len() as int) =~= orig);
    }
    let total = kept.len();
    sort_by_rank(&mut kept);
    let ghost full = kept@;
    let (pg, lim) = page_params(query.page, query.limit, 100);
    let items = slice_page(kept, pg, lim);
    proof {
        assert forall|a: int, b: int| 0 <= a < b < items@.len() implies items@[a].rank()
            <= items@[b].rank() by {
            let w = page_window(full.len() as int, norm_page(query.page), norm_limit(query.limit, 100));
            assert(items@[a] == full[w.0 + a]);
            assert(items@[b] == full[w.0 + b]);
        }
    }
    (items, total)
}

} // verus!
