//! Job-seeker profiles: creation gated on KYC and an active job-seeker
//! subscription, partial updates, a filtered search ordered by tier, views
//! and recency, and soft deactivation.

use vstd::prelude::*;
use crate::errors::{ApiError, STATUS_BAD_REQUEST, STATUS_NOT_FOUND};
use crate::ids::is_oid;
use crate::sorting::{Ranked, sorted_by_rank, sort_by_rank};
use crate::subscription::{SubscriptionBook, SubscriptionType, has_active, is_active_at, basic_name, premium_name};
use crate::paging::{page_params, page_window, slice_page, norm_page, norm_limit};
use crate::workers::{contains_str, vec_contains_string};

verus! {

/// Paid tier of a job-seeker profile; `Free` for an unknown plan name.
#[derive(Clone, Copy, PartialEq, Eq, Structural, Debug)]
pub enum JobSeekerSubscriptionPlan {
    Free,
    Basic,
    Premium,
}

pub open spec fn seeker_tier(p: JobSeekerSubscriptionPlan) -> int {
    match p {
        JobSeekerSubscriptionPlan::Free => 0,
        JobSeekerSubscriptionPlan::Basic => 1,
        JobSeekerSubscriptionPlan::Premium => 2,
    }
}

/// The tier a stored plan name buys.
pub open spec fn seeker_plan_of_name(name: Seq<u8>) -> JobSeekerSubscriptionPlan {
    if name == basic_name() {
        JobSeekerSubscriptionPlan::Basic
    } else if name == premium_name() {
        JobSeekerSubscriptionPlan::Premium
    } else {
        JobSeekerSubscriptionPlan::Free
    }
}

/// An education entry.
pub struct Education {
    pub degree: String,
    pub institution: String,
    pub field_of_study: Option<String>,
    pub start_year: Option<i32>,
    pub end_year: Option<i32>,
    pub is_current: bool,
}

/// A work-experience entry; dates are ISO strings carried through.
pub struct WorkExperience {
    pub title: String,
    pub company: String,
    pub location: Option<String>,
    pub start_date: Option<String>,
    pub end_date: Option<String>,
    pub is_current: bool,
    pub description: Option<String>,
}

/// A job-seeker profile.  Salaries are minor currency units.
pub struct JobSeekerProfile {
    pub id: Vec<u8>,
    pub user_id: Vec<u8>,
    pub full_name: String,
    pub headline: Option<String>,
    pub bio: Option<String>,
    pub skills: Vec<String>,
    pub experience_years: Option<i32>,
    pub education: Vec<Education>,
    pub work_experience: Vec<WorkExperience>,
    pub preferred_categories: Vec<String>,
    pub preferred_job_types: Vec<String>,
    pub preferred_locations: Vec<String>,
    pub expected_salary_min_minor: Option<i64>,
    pub expected_salary_max_minor: Option<i64>,
    pub willing_to_relocate: bool,
    pub resume_url: Option<String>,
    pub portfolio_url: Option<String>,
    pub linkedin_url: Option<String>,
    pub subscription_plan: JobSeekerSubscriptionPlan,
    pub subscription_expires_at: Option<i64>,
    pub is_verified: bool,
    pub is_available: bool,
    pub profile_views: u32,
    pub applications_count: u32,
    pub created_at: i64,
    pub updated_at: i64,
}

impl JobSeekerProfile {
    pub open spec fn wf(&self) -> bool {
        is_oid(self.id@) && is_oid(self.user_id@)
    }
}

/// Fields given when creating a job-seeker profile.
pub struct CreateJobSeekerProfileDto {
    pub full_name: String,
    pub headline: Option<String>,
    pub bio: Option<String>,
    pub skills: Vec<String>,
    pub experience_years: Option<i32>,
    pub education: Vec<Education>,
    pub work_experience: Vec<WorkExperience>,
    pub preferred_categories: Vec<String>,
    pub preferred_job_types: Vec<String>,
    pub preferred_locations: Vec<String>,
    pub expected_salary_min_minor: Option<i64>,
    pub expected_salary_max_minor: Option<i64>,
    pub willing_to_relocate: bool,
    pub resume_url: Option<String>,
    pub portfolio_url: Option<String>,
    pub linkedin_url: Option<String>,
}

/// A name counts as given when some character is not ASCII whitespace.
pub open spec fn is_blank(s: Seq<char>) -> bool {
    forall|i: int|
        0 <= i < s.len() ==> (#[trigger] s[i] == ' ' || s[i] == '\t' || s[i] == '\n' || s[i]
            == '\r')
}

/// Says whether the string is all ASCII whitespace (or empty).
pub fn check_blank(s: &String) -> (r: bool)
    ensures
        r == is_blank(s@),
{
    let n = s.as_str().unicode_len();
    let mut i: usize = 0;
    while i < n
        invariant
            n == s@.len(),
            i <= n,
            forall|j: int|
                0 <= j < i ==> (#[trigger] s@[j] == ' ' || s@[j] == '\t' || s@[j] == '\n' || s@[j]
                    == '\r'),
        decreases n - i,
    {
        let c = s.as_str().get_char(i);
        if !(c == ' ' || c == '\t' || c == '\n' || c == '\r') {
            return false;
        }
        i = i + 1;
    }
    true
}

/// Whether some profile belongs to `user_id`.
pub open spec fn has_seeker_for(profiles: Seq<JobSeekerProfile>, user_id: Seq<u8>) -> bool {
    exists|i: int| 0 <= i < profiles.len() && #[trigger] profiles[i].user_id@ == user_id
}

/// Whether some profile carries `id`.
pub open spec fn has_seeker_id(profiles: Seq<JobSeekerProfile>, id: Seq<u8>) -> bool {
    exists|i: int| 0 <= i < profiles.len() && #[trigger] profiles[i].id@ == id
}

/// All job-seeker profiles.
pub struct JobSeekerDirectory {
    pub profiles: Vec<JobSeekerProfile>,
}

impl JobSeekerDirectory {
    pub open spec fn wf(&self) -> bool {
        &&& forall|i: int| 0 <= i < self.profiles@.len() ==> (#[trigger] self.profiles@[i]).wf()
        &&& forall|i: int, j: int|
            0 <= i < j < self.profiles@.len() ==> self.profiles@[i].id@ != self.profiles@[j].id@
                && self.profiles@[i].user_id@ != self.profiles@[j].user_id@
    }

    pub fn new() -> (r: JobSeekerDirectory)
        ensures
            r.wf(),
            r.profiles@.len() == 0,
    {
        JobSeekerDirectory { profiles: Vec::new() }
    }

    /// Index of the profile owned by `user_id`.
    pub fn find_by_user(&self, user_id: &[u8]) -> (r: Option<usize>)
        ensures
            r is Some <==> has_seeker_for(self.profiles@, user_id@),
            r matches Some(i) ==> 0 <= i < self.profiles@.len() && self.profiles@[
                i as int
            ].user_id@ == user_id@,
    {
        let n = self.profiles.len();
        for i in 0..n
            invariant
                n == self.profiles@.len(),
                forall|j: int| 0 <= j < i ==> #[trigger] self.profiles@[j].user_id@ != user_id@,
        {
            if crate::text::bytes_eq(self.profiles[i].user_id.as_slice(), user_id) {
                return Some(i);
            }
        }
        None
    }

    /// Creates the caller's job-seeker profile.  The caller must hold an
    /// active job-seeker subscription and no profile yet; the name must
    /// not be blank and at least one skill must be given.  All four
    /// failures are `400`.
    pub fn create_profile(
        &mut self,
        subs: &SubscriptionBook,
        id: Vec<u8>,
        user_id: Vec<u8>,
        dto: CreateJobSeekerProfileDto,
        now: i64,
    ) -> (r: Result<usize, ApiError>)
        requires
            old(self).wf(),
            is_oid(id@),
            is_oid(user_id@),
            !has_seeker_id(old(self).profiles@, id@),
        ensures
            final(self).wf(),
            r is Ok <==> (has_active(subs.subs@, user_id@, SubscriptionType::JobSeeker, now)
                && !has_seeker_for(old(self).profiles@, user_id@) && !is_blank(dto.full_name@)
                && dto.skills@.len() > 0),
            r matches Err(e) ==> e.status == STATUS_BAD_REQUEST && final(self).profiles@ == old(
                self,
            ).profiles@,
            r matches Ok(idx) ==> ({
                &&& idx == old(self).profiles@.len()
                &&& final(self).profiles@.len() == old(self).profiles@.len() + 1
                &&& (forall|j: int|
                    0 <= j < old(self).profiles@.len() ==> final(self).profiles@[j] == old(
                        self,
                    ).profiles@[j])
                &&& ({
                    let p = final(self).profiles@.last();
                    &&& p.id == id
                    &&& p.user_id == user_id
                    &&& p.full_name == dto.full_name
                    &&& p.skills == dto.skills
                    &&& p.preferred_categories == dto.preferred_categories
                    &&& (exists|i: int|
                        0 <= i < subs.subs@.len() && is_active_at(
                            #[trigger] subs.subs@[i],
                            user_id@,
                            SubscriptionType::JobSeeker,
                            now,
                        ) && p.subscription_plan == seeker_plan_of_name(subs.subs@[i].plan_name@))
                    &&& !p.is_verified
                    &&& p.is_available
                    &&& p.profile_views == 0
                    &&& p.applications_count == 0
                    &&& p.created_at == now
                    &&& p.updated_at == now
                })
            }),
    {
        let sub_idx = match subs.find_active(user_id.as_slice(), SubscriptionType::JobSeeker, now) {
            Some(i) => i,
            None => {
                return Err(ApiError {
                    status: STATUS_BAD_REQUEST,
                    message: "Active job seeker subscription required to create profile".to_owned(),
                });
            },
        };
        if self.find_by_user(user_id.as_slice()).is_some() {
            return Err(ApiError {
                status: STATUS_BAD_REQUEST,
                message: "Job seeker profile already exists".to_owned(),
            });
        }
        if check_blank(&dto.full_name) {
            return Err(ApiError {
                status: STATUS_BAD_REQUEST,
                message: "Full name is required".to_owned(),
            });
        }
        if dto.skills.len() == 0 {
            return Err(ApiError {
                status: STATUS_BAD_REQUEST,
                message: "At least one skill is required".to_owned(),
            });
        }
        let plan_name = &subs.subs[sub_idx].plan_name;
        let is_basic = plan_name.len() == 5 && plan_name[0] == 0x62 && plan_name[1] == 0x61
            && plan_name[2] == 0x73 && plan_name[3] == 0x69 && plan_name[4] == 0x63;
        let is_premium = plan_name.len() == 7 && plan_name[0] == 0x70 && plan_name[1] == 0x72
            && plan_name[2] == 0x65 && plan_name[3] == 0x6d && plan_name[4] == 0x69 && plan_name[5]
            == 0x75 && plan_name[6] == 0x6d;
        proof {
            assert(is_basic == (plan_name@ =~= basic_name()));
            assert(is_premium == (plan_name@ =~= premium_name()));
        }
        let plan = if is_basic {
            JobSeekerSubscriptionPlan::Basic
        } else if is_premium {
            JobSeekerSubscriptionPlan::Premium
        } else {
            JobSeekerSubscriptionPlan::Free
        };
        let profile = JobSeekerProfile {
            id,
            user_id,
            full_name: dto.full_name,
            headline: dto.headline,
            bio: dto.bio,
            skills: dto.skills,
            experience_years: dto.experience_years,
            education: dto.education,
            work_experience: dto.work_experience,
            preferred_categories: dto.preferred_categories,
            preferred_job_types: dto.preferred_job_types,
            preferred_locations: dto.preferred_locations,
            expected_salary_min_minor: dto.expected_salary_min_minor,
            expected_salary_max_minor: dto.expected_salary_max_minor,
            willing_to_relocate: dto.willing_to_relocate,
            resume_url: dto.resume_url,
            portfolio_url: dto.portfolio_url,
            linkedin_url: dto.linkedin_url,
            subscription_plan: plan,
            subscription_expires_at: Some(subs.subs[sub_idx].expires_at),
            is_verified: false,
            is_available: true,
            profile_views: 0,
            applications_count: 0,
            created_at: now,
            updated_at: now,
        };
        let idx = self.profiles.len();
        self.profiles.push(profile);
        Ok(idx)
    }

    /// Counts one more view of the profile at `idx`.
    pub fn record_view(&mut self, idx: usize)
        requires
            old(self).wf(),
            idx < old(self).profiles@.len(),
        ensures
            final(self).wf(),
            final(self).profiles@.len() == old(self).profiles@.len(),
            forall|j: int|
                0 <= j < old(self).profiles@.len() && j != idx ==> final(self).profiles@[j] == old(
                    self,
                ).profiles@[j],
            final(self).profiles@[idx as int].profile_views == (if old(self).profiles@[
                idx as int
            ].profile_views < 0xffffffff {
                old(self).profiles@[idx as int].profile_views + 1
            } else {
                old(self).profiles@[idx as int].profile_views as int
            }),
            final(self).profiles@[idx as int].id == old(self).profiles@[idx as int].id,
            final(self).profiles@[idx as int].user_id == old(self).profiles@[idx as int].user_id,
            final(self).profiles@[idx as int].full_name == old(self).profiles@[
                idx as int
            ].full_name,
    {
        let p0 = self.profiles.remove(idx);
        let views = if p0.profile_views < 0xffffffff {
            p0.profile_views + 1
        } else {
            p0.profile_views
        };
        let p1 = JobSeekerProfile { profile_views: views, ..p0 };
        self.profiles.insert(idx, p1);
    }

    /// Soft delete: the caller's profile is marked unavailable; `404` when
    /// there is none.
    pub fn deactivate(&mut self, user_id: &[u8], now: i64) -> (r: Result<(), ApiError>)
        requires
            old(self).wf(),
        ensures
            final(self).wf(),
            r is Ok <==> has_seeker_for(old(self).profiles@, user_id@),
            r matches Err(e) ==> e.status == STATUS_NOT_FOUND && final(self).profiles@ == old(
                self,
            ).profiles@,
            r is Ok ==> exists|i: int|
                {
                    &&& 0 <= i < old(self).profiles@.len()
                    &&& (#[trigger] old(self).profiles@[i]).user_id@ == user_id@
                    &&& final(self).profiles@.len() == old(self).profiles@.len()
                    &&& (forall|j: int|
                        0 <= j < old(self).profiles@.len() && j != i
                            ==> final(self).profiles@[j] == old(self).profiles@[j])
                    &&& !final(self).profiles@[i].is_available
                    &&& final(self).profiles@[i].updated_at == now
                    &&& final(self).profiles@[i].id == old(self).profiles@[i].id
                    &&& final(self).profiles@[i].user_id == old(self).profiles@[i].user_id
                },
    {
        let idx = match self.find_by_user(user_id) {
            Some(i) => i,
            None => {
                return Err(ApiError {
                    status: STATUS_NOT_FOUND,
                    message: "Job seeker profile not found".to_owned(),
                });
            },
        };
        let p0 = self.profiles.remove(idx);
        let p1 = JobSeekerProfile { is_available: false, updated_at: now, ..p0 };
        self.profiles.insert(idx, p1);
        Ok(())
    }
}

/// An admin's verification verdict on a job seeker.  The reason rides
/// along for the audit trail; the update itself only flips the flag.
pub struct UpdateJobSeekerVerificationDto {
    pub is_verified: bool,
    pub rejection_reason: Option<String>,
}

impl JobSeekerDirectory {
    /// An admin marks a job seeker verified or revokes it.  A malformed id
    /// is `400`; an id naming no profile changes nothing and still
    /// succeeds, as the store's blind update would.
    pub fn set_seeker_verification(
        &mut self,
        profile_id: &[u8],
        dto: &UpdateJobSeekerVerificationDto,
        now: i64,
    ) -> (r: Result<(), ApiError>)
        requires
            old(self).wf(),
        ensures
            final(self).wf(),
            r is Ok <==> (profile_id@.len() == 24 && (forall|i: int|
                0 <= i < profile_id@.len() ==> crate::text::is_hex_digit(
                    #[trigger] profile_id@[i],
                ))),
            r matches Err(e) ==> e.status == STATUS_BAD_REQUEST && final(self).profiles@ == old(
                self,
            ).profiles@,
            r is Ok && !has_seeker_id(old(self).profiles@, crate::ids::oid_canon(profile_id@))
                ==> final(self).profiles@ == old(self).profiles@,
            r is Ok && has_seeker_id(old(self).profiles@, crate::ids::oid_canon(profile_id@))
                ==> exists|i: int|
                {
                    &&& 0 <= i < old(self).profiles@.len()
                    &&& (#[trigger] old(self).profiles@[i]).id@ == crate::ids::oid_canon(
                        profile_id@,
                    )
                    &&& final(self).profiles@.len() == old(self).profiles@.len()
                    &&& (forall|j: int|
                        0 <= j < old(self).profiles@.len() && j != i
                            ==> final(self).profiles@[j] == old(self).profiles@[j])
                    &&& final(self).profiles@[i].is_verified == dto.is_verified
                    &&& final(self).profiles@[i].updated_at == now
                    &&& final(self).profiles@[i].id == old(self).profiles@[i].id
                    &&& final(self).profiles@[i].user_id == old(self).profiles@[i].user_id
                },
    {
        let target = match crate::ids::parse_oid(profile_id) {
            Some(t) => t,
            None => {
                return Err(ApiError {
                    status: STATUS_BAD_REQUEST,
                    message: "Invalid profile ID".to_owned(),
                });
            },
        };
        let n = self.profiles.len();
        let mut idx: usize = 0;
        let mut found = false;
        while idx < n && !found
            invariant
                n == self.profiles@.len(),
                idx <= n,
                found ==> idx < n && self.profiles@[idx as int].id@ == target@,
                !found ==> forall|j: int|
                    0 <= j < idx ==> #[trigger] self.profiles@[j].id@ != target@,
            decreases n - idx + (if found { 0int } else { 1int }),
        {
            if crate::text::bytes_eq(self.profiles[idx].id.as_slice(), target.as_slice()) {
                found = true;
            } else {
                idx = idx + 1;
            }
        }
        if !found {
            return Ok(());
        }
        let p0 = self.profiles.remove(idx);
        let p1 = JobSeekerProfile { is_verified: dto.is_verified, updated_at: now, ..p0 };
        self.profiles.insert(idx, p1);
        proof {
            assert(old(self).profiles@[idx as int].id@ == crate::ids::oid_canon(profile_id@));
        }
        Ok(())
    }
}

/// A job-seeker search query.  `skills` lists the skills already split
/// apart at the transport boundary; a profile matches when it has any of
/// them.
pub struct SearchJobSeekersQuery {
    pub skills: Option<Vec<String>>,
    pub category: Option<String>,
    pub job_type: Option<String>,
    pub location: Option<String>,
    pub min_experience: Option<i32>,
    pub max_experience: Option<i32>,
    pub page: Option<i64>,
    pub limit: Option<i64>,
}

impl Ranked for JobSeekerProfile {
    /// Search order: subscription tier descending, then profile views
    /// descending, then creation time descending.
    open spec fn rank(&self) -> int {
        (2 - seeker_tier(self.subscription_plan)) * 0x1000000000000000000000000 + (0xffffffff
            - self.profile_views) * 0x10000000000000000 + (0x7fffffffffffffff - self.created_at)
    }

    fn key(&self) -> (r: u128)
        ensures
            r == self.rank(),
    {
        let tier: u128 = match self.subscription_plan {
            JobSeekerSubscriptionPlan::Free => 0,
            JobSeekerSubscriptionPlan::Basic => 1,
            JobSeekerSubscriptionPlan::Premium => 2,
        };
        let views: u128 = 0xffffffffu128 - self.profile_views as u128;
        let created: u128 = ((0x7fffffffffffffffi128 - self.created_at as i128)) as u128;
        (2 - tier) * 0x1000000000000000000000000 + views * 0x10000000000000000 + created
    }
}

/// Whether any of the wanted skills appears in the profile's skills.
pub open spec fn any_skill_match(profile_skills: Seq<String>, wanted: Seq<String>) -> bool {
    exists|i: int| 0 <= i < wanted.len() && contains_str(profile_skills, #[trigger] wanted[i]@)
}

/// A profile passes the search filter.
pub open spec fn seeker_eligible(p: JobSeekerProfile, q: SearchJobSeekersQuery) -> bool {
    &&& p.is_available
    &&& p.is_verified
    &&& (q.skills matches Some(w) ==> any_skill_match(p.skills@, w@))
    &&& (q.category matches Some(c) ==> contains_str(p.preferred_categories@, c@))
    &&& (q.job_type matches Some(t) ==> contains_str(p.preferred_job_types@, t@))
    &&& (q.location matches Some(l) ==> contains_str(p.preferred_locations@, l@))
    &&& (q.min_experience matches Some(m) ==> p.experience_years matches Some(e) && e >= m)
    &&& (q.max_experience matches Some(m) ==> p.experience_years matches Some(e) && e <= m)
}

/// The matching profiles, in input order.
pub open spec fn filter_seekers(s: Seq<JobSeekerProfile>, q: SearchJobSeekersQuery) -> Seq<
    JobSeekerProfile,
>
    decreases s.len(),
{
    if s.len() == 0 {
        Seq::empty()
    } else {
        let prefix = filter_seekers(s.drop_last(), q);
        if seeker_eligible(s.last(), q) {
            prefix.push(s.last())
        } else {
            prefix
        }
    }
}

/// Whether any of `wanted` is among `skills`.
fn match_any_skill(skills: &Vec<String>, wanted: &Vec<String>) -> (r: bool)
    ensures
        r == any_skill_match(skills@, wanted@),
{
    let n = wanted.len();
    for i in 0..n
        invariant
            n == wanted@.len(),
            forall|j: int| 0 <= j < i ==> !contains_str(skills@, (#[trigger] wanted@[j])@),
    {
        if vec_contains_string(skills, &wanted[i]) {
            return true;
        }
    }
    false
}

/// The job-seeker search: keeps the available, verified profiles matching
/// the query, orders them by tier, then views, then recency, and returns
/// the requested page with the unpaginated total.
pub fn search_job_seekers(profiles: Vec<JobSeekerProfile>, query: &SearchJobSeekersQuery) -> (r: (
    Vec<JobSeekerProfile>,
    usize,
))
    ensures
        ({
            let elig = filter_seekers(profiles@, *query);
            &&& r.1 == elig.len()
            &&& sorted_by_rank(r.0@)
            &&& exists|s: Seq<JobSeekerProfile>|
                {
                    &&& s.to_multiset() == elig.to_multiset()
                    &&& sorted_by_rank(s)
                    &&& r.0@ == #[trigger] s.subrange(
                        page_window(
                            s.len() as int,
                            norm_page(query.page),
                            norm_limit(query.limit, 100),
                        ).0,
                        page_window(
                            s.len() as int,
                            norm_page(query.page),
                            norm_limit(query.limit, 100),
                        ).1,
                    )
                }
        }),
{
    let ghost orig = profiles@;
    let mut rest = profiles;
    let mut kept: Vec<JobSeekerProfile> = Vec::new();
    let ghost t: int = 0;
    proof {
        assert(orig.take(0) =~= Seq::<JobSeekerProfile>::empty());
    }
    while rest.len() > 0
        invariant
            0 <= t <= orig.len(),
            rest@ =~= orig.subrange(t, orig.len() as int),
            kept@ =~= filter_seekers(orig.take(t), *query),
        decreases rest@.len(),
    {
        let p = rest.remove(0);
        proof {
            assert(p == orig[t]);
            assert(rest@ =~= orig.subrange(t + 1, orig.len() as int));
        }
        let mut ok = p.is_available && p.is_verified;
        if ok {
            if let Some(w) = query.skills.as_ref() {
                if !match_any_skill(&p.skills, w) {
                    ok = false;
                }
            }
        }
        if ok {
            if let Some(c) = query.category.as_ref() {
                if !vec_contains_string(&p.preferred_categories, c) {
                    ok = false;
                }
            }
        }
        if ok {
            if let Some(jt) = query.job_type.as_ref() {
                if !vec_contains_string(&p.preferred_job_types, jt) {
                    ok = false;
                }
            }
        }
        if ok {
            if let Some(l) = query.location.as_ref() {
                if !vec_contains_string(&p.preferred_locations, l) {
                    ok = false;
                }
            }
        }
        if ok {
            if let Some(m) = query.min_experience {
                match p.experience_years {
                    Some(e) => if e < m {
                        ok = false;
                    },
                    None => {
                        ok = false;
                    },
                }
            }
        }
        if ok {
            if let Some(m) = query.max_experience {
                match p.experience_years {
                    Some(e) => if e > m {
                        ok = false;
                    },
                    None => {
                        ok = false;
                    },
                }
            }
        }
        proof {
            assert(ok == seeker_eligible(p, *query));
            assert(orig.take(t + 1).drop_last() =~= orig.take(t));
            assert(orig.take(t + 1).last() == orig[t]);
        }
        if ok {
            kept.push(p);
        }
        proof {
            t = t + 1;
        }
    }
    proof {
        assert(orig.take(orig.len() as int) =~= orig);
    }
    let total = kept.len();
    sort_by_rank(&mut kept);
    let ghost full = kept@;
    let (pg, lim) = page_params(query.page, query.limit, 100);
    let items = slice_page(kept, pg, lim);
    proof {
        assert forall|a: int, b: int| 0 <= a < b < items@.len() implies items@[a].rank()
            <= items@[b].rank() by {
            let w = page_window(full.len() as int, norm_page(query.page), norm_limit(query.limit, 100));
            assert(items@[a] == full[w.0 + a]);
            assert(items@[b] == full[w.0 + b]);
        }
    }
    (items, total)
}

} // verus!
