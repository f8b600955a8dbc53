//! KYC submissions and moderation.  A user keeps at most one submission:
//! re-submitting after a rejection replaces the old record, while an
//! approved or in-flight submission refuses a new one.  An admin decision
//! moves the record to Approved or Rejected and is mirrored on the user.

use vstd::prelude::*;
use crate::dates::{parse_ymd, epoch_millis, date_shape, date_year, date_month, date_day, valid_ymd, epoch_days_of};
use crate::errors::{ApiError, STATUS_BAD_REQUEST, STATUS_NOT_FOUND};
use crate::ids::{is_oid, oid_canon, parse_oid};
use crate::text::is_hex_digit;
use crate::users::{User, KycStatus};
use crate::sorting::Ranked;

verus! {

/// Accepted identity documents.
#[derive(Clone, Copy, PartialEq, Eq, Structural, Debug)]
pub enum DocumentType {
    Aadhaar,
    Pan,
    DrivingLicense,
    VoterId,
}

/// Lifecycle of a KYC submission.
#[derive(Clone, Copy, PartialEq, Eq, Structural, Debug)]
pub enum KycStatusEnum {
    Pending,
    Submitted,
    UnderReview,
    Approved,
    Rejected,
}

/// A KYC record.  The birth date is midnight Unix milliseconds.
pub struct Kyc {
    pub id: Vec<u8>,
    pub user_id: Vec<u8>,
    pub full_name: String,
    pub date_of_birth: i64,
    pub address: String,
    pub city: String,
    pub state: String,
    pub pincode: Vec<u8>,
    pub document_type: DocumentType,
    pub document_number: String,
    pub document_front_image: String,
    pub document_back_image: Option<String>,
    pub selfie_image: String,
    pub status: KycStatusEnum,
    pub rejection_reason: Option<String>,
    pub verified_by: Option<Vec<u8>>,
    pub verified_at: Option<i64>,
    pub created_at: i64,
    pub updated_at: i64,
}

/// What a user submits.
pub struct SubmitKycDto {
    pub full_name: String,
    /// Birth date as `YYYY-MM-DD`.
    pub date_of_birth: Vec<u8>,
    pub address: String,
    pub city: String,
    pub state: String,
    pub pincode: Vec<u8>,
    pub document_type: DocumentType,
    pub document_number: String,
    pub document_front_image: String,
    pub document_back_image: Option<String>,
    pub selfie_image: String,
}

/// Whether some record belongs to `user_id`.
pub open spec fn has_kyc_for(ks: Seq<Kyc>, user_id: Seq<u8>) -> bool {
    exists|i: int| 0 <= i < ks.len() && #[trigger] ks[i].user_id@ == user_id
}

/// Whether some record carries `id`.
pub open spec fn has_kyc_id(ks: Seq<Kyc>, id: Seq<u8>) -> bool {
    exists|i: int| 0 <= i < ks.len() && #[trigger] ks[i].id@ == id
}

/// The user's submission blocks a new one: approved, or still in flight.
pub open spec fn kyc_blocked(ks: Seq<Kyc>, user_id: Seq<u8>) -> bool {
    exists|i: int|
        0 <= i < ks.len() && (#[trigger] ks[i]).user_id@ == user_id && (ks[i].status
            == KycStatusEnum::Approved || ks[i].status == KycStatusEnum::Submitted || ks[i].status
            == KycStatusEnum::UnderReview)
}

/// A parseable birth date.
pub open spec fn dob_ok(s: Seq<u8>) -> bool {
    date_shape(s) && valid_ymd(date_year(s), date_month(s), date_day(s))
}

/// The millisecond timestamp a well-formed birth date denotes.
pub open spec fn dob_millis(s: Seq<u8>) -> int {
    epoch_days_of(date_year(s), date_month(s), date_day(s)) * 86400000
}

/// An admin decision: `approved` or `rejected`, with an optional reason.
pub struct UpdateKycStatusDto {
    pub status: Vec<u8>,
    pub rejection_reason: Option<String>,
}

/// The accepted decision words.
pub open spec fn approved_word() -> Seq<u8> {
    seq![0x61u8, 0x70u8, 0x70u8, 0x72u8, 0x6fu8, 0x76u8, 0x65u8, 0x64u8]
}

pub open spec fn rejected_word() -> Seq<u8> {
    seq![0x72u8, 0x65u8, 0x6au8, 0x65u8, 0x63u8, 0x74u8, 0x65u8, 0x64u8]
}

/// All KYC records, the latest (only) one per user.
pub struct KycBook {
    pub kycs: Vec<Kyc>,
}

impl KycBook {
    pub open spec fn wf(&self) -> bool {
        &&& forall|i: int, j: int|
            0 <= i < j < self.kycs@.len() ==> self.kycs@[i].id@ != self.kycs@[j].id@
                && self.kycs@[i].user_id@ != self.kycs@[j].user_id@
    }

    pub fn new() -> (r: KycBook)
        ensures
            r.wf(),
            r.kycs@.len() == 0,
    {
        KycBook { kycs: Vec::new() }
    }

    /// Index of the record belonging to `user_id`.
    pub fn find_by_user(&self, user_id: &[u8]) -> (r: Option<usize>)
        ensures
            r is Some <==> has_kyc_for(self.kycs@, user_id@),
            r matches Some(i) ==> 0 <= i < self.kycs@.len() && self.kycs@[i as int].user_id@
                == user_id@,
    {
        let n = self.kycs.len();
        for i in 0..n
            invariant
                n == self.kycs@.len(),
                forall|j: int| 0 <= j < i ==> #[trigger] self.kycs@[j].user_id@ != user_id@,
        {
            if crate::text::bytes_eq(self.kycs[i].user_id.as_slice(), user_id) {
                return Some(i);
            }
        }
        None
    }

    /// Index of the record carrying `id`.
    pub fn find_by_id(&self, id: &[u8]) -> (r: Option<usize>)
        ensures
            r is Some <==> has_kyc_id(self.kycs@, id@),
            r matches Some(i) ==> 0 <= i < self.kycs@.len() && self.kycs@[i as int].id@ == id@,
    {
        let n = self.kycs.len();
        for i in 0..n
            invariant
                n == self.kycs@.len(),
                forall|j: int| 0 <= j < i ==> #[trigger] self.kycs@[j].id@ != id@,
        {
            if crate::text::bytes_eq(self.kycs[i].id.as_slice(), id) {
                return Some(i);
            }
        }
        None
    }

    /// A new submission.  An unparseable birth date is `400` before any
    /// state changes; an approved or in-flight submission is `400`.
    /// Otherwise any previous (rejected or pending) record is replaced by
    /// the new one in `Submitted` state, and the user record mirrors it.
    pub fn submit(
        &mut self,
        user: &mut User,
        id: Vec<u8>,
        user_id: Vec<u8>,
        dto: SubmitKycDto,
        now: i64,
    ) -> (r: Result<(), ApiError>)
        requires
            old(self).wf(),
            is_oid(id@),
            is_oid(user_id@),
            !has_kyc_id(old(self).kycs@, id@),
        ensures
            final(self).wf(),
            r is Ok <==> (dob_ok(dto.date_of_birth@) && !kyc_blocked(old(self).kycs@, user_id@)),
            r matches Err(e) ==> e.status == STATUS_BAD_REQUEST && final(self).kycs@ == old(
                self,
            ).kycs@ && *final(user) == *old(user),
            r is Ok ==> ({
                &&& !has_kyc_for(old(self).kycs@, user_id@) ==> final(self).kycs@.len() == old(
                    self,
                ).kycs@.len() + 1
                &&& has_kyc_for(old(self).kycs@, user_id@) ==> final(self).kycs@.len() == old(
                    self,
                ).kycs@.len()
                &&& has_kyc_for(final(self).kycs@, user_id@)
                &&& final(self).kycs@.last().id == id
                &&& final(self).kycs@.last().user_id == user_id
                &&& final(self).kycs@.last().status == KycStatusEnum::Submitted
                &&& final(self).kycs@.last().full_name == dto.full_name
                &&& final(self).kycs@.last().date_of_birth == dob_millis(dto.date_of_birth@)
                &&& final(self).kycs@.last().address == dto.address
                &&& final(self).kycs@.last().city == dto.city
                &&& final(self).kycs@.last().state == dto.state
                &&& final(self).kycs@.last().pincode == dto.pincode
                &&& final(self).kycs@.last().document_type == dto.document_type
                &&& final(self).kycs@.last().document_number == dto.document_number
                &&& final(self).kycs@.last().document_front_image == dto.document_front_image
                &&& final(self).kycs@.last().document_back_image == dto.document_back_image
                &&& final(self).kycs@.last().selfie_image == dto.selfie_image
                &&& final(self).kycs@.last().rejection_reason is None
                &&& final(self).kycs@.last().verified_by is None
                &&& final(self).kycs@.last().verified_at is None
                &&& final(self).kycs@.last().created_at == now
                &&& final(self).kycs@.last().updated_at == now
                &&& final(user).kyc_status == KycStatus::Submitted
                &&& final(user).id == old(user).id
                &&& final(user).mobile == old(user).mobile
            }),
    {
        let (y, m, d) = match parse_ymd(dto.date_of_birth.as_slice()) {
            Some(t) => t,
            None => {
                return Err(ApiError {
                    status: STATUS_BAD_REQUEST,
                    message: "Invalid date format. Use YYYY-MM-DD".to_owned(),
                });
            },
        };
        let existing = self.find_by_user(user_id.as_slice());
        if let Some(i) = existing {
            let blocked = matches!(
                self.kycs[i].status,
                KycStatusEnum::Approved | KycStatusEnum::Submitted | KycStatusEnum::UnderReview
            );
            if blocked {
                proof {
                    assert forall|j: int|
                        0 <= j < self.kycs@.len() && (#[trigger] self.kycs@[j]).user_id@
                            == user_id@ implies j == i as int by {}
                }
                return Err(ApiError {
                    status: STATUS_BAD_REQUEST,
                    message: "KYC already submitted or approved".to_owned(),
                });
            }
            let _old = self.kycs.remove(i);
            proof {
                assert(!kyc_blocked(old(self).kycs@, user_id@)) by {
                    assert forall|j: int|
                        0 <= j < old(self).kycs@.len() && (#[trigger] old(self).kycs@[j]).user_id@
                            == user_id@ implies j == i as int by {}
                }
            }
        }
        let dob = epoch_millis(y, m, d);
        let record = Kyc {
            id,
            user_id,
            full_name: dto.full_name,
            date_of_birth: dob,
            address: dto.address,
            city: dto.city,
            state: dto.state,
            pincode: dto.pincode,
            document_type: dto.document_type,
            document_number: dto.document_number,
            document_front_image: dto.document_front_image,
            document_back_image: dto.document_back_image,
            selfie_image: dto.selfie_image,
            status: KycStatusEnum::Submitted,
            rejection_reason: None,
            verified_by: None,
            verified_at: None,
            created_at: now,
            updated_at: now,
        };
        self.kycs.push(record);
        user.kyc_status = KycStatus::Submitted;
        proof {
            assert(self.kycs@[self.kycs@.len() - 1].user_id@ == user_id@);
        }
        Ok(())
    }

    /// An admin decision on the record named `kyc_id`: `approved` or
    /// `rejected` (anything else is `400`), with `404` for a record that
    /// does not exist and `400` for a malformed id.  Returns the owning
    /// user's id and the status to mirror onto that user.
    pub fn decide(
        &mut self,
        kyc_id: &[u8],
        dto: UpdateKycStatusDto,
        admin_id: Vec<u8>,
        now: i64,
    ) -> (r: Result<(Vec<u8>, KycStatus), ApiError>)
        requires
            old(self).wf(),
        ensures
            final(self).wf(),
            ({
                let id_ok = kyc_id@.len() == 24 && (forall|i: int|
                    0 <= i < kyc_id@.len() ==> is_hex_digit(#[trigger] kyc_id@[i]));
                let target = oid_canon(kyc_id@);
                let approve = dto.status@ == approved_word();
                let word_ok = dto.status@ == approved_word() || dto.status@ == rejected_word();
                let rejection_reason = dto.rejection_reason;
                &&& (r is Ok <==> (id_ok && has_kyc_id(old(self).kycs@, target) && word_ok))
                &&& (!id_ok ==> (r matches Err(e) && e.status == STATUS_BAD_REQUEST))
                &&& (id_ok && !has_kyc_id(old(self).kycs@, target) ==> (r matches Err(e)
                    && e.status == STATUS_NOT_FOUND))
                &&& (id_ok && has_kyc_id(old(self).kycs@, target) && !word_ok ==> (
                r matches Err(e) && e.status == STATUS_BAD_REQUEST))
                &&& (r is Err ==> final(self).kycs@ == old(self).kycs@)
                &&& (r matches Ok(out) ==> exists|i: int|
                    {
                        &&& 0 <= i < old(self).kycs@.len()
                        &&& (#[trigger] old(self).kycs@[i]).id@ == target
                        &&& out.0@ == old(self).kycs@[i].user_id@
                        &&& out.1 == (if approve {
                            KycStatus::Approved
                        } else {
                            KycStatus::Rejected
                        })
                        &&& final(self).kycs@.len() == old(self).kycs@.len()
                        &&& (forall|j: int|
                            0 <= j < old(self).kycs@.len() && j != i
                                ==> final(self).kycs@[j] == old(self).kycs@[j])
                        &&& final(self).kycs@[i].status == (if approve {
                            KycStatusEnum::Approved
                        } else {
                            KycStatusEnum::Rejected
                        })
                        &&& final(self).kycs@[i].verified_by == Some(admin_id)
                        &&& final(self).kycs@[i].verified_at == Some(now)
                        &&& final(self).kycs@[i].updated_at == now
                        &&& final(self).kycs@[i].rejection_reason == (if rejection_reason is Some {
                            rejection_reason
                        } else {
                            old(self).kycs@[i].rejection_reason
                        })
                        &&& final(self).kycs@[i].id == old(self).kycs@[i].id
                        &&& final(self).kycs@[i].user_id == old(self).kycs@[i].user_id
                    })
            }),
    {
        let target = match parse_oid(kyc_id) {
            Some(t) => t,
            None => {
                return Err(ApiError {
                    status: STATUS_BAD_REQUEST,
                    message: "Invalid KYC ID".to_owned(),
                });
            },
        };
        let idx = match self.find_by_id(target.as_slice()) {
            Some(i) => i,
            None => {
                return Err(ApiError {
                    status: STATUS_NOT_FOUND,
                    message: "KYC not found".to_owned(),
                });
            },
        };
        let w = &dto.status;
        let is_approved = w.len() == 8 && w[0] == 0x61 && w[1] == 0x70 && w[2] == 0x70 && w[3]
            == 0x72 && w[4] == 0x6f && w[5] == 0x76 && w[6] == 0x65 && w[7] == 0x64;
        let is_rejected = w.len() == 8 && w[0] == 0x72 && w[1] == 0x65 && w[2] == 0x6a && w[3]
            == 0x65 && w[4] == 0x63 && w[5] == 0x74 && w[6] == 0x65 && w[7] == 0x64;
        proof {
            assert(is_approved == (w@ =~= approved_word()));
            assert(is_rejected == (w@ =~= rejected_word()));
        }
        if !is_approved && !is_rejected {
            return Err(ApiError {
                status: STATUS_BAD_REQUEST,
                message: "Invalid status".to_owned(),
            });
        }
        let approve = is_approved;
        let rejection_reason = dto.rejection_reason;
        let k0 = self.kycs.remove(idx);
        let mut out_user: Vec<u8> = Vec::new();
        crate::text::append_bytes(&mut out_user, k0.user_id.as_slice());
        proof {
            assert(out_user@ =~= k0.user_id@);
        }
        let new_reason = match rejection_reason {
            Some(reason) => Some(reason),
            None => k0.rejection_reason,
        };
        let k1 = Kyc {
            status: if approve {
                KycStatusEnum::Approved
            } else {
                KycStatusEnum::Rejected
            },
            verified_by: Some(admin_id),
            verified_at: Some(now),
            updated_at: now,
            rejection_reason: new_reason,
            ..k0
        };
        self.kycs.insert(idx, k1);
        let status = if approve {
            KycStatus::Approved
        } else {
            KycStatus::Rejected
        };
        proof {
            assert(old(self).kycs@[idx as int].id@ == oid_canon(kyc_id@));
            assert(self.kycs@[idx as int].status == (if approve {
                KycStatusEnum::Approved
            } else {
                KycStatusEnum::Rejected
            }));
        }
        Ok((out_user, status))
    }
}

/// Filter and page selection for the moderation queue.
pub struct KycListQuery {
    /// Status word: `pending`, `submitted`, `underreview`, `approved` or
    /// `rejected`; anything else matches nothing.
    pub status: Option<Vec<u8>>,
    pub page: Option<i64>,
    pub limit: Option<i64>,
}

impl crate::sorting::Ranked for Kyc {
    /// Moderation queue order: newest submission first.
    open spec fn rank(&self) -> int {
        0x7fffffffffffffff - self.created_at
    }

    fn key(&self) -> (r: u128)
        ensures
            r == self.rank(),
    {
        ((0x7fffffffffffffffi128 - self.created_at as i128)) as u128
    }
}

/// The status a filter word names, if any.
pub open spec fn status_of_word(w: Seq<u8>) -> Option<KycStatusEnum> {
    if w == seq![0x70u8, 0x65u8, 0x6eu8, 0x64u8, 0x69u8, 0x6eu8, 0x67u8] {
        Some(KycStatusEnum::Pending)
    } else if w == seq![0x73u8, 0x75u8, 0x62u8, 0x6du8, 0x69u8, 0x74u8, 0x74u8, 0x65u8, 0x64u8] {
        Some(KycStatusEnum::Submitted)
    } else if w == seq![
        0x75u8, 0x6eu8, 0x64u8, 0x65u8, 0x72u8, 0x72u8, 0x65u8, 0x76u8, 0x69u8, 0x65u8, 0x77u8,
    ] {
        Some(KycStatusEnum::UnderReview)
    } else if w == approved_word() {
        Some(KycStatusEnum::Approved)
    } else if w == rejected_word() {
        Some(KycStatusEnum::Rejected)
    } else {
        None
    }
}

/// Says which status the word names.
fn parse_status_word(w: &[u8]) -> (r: Option<KycStatusEnum>)
    ensures
        r == status_of_word(w@),
{
    let is_pending = w.len() == 7 && w[0] == 0x70 && w[1] == 0x65 && w[2] == 0x6e && w[3] == 0x64
        && w[4] == 0x69 && w[5] == 0x6e && w[6] == 0x67;
    let is_submitted = w.len() == 9 && w[0] == 0x73 && w[1] == 0x75 && w[2] == 0x62 && w[3] == 0x6d
        && w[4] == 0x69 && w[5] == 0x74 && w[6] == 0x74 && w[7] == 0x65 && w[8] == 0x64;
    let is_under = w.len() == 11 && w[0] == 0x75 && w[1] == 0x6e && w[2] == 0x64 && w[3] == 0x65
        && w[4] == 0x72 && w[5] == 0x72 && w[6] == 0x65 && w[7] == 0x76 && w[8] == 0x69 && w[9]
        == 0x65 && w[10] == 0x77;
    let is_approved = w.len() == 8 && w[0] == 0x61 && w[1] == 0x70 && w[2] == 0x70 && w[3] == 0x72
        && w[4] == 0x6f && w[5] == 0x76 && w[6] == 0x65 && w[7] == 0x64;
    let is_rejected = w.len() == 8 && w[0] == 0x72 && w[1] == 0x65 && w[2] == 0x6a && w[3] == 0x65
        && w[4] == 0x63 && w[5] == 0x74 && w[6] == 0x65 && w[7] == 0x64;
    proof {
        assert(is_pending == (w@ =~= seq![0x70u8, 0x65u8, 0x6eu8, 0x64u8, 0x69u8, 0x6eu8, 0x67u8]));
        assert(is_submitted == (w@ =~= seq![
            0x73u8,
            0x75u8,
            0x62u8,
            0x6du8,
            0x69u8,
            0x74u8,
            0x74u8,
            0x65u8,
            0x64u8,
        ]));
        assert(is_under == (w@ =~= seq![
            0x75u8,
            0x6eu8,
            0x64u8,
            0x65u8,
            0x72u8,
            0x72u8,
            0x65u8,
            0x76u8,
            0x69u8,
            0x65u8,
            0x77u8,
        ]));
        assert(is_approved == (w@ =~= approved_word()));
        assert(is_rejected == (w@ =~= rejected_word()));
    }
    if is_pending {
        Some(KycStatusEnum::Pending)
    } else if is_submitted {
        Some(KycStatusEnum::Submitted)
    } else if is_under {
        Some(KycStatusEnum::UnderReview)
    } else if is_approved {
        Some(KycStatusEnum::Approved)
    } else if is_rejected {
        Some(KycStatusEnum::Rejected)
    } else {
        None
    }
}

/// A record passes the queue filter: no word given, or its status is the
/// named one.
pub open spec fn kyc_list_eligible(k: Kyc, status: Option<Vec<u8>>) -> bool {
    match status {
        Some(w) => status_of_word(w@) == Some(k.status),
        None => true,
    }
}

/// The matching records, in input order.
pub open spec fn filter_kycs(s: Seq<Kyc>, status: Option<Vec<u8>>) -> Seq<Kyc>
    decreases s.len(),
{
    if s.len() == 0 {
        Seq::empty()
    } else {
        let prefix = filter_kycs(s.drop_last(), status);
        if kyc_list_eligible(s.last(), status) {
            prefix.push(s.last())
        } else {
            prefix
        }
    }
}

/// The moderation queue: submissions with the requested status, newest
/// first, paginated, with the unpaginated total.
pub fn list_kyc_submissions(kycs: Vec<Kyc>, query: &KycListQuery) -> (r: (Vec<Kyc>, usize))
    ensures
        ({
            let elig = filter_kycs(kycs@, query.status);
            &&& r.1 == elig.len()
            &&& crate::sorting::sorted_by_rank(r.0@)
            &&& exists|s: Seq<Kyc>|
                {
                    &&& s.to_multiset() == elig.to_multiset()
                    &&& crate::sorting::sorted_by_rank(s)
                    &&& r.0@ == #[trigger] s.subrange(
                        crate::paging::page_window(
                            s.len() as int,
                            crate::paging::norm_page(query.page),
                            crate::paging::norm_limit(query.limit, 100),
                        ).0,
                        crate::paging::page_window(
                            s.len() as int,
                            crate::paging::norm_page(query.page),
                            crate::paging::norm_limit(query.limit, 100),
                        ).1,
                    )
                }
        }),
{
    let wanted: Option<KycStatusEnum> = match &query.status {
        Some(w) => parse_status_word(w.as_slice()),
        None => None,
    };
    let filtering = query.status.is_some();
    let ghost orig = kycs@;
    let mut rest = kycs;
    let mut kept: Vec<Kyc> = Vec::new();
    let ghost t: int = 0;
    proof {
        assert(orig.take(0) =~= Seq::<Kyc>::empty());
    }
    while rest.len() > 0
        invariant
            0 <= t <= orig.len(),
            rest@ =~= orig.subrange(t, orig.len() as int),
            kept@ =~= filter_kycs(orig.take(t), query.status),
            wanted == (match query.status {
                Some(w) => status_of_word(w@),
                None => None,
            }),
            filtering == (query.status is Some),
        decreases rest@.len(),
    {
        let k = rest.remove(0);
        proof {
            assert(k == orig[t]);
            assert(rest@ =~= orig.subrange(t + 1, orig.len() as int));
            assert(orig.take(t + 1).drop_last() =~= orig.take(t));
            assert(orig.take(t + 1).last() == orig[t]);
        }
        let ok = if filtering {
            match wanted {
                Some(s) => s == k.status,
                None => false,
            }
        } else {
            true
        };
        proof {
            assert(ok == kyc_list_eligible(k, query.status));
        }
        if ok {
            kept.push(k);
        }
        proof {
            t = t + 1;
        }
    }
    proof {
        assert(orig.take(orig.len() as int) =~= orig);
    }
    let total = kept.len();
    crate::sorting::sort_by_rank(&mut kept);
    let ghost full = kept@;
    let (pg, lim) = crate::paging::page_params(query.page, query.limit, 100);
    let items = crate::paging::slice_page(kept, pg, lim);
    proof {
        assert forall|a: int, b: int| 0 <= a < b < items@.len() implies items@[a].rank()
            <= items@[b].rank() by {
            let w = crate::paging::page_window(
                full.len() as int,
                crate::paging::norm_page(query.page),
                crate::paging::norm_limit(query.limit, 100),
            );
            assert(items@[a] == full[w.0 + a]);
            assert(items@[b] == full[w.0 + b]);
        }
    }
    (items, total)
}

/// Mirrors a KYC decision onto the user record.
pub fn set_user_kyc_status(user: &mut User, status: KycStatus)
    ensures
        final(user).kyc_status == status,
        final(user).id == old(user).id,
        final(user).mobile == old(user).mobile,
        final(user).is_active == old(user).is_active,
{
    user.kyc_status = status;
}

} // verus!
