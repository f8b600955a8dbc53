//! Reviews and rating aggregation.  Each user may rate a worker once,
//! with 1 to 5 stars, and every create or delete recomputes
//! the worker's stored aggregate — average × 100, rounded — over all of the
//! worker's reviews.

use vstd::prelude::*;
use crate::errors::{ApiError, STATUS_BAD_REQUEST, STATUS_NOT_FOUND, STATUS_UNAUTHORIZED};
use crate::ids::{is_oid, oid_canon, parse_oid};
use crate::text::is_hex_digit;
use crate::workers::{WorkerDirectory, WorkerProfile, has_sub_profile_id};
use crate::sorting::Ranked;

verus! {

/// One review of a worker by a user.
pub struct Review {
    pub id: Vec<u8>,
    pub worker_id: Vec<u8>,
    pub user_id: Vec<u8>,
    /// 1 to 5 stars.
    pub rating: u8,
    pub comment: Option<String>,
    pub helpful_count: u32,
    pub created_at: i64,
    pub updated_at: i64,
}

/// How many of the reviews name this worker.
pub open spec fn rating_count(rs: Seq<Review>, worker: Seq<u8>) -> int
    decreases rs.len(),
{
    if rs.len() == 0 {
        0
    } else {
        rating_count(rs.drop_last(), worker) + if rs.last().worker_id@ == worker {
            1int
        } else {
            0int
        }
    }
}

/// Sum of the ratings of the reviews that name this worker.
pub open spec fn rating_sum(rs: Seq<Review>, worker: Seq<u8>) -> int
    decreases rs.len(),
{
    if rs.len() == 0 {
        0
    } else {
        rating_sum(rs.drop_last(), worker) + if rs.last().worker_id@ == worker {
            rs.last().rating as int
        } else {
            0int
        }
    }
}

/// The stored aggregate: the average rating times 100, rounded to the
/// nearest integer; 0 when there are no reviews.
pub open spec fn avg_hundredths(sum: int, count: int) -> int {
    if count <= 0 {
        0
    } else {
        (200 * sum + count) / (2 * count)
    }
}

/// Whether some review carries `id`.
pub open spec fn has_review_id(rs: Seq<Review>, id: Seq<u8>) -> bool {
    exists|i: int| 0 <= i < rs.len() && #[trigger] rs[i].id@ == id
}

/// Whether `user` has already reviewed `worker`.
pub open spec fn has_review_by(rs: Seq<Review>, worker: Seq<u8>, user: Seq<u8>) -> bool {
    exists|i: int|
        0 <= i < rs.len() && (#[trigger] rs[i]).worker_id@ == worker && rs[i].user_id@ == user
}

/// A well-formed raw id argument: 24 hex digits of either case.
pub open spec fn raw_id_ok(s: Seq<u8>) -> bool {
    s.len() == 24 && (forall|i: int| 0 <= i < s.len() ==> is_hex_digit(#[trigger] s[i]))
}

/// `rs1` is `rs0` plus one new review with the given fields.
pub open spec fn review_appended(
    rs0: Seq<Review>,
    rs1: Seq<Review>,
    id: Seq<u8>,
    worker: Seq<u8>,
    user: Seq<u8>,
    rating: i32,
    comment: Option<String>,
    now: i64,
) -> bool {
    &&& rs1.len() == rs0.len() + 1
    &&& (forall|j: int| 0 <= j < rs0.len() ==> rs1[j] == rs0[j])
    &&& rs1.last().id@ == id
    &&& rs1.last().worker_id@ == worker
    &&& rs1.last().user_id@ == user
    &&& rs1.last().rating == rating
    &&& rs1.last().comment == comment
    &&& rs1.last().helpful_count == 0
    &&& rs1.last().created_at == now
    &&& rs1.last().updated_at == now
}

/// `ps1` is `ps0` with the profile named `worker` carrying the aggregate
/// recomputed over `rs`, stamped at `now`; every other profile unchanged.
pub open spec fn rating_refreshed(
    ps0: Seq<WorkerProfile>,
    ps1: Seq<WorkerProfile>,
    rs: Seq<Review>,
    worker: Seq<u8>,
    now: i64,
) -> bool {
    exists|w: int|
        {
            &&& 0 <= w < ps0.len()
            &&& (#[trigger] ps0[w]).id@ == worker
            &&& ps1.len() == ps0.len()
            &&& (forall|j: int| 0 <= j < ps0.len() && j != w ==> ps1[j] == ps0[j])
            &&& ps1[w].rating_hundredths == avg_hundredths(
                rating_sum(rs, worker),
                rating_count(rs, worker),
            )
            &&& ps1[w].total_reviews == rating_count(rs, worker)
            &&& ps1[w].updated_at == now
            &&& ps1[w].id == ps0[w].id
            &&& ps1[w].user_id == ps0[w].user_id
        }
}

/// What a user submits to review a worker.
pub struct CreateReviewDto {
    pub worker_id: Vec<u8>,
    pub rating: i32,
    pub comment: Option<String>,
}

/// All reviews.
pub struct ReviewBook {
    pub reviews: Vec<Review>,
}

impl ReviewBook {
    /// Ids unique, one review per (worker, user) pair, ratings in range,
    /// and few enough records that counters fit.
    pub open spec fn wf(&self) -> bool {
        &&& self.reviews@.len() <= 0x3fffffff
        &&& (forall|i: int|
            0 <= i < self.reviews@.len() ==> 1 <= (#[trigger] self.reviews@[i]).rating <= 5)
        &&& (forall|i: int, j: int|
            0 <= i < j < self.reviews@.len() ==> self.reviews@[i].id@ != self.reviews@[j].id@)
        &&& (forall|i: int, j: int|
            0 <= i < j < self.reviews@.len() ==> !(self.reviews@[i].worker_id@
                == self.reviews@[j].worker_id@ && self.reviews@[i].user_id@
                == self.reviews@[j].user_id@))
    }

    pub fn new() -> (r: ReviewBook)
        ensures
            r.wf(),
            r.reviews@.len() == 0,
    {
        ReviewBook { reviews: Vec::new() }
    }

    /// Sum and count of this worker's ratings, over every review.
    pub fn recompute_rating(&self, worker: &[u8]) -> (r: (u64, u64))
        requires
            self.wf(),
        ensures
            r.0 == rating_sum(self.reviews@, worker@),
            r.1 == rating_count(self.reviews@, worker@),
    {
        let mut sum: u64 = 0;
        let mut count: u64 = 0;
        let n = self.reviews.len();
        proof {
            assert(self.reviews@.take(0) =~= Seq::<Review>::empty());
        }
        for i in 0..n
            invariant
                n == self.reviews@.len(),
                n <= 0x3fffffff,
                self.wf(),
                sum == rating_sum(self.reviews@.take(i as int), worker@),
                count == rating_count(self.reviews@.take(i as int), worker@),
                count <= i,
                sum <= 5 * i,
        {
            proof {
                assert(self.reviews@.take(i + 1).drop_last() =~= self.reviews@.take(i as int));
                assert(self.reviews@.take(i + 1).last() == self.reviews@[i as int]);
            }
            if crate::text::bytes_eq(self.reviews[i].worker_id.as_slice(), worker) {
                sum = sum + self.reviews[i].rating as u64;
                count = count + 1;
            }
        }
        proof {
            assert(self.reviews@.take(n as int) =~= self.reviews@);
        }
        (sum, count)
    }
}

/// The rounded average in hundredths, from a sum and count of ratings.
/// With every rating at most 5 the result never exceeds 500.
pub fn rating_aggregate(sum: u64, count: u64) -> (r: u32)
    requires
        sum <= 5 * count,
        count < 0x7fffffff,
    ensures
        r == avg_hundredths(sum as int, count as int),
        r <= 500,
{
    if count == 0 {
        return 0;
    }
    let num: u64 = 200 * sum + count;
    let den: u64 = 2 * count;
    let q: u64 = num / den;
    proof {
        assert(q <= 500 && q == avg_hundredths(sum as int, count as int)) by (nonlinear_arith)
            requires
                sum <= 5 * count,
                0 < count < 0x7fffffff,
                num == 200 * sum + count,
                den == 2 * count,
                q == num / den,
        ;
    }
    q as u32
}

/// Creates a review and refreshes the worker's stored aggregate.
///
/// In order: a rating outside 1..=5 is `400`; a malformed worker id is
/// `400`; an unknown worker is `404`; a second review of the same worker by
/// the same user is `400`.  On success the review is stored under the id
/// the store assigned and the worker's profile carries the recomputed
/// average and count.
pub fn create_review(
    book: &mut ReviewBook,
    workers: &mut WorkerDirectory,
    id: Vec<u8>,
    user_id: &[u8],
    dto: CreateReviewDto,
    now: i64,
) -> (r: Result<(), ApiError>)
    requires
        old(book).wf(),
        old(workers).wf(),
        is_oid(id@),
        !has_review_id(old(book).reviews@, id@),
        old(book).reviews@.len() < 0x3fffffff,
    ensures
        final(book).wf(),
        final(workers).wf(),
        r is Ok <==> (1 <= dto.rating <= 5 && raw_id_ok(dto.worker_id@) && has_sub_profile_id(
            old(workers).profiles@,
            oid_canon(dto.worker_id@),
        ) && !has_review_by(old(book).reviews@, oid_canon(dto.worker_id@), user_id@)),
        !(1 <= dto.rating <= 5) ==> (r matches Err(e) && e.status == STATUS_BAD_REQUEST),
        (1 <= dto.rating <= 5) && !raw_id_ok(dto.worker_id@) ==> (r matches Err(e) && e.status
            == STATUS_BAD_REQUEST),
        (1 <= dto.rating <= 5) && raw_id_ok(dto.worker_id@) && !has_sub_profile_id(
            old(workers).profiles@,
            oid_canon(dto.worker_id@),
        ) ==> (r matches Err(e) && e.status == STATUS_NOT_FOUND),
        (1 <= dto.rating <= 5) && raw_id_ok(dto.worker_id@) && has_sub_profile_id(
            old(workers).profiles@,
            oid_canon(dto.worker_id@),
        ) && has_review_by(old(book).reviews@, oid_canon(dto.worker_id@), user_id@) ==> (
        r matches Err(e) && e.status == STATUS_BAD_REQUEST),
        r is Err ==> final(book).reviews@ == old(book).reviews@ && final(workers).profiles@
            == old(workers).profiles@,
        r is Ok ==> review_appended(
            old(book).reviews@,
            final(book).reviews@,
            id@,
            oid_canon(dto.worker_id@),
            user_id@,
            dto.rating,
            dto.comment,
            now,
        ),
        r is Ok ==> rating_refreshed(
            old(workers).profiles@,
            final(workers).profiles@,
            final(book).reviews@,
            oid_canon(dto.worker_id@),
            now,
        ),
{
    let rating = dto.rating;
    let comment = dto.comment;
    if rating < 1 || rating > 5 {
        return Err(ApiError {
            status: STATUS_BAD_REQUEST,
            message: "Rating must be between 1 and 5".to_owned(),
        });
    }
    let target = match parse_oid(dto.worker_id.as_slice()) {
        Some(t) => t,
        None => {
            return Err(ApiError {
                status: STATUS_BAD_REQUEST,
                message: "Invalid worker ID".to_owned(),
            });
        },
    };
    let widx = match workers.find_by_id(target.as_slice()) {
        Some(i) => i,
        None => {
            return Err(ApiError {
                status: STATUS_NOT_FOUND,
                message: "Worker not found".to_owned(),
            });
        },
    };
    let n = book.reviews.len();
    let mut dup = false;
    for i in 0..n
        invariant
            n == book.reviews@.len(),
            dup <==> exists|j: int|
                0 <= j < i && (#[trigger] book.reviews@[j]).worker_id@ == target@
                    && book.reviews@[j].user_id@ == user_id@,
    {
        let same_worker = crate::text::bytes_eq(
            book.reviews[i].worker_id.as_slice(),
            target.as_slice(),
        );
        let same_user = crate::text::bytes_eq(book.reviews[i].user_id.as_slice(), user_id);
        if same_worker && same_user {
            dup = true;
        }
    }
    if dup {
        return Err(ApiError {
            status: STATUS_BAD_REQUEST,
            message: "You have already reviewed this worker".to_owned(),
        });
    }
    let mut user_copy: Vec<u8> = Vec::new();
    crate::text::append_bytes(&mut user_copy, user_id);
    proof {
        assert(user_copy@ =~= user_id@);
    }
    let mut worker_copy: Vec<u8> = Vec::new();
    crate::text::append_bytes(&mut worker_copy, target.as_slice());
    proof {
        assert(worker_copy@ =~= target@);
    }
    let review = Review {
        id,
        worker_id: worker_copy,
        user_id: user_copy,
        rating: rating as u8,
        comment,
        helpful_count: 0,
        created_at: now,
        updated_at: now,
    };
    book.reviews.push(review);
    proof {
        assert(book.reviews@.drop_last() =~= old(book).reviews@);
        assert(book.wf());
    }
    let (sum, count) = book.recompute_rating(target.as_slice());
    proof {
        lemma_rating_totals_bounded(book.reviews@, target@);
    }
    let avg = rating_aggregate(sum, count);
    workers.set_rating(widx, avg, count as u32, now);
    Ok(())
}

/// `user` owns the review named `id` in `rs`.
pub open spec fn owns_review(rs: Seq<Review>, id: Seq<u8>, user: Seq<u8>) -> bool {
    exists|i: int|
        0 <= i < rs.len() && (#[trigger] rs[i]).id@ == id && rs[i].user_id@ == user
}

/// `rs1` is `rs0` with the review named `id` taken out.
pub open spec fn review_removed(rs0: Seq<Review>, rs1: Seq<Review>, id: Seq<u8>) -> bool {
    exists|i: int|
        0 <= i < rs0.len() && (#[trigger] rs0[i]).id@ == id && rs1 == rs0.remove(i)
}

/// The worker the review named `id` points at (meaningful when present).
pub open spec fn reviewed_worker(rs: Seq<Review>, id: Seq<u8>) -> Seq<u8> {
    let i = choose|i: int| 0 <= i < rs.len() && (#[trigger] rs[i]).id@ == id;
    rs[i].worker_id@
}

/// Deletes the caller's review and refreshes the worker's stored
/// aggregate.  A malformed review id is `400`, an unknown one `404`, and a
/// review owned by someone else `401`; the worker profile, if it still
/// exists, gets the recomputed average and count — 0 when the last review
/// is gone.
pub fn delete_review(
    book: &mut ReviewBook,
    workers: &mut WorkerDirectory,
    user_id: &[u8],
    review_id: &[u8],
    now: i64,
) -> (r: Result<(), ApiError>)
    requires
        old(book).wf(),
        old(workers).wf(),
    ensures
        final(book).wf(),
        final(workers).wf(),
        r is Ok <==> owns_review(old(book).reviews@, oid_canon(review_id@), user_id@) && raw_id_ok(
            review_id@,
        ),
        !raw_id_ok(review_id@) ==> (r matches Err(e) && e.status == STATUS_BAD_REQUEST),
        raw_id_ok(review_id@) && !has_review_id(old(book).reviews@, oid_canon(review_id@)) ==> (
        r matches Err(e) && e.status == STATUS_NOT_FOUND),
        raw_id_ok(review_id@) && has_review_id(old(book).reviews@, oid_canon(review_id@))
            && !owns_review(old(book).reviews@, oid_canon(review_id@), user_id@) ==> (
        r matches Err(e) && e.status == STATUS_UNAUTHORIZED),
        r is Err ==> final(book).reviews@ == old(book).reviews@ && final(workers).profiles@
            == old(workers).profiles@,
        r is Ok ==> review_removed(old(book).reviews@, final(book).reviews@, oid_canon(review_id@)),
        r is Ok ==> ({
            let worker = reviewed_worker(old(book).reviews@, oid_canon(review_id@));
            ||| (!has_sub_profile_id(old(workers).profiles@, worker) && final(workers).profiles@
                == old(workers).profiles@)
            ||| rating_refreshed(
                old(workers).profiles@,
                final(workers).profiles@,
                final(book).reviews@,
                worker,
                now,
            )
        }),
{
    let target = match parse_oid(review_id) {
        Some(t) => t,
        None => {
            return Err(ApiError {
                status: STATUS_BAD_REQUEST,
                message: "Invalid review ID".to_owned(),
            });
        },
    };
    let n = book.reviews.len();
    let mut idx: usize = 0;
    let mut found = false;
    while idx < n && !found
        invariant
            n == book.reviews@.len(),
            idx <= n,
            found ==> idx < n && book.reviews@[idx as int].id@ == target@,
            !found ==> forall|j: int| 0 <= j < idx ==> (#[trigger] book.reviews@[j]).id@ != target@,
        decreases n - idx + (if found { 0int } else { 1int }),
    {
        if crate::text::bytes_eq(book.reviews[idx].id.as_slice(), target.as_slice()) {
            found = true;
        } else {
            idx = idx + 1;
        }
    }
    if !found {
        return Err(ApiError {
            status: STATUS_NOT_FOUND,
            message: "Review not found".to_owned(),
        });
    }
    if !crate::text::bytes_eq(book.reviews[idx].user_id.as_slice(), user_id) {
        proof {
            assert forall|i: int|
                !(0 <= i < book.reviews@.len() && (#[trigger] book.reviews@[i]).id@ == target@
                    && book.reviews@[i].user_id@ == user_id@) by {
                if 0 <= i < book.reviews@.len() && book.reviews@[i].id@ == target@ {
                    assert(i == idx as int);
                }
            }
        }
        return Err(ApiError {
            status: STATUS_UNAUTHORIZED,
            message: "Not authorized to delete this review".to_owned(),
        });
    }
    let removed = book.reviews.remove(idx);
    proof {
        assert forall|i: int|
            0 <= i < old(book).reviews@.len() && (#[trigger] old(book).reviews@[i]).id@ == target@
                implies i == idx as int by {}
        assert(reviewed_worker(old(book).reviews@, target@) == removed.worker_id@);
    }
    let worker = removed.worker_id;
    let (sum, count) = book.recompute_rating(worker.as_slice());
    proof {
        lemma_rating_totals_bounded(book.reviews@, worker@);
    }
    let avg = rating_aggregate(sum, count);
    match workers.find_by_id(worker.as_slice()) {
        Some(w) => {
            workers.set_rating(w, avg, count as u32, now);
        },
        None => {},
    }
    Ok(())
}

/// Page selection for a worker's review listing.
pub struct WorkerReviewsQuery {
    pub page: Option<i64>,
    pub limit: Option<i64>,
}

impl crate::sorting::Ranked for Review {
    /// Listing order: newest first.
    open spec fn rank(&self) -> int {
        0x7fffffffffffffff - self.created_at
    }

    fn key(&self) -> (r: u128)
        ensures
            r == self.rank(),
    {
        ((0x7fffffffffffffffi128 - self.created_at as i128)) as u128
    }
}

/// The reviews naming `worker`, in input order.
pub open spec fn filter_reviews(s: Seq<Review>, worker: Seq<u8>) -> Seq<Review>
    decreases s.len(),
{
    if s.len() == 0 {
        Seq::empty()
    } else {
        let prefix = filter_reviews(s.drop_last(), worker);
        if s.last().worker_id@ == worker {
            prefix.push(s.last())
        } else {
            prefix
        }
    }
}

/// A worker's reviews, newest first, paginated, with the unpaginated
/// total.  A malformed worker id is `400`.
pub fn list_worker_reviews(reviews: Vec<Review>, worker_id: &[u8], query: &WorkerReviewsQuery) -> (r:
    Result<(Vec<Review>, usize), ApiError>)
    ensures
        r is Ok <==> raw_id_ok(worker_id@),
        r matches Err(e) ==> e.status == STATUS_BAD_REQUEST,
        r matches Ok(out) ==> ({
            let elig = filter_reviews(reviews@, oid_canon(worker_id@));
            &&& out.1 == elig.len()
            &&& crate::sorting::sorted_by_rank(out.0@)
            &&& exists|s: Seq<Review>|
                {
                    &&& s.to_multiset() == elig.to_multiset()
                    &&& crate::sorting::sorted_by_rank(s)
                    &&& out.0@ == #[trigger] s.subrange(
                        crate::paging::page_window(
                            s.len() as int,
                            crate::paging::norm_page(query.page),
                            crate::paging::norm_limit(query.limit, 100),
                        ).0,
                        crate::paging::page_window(
                            s.len() as int,
                            crate::paging::norm_page(query.page),
                            crate::paging::norm_limit(query.limit, 100),
                        ).1,
                    )
                }
        }),
{
    let target = match parse_oid(worker_id) {
        Some(t) => t,
        None => {
            return Err(ApiError {
                status: STATUS_BAD_REQUEST,
                message: "Invalid worker ID".to_owned(),
            });
        },
    };
    let ghost orig = reviews@;
    let mut rest = reviews;
    let mut kept: Vec<Review> = Vec::new();
    let ghost t: int = 0;
    proof {
        assert(orig.take(0) =~= Seq::<Review>::empty());
    }
    while rest.len() > 0
        invariant
            0 <= t <= orig.len(),
            rest@ =~= orig.subrange(t, orig.len() as int),
            kept@ =~= filter_reviews(orig.take(t), target@),
        decreases rest@.len(),
    {
        let rv = rest.remove(0);
        proof {
            assert(rv == orig[t]);
            assert(rest@ =~= orig.subrange(t + 1, orig.len() as int));
            assert(orig.take(t + 1).drop_last() =~= orig.take(t));
            assert(orig.take(t + 1).last() == orig[t]);
        }
        let matched = crate::text::bytes_eq(rv.worker_id.as_slice(), target.as_slice());
        if matched {
            kept.push(rv);
        }
        proof {
            t = t + 1;
        }
    }
    proof {
        assert(orig.take(orig.len() as int) =~= orig);
    }
    let total = kept.len();
    crate::sorting::sort_by_rank(&mut kept);
    let ghost full = kept@;
    let (pg, lim) = crate::paging::page_params(query.page, query.limit, 100);
    let items = crate::paging::slice_page(kept, pg, lim);
    proof {
        assert forall|a: int, b: int| 0 <= a < b < items@.len() implies items@[a].rank()
            <= items@[b].rank() by {
            let w = crate::paging::page_window(
                full.len() as int,
                crate::paging::norm_page(query.page),
                crate::paging::norm_limit(query.limit, 100),
            );
            assert(items@[a] == full[w.0 + a]);
            assert(items@[b] == full[w.0 + b]);
        }
    }
    Ok((items, total))
}

/// The rating totals stay inside the counters: the count never exceeds the
/// number of reviews and the sum never exceeds five per review.
pub proof fn lemma_rating_totals_bounded(rs: Seq<Review>, worker: Seq<u8>)
    requires
        forall|i: int| 0 <= i < rs.len() ==> 1 <= (#[trigger] rs[i]).rating <= 5,
    ensures
        0 <= rating_count(rs, worker) <= rs.len(),
        0 <= rating_sum(rs, worker) <= 5 * rating_count(rs, worker),
    decreases rs.len(),
{
    if rs.len() > 0 {
        lemma_rating_totals_bounded(rs.drop_last(), worker);
    }
}

} // verus!
