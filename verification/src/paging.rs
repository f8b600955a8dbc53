//! Pagination: page/limit normalization, slicing, and page counting, the
//! same for every listing endpoint.

use vstd::prelude::*;

verus! {

/// The page number actually used: the given one, at least 1.
pub open spec fn norm_page(page: Option<i64>) -> i64 {
    match page {
        Some(p) => if p > 1 {
            p
        } else {
            1
        },
        None => 1,
    }
}

/// The page size actually used: the given one (default 20), clamped to
/// `0..=cap`.
pub open spec fn norm_limit(limit: Option<i64>, cap: i64) -> i64 {
    let l0 = if limit is Some {
        limit.unwrap()
    } else {
        20i64
    };
    let l1 = if l0 > cap {
        cap
    } else {
        l0
    };
    if l1 < 0 {
        0i64
    } else {
        l1
    }
}

/// Normalized page number and page size: the page is at least 1, the size
/// is clamped to `0..=cap`, with 20 as the default.
pub fn page_params(page: Option<i64>, limit: Option<i64>, cap: i64) -> (r: (i64, i64))
    requires
        1 <= cap <= 1000,
    ensures
        r.0 == norm_page(page),
        r.1 == norm_limit(limit, cap),
        1 <= r.0,
        0 <= r.1 <= cap,
{
    let p0 = match page {
        Some(p) => p,
        None => 1,
    };
    let p = if p0 > 1 { p0 } else { 1 };
    let l0 = match limit {
        Some(l) => l,
        None => 20,
    };
    let l1 = if l0 > cap { cap } else { l0 };
    let l = if l1 < 0 { 0 } else { l1 };
    (p, l)
}

/// The window `[start, end)` of a list of `len` items for the given page:
/// `start` is `(page-1)*limit` clamped to `len`, `end` is `start + limit`
/// clamped to `len`.
pub open spec fn page_window(len: int, page: i64, limit: i64) -> (int, int) {
    let skip = (page - 1) * limit;
    let start = if skip > len { len } else { skip };
    let end = if skip + limit > len { len } else { skip + limit };
    (start, end)
}

/// Extracts the page's slice of `v`.
pub fn slice_page<T>(v: Vec<T>, page: i64, limit: i64) -> (r: Vec<T>)
    requires
        1 <= page,
        0 <= limit <= 1000,
    ensures
        r@ == v@.subrange(
            page_window(v@.len() as int, page, limit).0,
            page_window(v@.len() as int, page, limit).1,
        ),
{
    let ghost orig = v@;
    let mut v = v;
    let n = v.len();
    if limit == 0 {
        proof {
            assert(orig.subrange(
                page_window(orig.len() as int, page, limit).0,
                page_window(orig.len() as int, page, limit).1,
            ) =~= Seq::<T>::empty());
        }
        return Vec::new();
    }
    let threshold = n / (limit as usize);
    let start: usize = if (page - 1) as u64 > threshold as u64 {
        proof {
            assert((page - 1) * limit > n) by (nonlinear_arith)
                requires
                    1 <= limit <= 1000,
                    page - 1 > (n as int) / (limit as int),
                    0 <= n,
            ;
        }
        n
    } else {
        let p = (page - 1) as usize;
        proof {
            assert(p * limit <= n) by (nonlinear_arith)
                requires
                    1 <= limit <= 1000,
                    0 <= p <= (n as int) / (limit as int),
                    0 <= n,
            ;
        }
        p * (limit as usize)
    };
    proof {
        assert(start as int == page_window(orig.len() as int, page, limit).0);
    }
    let end: usize = if limit as usize <= n - start {
        start + limit as usize
    } else {
        n
    };
    let mut r: Vec<T> = Vec::new();
    let count = end - start;
    for t in 0..count
        invariant
            count == end - start,
            start <= end <= v@.len() + t,
            v@.len() + t == orig.len(),
            v@ =~= orig.subrange(0, start as int) + orig.subrange(start + t, orig.len() as int),
            r@ =~= orig.subrange(start as int, start + t),
    {
        let x = v.remove(start);
        r.push(x);
        proof {
            assert(v@ =~= orig.subrange(0, start as int) + orig.subrange(
                start + t + 1,
                orig.len() as int,
            ));
            assert(r@ =~= orig.subrange(start as int, start + t + 1));
        }
    }
    proof {
        assert(r@ =~= orig.subrange(
            page_window(orig.len() as int, page, limit).0,
            page_window(orig.len() as int, page, limit).1,
        ));
    }
    r
}

/// Number of pages needed for `total` items at `limit` per page, rounding
/// up.
pub fn pages_for(total: u64, limit: u64) -> (r: u64)
    requires
        1 <= limit,
    ensures
        r == (total + limit - 1) / (limit as int),
        r * limit >= total,
        total > 0 ==> (r - 1) * limit < total,
{
    let r = if total == 0 {
        0
    } else {
        (total - 1) / limit + 1
    };
    proof {
        assert(r == (total + limit - 1) / (limit as int) && r * limit >= total && (total > 0 ==> (r
            - 1) * limit < total)) by (nonlinear_arith)
            requires
                limit >= 1,
                r == (if total == 0 { 0int } else { (total - 1) as int / (limit as int) + 1 }),
        ;
    }
    r
}

} // verus!
