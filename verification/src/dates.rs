//! Calendar dates: parsing `YYYY-MM-DD` with full validity checking, and
//! conversion to Unix epoch days and milliseconds.

use vstd::prelude::*;
use crate::validation::is_digit;

verus! {

/// Gregorian leap year.
pub open spec fn is_leap(y: int) -> bool {
    y % 4 == 0 && (y % 100 != 0 || y % 400 == 0)
}

/// Days in a month of a year.
pub open spec fn days_in_month(y: int, m: int) -> int {
    if m == 2 {
        if is_leap(y) {
            29
        } else {
            28
        }
    } else if m == 4 || m == 6 || m == 9 || m == 11 {
        30
    } else {
        31
    }
}

/// A real calendar date.
pub open spec fn valid_ymd(y: int, m: int, d: int) -> bool {
    1 <= y <= 9999 && 1 <= m <= 12 && 1 <= d <= days_in_month(y, m)
}

/// The string has the shape `YYYY-MM-DD`.
pub open spec fn date_shape(s: Seq<u8>) -> bool {
    &&& s.len() == 10
    &&& is_digit(s[0]) && is_digit(s[1]) && is_digit(s[2]) && is_digit(s[3])
    &&& s[4] == 0x2d
    &&& is_digit(s[5]) && is_digit(s[6])
    &&& s[7] == 0x2d
    &&& is_digit(s[8]) && is_digit(s[9])
}

/// The numeric fields of a well-shaped date string.
pub open spec fn date_year(s: Seq<u8>) -> int {
    (s[0] - 0x30) * 1000 + (s[1] - 0x30) * 100 + (s[2] - 0x30) * 10 + (s[3] - 0x30)
}

pub open spec fn date_month(s: Seq<u8>) -> int {
    (s[5] - 0x30) * 10 + (s[6] - 0x30)
}

pub open spec fn date_day(s: Seq<u8>) -> int {
    (s[8] - 0x30) * 10 + (s[9] - 0x30)
}

/// Parses `YYYY-MM-DD`; accepted exactly when the shape is right and the
/// date really exists in the calendar (months 1-12, days within the month,
/// February 29 only in leap years).
pub fn parse_ymd(s: &[u8]) -> (r: Option<(i32, u8, u8)>)
    ensures
        r is Some <==> (date_shape(s@) && valid_ymd(date_year(s@), date_month(s@), date_day(s@))),
        r matches Some(t) ==> t.0 == date_year(s@) && t.1 == date_month(s@) && t.2 == date_day(s@),
{
    if s.len() != 10 {
        return None;
    }
    let mut digits_ok = true;
    let positions: [usize; 8] = [0, 1, 2, 3, 5, 6, 8, 9];
    let mut k: usize = 0;
    while k < 8
        invariant
            s@.len() == 10,
            k <= 8,
            positions@ =~= seq![0usize, 1usize, 2usize, 3usize, 5usize, 6usize, 8usize, 9usize],
            digits_ok == (forall|j: int| 0 <= j < k ==> is_digit(#[trigger] s@[positions@[j] as int])),
        decreases 8 - k,
    {
        let p = positions[k];
        let c = s[p];
        let good = 0x30 <= c && c <= 0x39;
        digits_ok = digits_ok && good;
        k = k + 1;
    }
    if !digits_ok || s[4] != 0x2d || s[7] != 0x2d {
        proof {
            if digits_ok {
                assert(!date_shape(s@));
            } else {
                assert(!date_shape(s@)) by {
                    if date_shape(s@) {
                        assert(forall|j: int|
                            0 <= j < 8 ==> is_digit(#[trigger] s@[positions@[j] as int]));
                    }
                }
            }
        }
        return None;
    }
    proof {
        assert(is_digit(s@[0]) && is_digit(s@[1]) && is_digit(s@[2]) && is_digit(s@[3])
            && is_digit(s@[5]) && is_digit(s@[6]) && is_digit(s@[8]) && is_digit(s@[9])) by {
            assert(is_digit(s@[positions@[0] as int]));
            assert(is_digit(s@[positions@[1] as int]));
            assert(is_digit(s@[positions@[2] as int]));
            assert(is_digit(s@[positions@[3] as int]));
            assert(is_digit(s@[positions@[4] as int]));
            assert(is_digit(s@[positions@[5] as int]));
            assert(is_digit(s@[positions@[6] as int]));
            assert(is_digit(s@[positions@[7] as int]));
        }
    }
    let year: i32 = (s[0] - 0x30) as i32 * 1000 + (s[1] - 0x30) as i32 * 100 + (s[2]
        - 0x30) as i32 * 10 + (s[3] - 0x30) as i32;
    let month: u8 = (s[5] - 0x30) * 10 + (s[6] - 0x30);
    let day: u8 = (s[8] - 0x30) * 10 + (s[9] - 0x30);
    if year < 1 {
        return None;
    }
    if month < 1 || month > 12 {
        return None;
    }
    let leap = (year % 4 == 0 && year % 100 != 0) || year % 400 == 0;
    let dim: u8 = if month == 2 {
        if leap {
            29
        } else {
            28
        }
    } else if month == 4 || month == 6 || month == 9 || month == 11 {
        30
    } else {
        31
    };
    if day < 1 || day > dim {
        return None;
    }
    Some((year, month, day))
}

/// Days from the Unix epoch to the given date, by era decomposition over
/// the 400-year Gregorian cycle.
pub open spec fn epoch_days_of(y: int, m: int, d: int) -> int {
    let yy = if m <= 2 {
        y - 1
    } else {
        y
    };
    let era = yy / 400;
    let yoe = yy - era * 400;
    let mp = if m > 2 {
        m - 3
    } else {
        m + 9
    };
    let doy = (153 * mp + 2) / 5 + d - 1;
    let doe = yoe * 365 + yoe / 4 - yoe / 100 + doy;
    era * 146097 + doe - 719468
}

/// Days since the Unix epoch (negative before 1970).
pub fn epoch_days(y: i32, m: u8, d: u8) -> (r: i64)
    requires
        valid_ymd(y as int, m as int, d as int),
    ensures
        r == epoch_days_of(y as int, m as int, d as int),
{
    let yy: i64 = if m <= 2 {
        y as i64 - 1
    } else {
        y as i64
    };
    let era: i64 = yy / 400;
    let yoe: i64 = yy - era * 400;
    let mp: i64 = if m > 2 {
        m as i64 - 3
    } else {
        m as i64 + 9
    };
    let doy: i64 = (153 * mp + 2) / 5 + d as i64 - 1;
    let doe: i64 = yoe * 365 + yoe / 4 - yoe / 100 + doy;
    era * 146097 + doe - 719468
}

/// Milliseconds in a day.
pub const DAY_MS: i64 = 86400000;

/// Midnight of the given date as Unix milliseconds.
pub fn epoch_millis(y: i32, m: u8, d: u8) -> (r: i64)
    requires
        valid_ymd(y as int, m as int, d as int),
    ensures
        r == epoch_days_of(y as int, m as int, d as int) * 86400000,
{
    let days = epoch_days(y, m, d);
    proof {
        assert(-719468 <= epoch_days_of(y as int, m as int, d as int) <= 3000000) by (nonlinear_arith)
            requires
                valid_ymd(y as int, m as int, d as int),
        ;
    }
    days * DAY_MS
}

} // verus!
