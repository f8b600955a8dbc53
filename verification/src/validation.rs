//! Input validation: Indian mobile numbers, email addresses, pincodes, and
//! OTP generation.  Each validator's contract states exactly the language it
//! accepts.

use vstd::prelude::*;
use rand::Rng;

verus! {

/// ASCII digit.
pub open spec fn is_digit(c: u8) -> bool {
    0x30 <= c <= 0x39
}

/// ASCII letter.
pub open spec fn is_alpha(c: u8) -> bool {
    (0x41 <= c <= 0x5a) || (0x61 <= c <= 0x7a)
}

/// A valid mobile number: ten digits, the first between 6 and 9.
pub open spec fn is_valid_mobile(s: Seq<u8>) -> bool {
    s.len() == 10 && 0x36 <= s[0] <= 0x39 && (forall|i: int|
        0 <= i < s.len() ==> is_digit(#[trigger] s[i]))
}

pub fn validate_mobile(mobile: &[u8]) -> (r: bool)
    ensures
        r == is_valid_mobile(mobile@),
{
    if mobile.len() != 10 {
        return false;
    }
    if !(0x36 <= mobile[0] && mobile[0] <= 0x39) {
        return false;
    }
    let n = mobile.len();
    for i in 0..n
        invariant
            n == mobile@.len(),
            forall|j: int| 0 <= j < i ==> is_digit(#[trigger] mobile@[j]),
    {
        if !(0x30 <= mobile[i] && mobile[i] <= 0x39) {
            return false;
        }
    }
    true
}

/// Characters allowed in the local part of an email address.
pub open spec fn is_email_local_char(c: u8) -> bool {
    is_alpha(c) || is_digit(c) || c == 0x2e || c == 0x5f || c == 0x25 || c == 0x2b || c == 0x2d
}

/// Characters allowed in the domain part before the final dot.
pub open spec fn is_email_domain_char(c: u8) -> bool {
    is_alpha(c) || is_digit(c) || c == 0x2e || c == 0x2d
}

/// A decomposition witnessing a valid address: local part before the `@` at
/// `i`, domain between `i` and the dot at `j`, and a top-level domain of at
/// least two letters after `j`.
pub open spec fn email_split_ok(s: Seq<u8>, i: int, j: int) -> bool {
    &&& 1 <= i
    &&& i + 2 <= j
    &&& j + 3 <= s.len()
    &&& s[i] == 0x40
    &&& s[j] == 0x2e
    &&& (forall|k: int| 0 <= k < i ==> is_email_local_char(#[trigger] s[k]))
    &&& (forall|k: int| i < k < j ==> is_email_domain_char(#[trigger] s[k]))
    &&& (forall|k: int| j < k < s.len() ==> is_alpha(#[trigger] s[k]))
}

/// A valid email address: some decomposition works.
pub open spec fn is_valid_email(s: Seq<u8>) -> bool {
    exists|i: int, j: int| email_split_ok(s, i, j)
}

/// Accepts exactly the strings of the form `local@domain.tld` where the
/// local part is non-empty over letters, digits and `._%+-`, the domain is
/// non-empty over letters, digits and `.-`, and the top-level part after the
/// last dot is two or more letters.
pub fn validate_email(email: &[u8]) -> (r: bool)
    ensures
        r == is_valid_email(email@),
{
    let n = email.len();
    // The local and domain character classes exclude `@`, so a valid
    // decomposition can only put the `@` at its first occurrence, with no
    // second occurrence anywhere.
    let mut at: usize = 0;
    let mut at_found = false;
    for k in 0..n
        invariant
            n == email@.len(),
            at_found ==> 0 <= at < k && email@[at as int] == 0x40,
            at_found ==> forall|m: int| 0 <= m < k && m != at ==> email@[m] != 0x40,
            !at_found ==> forall|m: int| 0 <= m < k ==> email@[m] != 0x40,
    {
        if email[k] == 0x40 {
            if at_found {
                proof {
                    assert forall|i: int, j: int| !email_split_ok(email@, i, j) by {
                        if email_split_ok(email@, i, j) {
                            assert(email@[at as int] == 0x40 && email@[k as int] == 0x40);
                            if at as int != i {
                                if at < i {
                                    assert(is_email_local_char(email@[at as int]));
                                } else if at as int == j {
                                } else if at < j {
                                    assert(is_email_domain_char(email@[at as int]));
                                } else {
                                    assert(is_alpha(email@[at as int]));
                                }
                            }
                            if k as int != i {
                                if (k as int) < i {
                                    assert(is_email_local_char(email@[k as int]));
                                } else if k as int == j {
                                } else if (k as int) < j {
                                    assert(is_email_domain_char(email@[k as int]));
                                } else {
                                    assert(is_alpha(email@[k as int]));
                                }
                            }
                            assert(false);
                        }
                    }
                }
                return false;
            }
            at = k;
            at_found = true;
        }
    }
    if !at_found {
        proof {
            assert forall|i: int, j: int| !email_split_ok(email@, i, j) by {
                if email_split_ok(email@, i, j) {
                    assert(email@[i] == 0x40);
                }
            }
        }
        return false;
    }
    // Any valid decomposition must use the last dot: everything after the
    // chosen dot is alphabetic, so no later dot can exist.
    let mut dot: usize = 0;
    let mut dot_found = false;
    for k in 0..n
        invariant
            n == email@.len(),
            dot_found ==> 0 <= dot < n && email@[dot as int] == 0x2e,
            dot_found ==> forall|m: int| dot < m < k ==> email@[m] != 0x2e,
            !dot_found ==> forall|m: int| 0 <= m < k ==> email@[m] != 0x2e,
    {
        if email[k] == 0x2e {
            dot = k;
            dot_found = true;
        }
    }
    if !dot_found {
        proof {
            assert forall|i: int, j: int| !email_split_ok(email@, i, j) by {
                if email_split_ok(email@, i, j) {
                    assert(email@[j] == 0x2e);
                }
            }
        }
        return false;
    }
    proof {
        assert forall|i: int, j: int| email_split_ok(email@, i, j) implies i == at as int && j
            == dot as int by {
            assert(email@[i] == 0x40);
            if i != at as int {
                assert(forall|m: int|
                    0 <= m < email@.len() && m != at ==> email@[m] != 0x40);
            }
            assert(email@[j] == 0x2e);
            if j < dot as int {
                assert(is_alpha(email@[dot as int]));
            }
            if j > dot as int {
                assert(forall|m: int| dot < m < email@.len() ==> email@[m] != 0x2e);
            }
        }
    }
    // With the split pinned, check the spacing and each region's
    // character class; the flags equal the respective conjuncts of
    // `email_split_ok(email, at, dot)`, so any failure refutes the only
    // possible witness.
    let spacing_ok = at >= 1 && dot > at && dot - at >= 2 && n - dot >= 3;
    let mut local_ok = true;
    let mut domain_ok = true;
    let mut tld_ok = true;
    if spacing_ok {
        for k in 0..at
            invariant
                n == email@.len(),
                at < n,
                local_ok == (forall|m: int| 0 <= m < k ==> is_email_local_char(#[trigger] email@[m])),
        {
            let c = email[k];
            let good = (0x41 <= c && c <= 0x5a) || (0x61 <= c && c <= 0x7a) || (0x30 <= c && c
                <= 0x39) || c == 0x2e || c == 0x5f || c == 0x25 || c == 0x2b || c == 0x2d;
            proof {
                assert(good == is_email_local_char(email@[k as int]));
            }
            local_ok = local_ok && good;
        }
        for k in (at + 1)..dot
            invariant
                n == email@.len(),
                at < dot < n,
                domain_ok == (forall|m: int| at < m < k ==> is_email_domain_char(#[trigger] email@[m])),
        {
            let c = email[k];
            let good = (0x41 <= c && c <= 0x5a) || (0x61 <= c && c <= 0x7a) || (0x30 <= c && c
                <= 0x39) || c == 0x2e || c == 0x2d;
            proof {
                assert(good == is_email_domain_char(email@[k as int]));
            }
            domain_ok = domain_ok && good;
        }
        for k in (dot + 1)..n
            invariant
                n == email@.len(),
                dot < n,
                tld_ok == (forall|m: int| dot < m < k ==> is_alpha(#[trigger] email@[m])),
        {
            let c = email[k];
            let good = (0x41 <= c && c <= 0x5a) || (0x61 <= c && c <= 0x7a);
            proof {
                assert(good == is_alpha(email@[k as int]));
            }
            tld_ok = tld_ok && good;
        }
    }
    let r = spacing_ok && local_ok && domain_ok && tld_ok;
    proof {
        if r {
            assert(email_split_ok(email@, at as int, dot as int));
        } else {
            if is_valid_email(email@) {
                let (i, j) = choose|i: int, j: int| email_split_ok(email@, i, j);
                assert(email_split_ok(email@, i, j));
                assert(i == at as int && j == dot as int);
                assert(email_split_ok(email@, at as int, dot as int));
                assert(false);
            }
        }
    }
    r
}

/// A valid pincode: exactly six digits.
pub open spec fn is_valid_pincode(s: Seq<u8>) -> bool {
    s.len() == 6 && (forall|i: int| 0 <= i < s.len() ==> is_digit(#[trigger] s[i]))
}

pub fn validate_pincode(pincode: &[u8]) -> (r: bool)
    ensures
        r == is_valid_pincode(pincode@),
{
    if pincode.len() != 6 {
        return false;
    }
    let n = pincode.len();
    for i in 0..n
        invariant
            n == pincode@.len(),
            forall|j: int| 0 <= j < i ==> is_digit(#[trigger] pincode@[j]),
    {
        if !(0x30 <= pincode[i] && pincode[i] <= 0x39) {
            return false;
        }
    }
    true
}

/// Relies on `rand::Rng::gen_range` over `100000..999999`: the draw lies in
/// the half-open range; nothing else is assumed of it.
#[verifier::external_body]
fn random_otp_number() -> (r: u32)
    ensures
        100000 <= r < 999999,
{
    let mut rng = rand::thread_rng();
    rng.gen_range(100000..999999)
}

/// The six decimal digits of a value below a million.
pub open spec fn decimal6_of(n: u32) -> Seq<u8> {
    seq![
        (0x30 + n / 100000 % 10) as u8,
        (0x30 + n / 10000 % 10) as u8,
        (0x30 + n / 1000 % 10) as u8,
        (0x30 + n / 100 % 10) as u8,
        (0x30 + n / 10 % 10) as u8,
        (0x30 + n % 10) as u8,
    ]
}

/// Draws a fresh one-time password: six decimal digits, never starting
/// with 0.
pub fn generate_otp() -> (r: Vec<u8>)
    ensures
        r@.len() == 6,
        forall|i: int| 0 <= i < r@.len() ==> is_digit(#[trigger] r@[i]),
        r@[0] != 0x30,
        exists|n: u32| 100000 <= n < 999999 && r@ == decimal6_of(n),
{
    let n = random_otp_number();
    let mut r: Vec<u8> = Vec::new();
    r.push(0x30 + (n / 100000 % 10) as u8);
    r.push(0x30 + (n / 10000 % 10) as u8);
    r.push(0x30 + (n / 1000 % 10) as u8);
    r.push(0x30 + (n / 100 % 10) as u8);
    r.push(0x30 + (n / 10 % 10) as u8);
    r.push(0x30 + (n % 10) as u8);
    proof {
        assert(r@ =~= decimal6_of(n));
        assert(n / 100000 % 10 >= 1);
    }
    r
}

} // verus!
