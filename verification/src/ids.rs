//! Entity identifiers.  The store names every entity by a 12-byte object id,
//! written as 24 hex digits; the library keeps ids in the canonical
//! lowercase form and compares them byte for byte.

use vstd::prelude::*;
use crate::text::is_hex_digit;

verus! {

/// A canonical id: exactly 24 lowercase hex digits.
pub open spec fn is_oid(s: Seq<u8>) -> bool {
    s.len() == 24 && (forall|i: int|
        0 <= i < s.len() ==> ((0x30 <= #[trigger] s[i] <= 0x39) || (0x61 <= s[i] <= 0x66)))
}

/// The canonical (lowercase) form of a hex digit sequence.
pub open spec fn oid_canon(s: Seq<u8>) -> Seq<u8> {
    Seq::new(s.len(), |i: int| if 0x41 <= s[i] <= 0x46 { (s[i] + 0x20) as u8 } else { s[i] })
}

/// Validates an id string: accepted exactly when it is 24 hex digits of
/// either case; the result is the canonical lowercase form.
pub fn parse_oid(s: &[u8]) -> (r: Option<Vec<u8>>)
    ensures
        r is Some <==> (s@.len() == 24 && (forall|i: int|
            0 <= i < s@.len() ==> is_hex_digit(#[trigger] s@[i]))),
        r matches Some(o) ==> o@ == oid_canon(s@) && is_oid(o@),
{
    if s.len() != 24 {
        return None;
    }
    let mut o: Vec<u8> = Vec::new();
    let n = s.len();
    for i in 0..n
        invariant
            n == 24,
            n == s@.len(),
            o@.len() == i,
            forall|j: int| 0 <= j < i ==> is_hex_digit(#[trigger] s@[j]),
            forall|j: int| 0 <= j < i ==> o@[j] == oid_canon(s@)[j],
    {
        let c = s[i];
        if 0x30 <= c && c <= 0x39 {
            o.push(c);
        } else if 0x61 <= c && c <= 0x66 {
            o.push(c);
        } else if 0x41 <= c && c <= 0x46 {
            o.push(c + 0x20);
        } else {
            return None;
        }
    }
    proof {
        assert(o@ =~= oid_canon(s@));
    }
    Some(o)
}

} // verus!
