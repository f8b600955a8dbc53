//! Byte-level text helpers: lowercase hex encoding and decoding, and
//! big-endian byte encoding of 64-bit integers.  Tokens and payment
//! signatures are built from these.

use vstd::prelude::*;

verus! {

/// ASCII code of the lowercase hex digit for a nibble value (`n < 16`).
pub open spec fn hex_digit(n: u8) -> u8 {
    if n < 10 {
        (0x30 + n) as u8
    } else {
        (0x57 + n) as u8
    }
}

/// Lowercase hex encoding of a byte sequence, two digits per byte.
pub open spec fn hex_of(bytes: Seq<u8>) -> Seq<u8>
    decreases bytes.len(),
{
    if bytes.len() == 0 {
        Seq::empty()
    } else {
        seq![hex_digit(bytes[0] / 16), hex_digit(bytes[0] % 16)] + hex_of(bytes.skip(1))
    }
}

pub proof fn lemma_hex_of_len(bytes: Seq<u8>)
    ensures
        hex_of(bytes).len() == 2 * bytes.len(),
    decreases bytes.len(),
{
    if bytes.len() > 0 {
        lemma_hex_of_len(bytes.skip(1));
    }
}

pub proof fn lemma_hex_of_index(bytes: Seq<u8>, i: int)
    requires
        0 <= i < bytes.len(),
    ensures
        hex_of(bytes)[2 * i] == hex_digit(bytes[i] / 16),
        hex_of(bytes)[2 * i + 1] == hex_digit(bytes[i] % 16),
    decreases bytes.len(),
{
    lemma_hex_of_len(bytes.skip(1));
    if i > 0 {
        lemma_hex_of_index(bytes.skip(1), i - 1);
    }
}

/// ASCII codes accepted as hex digits: `0-9`, `a-f`, `A-F`.
pub open spec fn is_hex_digit(c: u8) -> bool {
    (0x30 <= c <= 0x39) || (0x61 <= c <= 0x66) || (0x41 <= c <= 0x46)
}

/// Value of a hex digit, either case.
pub open spec fn hex_val(c: u8) -> u8 {
    if 0x30 <= c <= 0x39 {
        (c - 0x30) as u8
    } else if 0x61 <= c <= 0x66 {
        (c - 0x57) as u8
    } else {
        (c - 0x37) as u8
    }
}

/// A sequence that decodes as hex: even length, all digits.
pub open spec fn is_hex_seq(s: Seq<u8>) -> bool {
    s.len() % 2 == 0 && (forall|i: int| 0 <= i < s.len() ==> is_hex_digit(#[trigger] s[i]))
}

/// The bytes a hex sequence denotes (meaningful when `is_hex_seq(s)`).
pub open spec fn hex_decode_seq(s: Seq<u8>) -> Seq<u8> {
    Seq::new((s.len() / 2) as nat, |i: int| (16 * hex_val(s[2 * i]) + hex_val(s[2 * i + 1])) as u8)
}

/// Encoding then decoding gives the bytes back, so the encoding is
/// injective and `hex_decode` inverts `hex_encode`.
pub proof fn lemma_hex_roundtrip(bytes: Seq<u8>)
    ensures
        is_hex_seq(hex_of(bytes)),
        hex_decode_seq(hex_of(bytes)) =~= bytes,
{
    lemma_hex_of_len(bytes);
    assert forall|i: int| 0 <= i < hex_of(bytes).len() implies is_hex_digit(
        #[trigger] hex_of(bytes)[i],
    ) by {
        let j = i / 2;
        lemma_hex_of_index(bytes, j);
        if i % 2 == 0 {
            assert(i == 2 * j);
        } else {
            assert(i == 2 * j + 1);
        }
    }
    assert forall|i: int| 0 <= i < bytes.len() implies hex_decode_seq(hex_of(bytes))[i] == bytes[i] by {
        lemma_hex_of_index(bytes, i);
        assert(hex_val(hex_digit(bytes[i] / 16)) == bytes[i] / 16);
        assert(hex_val(hex_digit(bytes[i] % 16)) == bytes[i] % 16);
    }
}

/// Lowercase hex encoding of `bytes`.
pub fn hex_encode(bytes: &[u8]) -> (r: Vec<u8>)
    ensures
        r@ == hex_of(bytes@),
{
    let mut r: Vec<u8> = Vec::new();
    let n = bytes.len();
    proof {
        assert(bytes@.skip(0) =~= bytes@);
    }
    for i in 0..n
        invariant
            n == bytes@.len(),
            r@ + hex_of(bytes@.skip(i as int)) =~= hex_of(bytes@),
            r@.len() == 2 * i,
    {
        let b = bytes[i];
        let hi = b / 16;
        let lo = b % 16;
        let hi_digit: u8 = if hi < 10 { 0x30 + hi } else { 0x57 + hi };
        let lo_digit: u8 = if lo < 10 { 0x30 + lo } else { 0x57 + lo };
        r.push(hi_digit);
        r.push(lo_digit);
        proof {
            assert(bytes@.skip(i as int).skip(1) =~= bytes@.skip(i + 1));
            lemma_hex_of_len(bytes@.skip(i + 1));
        }
    }
    proof {
        assert(bytes@.skip(n as int) =~= Seq::<u8>::empty());
    }
    r
}

/// Decodes a hex string; returns `None` exactly when the input has odd
/// length or holds a character that is no hex digit.
pub fn hex_decode(s: &[u8]) -> (r: Option<Vec<u8>>)
    ensures
        r is Some <==> is_hex_seq(s@),
        r matches Some(b) ==> b@ == hex_decode_seq(s@),
{
    let n = s.len();
    if n % 2 != 0 {
        return None;
    }
    let mut r: Vec<u8> = Vec::new();
    let half = n / 2;
    for i in 0..half
        invariant
            n == s@.len(),
            n % 2 == 0,
            half == n / 2,
            forall|j: int| 0 <= j < 2 * i ==> is_hex_digit(#[trigger] s@[j]),
            r@.len() == i,
            forall|j: int| 0 <= j < i ==> r@[j] == hex_decode_seq(s@)[j],
    {
        let hi = s[2 * i];
        let lo = s[2 * i + 1];
        let hi_ok = (0x30 <= hi && hi <= 0x39) || (0x61 <= hi && hi <= 0x66) || (0x41 <= hi
            && hi <= 0x46);
        let lo_ok = (0x30 <= lo && lo <= 0x39) || (0x61 <= lo && lo <= 0x66) || (0x41 <= lo
            && lo <= 0x46);
        if !hi_ok || !lo_ok {
            return None;
        }
        let hi_val: u8 = if hi <= 0x39 { hi - 0x30 } else if hi >= 0x61 { hi - 0x57 } else { hi - 0x37 };
        let lo_val: u8 = if lo <= 0x39 { lo - 0x30 } else if lo >= 0x61 { lo - 0x57 } else { lo - 0x37 };
        r.push(16 * hi_val + lo_val);
    }
    proof {
        assert forall|j: int| 0 <= j < s@.len() implies is_hex_digit(#[trigger] s@[j]) by {
            let i = j / 2;
            if j % 2 == 0 {
                assert(j == 2 * i);
            } else {
                assert(j == 2 * i + 1);
            }
        }
        assert(r@ =~= hex_decode_seq(s@));
    }
    Some(r)
}

/// ASCII lowercase of a byte sequence: `A`-`Z` shifted down, the rest kept.
pub open spec fn lower_seq(s: Seq<u8>) -> Seq<u8> {
    Seq::new(s.len(), |i: int| if 0x41 <= s[i] <= 0x5a { (s[i] + 0x20) as u8 } else { s[i] })
}

/// ASCII-lowercases a byte string.
pub fn ascii_lower(s: &[u8]) -> (r: Vec<u8>)
    ensures
        r@ == lower_seq(s@),
{
    let mut r: Vec<u8> = Vec::new();
    let n = s.len();
    for i in 0..n
        invariant
            n == s@.len(),
            r@.len() == i,
            forall|j: int| 0 <= j < i ==> r@[j] == lower_seq(s@)[j],
    {
        let c = s[i];
        if 0x41 <= c && c <= 0x5a {
            r.push(c + 0x20);
        } else {
            r.push(c);
        }
    }
    proof {
        assert(r@ =~= lower_seq(s@));
    }
    r
}

/// Byte-for-byte equality of two slices.
pub fn bytes_eq(a: &[u8], b: &[u8]) -> (r: bool)
    ensures
        r == (a@ == b@),
{
    if a.len() != b.len() {
        return false;
    }
    let n = a.len();
    for i in 0..n
        invariant
            n == a@.len(),
            n == b@.len(),
            forall|j: int| 0 <= j < i ==> a@[j] == b@[j],
    {
        if a[i] != b[i] {
            return false;
        }
    }
    proof {
        assert(a@ =~= b@);
    }
    true
}

/// Appends all of `s` to `v`.
pub fn append_bytes(v: &mut Vec<u8>, s: &[u8])
    ensures
        final(v)@ == old(v)@ + s@,
{
    let n = s.len();
    for i in 0..n
        invariant
            n == s@.len(),
            v@ =~= old(v)@ + s@.take(i as int),
    {
        v.push(s[i]);
    }
    proof {
        assert(v@ =~= old(v)@ + s@);
    }
}

/// Big-endian byte decomposition of a 64-bit value, most significant first.
pub open spec fn be8_of(n: u64) -> Seq<u8> {
    seq![
        (n >> 56) as u8,
        (n >> 48) as u8,
        (n >> 40) as u8,
        (n >> 32) as u8,
        (n >> 24) as u8,
        (n >> 16) as u8,
        (n >> 8) as u8,
        n as u8,
    ]
}

/// The value a big-endian 8-byte sequence denotes.
pub open spec fn be8_val(s: Seq<u8>) -> u64 {
    ((s[0] as u64) << 56) | ((s[1] as u64) << 48) | ((s[2] as u64) << 40) | ((s[3] as u64) << 32)
        | ((s[4] as u64) << 24) | ((s[5] as u64) << 16) | ((s[6] as u64) << 8) | (s[7] as u64)
}

/// Recomposing the big-endian bytes gives the value back.
pub proof fn lemma_be8_roundtrip(n: u64)
    ensures
        be8_val(be8_of(n)) == n,
{
    assert((((n >> 56) as u8 as u64) << 56) | (((n >> 48) as u8 as u64) << 48) | (((n
        >> 40) as u8 as u64) << 40) | (((n >> 32) as u8 as u64) << 32) | (((n
        >> 24) as u8 as u64) << 24) | (((n >> 16) as u8 as u64) << 16) | (((n
        >> 8) as u8 as u64) << 8) | (n as u8 as u64) == n) by (bit_vector);
}

/// Big-endian bytes of `n`.
pub fn be8_encode(n: u64) -> (r: Vec<u8>)
    ensures
        r@ == be8_of(n),
{
    let mut r: Vec<u8> = Vec::new();
    r.push((n >> 56) as u8);
    r.push((n >> 48) as u8);
    r.push((n >> 40) as u8);
    r.push((n >> 32) as u8);
    r.push((n >> 24) as u8);
    r.push((n >> 16) as u8);
    r.push((n >> 8) as u8);
    r.push(n as u8);
    proof {
        assert(r@ =~= be8_of(n));
    }
    r
}

/// Value of 8 big-endian bytes.
pub fn be8_decode(s: &[u8]) -> (r: u64)
    requires
        s@.len() == 8,
    ensures
        r == be8_val(s@),
{
    let r: u64 = ((s[0] as u64) << 56) | ((s[1] as u64) << 48) | ((s[2] as u64) << 40) | ((
    s[3] as u64) << 32) | ((s[4] as u64) << 24) | ((s[5] as u64) << 16) | ((s[6] as u64) << 8) | (
    s[7] as u64);
    r
}

} // verus!
