//! The one cryptographic primitive the system needs: HMAC-SHA256, used both
//! for signing tokens and for checking the payment gateway's signature.

use vstd::prelude::*;
use crate::text::{hex_of, hex_encode, bytes_eq, append_bytes};
use hmac::Mac;

verus! {

/// What HMAC-SHA256 returns for a key and a message.  The tag is a function
/// of the two arguments alone; nothing more is assumed of it.
pub uninterp spec fn hmac_sha256_of(key: Seq<u8>, msg: Seq<u8>) -> Seq<u8>;

/// Relies on `hmac::Hmac<sha2::Sha256>`: the tag depends on the key and the
/// message alone, and is always 32 bytes (SHA-256's output size).
/// `new_from_slice` accepts a key of any length for HMAC (its source returns
/// `Ok` unconditionally), so the `expect` never fires.
#[verifier::external_body]
pub(crate) fn hmac_sha256(key: &[u8], msg: &[u8]) -> (r: Vec<u8>)
    ensures
        r@ == hmac_sha256_of(key@, msg@),
        r@.len() == 32,
{
    let mut mac = <hmac::Hmac<sha2::Sha256> as Mac>::new_from_slice(key).expect(
        "HMAC accepts any key length",
    );
    mac.update(msg);
    mac.finalize().into_bytes().to_vec()
}

/// ASCII `|`, the separator the gateway puts between order id and payment id.
pub const PIPE: u8 = 0x7c;

/// The byte string the gateway signs: `orderId|paymentId`.
pub open spec fn payment_payload(order_id: Seq<u8>, payment_id: Seq<u8>) -> Seq<u8> {
    order_id + seq![PIPE] + payment_id
}

/// The signature the gateway is expected to send: lowercase hex of
/// HMAC-SHA256 over `orderId|paymentId` with the shared secret.
pub open spec fn expected_payment_signature(
    secret: Seq<u8>,
    order_id: Seq<u8>,
    payment_id: Seq<u8>,
) -> Seq<u8> {
    hex_of(hmac_sha256_of(secret, payment_payload(order_id, payment_id)))
}

/// Recomputes the expected signature and compares it byte for byte with the
/// provided one.  Accepts exactly when they agree, so any altered signature
/// is rejected.
pub fn verify_payment_signature(
    secret: &[u8],
    order_id: &[u8],
    payment_id: &[u8],
    signature: &[u8],
) -> (r: bool)
    ensures
        r == (signature@ == expected_payment_signature(secret@, order_id@, payment_id@)),
{
    let mut payload: Vec<u8> = Vec::new();
    append_bytes(&mut payload, order_id);
    payload.push(PIPE);
    append_bytes(&mut payload, payment_id);
    proof {
        assert(payload@ =~= payment_payload(order_id@, payment_id@));
    }
    let tag = hmac_sha256(secret, payload.as_slice());
    let expected = hex_encode(tag.as_slice());
    bytes_eq(expected.as_slice(), signature)
}

/// Any alteration of an accepted signature is rejected: a string that
/// differs from the expected signature — in as little as one bit — never
/// passes the comparison.
pub proof fn lemma_altered_signature_rejected(
    secret: Seq<u8>,
    order_id: Seq<u8>,
    payment_id: Seq<u8>,
    sig: Seq<u8>,
    altered: Seq<u8>,
)
    requires
        sig == expected_payment_signature(secret, order_id, payment_id),
        altered != sig,
    ensures
        altered != expected_payment_signature(secret, order_id, payment_id),
{
}

} // verus!
