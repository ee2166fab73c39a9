//! The message authentication code that signs session tokens.

use hmac::Mac;
use vstd::prelude::*;

verus! {

/// The length in bytes of a tag.
pub const TAG_LEN: usize = 32;

/// HMAC-SHA256 of `message` under `key`, as the `hmac` and `sha2` crates compute it.
/// Nothing is stated of its value here: it is a function of the key and the message alone.
pub uninterp spec fn hmac_sha256(key: Seq<u8>, message: Seq<u8>) -> Seq<u8>;

/// Computes the tag of a message.
///
/// Not verified: the body runs `Hmac::<Sha256>::new_from_slice`, `update` and
/// `finalize` of the `hmac` crate. The contract claims that the bytes returned are
/// the HMAC-SHA256 of the message under the key, and that there are 32 of them, the
/// output size of SHA-256. `new_from_slice` accepts a key of any length: a long key
/// is hashed first, a short one padded, so the call does not fail.
#[verifier::external_body]
pub(crate) fn tag_of(key: &[u8], message: &[u8]) -> (tag: Vec<u8>)
    ensures
        tag@ == hmac_sha256(key@, message@),
        tag@.len() == TAG_LEN,
{
    let mut mac = hmac::Hmac::<sha2::Sha256>::new_from_slice(key).expect("any key length");
    mac.update(message);
    mac.finalize().into_bytes().to_vec()
}

} // verus!
