//! Random bytes from the operating system.

use vstd::prelude::*;

verus! {

/// Asks the operating system for `count` random bytes.
///
/// Not verified: the body runs `try_fill_bytes` of `rand::rngs::OsRng`. The
/// contract claims only that, where the system delivers, exactly `count` bytes
/// come back; `None` stands for a system that has no entropy to give. Nothing is
/// claimed of the bytes themselves, and two calls need not agree.
#[verifier::external_body]
pub(crate) fn random_bytes(count: usize) -> (bytes: Option<Vec<u8>>)
    ensures
        bytes.is_some() ==> bytes.unwrap()@.len() == count,
{
    let mut buffer: Vec<u8> = Vec::new();
    buffer.resize(count, 0);
    match rand::RngCore::try_fill_bytes(&mut rand::rngs::OsRng, &mut buffer) {
        Ok(()) => Some(buffer),
        Err(_) => None,
    }
}

} // verus!
