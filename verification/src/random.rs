//! Randomness from the operating system.

use rand::RngCore;
use vstd::prelude::*;

verus! {

/// `RngCore::try_fill_bytes` on `rand::rngs::OsRng` (rand): fills a buffer
/// of `len` bytes from the operating system's generator. On success the
/// result has `len` bytes; which bytes depends on chance, and nothing more is
/// claimed. `None` where the operating system refused.
#[verifier::external_body]
pub(crate) fn os_random_bytes(len: usize) -> (bytes: Option<Vec<u8>>)
    ensures
        bytes matches Some(b) ==> b@.len() == len,
{
    let mut buffer = vec![0u8; len];
    rand::rngs::OsRng.try_fill_bytes(&mut buffer).ok().map(|()| buffer)
}

} // verus!
