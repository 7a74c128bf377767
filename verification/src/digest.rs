//! SHA-256, from the `sha2` crate.

use sha2::{Digest, Sha256};
use vstd::prelude::*;

verus! {

/// The SHA-256 digest of a byte sequence.
pub uninterp spec fn sha256_of(data: Seq<u8>) -> Seq<u8>;

/// `Sha256::digest` (sha2): the SHA-256 digest of `data`, as 32 bytes.
/// The digest is a function of the bytes alone and is named `sha256_of`.
#[verifier::external_body]
pub(crate) fn sha256_digest(data: &[u8]) -> (digest: [u8; 32])
    ensures
        digest@ == sha256_of(data@),
{
    Sha256::digest(data).into()
}

} // verus!
