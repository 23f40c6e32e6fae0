//! SHA-256, the one primitive this crate takes on trust.

use sha2::Digest;
use sha2::Sha256;
use vstd::prelude::*;

verus! {

/// The SHA-256 digest of `data`.
pub uninterp spec fn sha256(data: Seq<u8>) -> [u8; 32];

/// Hashes `data` with `sha2::Sha256::digest`.
///
/// Trusted: the result is the SHA-256 digest of exactly the bytes of `data`,
/// and depends on nothing else.
#[verifier::external_body]
pub(crate) fn sha256_digest(data: &[u8]) -> (out: [u8; 32])
    ensures
        out == sha256(data@),
{
    Sha256::digest(data).into()
}

/// Hashes a byte string.
pub fn hash_bytes(data: &Vec<u8>) -> (out: [u8; 32])
    ensures
        out == sha256(data@),
{
    sha256_digest(data.as_slice())
}

} // verus!
