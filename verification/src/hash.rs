//! The content hash of uploaded code.

use vstd::prelude::*;
use crate::types::Digest;

verus! {

/// The SHA-256 hash of `data`, as the `sha2` crate computes it.
pub uninterp spec fn sha256(data: Seq<u8>) -> Seq<u8>;

/// Calls `sha2::Sha256::digest`, the one-shot form of the hasher. The result
/// is taken on trust to be the SHA-256 hash of `data`, a function of the bytes
/// alone.
#[verifier::external_body]
pub(crate) fn sha256_digest(data: &[u8]) -> (digest: Digest)
    ensures
        digest@ == sha256(data@),
{
    let hashed = <sha2::Sha256 as sha2::Digest>::digest(data);
    Digest::new(hashed.into())
}

} // verus!
