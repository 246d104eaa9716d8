//! The hash function under every digest: Keccak-256.

use vstd::prelude::*;

verus! {

/// The Keccak-256 digest of `data`.
pub uninterp spec fn keccak256_digest(data: Seq<u8>) -> [u8; 32];

/// Computes the Keccak-256 digest of `data` with `ethers::utils::keccak256`.
///
/// Trusted, not proved: the digest that the call returns depends on the
/// bytes of `data` alone, so the same bytes always give the same digest.
/// Nothing else is claimed of its value.
#[verifier::external_body]
pub(crate) fn keccak256(data: &[u8]) -> (digest: [u8; 32])
    ensures
        digest == keccak256_digest(data@),
{
    ethers::utils::keccak256(data)
}

} // verus!
