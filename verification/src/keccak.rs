//! The Keccak-256 hash function, taken from the `tiny-keccak` crate.

use vstd::prelude::*;

verus! {

/// The Keccak-256 digest of `data`.
pub uninterp spec fn keccak256(data: Seq<u8>) -> Seq<u8>;

/// `tiny_keccak::keccak256`: the digest of `bytes`, which has 32 bytes. Which
/// bytes these are is not stated here but named.
#[verifier::external_body]
pub(crate) fn keccak256_hash(bytes: &[u8]) -> (digest: Vec<u8>)
    ensures
        digest@ == keccak256(bytes@),
        digest@.len() == 32,
{
    tiny_keccak::keccak256(bytes).to_vec()
}

} // verus!
