//! Content fingerprints of submitted pictures.

use sha2::{Digest, Sha256};
use vstd::prelude::*;

verus! {

/// The SHA-256 digest of `bytes`, as a mathematical function of the input.
///
/// The hash itself is computed by the `sha2` crate and is not modelled here;
/// this name only records that equal inputs have equal digests.
pub uninterp spec fn sha256_of(bytes: Seq<u8>) -> Seq<u8>;

/// Calls `sha2::Sha256::digest`, the one-shot form of the `Digest` trait.
///
/// Trusted: the returned array holds the SHA-256 digest of `bytes`, which
/// depends on nothing but `bytes`. The call accepts every input, the empty
/// one included, and does not fail.
#[verifier::external_body]
fn sha256(bytes: &[u8]) -> (digest: [u8; 32])
    ensures
        digest@ == sha256_of(bytes@),
{
    Sha256::digest(bytes).into()
}

/// Fingerprints the bytes of a picture.
///
/// Every input is accepted; whether an empty picture may be submitted at all
/// is for the store to decide.
pub fn fingerprint(bytes: &[u8]) -> (digest: [u8; 32])
    ensures
        digest@ == sha256_of(bytes@),
        digest@.len() == 32,
{
    sha256(bytes)
}

} // verus!
