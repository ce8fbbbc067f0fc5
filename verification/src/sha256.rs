//! The SHA-256 digest, named rather than restated: `sha256_of` stands for
//! the digest of a byte sequence, and the trusted wrapper below, around the
//! sha2 crate, is the one place the library computes it.

use sha2::Digest;
use vstd::prelude::*;

verus! {

/// The SHA-256 digest of a byte sequence. The algorithm itself is not
/// written out here: this name gets its meaning from `sha256`, the trusted
/// wrapper around the sha2 crate, which returns exactly this value.
pub uninterp spec fn sha256_of(bytes: Seq<u8>) -> Seq<u8>;

/// Relies on sha2::Sha256 through Digest::digest: the digest is a function
/// of the input bytes alone and is always 32 bytes long.
#[verifier::external_body]
pub(crate) fn sha256(input: &[u8]) -> (r: Vec<u8>)
    ensures
        r@ == sha256_of(input@),
        r@.len() == 32,
{
    sha2::Sha256::digest(input).to_vec()
}

} // verus!
