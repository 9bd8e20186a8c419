//! Digests of remote paths.

use vstd::prelude::*;

verus! {

/// What `xxhash_rust::xxh64::xxh64` returns for the given input and seed.
pub uninterp spec fn xxh64_of(input: Seq<u8>, seed: u64) -> u64;

/// `xxhash_rust::xxh64::xxh64`: the 64-bit hash of the input under the seed, a function of
/// the two alone.
#[verifier::external_body]
fn xxh64(input: &[u8], seed: u64) -> (h: u64)
    ensures
        h == xxh64_of(input@, seed),
{
    xxhash_rust::xxh64::xxh64(input, seed)
}

/// The digest of a path: the hash of its UTF-8 bytes under the seed 0.
pub open spec fn path_digest(path: Seq<char>) -> u64 {
    xxh64_of(vstd::utf8::encode_utf8(path), 0)
}

/// Digests a path.
pub fn digest(path: &str) -> (h: u64)
    ensures
        h == path_digest(path@),
{
    xxh64(path.as_bytes(), 0)
}

} // verus!
