//! Seeds for the noise generators, derived from a name.
use vstd::prelude::*;
use sha2::Digest;
use rand::{RngCore, SeedableRng};

verus! {

/// The SHA-256 digest of `data`.
pub uninterp spec fn sha256_of(data: Seq<u8>) -> Seq<u8>;

/// The first `u32` that `rand`'s `StdRng` seeded with `seed` yields.
pub uninterp spec fn std_rng_first_u32(seed: Seq<u8>) -> u32;

/// `sha2::Sha256::digest` of `data`, as 32 bytes: [`sha256_of`] of the
/// input.
#[verifier::external_body]
fn sha256(data: &[u8]) -> (r: [u8; 32])
    ensures
        r@ == sha256_of(data@),
{
    sha2::Sha256::digest(data).into()
}

/// `rand::rngs::StdRng::from_seed(seed)` then `next_u32`: the generator is
/// deterministic for a given seed (in the version of `rand` in use), so
/// the result is [`std_rng_first_u32`] of the seed.
#[verifier::external_body]
fn first_u32(seed: [u8; 32]) -> (r: u32)
    ensures
        r == std_rng_first_u32(seed@),
{
    let mut rng = rand::rngs::StdRng::from_seed(seed);
    rng.next_u32()
}

/// The seed of the random generator of a name: the SHA-256 digest of its
/// bytes.
pub fn seed_bytes(bytes: &[u8]) -> (r: [u8; 32])
    ensures
        r@ == sha256_of(bytes@),
{
    sha256(bytes)
}

/// A 32-bit seed derived from `bytes`: the first number of a generator
/// seeded with their SHA-256 digest.
pub fn make_seed(bytes: &[u8]) -> (r: u32)
    ensures
        r == std_rng_first_u32(sha256_of(bytes@)),
{
    let digest = seed_bytes(bytes);
    first_u32(digest)
}

} // verus!
