//! The calls into outside crates.
//!
//! What a contract here states of such a call is not proved: it is what the
//! source and the documentation of the crate show. The numbers of
//! `alloy_primitives` pass in and out as their four limbs, least significant
//! limb first.

use vstd::prelude::*;

use rand::distributions::Standard;
use rand::rngs::StdRng;
use rand::{Rng, SeedableRng};
use rayon::iter::{IntoParallelRefIterator, ParallelIterator};

use crate::bytes::{be_bytes, be_value, le_bytes, le_value, limbs_value, pow256};
use crate::change::{change_deltas, delta_of, is_bracketed_sum, join_deltas, StateChange};
use crate::world::WorldHash;

verus! {

/// `alloy_primitives::U256::to_le_bytes`: the 32 bytes of the number, least
/// significant byte first.
#[verifier::external_body]
pub(crate) fn u256_to_le_bytes(limbs: [u64; 4]) -> (out: [u8; 32])
    ensures
        out@ == le_bytes(limbs_value(limbs@), 32),
{
    alloy_primitives::U256::from_limbs(limbs).to_le_bytes::<32>()
}

/// `alloy_primitives::U256::to_be_bytes`: the 32 bytes of the number, most
/// significant byte first.
#[verifier::external_body]
pub(crate) fn u256_to_be_bytes(limbs: [u64; 4]) -> (out: [u8; 32])
    ensures
        out@ == be_bytes(limbs_value(limbs@), 32),
{
    alloy_primitives::U256::from_limbs(limbs).to_be_bytes::<32>()
}

/// `alloy_primitives::U256::from_le_slice`: the number that the bytes hold,
/// least significant byte first. It panics on more than 32 bytes.
#[verifier::external_body]
pub(crate) fn u256_from_le_slice(bytes: &[u8]) -> (limbs: [u64; 4])
    requires
        bytes@.len() <= 32,
    ensures
        limbs_value(limbs@) == le_value(bytes@),
{
    alloy_primitives::U256::from_le_slice(bytes).into_limbs()
}

/// `alloy_primitives::U256::from_be_slice`: the number that the bytes hold,
/// most significant byte first. It panics on more than 32 bytes.
#[verifier::external_body]
pub(crate) fn u256_from_be_slice(bytes: &[u8]) -> (limbs: [u64; 4])
    requires
        bytes@.len() <= 32,
    ensures
        limbs_value(limbs@) == be_value(bytes@),
{
    alloy_primitives::U256::from_be_slice(bytes).into_limbs()
}

/// The `+` of `alloy_primitives::U256`: the sum modulo 2^256.
#[verifier::external_body]
pub(crate) fn u256_plus(a: [u64; 4], b: [u64; 4]) -> (limbs: [u64; 4])
    ensures
        limbs_value(limbs@) == (limbs_value(a@) + limbs_value(b@)) % pow256(32),
{
    (alloy_primitives::U256::from_limbs(a) + alloy_primitives::U256::from_limbs(b)).into_limbs()
}

/// The first 2048 bytes of the extendable output of BLAKE3 on an input.
pub uninterp spec fn blake3_xof_2048(input: Seq<u8>) -> Seq<u8>;

/// `blake3::Hasher::finalize_xof` on a hasher that was fed the input, read to
/// 2048 bytes: a fixed function of the input, which is only named here.
#[verifier::external_body]
pub(crate) fn blake3_expand(input: &[u8]) -> (out: [u8; 2048])
    ensures
        out@ == blake3_xof_2048(input@),
{
    let mut out = [0u8; 2048];
    blake3::Hasher::new().update(input).finalize_xof().fill(&mut out);
    out
}

/// The 32-byte BLAKE3 digest of an input.
pub uninterp spec fn blake3_digest(input: Seq<u8>) -> Seq<u8>;

/// `blake3::hash`: a fixed function of the input, which is only named here.
#[verifier::external_body]
pub(crate) fn blake3_hash(input: &[u8]) -> (out: [u8; 32])
    ensures
        out@ == blake3_digest(input@),
{
    *blake3::hash(input).as_bytes()
}

/// `rayon`'s `reduce` over a mapped parallel iterator of a slice. It maps each
/// change to its delta and joins the deltas in the order of the slice, with a
/// zero wherever it starts a piece of work. How it brackets the joins is up to
/// the schedule: the contract holds of every bracketing.
#[verifier::external_body]
pub(crate) fn reduce_deltas(changes: &[StateChange]) -> (delta: WorldHash)
    ensures
        is_bracketed_sum(delta@, change_deltas(changes@)),
{
    changes.par_iter().map(|change| delta_of(change)).reduce(
        || WorldHash::new(),
        |left, right| join_deltas(left, right),
    )
}

/// The item at an index of the stream of triples that `StdRng` yields from a
/// seed.
pub uninterp spec fn seeded_triple(seed: u64, index: int) -> ([u8; 20], u64, u128);

/// `rand`'s `sample_iter` over `Standard` on `StdRng::seed_from_u64`, cut at
/// `n` items. The generator is deterministic, so that each item is a fixed
/// function of the seed and of its index. It is only named here.
#[verifier::external_body]
pub(crate) fn draw_triples(seed: u64, n: usize) -> (draws: Vec<([u8; 20], u64, u128)>)
    ensures
        draws@ == Seq::new(n as nat, |i: int| seeded_triple(seed, i)),
{
    StdRng::seed_from_u64(seed).sample_iter(Standard).take(n).collect()
}

/// The item at an index of the stream of words that `StdRng` yields from a
/// seed.
pub uninterp spec fn seeded_word(seed: u64, index: int) -> u64;

/// `rand`'s `sample_iter` over `Standard` on `StdRng::seed_from_u64`, as in
/// [`draw_triples`], with 64-bit words for items.
#[verifier::external_body]
pub(crate) fn draw_words(seed: u64, n: usize) -> (draws: Vec<u64>)
    ensures
        draws@ == Seq::new(n as nat, |i: int| seeded_word(seed, i)),
{
    StdRng::seed_from_u64(seed).sample_iter(Standard).take(n).collect()
}

} // verus!
