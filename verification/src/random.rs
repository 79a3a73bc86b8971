//! Random numbers from `rand`. What a generator returns depends on its state, so the
//! contracts below state only the range of each draw.

use vstd::prelude::*;
use rand::RngExt as _;
use rand::SeedableRng as _;
use rand::rngs::{SmallRng, ThreadRng};

verus! {

#[verifier::external_type_specification]
#[verifier::external_body]
pub struct ExThreadRng(rand::rngs::ThreadRng);

#[verifier::external_type_specification]
#[verifier::external_body]
pub struct ExSmallRng(rand::rngs::SmallRng);

/// The generator of the current thread (`rand::rng`).
#[verifier::external_body]
pub fn thread_rng() -> (r: ThreadRng) {
    rand::rng()
}

/// A draw from `0..n` (`RngExt::random_range`, which panics on an empty range).
#[verifier::external_body]
pub fn random_below(rng: &mut ThreadRng, n: usize) -> (r: usize)
    requires
        n > 0,
    ensures
        r < n,
{
    rng.random_range(0..n)
}

/// A small generator seeded with `seed` (`SeedableRng::seed_from_u64`), or seeded
/// from the system where there is no seed (`rand::make_rng`).
#[verifier::external_body]
pub fn small_rng(seed: Option<u64>) -> (r: SmallRng) {
    match seed {
        Some(s) => SmallRng::seed_from_u64(s),
        None => rand::make_rng(),
    }
}

/// A draw from `0..=i` (`RngExt::random_range` on an inclusive range).
#[verifier::external_body]
pub fn random_at_most(rng: &mut SmallRng, i: usize) -> (r: usize)
    ensures
        r <= i,
{
    rng.random_range(0..=i)
}

} // verus!
