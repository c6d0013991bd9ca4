//! The simulation's source of randomness, a seedable generator from `rand`.
use rand::rngs::StdRng;
use rand::Rng;
use rand::SeedableRng;
use vstd::prelude::*;

verus! {

/// `rand`'s standard generator, carried as an opaque value.
#[verifier::external_type_specification]
#[verifier::external_body]
pub struct ExStdRng(StdRng);

/// Relies on rand's `SeedableRng::seed_from_u64` for `StdRng`: a generator fixed by the seed.
#[verifier::external_body]
fn seeded_rng(seed: u64) -> (r: StdRng) {
    StdRng::seed_from_u64(seed)
}

/// Relies on rand's `Rng::gen_range`: a value drawn from `0..n`, which panics only when the
/// range is empty.
#[verifier::external_body]
fn gen_below(rng: &mut StdRng, n: u64) -> (r: u64)
    requires
        n > 0,
    ensures
        r < n,
{
    rng.gen_range(0..n)
}

/// Relies on rand's `Rng::gen` for `u64`: any value at all.
#[verifier::external_body]
fn gen_any(rng: &mut StdRng) -> (r: u64) {
    rng.gen::<u64>()
}

/// A pseudo-random source; two sources made from one seed give the same draws.
pub struct Dice {
    rng: StdRng,
}

impl Dice {
    /// A source fixed by `seed`.
    pub fn seeded(seed: u64) -> (r: Dice) {
        Dice { rng: seeded_rng(seed) }
    }

    /// A draw from `0..n`.
    pub fn below(&mut self, n: u64) -> (r: u64)
        requires
            n > 0,
        ensures
            r < n,
    {
        gen_below(&mut self.rng, n)
    }

    /// A draw from the whole range of `u64`.
    pub fn any(&mut self) -> u64 {
        gen_any(&mut self.rng)
    }
}

} // verus!
