//! The simulation's random stream: one seeded generator advanced from
//! stage to stage, so a whole run is a pure function of the configured
//! seed. The draws themselves come from rand's `StdRng`; `draw_of` names
//! its output stream, which for a fixed seed is the same in every process
//! and on every machine.

use vstd::prelude::*;

use crate::TRAIT_MAX;

verus! {

/// The `idx`-th output of rand's `StdRng` seeded from `seed` by
/// `seed_from_u64`. `StdRng` is the ChaCha block cipher with 12 rounds,
/// so the stream is a pure function of the seed.
pub uninterp spec fn draw_of(seed: u64, idx: nat) -> u64;

/// The `idx`-th draw reduced below `n` (for `n >= 1`).
pub open spec fn draw_below(seed: u64, idx: nat, n: u64) -> u64 {
    draw_of(seed, idx) % n
}

/// The `idx`-th draw as a symmetric perturbation in `[-m, m]`.
pub open spec fn draw_delta(seed: u64, idx: nat, m: int) -> int {
    draw_below(seed, idx, (2 * m + 1) as u64) - m
}

#[verifier::external_type_specification]
#[verifier::external_body]
pub struct ExStdRng(rand::rngs::StdRng);

/// A seeded random stream. The ghost fields record which seed the inner
/// generator was built from and how many values it has produced.
pub struct SimRng {
    inner: rand::rngs::StdRng,
    seed: Ghost<u64>,
    idx: Ghost<nat>,
}

/// Relies on rand's `SeedableRng::seed_from_u64` for `StdRng`: the
/// returned generator state is a pure function of the seed, positioned
/// before its first output.
#[verifier::external_body]
fn seed_std_rng(seed: u64) -> rand::rngs::StdRng {
    rand::SeedableRng::seed_from_u64(seed)
}

/// Relies on rand's `RngCore::next_u64` for `StdRng`: it returns the next
/// value of the ChaCha12 output stream determined by the seed, advancing
/// the generator by one position. The fields of `SimRng` are private, so
/// `seed` and `idx` always describe the state of `inner`: they are set
/// consistently at construction and only this function advances them.
#[verifier::external_body]
fn rng_next(rng: &mut SimRng) -> (r: u64)
    ensures
        final(rng).seed() == old(rng).seed(),
        final(rng).idx() == old(rng).idx() + 1,
        r == draw_of(old(rng).seed(), old(rng).idx()),
{
    rand::RngCore::next_u64(&mut rng.inner)
}

impl SimRng {
    /// The seed this stream was built from.
    pub closed spec fn seed(self) -> u64 {
        self.seed@
    }

    /// How many values this stream has produced.
    pub closed spec fn idx(self) -> nat {
        self.idx@
    }

    /// A fresh stream for `seed`, positioned at the first draw.
    pub fn new(seed: u64) -> (r: SimRng)
        ensures
            r.seed() == seed,
            r.idx() == 0,
    {
        SimRng { inner: seed_std_rng(seed), seed: Ghost(seed), idx: Ghost(0nat) }
    }

    /// Draw a value below `n`.
    pub fn below(&mut self, n: u64) -> (r: u64)
        requires
            n >= 1,
        ensures
            final(self).seed() == old(self).seed(),
            final(self).idx() == old(self).idx() + 1,
            r == draw_below(old(self).seed(), old(self).idx(), n),
            r < n,
    {
        rng_next(self) % n
    }

    /// Draw a symmetric perturbation in `[-m, m]`.
    pub fn delta(&mut self, m: i64) -> (r: i64)
        requires
            0 <= m <= TRAIT_MAX,
        ensures
            final(self).seed() == old(self).seed(),
            final(self).idx() == old(self).idx() + 1,
            r == draw_delta(old(self).seed(), old(self).idx(), m as int),
            -m <= r <= m,
    {
        let n = (2 * m + 1) as u64;
        let b = self.below(n);
        b as i64 - m
    }

    /// Advance the stream by `n` positions without using the draws.
    pub fn skip(&mut self, n: u64)
        ensures
            final(self).seed() == old(self).seed(),
            final(self).idx() == old(self).idx() + n,
    {
        let mut k: u64 = 0;
        while k < n
            invariant
                0 <= k <= n,
                self.seed() == old(self).seed(),
                self.idx() == old(self).idx() + k,
            decreases n - k,
        {
            let _ = rng_next(self);
            k = k + 1;
        }
    }
}

} // verus!
