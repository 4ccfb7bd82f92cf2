use vstd::prelude::*;

verus! {

#[verifier::external_type_specification]
#[verifier::external_body]
pub struct ExChaCha8Rng(rand_chacha::ChaCha8Rng);

/// The trit that a ChaCha8 stream seeded with `seed` yields as its
/// `index`-th uniform draw over {0, 1, 2}.
///
/// rand_chacha's ChaCha8Rng is a deterministic, portable stream cipher, and
/// rand_core's `SeedableRng::seed_from_u64` expands the seed by a fixed PCG32
/// permutation with no other input, so with the draw width fixed at 64 bits
/// the whole draw sequence is a function of the seed alone; this names that
/// function without stating it.
pub uninterp spec fn chacha_trit(seed: u64, index: nat) -> usize;

/// Builds a ChaCha8 generator from a 64-bit seed.
/// Relies on rand_core's `SeedableRng::seed_from_u64`: the generator state is
/// a deterministic function of `seed`.
#[verifier::external_body]
fn chacha_seeded(seed: u64) -> rand_chacha::ChaCha8Rng {
    <rand_chacha::ChaCha8Rng as rand::SeedableRng>::seed_from_u64(seed)
}

/// Builds a ChaCha8 generator from operating-system entropy.
/// Relies on rand_core's `SeedableRng::from_entropy`; nothing is promised of
/// the resulting stream.
#[verifier::external_body]
fn chacha_from_entropy() -> rand_chacha::ChaCha8Rng {
    <rand_chacha::ChaCha8Rng as rand::SeedableRng>::from_entropy()
}

/// A deterministic pseudo-random source of uniform trits.
///
/// When built from a seed, the ghost `seed` field records it and the ghost
/// `index` field counts the draws made so far, so that contracts can speak of
/// each draw as `chacha_trit(seed, index)`. The underlying generator is
/// private: every draw goes through [`Self::next_uniform_trit`], which keeps
/// the ghost index in step with the stream.
pub struct TrialGenerator {
    rng: rand_chacha::ChaCha8Rng,
    seed: Ghost<Option<u64>>,
    index: Ghost<nat>,
}

impl TrialGenerator {
    /// The seed this generator was built from, or `None` when it was seeded
    /// from entropy.
    pub closed spec fn spec_seed(self) -> Option<u64> {
        self.seed@
    }

    /// How many draws have been made so far.
    pub closed spec fn draws(self) -> nat {
        self.index@
    }

    /// A generator whose whole output sequence is a reproducible function of
    /// `seed`.
    pub fn seeded(seed: u64) -> (g: Self)
        ensures
            g.spec_seed() == Some(seed),
            g.draws() == 0,
    {
        TrialGenerator { rng: chacha_seeded(seed), seed: Ghost(Some(seed)), index: Ghost(0) }
    }

    /// A generator seeded from a true-entropy source; its sequence is not
    /// reproducible across runs.
    pub fn from_entropy() -> (g: Self)
        ensures
            g.spec_seed() == None::<u64>,
            g.draws() == 0,
    {
        TrialGenerator { rng: chacha_from_entropy(), seed: Ghost(None), index: Ghost(0) }
    }

    /// Draws one uniform sample from {0, 1, 2}.
    ///
    /// Relies on rand's `Rng::gen_range` over `0u64..=2`: its result lies in
    /// the given range, and on a seeded ChaCha8 stream it is the next value
    /// of a deterministic sequence, here `chacha_trit(seed, index)`. The
    /// sample is drawn as a `u64` so that the stream does not depend on the
    /// machine's word size.
    #[verifier::external_body]
    pub fn next_uniform_trit(&mut self) -> (r: usize)
        ensures
            r <= 2,
            final(self).spec_seed() == old(self).spec_seed(),
            final(self).draws() == old(self).draws() + 1,
            old(self).spec_seed() matches Some(s) ==> r == chacha_trit(s, old(self).draws()),
    {
        rand::Rng::gen_range(&mut self.rng, 0u64..=2) as usize
    }
}

} // verus!
