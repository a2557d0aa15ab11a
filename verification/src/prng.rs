use vstd::prelude::*;

use rand_core::Rng;

verus! {

#[verifier::external_type_specification]
#[verifier::external_body]
pub struct ExLcg(rand_pcg::Lcg64Xsh32);

/// A per-worker pseudo random number generator, seeded once from entropy the
/// host adapter collects.
#[derive(Debug)]
pub struct Prng {
    rng: rand_pcg::Lcg64Xsh32,
}

impl Prng {
    /// Relies on `rand_seeder::Seeder` and `rand_pcg::Lcg64Xsh32`: hashing
    /// the seed and building the generator are pure functions of the seed.
    #[verifier::external_body]
    pub fn new(seed: u64) -> Prng {
        Prng { rng: rand_seeder::Seeder::from(seed).into_rng() }
    }

    /// Relies on `rand_pcg::Lcg64Xsh32`'s `Rng::next_u32`; nothing is
    /// promised of a pseudo random draw.
    #[verifier::external_body]
    pub fn next_u32(&mut self) -> u32 {
        self.rng.next_u32()
    }

    /// Relies on `rand_pcg::Lcg64Xsh32`'s `Rng::next_u64`; nothing is
    /// promised of a pseudo random draw.
    #[verifier::external_body]
    pub fn next_u64(&mut self) -> u64 {
        self.rng.next_u64()
    }
}

} // verus!
