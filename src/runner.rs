use rand::Rng;
use rand::SeedableRng;
use rand_xorshift::XorShiftRng;
use vstd::prelude::*;

verus! {

#[verifier::external_type_specification]
#[verifier::external_body]
pub struct ExXorShiftRng(rand_xorshift::XorShiftRng);

/// Relies on the derived `Clone` of `XorShiftRng`, which copies its four
/// state words: the copy is the same generator state.
pub assume_specification[ <rand_xorshift::XorShiftRng as Clone>::clone ](
    r: &rand_xorshift::XorShiftRng,
) -> (c: rand_xorshift::XorShiftRng)
    ensures
        c == *r,
;

/// Relies on `rand::Rng::gen_range`, which returns a value of the half-open
/// range and panics only when the range is empty.
#[verifier::external_body]
fn sample_below(rng: &mut XorShiftRng, low: usize, high: usize) -> (r: usize)
    requires
        low < high,
    ensures
        low <= r < high,
{
    rng.gen_range(low..high)
}

/// Relies on `rand::Rng::gen` and `SeedableRng::from_seed`: a new generator
/// seeded from the next draws of `rng`.
#[verifier::external_body]
fn fork_rng(rng: &mut XorShiftRng) -> (r: XorShiftRng) {
    XorShiftRng::from_seed(rng.gen())
}

/// Relies on `SeedableRng::seed_from_u64`: a generator fixed by the seed.
#[verifier::external_body]
fn rng_from_seed(seed: u64) -> (r: XorShiftRng) {
    XorShiftRng::seed_from_u64(seed)
}

/// Relies on `rand::random`: a seed drawn from the thread-local generator.
#[verifier::external_body]
fn random_seed() -> (r: u64) {
    rand::random::<u64>()
}

/// The source of randomness handed to every strategy.
pub struct TestRunner {
    rng: XorShiftRng,
}

impl TestRunner {
    /// A runner whose draws are fixed by `seed`.
    pub fn from_seed(seed: u64) -> (r: TestRunner) {
        TestRunner { rng: rng_from_seed(seed) }
    }

    /// A runner seeded from the thread-local generator.
    pub fn new() -> (r: TestRunner) {
        let seed = random_seed();
        TestRunner::from_seed(seed)
    }

    /// Draws a size uniformly from `[low, high)`.
    pub fn sample_size(&mut self, low: usize, high: usize) -> (r: usize)
        requires
            low < high,
        ensures
            low <= r < high,
    {
        sample_below(&mut self.rng, low, high)
    }

    /// Forks an independent generator from this runner's stream.
    pub fn new_rng(&mut self) -> (r: XorShiftRng) {
        fork_rng(&mut self.rng)
    }
}

impl Default for TestRunner {
    /// A runner seeded from the thread-local generator.
    fn default() -> (r: TestRunner) {
        TestRunner::new()
    }
}

} // verus!
