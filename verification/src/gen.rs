//! The deterministic generator: a seeded pseudo-random stream from which
//! every geometric decision is drawn. The source is rand's `StdRng`; rand
//! documents its stream as fixed within a rand version but not across
//! versions, so the dependency is pinned to one exact version, where `StdRng`
//! is the ChaCha12 generator. The stream state and each draw are named, so
//! that the whole pipeline is provably a function of the seed.
use vstd::prelude::*;

verus! {

#[verifier::external_type_specification]
#[verifier::external_body]
pub struct ExStdRng(rand::rngs::StdRng);

/// The abstract stream state a generator holds.
pub uninterp spec fn rng_state(r: rand::rngs::StdRng) -> Seq<u8>;

/// The stream state that seeding with the given 32 bytes yields.
pub uninterp spec fn seeded_state(seed: Seq<u8>) -> Seq<u8>;

/// The value a bounded draw returns on a given stream state.
pub uninterp spec fn draw_u64(state: Seq<u8>, lo: u64, hi: u64) -> u64;

/// The stream state a bounded draw leaves behind; named beside `draw_u64`
/// because the callers' contracts need the successor state to chain draws.
pub uninterp spec fn next_state(state: Seq<u8>, lo: u64, hi: u64) -> Seq<u8>;

/// Relies on `rand::SeedableRng::from_seed` for `StdRng`: the generator is a
/// function of the 32-byte seed alone.
#[verifier::external_body]
fn std_rng_from_seed(seed: &Vec<u8>) -> (r: rand::rngs::StdRng)
    requires
        seed@.len() == 32,
    ensures
        rng_state(r) == seeded_state(seed@),
{
    let mut bytes = [0u8; 32];
    bytes.copy_from_slice(seed.as_slice());
    <rand::rngs::StdRng as rand::SeedableRng>::from_seed(bytes)
}

/// Relies on `rand::Rng::gen_range` on a `u64` range: the result lies in
/// `[lo, hi)` and both it and the successor state depend on the stream state
/// and the bounds alone.
#[verifier::external_body]
fn std_rng_gen_range(r: &mut rand::rngs::StdRng, lo: u64, hi: u64) -> (n: u64)
    requires
        lo < hi,
    ensures
        lo <= n < hi,
        n == draw_u64(rng_state(*old(r)), lo, hi),
        rng_state(*final(r)) == next_state(rng_state(*old(r)), lo, hi),
{
    rand::Rng::gen_range(r, lo..hi)
}

/// The sole source of randomness-looking values in the pipeline.
pub struct Generator {
    rng: rand::rngs::StdRng,
}

impl Generator {
    /// The abstract stream state, for contracts.
    pub closed spec fn state(self) -> Seq<u8> {
        rng_state(self.rng)
    }

    /// Seeds a generator; the same 32 bytes always give the same stream.
    pub fn new(seed: &Vec<u8>) -> (g: Generator)
        requires
            seed@.len() == 32,
        ensures
            g.state() == seeded_state(seed@),
    {
        Generator { rng: std_rng_from_seed(seed) }
    }

    /// A uniform draw from `[lo, hi)`; the result and the successor state are
    /// functions of the current state and the bounds.
    pub fn next_in_range(&mut self, lo: u64, hi: u64) -> (n: u64)
        requires
            lo < hi,
        ensures
            lo <= n < hi,
            n == draw_u64(old(self).state(), lo, hi),
            final(self).state() == next_state(old(self).state(), lo, hi),
    {
        std_rng_gen_range(&mut self.rng, lo, hi)
    }
}

} // verus!
