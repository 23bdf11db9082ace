use vstd::prelude::*;

verus! {

#[verifier::external_type_specification]
#[verifier::external_body]
pub struct ExStdRng(rand::rngs::StdRng);

/// Source of the cosmetic tile draws: an explicitly seeded random generator,
/// injected into generation instead of ambient thread-local state, so runs
/// can be reproduced. Nothing is assumed about the values drawn beyond their
/// range; the rare gate never consults this source.
pub struct TileRng {
    inner: rand::rngs::StdRng,
}

/// Relies on rand::SeedableRng::seed_from_u64: builds a generator from a
/// word-sized seed. Nothing is promised of the generator's future output.
#[verifier::external_body]
fn std_rng_from_seed(seed: u64) -> rand::rngs::StdRng {
    <rand::rngs::StdRng as rand::SeedableRng>::seed_from_u64(seed)
}

/// Relies on rand::RngExt::random_range over `0..bound`: the draw lies in
/// that half-open range; the call panics only on an empty range, which the
/// precondition excludes.
#[verifier::external_body]
fn draw_range(rng: &mut rand::rngs::StdRng, bound: u32) -> (r: u32)
    requires
        1 <= bound,
    ensures
        r < bound,
{
    rand::RngExt::random_range(rng, 0..bound)
}

impl TileRng {
    /// A generator seeded from `seed`; equal seeds give equal draw sequences.
    pub fn new(seed: u64) -> TileRng {
        TileRng { inner: std_rng_from_seed(seed) }
    }

    /// A draw uniform over `0..bound`.
    pub fn draw_below(&mut self, bound: u32) -> (r: u32)
        requires
            1 <= bound,
        ensures
            r < bound,
    {
        draw_range(&mut self.inner, bound)
    }
}

} // verus!
