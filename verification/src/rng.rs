//! The library's only source of randomness: a pseudo-random generator seeded
//! from the operating system, drawn from through a single bounded-draw
//! wrapper.

use vstd::prelude::*;

verus! {

#[verifier::external_type_specification]
#[verifier::external_body]
pub struct ExStdRng(rand::rngs::StdRng);

/// Relies on rand::SeedableRng::from_entropy: yields a generator freshly
/// seeded from the operating system's entropy source. Nothing can be promised
/// about the values it will produce.
#[verifier::external_body]
pub(crate) fn fresh_rng() -> rand::rngs::StdRng {
    <rand::rngs::StdRng as rand::SeedableRng>::from_entropy()
}

/// Relies on rand::Rng::gen_range over the half-open range `0..bound`: the
/// result is uniformly distributed in that range, and the call panics exactly
/// when the range is empty, which the precondition rules out. No draw tells
/// anything about later draws.
#[verifier::external_body]
pub(crate) fn draw_below(rng: &mut rand::rngs::StdRng, bound: usize) -> (r: usize)
    requires
        bound > 0,
    ensures
        r < bound,
{
    rand::Rng::gen_range(rng, 0..bound)
}

} // verus!
