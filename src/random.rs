//! The random source: rand's `StdRng`, built from a seed so that runs can be repeated.

use rand::rngs::StdRng;
use rand::{Rng, SeedableRng};
use vstd::prelude::*;

verus! {

#[verifier::external_type_specification]
#[verifier::external_body]
pub struct ExStdRng(StdRng);

/// Relies on rand's `SeedableRng::seed_from_u64` for `StdRng`: a generator built
/// from a 64-bit seed; the same seed gives the same stream of output.
#[verifier::external_body]
pub(crate) fn seeded_rng(seed: u64) -> (r: StdRng) {
    StdRng::seed_from_u64(seed)
}

/// Relies on rand's `Rng::gen::<bool>`: one fair bit drawn from the generator,
/// which advances it. Nothing is promised of the value.
#[verifier::external_body]
pub(crate) fn draw_bool(rng: &mut StdRng) -> (b: bool) {
    rng.gen::<bool>()
}

} // verus!
