//! The pseudo-random generator that the relay draws from.
//!
//! The generator is `rand::rngs::StdRng`. Nothing in this module is proved:
//! each function below is a thin call into `rand`, and its contract is taken
//! on trust from that crate's documentation and source.

use rand::rngs::StdRng;
use rand::{Rng, RngCore, SeedableRng};
use vstd::prelude::*;

verus! {

/// `rand::rngs::StdRng`, carried as an opaque value.
#[verifier::external_type_specification]
#[verifier::external_body]
pub struct ExStdRng(rand::rngs::StdRng);

/// Calls `SeedableRng::seed_from_u64` for `StdRng`, which builds a generator
/// from a 64-bit seed and never fails. Nothing is claimed of the generator.
#[verifier::external_body]
pub(crate) fn seeded(seed: u64) -> StdRng {
    StdRng::seed_from_u64(seed)
}

/// Calls `RngCore::next_u64` on the generator, which advances it and hands
/// out the next 64 bits. Nothing is claimed of the bits.
#[verifier::external_body]
pub(crate) fn next_word(rng: &mut StdRng) -> u64 {
    rng.next_u64()
}

/// Calls `Rng::random_range` with the inclusive range `low..=high`.
///
/// `random_range` panics on an empty range, so `low <= high` is required.
/// The claim is the documented one: the value lies in the range. Which value
/// comes out is left open.
#[verifier::external_body]
pub(crate) fn draw_between(rng: &mut StdRng, low: u64, high: u64) -> (drawn: u64)
    requires
        low <= high,
    ensures
        low <= drawn <= high,
{
    rng.random_range(low..=high)
}

} // verus!
