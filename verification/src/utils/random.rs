//! A seeded random number generator.
use rand::rngs::StdRng;
use rand::{Rng, SeedableRng};
use vstd::prelude::*;

verus! {

/// `rand::rngs::StdRng`, the standard seeded generator.
#[verifier::external_type_specification]
#[verifier::external_body]
pub struct ExStdRng(StdRng);

/// `StdRng::from_seed`: a generator started from `seed`.
#[verifier::external_body]
pub(crate) fn std_rng_from_seed(seed: [u8; 32]) -> StdRng {
    StdRng::from_seed(seed)
}

/// `Rng::gen_range` for `i64`: a number in `low..high` (it panics where
/// `low >= high`, which `requires` leaves out).
#[verifier::external_body]
pub(crate) fn gen_range_i64(rng: &mut StdRng, low: i64, high: i64) -> (r: i64)
    requires
        low < high,
    ensures
        low <= r < high,
{
    rng.gen_range(low, high)
}

/// `Rng::gen_range` for `usize`: a number in `low..high` (it panics where
/// `low >= high`, which `requires` leaves out).
#[verifier::external_body]
pub(crate) fn gen_range_usize(rng: &mut StdRng, low: usize, high: usize) -> (r: usize)
    requires
        low < high,
    ensures
        low <= r < high,
{
    rng.gen_range(low, high)
}

} // verus!
