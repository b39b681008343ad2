//! The random source that sampling draws from.

use rand::rngs::SmallRng;
use rand::Rng;
use vstd::prelude::*;

verus! {

/// `SmallRng` of the `rand` crate: a small, fast generator of pseudo-random
/// numbers. Nothing is known of its state.
#[verifier::external_type_specification]
#[verifier::external_body]
pub struct ExSmallRng(SmallRng);

/// `Rng::gen_range` of the `rand` crate on a half-open range of `i64`.
/// It panics on an empty range, which the precondition excludes, and
/// otherwise returns a value of the range; which one is not specified.
#[verifier::external_body]
pub(crate) fn draw_range(rng: &mut SmallRng, low: i64, high: i64) -> (r: i64)
    requires
        low < high,
    ensures
        low <= r < high,
{
    rng.gen_range(low..high)
}

} // verus!
