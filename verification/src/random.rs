//! The random source that places the mines.

use rand::{thread_rng, Rng};
use vstd::prelude::*;

verus! {

/// A number drawn from the half-open range `min..max`.
///
/// Calls `Rng::gen_range` of the `rand` crate on the thread-local generator
/// that `thread_rng` returns. Nothing is proved of it. The contract claims
/// only what holds of every draw: the number lies in the range. That the
/// draws are spread evenly over the range is the generator's business and
/// is not claimed. The range must not be empty, since `gen_range` panics on
/// an empty one; `thread_rng` itself panics where the system cannot seed the
/// generator, which no argument rules out.
#[verifier::external_body]
pub fn random_range(min: usize, max: usize) -> (drawn: usize)
    requires
        min < max,
    ensures
        min <= drawn < max,
{
    let mut rng = thread_rng();
    rng.gen_range(min..max)
}

} // verus!
