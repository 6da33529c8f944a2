use vstd::prelude::*;
use rand::Rng;

verus! {

/// Draws a number uniformly from `0..upper` with `rand::Rng::gen_range` on the
/// thread-local generator `rand::thread_rng()`.
///
/// Trusted: the contract claims only that the draw lies in `0..upper`, as
/// rand's documentation of `gen_range` promises; which number comes back is
/// left open, since it rests on chance. `gen_range` panics on an empty range,
/// which `requires` leaves out.
#[verifier::external_body]
pub(crate) fn random_below(upper: u64) -> (r: u64)
    requires
        upper > 0,
    ensures
        r < upper,
{
    rand::thread_rng().gen_range(0..upper)
}

} // verus!
