//! Random numbers from the thread-local generator of `rand`.

use rand::Rng;
use vstd::prelude::*;

verus! {

/// Draws a number from `0..bound` with `rand::Rng::gen_range` on
/// `rand::thread_rng()`. The contract claims only what holds of every draw:
/// the number is below `bound`. `gen_range` panics on an empty range, hence
/// `bound > 0`. Which number comes out is left unsaid: it is random.
#[verifier::external_body]
pub(crate) fn random_below(bound: usize) -> (r: usize)
    requires
        bound > 0,
    ensures
        r < bound,
{
    rand::thread_rng().gen_range(0..bound)
}

} // verus!
