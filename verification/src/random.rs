//! The three draws that the game takes from the `rand` crate. Nothing is
//! known of a draw but the range it comes from.

use rand::seq::SliceRandom;
use rand::Rng;
use vstd::prelude::*;

verus! {

/// A number below `bound`, drawn by `rand::Rng::gen_range` with the range
/// `0..bound` on the generator of `rand::thread_rng`. The contract claims
/// that the draw lies in the range, and leaves out the empty range, on
/// which `gen_range` panics.
#[verifier::external_body]
pub(crate) fn random_below(bound: usize) -> (res: usize)
    requires
        bound > 0,
    ensures
        res < bound,
{
    rand::thread_rng().gen_range(0..bound)
}

/// A draw of `rand::Rng::gen_ratio` on the generator of `rand::thread_rng`:
/// true with a chance of `numerator` in `denominator`. The contract claims
/// what the method documents of the two ends: never true for a numerator of
/// zero, always true where numerator and denominator are equal. It leaves
/// out a zero denominator and a numerator above the denominator, on which
/// `gen_ratio` panics.
#[verifier::external_body]
pub(crate) fn random_ratio(numerator: u32, denominator: u32) -> (res: bool)
    requires
        denominator > 0,
        numerator <= denominator,
    ensures
        numerator == 0 ==> !res,
        numerator == denominator ==> res,
{
    rand::thread_rng().gen_ratio(numerator, denominator)
}

/// One element of `pool`, drawn by `rand::seq::SliceRandom::choose` on the
/// generator of `rand::thread_rng`. The contract claims that the draw is an
/// element of the slice, and leaves out the empty slice, for which `choose`
/// has nothing to return.
#[verifier::external_body]
pub(crate) fn choose_id(pool: &Vec<usize>) -> (res: usize)
    requires
        pool@.len() > 0,
    ensures
        pool@.contains(res),
{
    *pool.choose(&mut rand::thread_rng()).unwrap()
}

} // verus!
