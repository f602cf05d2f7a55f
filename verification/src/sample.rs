//! The randomness the generator draws from.

use rand::Rng;
use vstd::prelude::*;

verus! {

/// Draws an index below `bound` from the thread-local generator.
///
/// Trusted: calls `rand::Rng::gen_range` on `rand::thread_rng()` with the
/// half-open range `0..bound`. The contract claims only what holds of every
/// draw, that the value lies in the range; an empty range makes `gen_range`
/// panic, so `bound` must be positive.
#[verifier::external_body]
pub(crate) fn random_below(bound: usize) -> (n: usize)
    requires
        bound > 0,
    ensures
        n < bound,
{
    rand::thread_rng().gen_range(0..bound)
}

/// Picks one of `letters` at random.
pub fn pick_letter(letters: &[char]) -> (letter: char)
    requires
        letters@.len() > 0,
    ensures
        letters@.contains(letter),
{
    let n: usize = random_below(letters.len());
    letters[n]
}

} // verus!
