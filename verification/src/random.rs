//! The source of chance for the game.

use vstd::prelude::*;

verus! {

/// `rand::Rng::gen_range` on the generator that `rand::thread_rng` hands
/// out, for the range from `low` up to but not including `high`. The range
/// must not be empty, or `gen_range` panics; the number drawn lies in it.
/// Which number it is depends on chance alone, so nothing more is claimed.
#[verifier::external_body]
pub(crate) fn random_between(low: i32, high: i32) -> (n: i32)
    requires
        low < high,
    ensures
        low <= n < high,
{
    rand::Rng::gen_range(&mut rand::thread_rng(), low..high)
}

} // verus!
