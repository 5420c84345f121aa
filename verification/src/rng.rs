//! The one source of randomness: cell indices for the initial particle
//! population.

use vstd::prelude::*;

verus! {

/// Relies on `rand::Rng::gen_range` over `0..n`: a uniformly drawn index
/// strictly below `n` (the call panics only on an empty range, which the
/// precondition rules out).  Nothing more can be promised of a random
/// draw; callers must hold for every value below `n`.
#[verifier::external_body]
pub(crate) fn rand_below(n: usize) -> (r: usize)
    requires
        n >= 1,
    ensures
        r < n,
{
    rand::Rng::gen_range(&mut rand::thread_rng(), 0..n)
}

} // verus!
