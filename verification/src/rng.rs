//! The library's single source of randomness.

use rand::Rng;
use vstd::prelude::*;

verus! {

/// Relies on `rand::thread_rng` and `rand::Rng::gen_range` over the
/// range `0..n`: a uniformly distributed index strictly below `n`.
/// `gen_range` panics on an empty range, so `n` must be positive.
#[verifier::external_body]
pub fn random_index(n: usize) -> (r: usize)
    requires
        n > 0,
    ensures
        r < n,
{
    rand::thread_rng().gen_range(0..n)
}

} // verus!
