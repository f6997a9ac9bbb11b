//! The one place where the library draws randomness from the outside.

use vstd::prelude::*;
use rand::Rng;

verus! {

/// Relies on `rand::Rng::gen_range` over the half-open range `0..n`: it
/// panics only when the range is empty (ruled out by `n >= 1`) and otherwise
/// returns a value sampled from the range, hence below `n`.
#[verifier::external_body]
pub(crate) fn rand_below(n: usize) -> (r: usize)
    requires
        n >= 1,
    ensures
        r < n,
{
    rand::thread_rng().gen_range(0..n)
}

} // verus!
