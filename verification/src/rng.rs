//! The crate's one bridge to the random number generator.

use vstd::prelude::*;
use rand::Rng;

verus! {

/// Relies on rand::Rng::gen_range over the range `0..n`: the sampled value
/// lies in the range. The range is non-empty by the precondition, so the
/// call does not panic. Nothing more is assumed of which value comes back.
#[verifier::external_body]
pub(crate) fn rand_below(n: usize) -> (r: usize)
    requires
        n > 0,
    ensures
        r < n,
{
    rand::thread_rng().gen_range(0..n)
}

} // verus!
