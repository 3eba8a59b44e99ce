//! The pseudo-random source used once, at startup, to place the autonomous
//! balls and hand them an initial velocity.

use vstd::prelude::*;
use rand::Rng;

verus! {

/// Relies on rand: `thread_rng()` gives a pseudo-random generator and
/// `Rng::gen_range(lo..hi)` draws a value uniformly from `[lo, hi)`;
/// it panics on an empty range, which the precondition rules out.
/// Nothing more is promised of a random value than its range.
#[verifier::external_body]
pub fn random_in_range(lo: i64, hi: i64) -> (r: i64)
    requires
        lo < hi,
    ensures
        lo <= r < hi,
{
    rand::thread_rng().gen_range(lo..hi)
}

} // verus!
