//! The randomness source for spawn positions, velocities, spins and the
//! spawn timer's cadence.

use vstd::prelude::*;

verus! {

/// Relies on `rand::thread_rng` and `rand::Rng::gen_range` on an `i64`
/// range: for `lo < hi` the call returns a uniformly drawn value in
/// `[lo, hi)` and does not panic.
#[verifier::external_body]
pub(crate) fn draw_range(lo: i64, hi: i64) -> (r: i64)
    requires
        lo < hi,
    ensures
        lo <= r < hi,
{
    rand::Rng::gen_range(&mut rand::thread_rng(), lo..hi)
}

} // verus!
