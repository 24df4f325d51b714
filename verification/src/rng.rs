//! The one randomness source of the simulation: a bounded integer draw.
//! Everything the draw feeds into is a verified function of the drawn
//! value, so the contracts hold whatever comes back.

use vstd::prelude::*;

verus! {

/// Relies on `rand::random_range` over `lo..hi`: it returns a value of the
/// half-open range, and panics only on an empty range, which the
/// precondition rules out.  Nothing more is assumed of the draw.
#[verifier::external_body]
pub(crate) fn draw_in_range(lo: i64, hi: i64) -> (r: i64)
    requires
        lo < hi,
    ensures
        lo <= r < hi,
{
    rand::random_range(lo..hi)
}

} // verus!
