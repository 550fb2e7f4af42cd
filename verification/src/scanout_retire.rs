//! Direct scan-out bind sequences.

use vstd::prelude::*;

verus! {

/// The next bind sequence: nonzero, above the last, and never wrapped.
pub fn next_bind_sequence(high_water: u64) -> (next: Option<u64>)
    ensures
        next == (if high_water < u64::MAX {
            Some((high_water + 1) as u64)
        } else {
            None
        }),
{
    high_water.checked_add(1)
}

} // verus!
