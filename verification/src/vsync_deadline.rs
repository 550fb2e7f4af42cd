//! Fixed-phase one-shot deadlines for a 60 Hz software vertical sync.

use vstd::prelude::*;

verus! {

/// One sixtieth of a second in units of 100 ns.
pub const PERIOD_100NS: u64 = 166_667;

/// The first deadline of the phase that `previous` belongs to which lies after
/// `previous` and after `now`.
pub open spec fn deadline(previous: int, now: int) -> int {
    if now < previous {
        previous + PERIOD_100NS
    } else {
        previous + PERIOD_100NS * ((now - previous) / (PERIOD_100NS as int) + 1)
    }
}

/// The first fixed-phase deadline strictly after `now`, or `None` once it cannot
/// be represented.
pub fn next(previous: u64, now: u64) -> (d: Option<u64>)
    ensures
        d == (if deadline(previous as int, now as int) <= u64::MAX {
            Some(deadline(previous as int, now as int) as u64)
        } else {
            None
        }),
{
    let candidate: u64 = match previous.checked_add(PERIOD_100NS) {
        None => return None,
        Some(c) => c,
    };
    if candidate > now {
        return Some(candidate);
    }
    let late: u64 = now - candidate;
    let intervals: u64 = late / PERIOD_100NS + 1;
    assert(intervals == (now - previous) / (PERIOD_100NS as int));
    let advance: u64 = match intervals.checked_mul(PERIOD_100NS) {
        None => return None,
        Some(a) => a,
    };
    candidate.checked_add(advance)
}

/// A future deadline as a negative relative due time. A deadline that is not in
/// the future is one unit ahead, never zero.
pub fn relative_due(deadline: u64, now: u64) -> (due: i64)
    ensures
        due == (if deadline <= now {
            -1int
        } else if deadline - now > i64::MAX {
            -(i64::MAX as int)
        } else {
            now - deadline
        }),
{
    let delta: u64 = deadline.saturating_sub(now);
    let nonzero: u64 = if delta == 0 {
        1
    } else {
        delta
    };
    let bounded: u64 = if nonzero > i64::MAX as u64 {
        i64::MAX as u64
    } else {
        nonzero
    };
    -(bounded as i64)
}

/// A deadline lies after both instants, in the phase of `previous`, and no earlier
/// deadline of that phase does: late ticks are skipped, never replayed.
pub proof fn law_deadline_is_the_next_of_its_phase(previous: int, now: int)
    ensures
        deadline(previous, now) > previous,
        deadline(previous, now) > now,
        (deadline(previous, now) - previous) % (PERIOD_100NS as int) == 0,
        forall|k: int|
            k >= 1 && #[trigger] (previous + PERIOD_100NS * k) > now ==> previous + PERIOD_100NS * k
                >= deadline(previous, now),
{
}

} // verus!
