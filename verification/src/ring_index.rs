//! Positions in a circular array.

use vstd::prelude::*;

verus! {

/// The place `i` steps behind `first` in a circle of `cap` places.
pub open spec fn wrap(first: int, i: int, cap: int) -> int {
    if i < cap - first {
        first + i
    } else {
        i - (cap - first)
    }
}

pub fn wrap_index(first: usize, i: usize, cap: usize) -> (p: usize)
    requires
        first < cap,
        i <= cap,
    ensures
        p == wrap(first as int, i as int, cap as int),
        i < cap ==> p < cap,
{
    if i < cap - first {
        first + i
    } else {
        i - (cap - first)
    }
}

/// The elements of a circular array from `first` on, `count` of them, oldest first.
pub open spec fn unrolled<T>(slots: Seq<T>, first: int, count: int) -> Seq<T> {
    Seq::new(count as nat, |i: int| slots[wrap(first, i, slots.len() as int)])
}

/// Writing the place behind the newest element appends to the unrolled order.
pub proof fn lemma_unrolled_push<T>(slots: Seq<T>, first: int, count: int, x: T)
    requires
        0 <= first < slots.len(),
        0 <= count < slots.len(),
    ensures
        unrolled(slots.update(wrap(first, count, slots.len() as int), x), first, count + 1)
            == unrolled(slots, first, count).push(x),
{
    let p = wrap(first, count, slots.len() as int);
    assert(unrolled(slots.update(p, x), first, count + 1) =~= unrolled(slots, first, count).push(x));
}

/// Writing the place of the element with index `k` replaces it in the unrolled
/// order.
pub proof fn lemma_unrolled_update<T>(slots: Seq<T>, first: int, count: int, k: int, x: T)
    requires
        0 <= first < slots.len(),
        0 <= k < count <= slots.len(),
    ensures
        unrolled(slots.update(wrap(first, k, slots.len() as int), x), first, count) == unrolled(
            slots,
            first,
            count,
        ).update(k, x),
{
    let p = wrap(first, k, slots.len() as int);
    assert(unrolled(slots.update(p, x), first, count) =~= unrolled(slots, first, count).update(k, x));
}

/// Clearing the oldest place and stepping past it drops the oldest element.
pub proof fn lemma_unrolled_pop<T>(slots: Seq<T>, first: int, count: int, x: T)
    requires
        0 <= first < slots.len(),
        0 < count <= slots.len(),
    ensures
        unrolled(slots.update(first, x), wrap(first, 1, slots.len() as int), count - 1)
            == unrolled(slots, first, count).skip(1),
{
    let next = wrap(first, 1, slots.len() as int);
    assert(unrolled(slots.update(first, x), next, count - 1) =~= unrolled(slots, first, count).skip(
        1,
    ));
}

} // verus!
