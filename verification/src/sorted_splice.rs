//! Where a block of ascending keys belongs in a sorted table.

use vstd::prelude::*;

verus! {

pub open spec fn ascending(keys: Seq<u64>) -> bool {
    forall|i: int, j: int| 0 <= i <= j < keys.len() ==> keys[i] <= keys[j]
}

/// `p` parts the keys below `bound` from the rest.
pub open spec fn parts(keys: Seq<u64>, bound: u64, p: int) -> bool {
    &&& 0 <= p <= keys.len()
    &&& forall|i: int| 0 <= i < p ==> keys[i] < bound
    &&& forall|i: int| p <= i < keys.len() ==> keys[i] >= bound
}

/// The number of leading keys below `bound`.
fn partition_point(keys: &[u64], bound: u64) -> (p: usize)
    requires
        ascending(keys@),
    ensures
        parts(keys@, bound, p as int),
{
    let mut lo: usize = 0;
    let mut hi: usize = keys.len();
    while lo < hi
        invariant
            lo <= hi <= keys@.len(),
            ascending(keys@),
            forall|i: int| 0 <= i < lo ==> keys@[i] < bound,
            forall|i: int| hi <= i < keys@.len() ==> keys@[i] >= bound,
        decreases hi - lo,
    {
        let mid: usize = lo + (hi - lo) / 2;
        if keys[mid] < bound {
            lo = mid + 1;
        } else {
            hi = mid;
        }
    }
    lo
}

/// The run of entries with keys in `first_key .. end_key`, as its start and its
/// length. A block of keys from that range belongs at its start.
pub fn sorted_splice_range(keys: &[u64], first_key: u64, end_key: u64) -> (r: (usize, usize))
    requires
        ascending(keys@),
        forall|i: int| 0 <= i < keys@.len() ==> !(end_key <= #[trigger] keys@[i] < first_key),
    ensures
        r.0 + r.1 <= keys@.len(),
        parts(keys@, first_key, r.0 as int),
        parts(keys@, end_key, r.0 + r.1),
{
    let start: usize = partition_point(keys, first_key);
    let end: usize = partition_point(keys, end_key);
    proof {
        if end < start {
            assert(end_key <= keys@[end as int] < first_key);
        }
    }
    (start, end - start)
}

/// A table in which the run for `first_key .. end_key` is replaced by an
/// ascending block of keys from that range stays ascending.
pub proof fn law_splice_keeps_order(
    keys: Seq<u64>,
    first_key: u64,
    end_key: u64,
    start: int,
    removed: int,
    block: Seq<u64>,
)
    requires
        ascending(keys),
        0 <= removed,
        parts(keys, first_key, start),
        parts(keys, end_key, start + removed),
        ascending(block),
        forall|i: int| 0 <= i < block.len() ==> first_key <= #[trigger] block[i] < end_key,
    ensures
        ascending(keys.take(start) + block + keys.skip(start + removed)),
{
    let spliced = keys.take(start) + block + keys.skip(start + removed);
    assert forall|i: int, j: int| 0 <= i <= j < spliced.len() implies spliced[i] <= spliced[j] by {
        let b = start + block.len();
        if j < start {
        } else if i < start {
            assert(keys[i] < first_key);
            if j < b {
                assert(first_key <= block[j - start]);
            } else {
                assert(spliced[j] == keys[start + removed + (j - b)]);
            }
        } else if j < b {
            assert(block[i - start] <= block[j - start]);
        } else {
            assert(spliced[j] == keys[start + removed + (j - b)]);
            if i < b {
                assert(block[i - start] < end_key);
            } else {
                assert(spliced[i] == keys[start + removed + (i - b)]);
            }
        }
    }
}

} // verus!
