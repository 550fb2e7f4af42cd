//! Region bookkeeping for a host-visible command-stream ring.
//!
//! Regions are reserved at submission and released when their submission ends.
//! Releases may come out of order, so a region is marked done and space returns
//! as the leading done regions leave.

use vstd::prelude::*;
use crate::bytes;
use crate::ring_index;
use crate::stream::StreamWriter;

verus! {

#[derive(Debug, Clone, Copy, PartialEq, Eq, Structural)]
pub struct Region {
    pub offset: u64,
    pub len: u64,
}

#[derive(Debug, Clone, Copy, PartialEq, Eq, Structural)]
pub enum ReserveRefusal {
    /// Zero bytes, or more than the whole ring can ever hold.
    Unrepresentable,
    /// Live regions leave no contiguous run of that size.
    Full,
    /// As many regions are live as the queue can track.
    QueueFull,
}

/// Alignment of every region start.
pub const REGION_ALIGN: u64 = 64;

/// One reservation.
#[derive(Debug, Clone, Copy, PartialEq, Eq, Structural)]
pub struct Entry {
    pub region: Region,
    /// The padded region, and any run at the end of the ring that it skipped.
    pub owned: u64,
    pub done: bool,
}

/// What a ring holds: its size, the next byte to hand out, and the reservations
/// that still own bytes, oldest first.
pub struct Ring {
    pub size: int,
    pub head: int,
    pub entries: Seq<Entry>,
}

/// `len` rounded up to the region alignment.
pub open spec fn padded(len: int) -> int {
    (len + 63) / 64 * 64
}

/// Bytes that the reservations own together.
pub open spec fn owned_bytes(entries: Seq<Entry>) -> int
    decreases entries.len(),
{
    if entries.len() == 0 {
        0
    } else {
        entries[0].owned + owned_bytes(entries.skip(1))
    }
}

/// The reservations that are left once the leading done ones have left.
pub open spec fn after_done(entries: Seq<Entry>) -> Seq<Entry>
    decreases entries.len(),
{
    if entries.len() > 0 && entries[0].done {
        after_done(entries.skip(1))
    } else {
        entries
    }
}

/// Where a reservation of `len` bytes lies and how many bytes it owns.
pub open spec fn placement(ring: Ring, cap: nat, len: int) -> Result<(int, int), ReserveRefusal> {
    let free = ring.size - owned_bytes(ring.entries);
    let to_end = ring.size - ring.head;
    if len == 0 || len > ring.size {
        Err(ReserveRefusal::Unrepresentable)
    } else if ring.entries.len() >= cap {
        Err(ReserveRefusal::QueueFull)
    } else if padded(len) <= to_end {
        if padded(len) > free {
            Err(ReserveRefusal::Full)
        } else {
            Ok((ring.head, padded(len)))
        }
    } else if to_end + padded(len) > free {
        Err(ReserveRefusal::Full)
    } else {
        Ok((0, to_end + padded(len)))
    }
}

/// A live reservation of exactly `region`.
pub open spec fn is_live(e: Entry, region: Region) -> bool {
    !e.done && e.region == region
}

/// The reservation with index `k` is the oldest live one of exactly `region`.
pub open spec fn first_live(entries: Seq<Entry>, region: Region, k: int) -> bool {
    &&& 0 <= k < entries.len()
    &&& is_live(entries[k], region)
    &&& forall|i: int| 0 <= i < k ==> !is_live(#[trigger] entries[i], region)
}

/// The ring after the reservation with index `k` was released.
pub open spec fn released(ring: Ring, k: int) -> Ring {
    let left = after_done(ring.entries.update(k, Entry { done: true, ..ring.entries[k] }));
    Ring {
        size: ring.size,
        head: if left.len() == 0 {
            0
        } else {
            ring.head
        },
        entries: left,
    }
}

/// The reservation `e` owns the bytes from `pos` on, counted along the ring
/// without wrapping, and its region is the end of that run.
pub open spec fn lies_at(e: Entry, pos: int, size: int) -> bool {
    let end = pos + e.owned;
    let start = end - padded(e.region.len as int);
    &&& e.region.len > 0
    &&& pos <= start
    &&& e.region.offset == start % size
    &&& e.region.offset % 64 == 0
    &&& e.region.offset + padded(e.region.len as int) <= size
}

/// The reservations own one run of the ring after the other, from `pos` on.
pub open spec fn laid_out(entries: Seq<Entry>, pos: int, size: int) -> bool
    decreases entries.len(),
{
    entries.len() > 0 ==> lies_at(entries[0], pos, size) && laid_out(
        entries.skip(1),
        pos + entries[0].owned,
        size,
    )
}

/// A ring of which `CAP` regions can be live.
#[derive(Debug, Clone, Copy, PartialEq, Eq)]
pub struct StreamRing<const CAP: usize> {
    size: u64,
    head: u64,
    /// The oldest owned byte.
    tail: u64,
    /// Bytes owned by reservations.
    live: u64,
    queue: [Entry; CAP],
    first: usize,
    count: usize,
}

impl<const CAP: usize> View for StreamRing<CAP> {
    type V = Ring;

    closed spec fn view(&self) -> Ring {
        Ring {
            size: self.size as int,
            head: self.head as int,
            entries: ring_index::unrolled(self.queue@, self.first as int, self.count as int),
        }
    }
}

proof fn lemma_owned_push(entries: Seq<Entry>, e: Entry)
    ensures
        owned_bytes(entries.push(e)) == owned_bytes(entries) + e.owned,
    decreases entries.len(),
{
    if entries.len() > 0 {
        assert(entries.push(e).skip(1) =~= entries.skip(1).push(e));
        lemma_owned_push(entries.skip(1), e);
    } else {
        assert(entries.push(e).skip(1) =~= entries);
    }
}

proof fn lemma_laid_out_push(entries: Seq<Entry>, pos: int, size: int, e: Entry)
    requires
        laid_out(entries, pos, size),
        lies_at(e, pos + owned_bytes(entries), size),
    ensures
        laid_out(entries.push(e), pos, size),
    decreases entries.len(),
{
    if entries.len() > 0 {
        assert(entries.push(e).skip(1) =~= entries.skip(1).push(e));
        lemma_laid_out_push(entries.skip(1), pos + entries[0].owned, size, e);
    } else {
        assert(entries.push(e).skip(1) =~= entries);
        assert(laid_out(entries.push(e).skip(1), pos + e.owned, size));
    }
}

/// Marking a reservation done moves nothing.
proof fn lemma_mark_done(entries: Seq<Entry>, pos: int, size: int, k: int)
    requires
        0 <= k < entries.len(),
        laid_out(entries, pos, size),
    ensures
        ({
            let marked = entries.update(k, Entry { done: true, ..entries[k] });
            laid_out(marked, pos, size) && owned_bytes(marked) == owned_bytes(entries)
        }),
    decreases entries.len(),
{
    let marked = entries.update(k, Entry { done: true, ..entries[k] });
    if k == 0 {
        assert(marked.skip(1) =~= entries.skip(1));
    } else {
        let rest = entries.skip(1);
        assert(marked.skip(1) =~= rest.update(k - 1, Entry { done: true, ..rest[k - 1] }));
        lemma_mark_done(rest, pos + entries[0].owned, size, k - 1);
    }
}

proof fn lemma_owned_nonnegative(entries: Seq<Entry>)
    ensures
        owned_bytes(entries) >= 0,
    decreases entries.len(),
{
    if entries.len() > 0 {
        lemma_owned_nonnegative(entries.skip(1));
    }
}

impl<const CAP: usize> StreamRing<CAP> {
    pub closed spec fn wf(&self) -> bool {
        &&& self.size % 64 == 0
        &&& self.count <= CAP
        &&& CAP > 0 ==> self.first < CAP
        &&& self.live == owned_bytes(self@.entries)
        &&& self.live <= self.size
        &&& self.size > 0 ==> self.head < self.size && self.tail < self.size
        &&& self.head % 64 == 0
        &&& self.tail % 64 == 0
        &&& self.size == 0 ==> self.count == 0 && self.head == 0
        &&& self.count == 0 ==> self.head == 0 && self.tail == 0
        &&& self.count > 0 ==> self.head == (self.tail + self.live) % (self.size as int)
        &&& laid_out(self@.entries, self.tail as int, self.size as int)
    }

    /// A ring of `size` bytes. A size that is not a multiple of the region
    /// alignment makes a ring that refuses every reservation.
    pub fn new(size: u64) -> (r: Self)
        ensures
            r.wf(),
            r@.size == (if size % REGION_ALIGN == 0 {
                size as int
            } else {
                0
            }),
            r@.head == 0,
            r@.entries == Seq::<Entry>::empty(),
    {
        let usable: u64 = if size % REGION_ALIGN == 0 {
            size
        } else {
            0
        };
        let empty = Entry { region: Region { offset: 0, len: 0 }, owned: 0, done: false };
        let r = StreamRing {
            size: usable,
            head: 0,
            tail: 0,
            live: 0,
            queue: [empty; CAP],
            first: 0,
            count: 0,
        };
        assert(r@.entries =~= Seq::<Entry>::empty());
        r
    }

    pub fn size(&self) -> (n: u64)
        ensures
            n == self@.size,
    {
        self.size
    }

    pub fn live_bytes(&self) -> (n: u64)
        requires
            self.wf(),
        ensures
            n == owned_bytes(self@.entries),
    {
        self.live
    }

    pub fn live_regions(&self) -> (n: usize)
        requires
            self.wf(),
        ensures
            n == self@.entries.len(),
    {
        self.count
    }

    /// Reserves `len` contiguous bytes. A region never wraps: where the run to the
    /// end of the ring is too short, the reservation owns that run as well and the
    /// region starts at zero.
    pub fn reserve(&mut self, len: u64) -> (r: Result<Region, ReserveRefusal>)
        requires
            old(self).wf(),
        ensures
            final(self).wf(),
            match placement(old(self)@, CAP as nat, len as int) {
                Err(e) => r == Err::<Region, ReserveRefusal>(e) && *final(self) == *old(self),
                Ok((offset, owned)) => {
                    let region = Region { offset: offset as u64, len };
                    &&& r == Ok::<Region, ReserveRefusal>(region)
                    &&& final(self)@.size == old(self)@.size
                    &&& final(self)@.head == (offset + padded(len as int)) % old(self)@.size
                    &&& final(self)@.entries == old(self)@.entries.push(
                        Entry { region, owned: owned as u64, done: false },
                    )
                },
            },
    {
        if len == 0 || len > self.size {
            return Err(ReserveRefusal::Unrepresentable);
        }
        let pad: u64 = (len - 1) / REGION_ALIGN * REGION_ALIGN + REGION_ALIGN;
        assert(pad == padded(len as int));
        assert(pad <= self.size);
        if CAP == 0 || self.count >= CAP {
            return Err(ReserveRefusal::QueueFull);
        }
        let free: u64 = self.size - self.live;
        let to_end: u64 = self.size - self.head;
        let offset: u64;
        let owned: u64;
        if pad <= to_end {
            if pad > free {
                return Err(ReserveRefusal::Full);
            }
            offset = self.head;
            owned = pad;
        } else {
            if pad > free || to_end > free - pad {
                return Err(ReserveRefusal::Full);
            }
            offset = 0;
            owned = to_end + pad;
        }
        self.append(Region { offset, len }, pad, owned);
        Ok(Region { offset, len })
    }

    /// Appends the reservation that `placement` found room for.
    fn append(&mut self, region: Region, pad: u64, owned: u64)
        requires
            old(self).wf(),
            old(self)@.entries.len() < CAP,
            0 < region.len <= old(self).size,
            pad == padded(region.len as int),
            pad <= old(self).size,
            (pad <= old(self).size - old(self).head && region.offset == old(self).head && owned
                == pad) || (pad > old(self).size - old(self).head && region.offset == 0 && owned
                == old(self).size - old(self).head + pad),
            owned_bytes(old(self)@.entries) + owned <= old(self).size,
        ensures
            final(self).wf(),
            final(self)@.size == old(self)@.size,
            final(self)@.head == (region.offset + pad) % old(self)@.size,
            final(self)@.entries == old(self)@.entries.push(Entry { region, owned, done: false }),
    {
        let ghost size = self.size as int;
        let entry = Entry { region, owned, done: false };
        proof {
            if self.count == 0 {
                assert(owned_bytes(self@.entries) == 0);
                assert(0int % size == 0) by (nonlinear_arith)
                    requires
                        size > 0,
                ;
            }
            lemma_reserved_place(
                self.tail as int,
                self.live as int,
                self.head as int,
                size,
                pad as int,
                region.offset as int,
                owned as int,
            );
            lemma_owned_push(self@.entries, entry);
            lemma_laid_out_push(self@.entries, self.tail as int, size, entry);
            ring_index::lemma_unrolled_push(
                self.queue@,
                self.first as int,
                self.count as int,
                entry,
            );
        }
        let slot: usize = ring_index::wrap_index(self.first, self.count, CAP);
        self.queue[slot] = entry;
        self.count = self.count + 1;
        self.head = if region.offset + pad == self.size {
            0
        } else {
            region.offset + pad
        };
        self.live = self.live + owned;
    }

    /// Drops the oldest reservation.
    fn drop_first(&mut self)
        requires
            old(self).wf(),
            old(self)@.entries.len() > 0,
        ensures
            final(self).size == old(self).size,
            final(self).count == old(self).count - 1,
            final(self).head == old(self).head,
            final(self)@.entries == old(self)@.entries.skip(1),
            final(self).live == owned_bytes(final(self)@.entries),
            final(self).live <= final(self).size,
            final(self).count > 0 ==> final(self).wf(),
            final(self).count <= CAP,
            final(self).first < CAP,
    {
        let entry: Entry = self.queue[self.first];
        let empty = Entry { region: Region { offset: 0, len: 0 }, owned: 0, done: false };
        let ghost entries = self@.entries;
        let ghost size = self.size as int;
        let pad: u64 = (entry.region.len - 1) / REGION_ALIGN * REGION_ALIGN + REGION_ALIGN;
        proof {
            assert(entries[0] == entry);
            lemma_owned_nonnegative(entries.skip(1));
            ring_index::lemma_unrolled_pop(
                self.queue@,
                self.first as int,
                self.count as int,
                empty,
            );
            assert(pad == padded(entry.region.len as int));
            lemma_next_tail(
                self.tail as int,
                entry.owned as int,
                self.live as int,
                size,
                pad as int,
                entry.region.offset as int,
            );
        }
        self.queue[self.first] = empty;
        self.first = ring_index::wrap_index(self.first, 1, CAP);
        if self.first == CAP {
            self.first = 0;
        }
        self.count = self.count - 1;
        self.live = self.live - entry.owned;
        self.tail = if entry.region.offset + pad == self.size {
            0
        } else {
            entry.region.offset + pad
        };
        proof {
            lemma_shifted(entries.skip(1), old(self).tail + entry.owned, self.tail as int, size);
        }
    }

    /// Releases a live region. Anything else is refused and leaves the ring as it
    /// was. Space returns with the leading done regions.
    pub fn retire(&mut self, region: Region) -> (found: bool)
        requires
            old(self).wf(),
        ensures
            final(self).wf(),
            !found ==> *final(self) == *old(self) && (region.len == 0 || forall|i: int|
                0 <= i < old(self)@.entries.len() ==> !is_live(
                    #[trigger] old(self)@.entries[i],
                    region,
                )),
            found ==> region.len != 0 && exists|k: int| #[trigger]
                first_live(old(self)@.entries, region, k) && final(self)@ == released(
                    old(self)@,
                    k,
                ),
    {
        if region.len == 0 {
            return false;
        }
        let mut i: usize = 0;
        while i < self.count
            invariant
                *self == *old(self),
                self.wf(),
                region.len != 0,
                i <= self.count,
                forall|j: int| 0 <= j < i ==> !is_live(#[trigger] self@.entries[j], region),
            decreases self.count - i,
        {
            let slot: usize = ring_index::wrap_index(self.first, i, CAP);
            let entry: Entry = self.queue[slot];
            assert(entry == self@.entries[i as int]);
            if !entry.done && entry.region == region {
                assert(first_live(self@.entries, region, i as int));
                self.release_at(i);
                return true;
            }
            i = i + 1;
        }
        false
    }

    fn release_at(&mut self, k: usize)
        requires
            old(self).wf(),
            k < old(self)@.entries.len(),
        ensures
            final(self).wf(),
            final(self)@ == released(old(self)@, k as int),
    {
        let ghost entries = self@.entries;
        let slot: usize = ring_index::wrap_index(self.first, k, CAP);
        let entry: Entry = self.queue[slot];
        let marked = Entry { region: entry.region, owned: entry.owned, done: true };
        proof {
            lemma_mark_done(entries, self.tail as int, self.size as int, k as int);
            ring_index::lemma_unrolled_update(
                self.queue@,
                self.first as int,
                self.count as int,
                k as int,
                marked,
            );
        }
        self.queue[slot] = marked;
        let ghost done_entries = entries.update(k as int, marked);
        assert(self@.entries == done_entries);
        while self.count > 0 && self.queue[self.first].done
            invariant
                self.count > 0 ==> self.wf(),
                self.count <= CAP,
                self.count == self@.entries.len(),
                self.size == old(self).size,
                self.head == old(self).head,
                old(self).wf(),
                old(self).size > 0,
                CAP > 0,
                self.first < CAP,
                self.live == owned_bytes(self@.entries),
                after_done(self@.entries) == after_done(done_entries),
            decreases self.count,
        {
            assert(self.queue@[self.first as int] == self@.entries[0]);
            self.drop_first();
        }
        if self.count > 0 {
            assert(self.queue@[self.first as int] == self@.entries[0]);
        }
        if self.count == 0 {
            self.head = 0;
            self.tail = 0;
            self.live = 0;
        }
    }
}

/// Two positions that agree modulo the size lay out the same reservations.
proof fn lemma_shifted(entries: Seq<Entry>, a: int, b: int, size: int)
    requires
        laid_out(entries, a, size),
        size > 0,
        a % size == b % size,
    ensures
        laid_out(entries, b, size),
    decreases entries.len(),
{
    if entries.len() > 0 {
        let e = entries[0];
        let shift = e.owned - padded(e.region.len as int);
        vstd::arithmetic::div_mod::lemma_add_mod_noop(a, shift, size);
        vstd::arithmetic::div_mod::lemma_add_mod_noop(b, shift, size);
        vstd::arithmetic::div_mod::lemma_add_mod_noop(a, e.owned as int, size);
        vstd::arithmetic::div_mod::lemma_add_mod_noop(b, e.owned as int, size);
        assert((a + shift) % size == (b + shift) % size);
        lemma_shifted(entries.skip(1), a + e.owned, b + e.owned, size);
    }
}

/// Where the oldest byte lies once the oldest reservation has left.
proof fn lemma_next_tail(tail: int, owned: int, live: int, size: int, pad: int, offset: int)
    requires
        size > 0,
        0 <= tail < size,
        0 <= owned <= live <= size,
        0 < pad,
        offset == (tail + owned - pad) % size,
        offset + pad <= size,
    ensures
        (tail + owned) % size == (offset + pad) % size,
        (offset + pad) % size == (if offset + pad == size {
            0
        } else {
            offset + pad
        }),
        ((offset + pad) % size + (live - owned)) % size == (tail + live) % size,
        0 <= (offset + pad) % size < size,
{
    vstd::arithmetic::div_mod::lemma_add_mod_noop(tail + owned - pad, pad, size);
    vstd::arithmetic::div_mod::lemma_add_mod_noop(offset, pad, size);
    assert(offset % size == offset) by (nonlinear_arith)
        requires
            0 <= offset < size,
            offset == (tail + owned - pad) % size,
            size > 0,
    ;
    vstd::arithmetic::div_mod::lemma_add_mod_noop(tail + owned, live - owned, size);
    vstd::arithmetic::div_mod::lemma_add_mod_noop((offset + pad) % size, live - owned, size);
    assert(((offset + pad) % size) % size == (offset + pad) % size) by (nonlinear_arith)
        requires
            size > 0,
    ;
    if offset + pad < size {
        assert((offset + pad) % size == offset + pad) by (nonlinear_arith)
            requires
                0 <= offset + pad < size,
        ;
    } else {
        assert((offset + pad) % size == 0) by (nonlinear_arith)
            requires
                size > 0,
                offset + pad == size,
        ;
    }
}

/// The place of the reservation with index `i`, counted along the ring.
spec fn place(entries: Seq<Entry>, pos: int, i: int) -> int
    decreases i,
{
    if i <= 0 {
        pos
    } else {
        place(entries, pos, i - 1) + entries[i - 1].owned
    }
}

proof fn lemma_place_shift(entries: Seq<Entry>, pos: int, i: int)
    requires
        1 <= i <= entries.len(),
    ensures
        place(entries, pos, i) == place(entries.skip(1), pos + entries[0].owned, i - 1),
    decreases i,
{
    if i == 1 {
        assert(place(entries, pos, 0) == pos);
    } else {
        lemma_place_shift(entries, pos, i - 1);
    }
}

proof fn lemma_placed(entries: Seq<Entry>, pos: int, size: int, i: int)
    requires
        laid_out(entries, pos, size),
        0 <= i < entries.len(),
    ensures
        lies_at(entries[i], place(entries, pos, i), size),
        pos <= place(entries, pos, i),
        place(entries, pos, i) + entries[i].owned <= pos + owned_bytes(entries),
    decreases i,
{
    lemma_owned_nonnegative(entries.skip(1));
    if i > 0 {
        lemma_place_shift(entries, pos, i);
        lemma_placed(entries.skip(1), pos + entries[0].owned, size, i - 1);
    }
}

proof fn lemma_place_monotonic(entries: Seq<Entry>, pos: int, i: int, j: int)
    requires
        0 <= i < j <= entries.len(),
    ensures
        place(entries, pos, i) + entries[i].owned <= place(entries, pos, j),
    decreases j - i,
{
    if i + 1 < j {
        lemma_place_monotonic(entries, pos, i, j - 1);
    }
}

/// Two numbers less than `size` apart that agree modulo `size` are equal.
proof fn lemma_same_residue(u: int, v: int, size: int)
    requires
        size > 0,
        u % size == v % size,
        u <= v < u + size,
    ensures
        u == v,
{
    vstd::arithmetic::div_mod::lemma_fundamental_div_mod(u, size);
    vstd::arithmetic::div_mod::lemma_fundamental_div_mod(v, size);
    let q = v / size - u / size;
    assert(v - u == size * q) by (nonlinear_arith)
        requires
            u == size * (u / size) + u % size,
            v == size * (v / size) + v % size,
            u % size == v % size,
            q == v / size - u / size,
    ;
    assert(q == 0) by (nonlinear_arith)
        requires
            0 <= size * q < size,
    ;
}

/// The byte `b` of the ring belongs to the padded region of `e`.
pub open spec fn covers(e: Entry, b: int) -> bool {
    e.region.offset <= b < e.region.offset + padded(e.region.len as int)
}

/// The byte `b` of the ring is one that `e` owns: `e` owns the run of `owned` bytes
/// that ends with its padded region, counted around the ring.
pub open spec fn owns(e: Entry, size: int, b: int) -> bool {
    &&& 0 <= b < size
    &&& (e.region.offset + padded(e.region.len as int) - 1 - b) % size < e.owned
}

/// A ring never has more reservations than it has places for, and they never own
/// more than the ring.
pub proof fn law_the_ring_is_bounded<const CAP: usize>(ring: StreamRing<CAP>)
    requires
        ring.wf(),
    ensures
        ring@.entries.len() <= CAP,
        0 <= owned_bytes(ring@.entries) <= ring@.size,
{
    lemma_owned_nonnegative(ring@.entries);
}

/// Every reserved region starts aligned and lies inside the ring without wrapping,
/// padding and all.
pub proof fn law_regions_lie_inside<const CAP: usize>(ring: StreamRing<CAP>, i: int)
    requires
        ring.wf(),
        0 <= i < ring@.entries.len(),
    ensures
        ring@.entries[i].region.len > 0,
        ring@.entries[i].region.offset % REGION_ALIGN == 0,
        ring@.entries[i].region.offset + padded(ring@.entries[i].region.len as int) <= ring@.size,
{
    lemma_placed(ring@.entries, ring.tail as int, ring@.size, i);
}

/// No byte belongs to two reserved regions.
pub proof fn law_regions_are_disjoint<const CAP: usize>(ring: StreamRing<CAP>, i: int, j: int, b: int)
    requires
        ring.wf(),
        0 <= i < j < ring@.entries.len(),
    ensures
        !(covers(ring@.entries[i], b) && covers(ring@.entries[j], b)),
{
    let entries = ring@.entries;
    let size = ring@.size;
    let pos = ring.tail as int;
    lemma_placed(entries, pos, size, i);
    lemma_placed(entries, pos, size, j);
    lemma_place_monotonic(entries, pos, i, j);
    if covers(entries[i], b) && covers(entries[j], b) {
        let end_i = place(entries, pos, i) + entries[i].owned;
        let start_i = end_i - padded(entries[i].region.len as int);
        let end_j = place(entries, pos, j) + entries[j].owned;
        let start_j = end_j - padded(entries[j].region.len as int);
        let u = start_i + (b - entries[i].region.offset);
        let v = start_j + (b - entries[j].region.offset);
        lemma_offset_residue(start_i, entries[i].region.offset as int, b, size);
        lemma_offset_residue(start_j, entries[j].region.offset as int, b, size);
        lemma_same_residue(u, v, size);
    }
}

/// Every byte of a reserved region, padding and all, is owned by its reservation.
pub proof fn law_a_region_is_owned<const CAP: usize>(ring: StreamRing<CAP>, i: int, b: int)
    requires
        ring.wf(),
        0 <= i < ring@.entries.len(),
        covers(ring@.entries[i], b),
    ensures
        owns(ring@.entries[i], ring@.size, b),
{
    let e = ring@.entries[i];
    lemma_placed(ring@.entries, ring.tail as int, ring@.size, i);
    vstd::arithmetic::div_mod::lemma_small_mod(
        (e.region.offset + padded(e.region.len as int) - 1 - b) as nat,
        ring@.size as nat,
    );
}

/// A reservation is refused as `Full` only where no contiguous run of its padded
/// size is free: any such run holds a byte that a reservation owns.
pub proof fn law_full_leaves_no_run<const CAP: usize>(ring: StreamRing<CAP>, len: int, start: int)
    requires
        ring.wf(),
        placement(ring@, CAP as nat, len) == Err::<(int, int), ReserveRefusal>(
            ReserveRefusal::Full,
        ),
        0 <= start,
        start + padded(len) <= ring@.size,
    ensures
        exists|i: int, b: int|
            0 <= i < ring@.entries.len() && start <= b < start + padded(len) && #[trigger] owns(
                ring@.entries[i],
                ring@.size,
                b,
            ),
{
    let entries = ring@.entries;
    let size = ring@.size;
    let tail = ring.tail as int;
    let live = owned_bytes(entries);
    lemma_owned_nonnegative(entries);
    if entries.len() > 0 {
        lemma_placed(entries, tail, size, 0);
    }
    lemma_head(tail, live, size);
    // A byte of the run, and its place along the ring.
    let (b, u): (int, int) = if start < ring@.head && tail + live >= size {
        (start, start + size)
    } else if start < tail {
        (tail, tail)
    } else {
        (start, start)
    };
    assert(u % size == b) by (nonlinear_arith)
        requires
            0 <= b < size,
            u == b || u == b + size,
    ;
    let i = lemma_find_place(entries, tail, u);
    lemma_placed(entries, tail, size, i);
    lemma_place_owns(entries[i], place(entries, tail, i), size, u);
    assert(owns(entries[i], size, b));
}

/// A reservation that is granted takes only bytes that no reservation owns.
pub proof fn law_a_placement_is_free<const CAP: usize>(
    ring: StreamRing<CAP>,
    len: int,
    i: int,
    b: int,
)
    requires
        ring.wf(),
        placement(ring@, CAP as nat, len) is Ok,
        0 <= i < ring@.entries.len(),
        owns(ring@.entries[i], ring@.size, b),
    ensures
        ({
            let offset = placement(ring@, CAP as nat, len)->Ok_0.0;
            !(offset <= b < offset + padded(len))
        }),
{
    let entries = ring@.entries;
    let size = ring@.size;
    let tail = ring.tail as int;
    lemma_placed(entries, tail, size, i);
    lemma_head(tail, owned_bytes(entries), size);
    let u = lemma_owned_place(entries[i], place(entries, tail, i), size, b);
    if u < size {
        vstd::arithmetic::div_mod::lemma_small_mod(u as nat, size as nat);
    } else {
        assert(u % size == u - size) by (nonlinear_arith)
            requires
                size <= u < 2 * size,
        ;
    }
}

/// The byte behind a run of `live` bytes from `tail` on.
proof fn lemma_head(tail: int, live: int, size: int)
    requires
        0 <= tail < size,
        0 <= live <= size,
    ensures
        (tail + live) % size == (if tail + live < size {
            tail + live
        } else {
            tail + live - size
        }),
{
    let u = tail + live;
    if u < size {
        vstd::arithmetic::div_mod::lemma_small_mod(u as nat, size as nat);
    } else {
        assert(u % size == u - size) by (nonlinear_arith)
            requires
                size <= u < 2 * size,
        ;
    }
}

/// The reservation that owns the byte at `u`, counted along the ring.
proof fn lemma_find_place(entries: Seq<Entry>, pos: int, u: int) -> (i: int)
    requires
        pos <= u < pos + owned_bytes(entries),
    ensures
        0 <= i < entries.len(),
        place(entries, pos, i) <= u < place(entries, pos, i) + entries[i].owned,
    decreases entries.len(),
{
    if u < pos + entries[0].owned {
        0
    } else {
        let i = lemma_find_place(entries.skip(1), pos + entries[0].owned, u);
        lemma_place_shift(entries, pos, i + 1);
        i + 1
    }
}

/// A reservation that lies at `pos` owns the byte that the place `u` falls on.
proof fn lemma_place_owns(e: Entry, pos: int, size: int, u: int)
    requires
        size > 0,
        lies_at(e, pos, size),
        e.owned <= size,
        pos <= u < pos + e.owned,
    ensures
        owns(e, size, u % size),
{
    let pad = padded(e.region.len as int);
    let start = pos + e.owned - pad;
    let b = u % size;
    let from_end = pos + e.owned - 1 - u;
    let q = u / size - start / size;
    vstd::arithmetic::div_mod::lemma_fundamental_div_mod(u, size);
    vstd::arithmetic::div_mod::lemma_fundamental_div_mod(start, size);
    assert(e.region.offset + pad - 1 - b == q * size + from_end) by (nonlinear_arith)
        requires
            u == size * (u / size) + b,
            start == size * (start / size) + e.region.offset,
            q == u / size - start / size,
            from_end == start + pad - 1 - u,
    ;
    vstd::arithmetic::div_mod::lemma_fundamental_div_mod_converse(
        e.region.offset + pad - 1 - b,
        size,
        q,
        from_end,
    );
    vstd::arithmetic::div_mod::lemma_mod_bound(u, size);
}

/// The place along the ring of a byte that a reservation at `pos` owns.
proof fn lemma_owned_place(e: Entry, pos: int, size: int, b: int) -> (u: int)
    requires
        size > 0,
        lies_at(e, pos, size),
        owns(e, size, b),
    ensures
        pos <= u < pos + e.owned,
        u % size == b,
{
    let pad = padded(e.region.len as int);
    let start = pos + e.owned - pad;
    let gap = e.region.offset + pad - 1 - b;
    let from_end = gap % size;
    let u = pos + e.owned - 1 - from_end;
    let q = start / size + gap / size;
    vstd::arithmetic::div_mod::lemma_fundamental_div_mod(start, size);
    vstd::arithmetic::div_mod::lemma_fundamental_div_mod(gap, size);
    vstd::arithmetic::div_mod::lemma_mod_bound(gap, size);
    assert(u == q * size + b) by (nonlinear_arith)
        requires
            start == size * (start / size) + e.region.offset,
            gap == size * (gap / size) + from_end,
            gap == e.region.offset + pad - 1 - b,
            u == start + pad - 1 - from_end,
            q == start / size + gap / size,
    ;
    vstd::arithmetic::div_mod::lemma_fundamental_div_mod_converse(u, size, q, b);
    u
}

proof fn lemma_offset_residue(start: int, offset: int, b: int, size: int)
    requires
        size > 0,
        offset == start % size,
    ensures
        (start + (b - offset)) % size == b % size,
{
    vstd::arithmetic::div_mod::lemma_add_mod_noop(start, b - offset, size);
    vstd::arithmetic::div_mod::lemma_add_mod_noop(offset, b - offset, size);
    assert((start % size) % size == start % size) by (nonlinear_arith)
        requires
            size > 0,
    ;
    assert(offset + (b - offset) == b);
}

/// Where a reservation behind the last one lies.
proof fn lemma_reserved_place(
    tail: int,
    live: int,
    head: int,
    size: int,
    pad: int,
    offset: int,
    owned: int,
)
    requires
        size > 0,
        0 <= tail < size,
        0 <= live,
        0 <= head < size,
        0 < pad <= size,
        head == (tail + live) % size,
        (pad <= size - head && offset == head && owned == pad) || (pad > size - head && offset == 0
            && owned == size - head + pad),
        live + owned <= size,
    ensures
        (tail + live + owned - pad) % size == offset,
        (tail + live + owned) % size == (offset + pad) % size,
        (offset + pad) % size == (if offset + pad == size {
            0
        } else {
            offset + pad
        }),
{
    let u = tail + live;
    assert(u < 2 * size);
    if u < size {
        assert(u % size == u) by (nonlinear_arith)
            requires
                0 <= u < size,
        ;
    } else {
        assert(u % size == u - size) by (nonlinear_arith)
            requires
                size <= u < 2 * size,
        ;
    }
    let end = u + owned;
    let start = end - pad;
    // `start` is `u`, or the next multiple of the size.
    if offset == head && owned == pad {
        assert(start == u);
    } else {
        assert(start == u - head + size);
    }
    assert(start == offset || start == offset + size || start == offset + 2 * size);
    assert(start % size == offset) by (nonlinear_arith)
        requires
            0 <= offset < size,
            start == offset || start == offset + size || start == offset + 2 * size,
    ;
    assert(end == offset + pad || end == offset + pad + size || end == offset + pad + 2 * size);
    assert(end % size == (offset + pad) % size) by (nonlinear_arith)
        requires
            size > 0,
            end == offset + pad || end == offset + pad + size || end == offset + pad + 2 * size,
    ;
    if offset + pad < size {
        assert((offset + pad) % size == offset + pad) by (nonlinear_arith)
            requires
                0 <= offset + pad < size,
        ;
    } else {
        assert((offset + pad) % size == 0) by (nonlinear_arith)
            requires
                size > 0,
                offset + pad == size,
        ;
    }
}

/// The command type of an indirect stream execution.
pub const CMD_EXECUTE_COMMAND_STREAMS_MESA: u32 = 180;

/// Bytes of one indirect execution of a single stream without replies or
/// dependencies.
pub const EXECUTE_STUB_BYTES: usize = 64;

/// One indirect execution of `size` bytes at `offset` of the resource.
pub open spec fn execute_stub_message(resource_id: u32, offset: u64, size: u64) -> Seq<u8> {
    Seq::<u8>::empty()
        + bytes::le32(CMD_EXECUTE_COMMAND_STREAMS_MESA)
        + bytes::le32(0)
        + bytes::le32(1)
        + bytes::le64(1)
        + bytes::le32(resource_id)
        + bytes::le64(offset)
        + bytes::le64(size)
        + bytes::le64(0)
        + bytes::le32(0)
        + bytes::le64(0)
        + bytes::le32(0)
}

/// The inline command that executes `size` bytes at `offset` of the ring resource.
pub fn execute_stub(resource_id: u32, offset: u64, size: u64) -> (out: [u8; EXECUTE_STUB_BYTES])
    ensures
        out@ == execute_stub_message(resource_id, offset, size),
{
    broadcast use bytes::group_lengths;

    let mut w = StreamWriter::<EXECUTE_STUB_BYTES>::new();
    w.header(CMD_EXECUTE_COMMAND_STREAMS_MESA, 0);
    w.u32(1);  // stream count
    w.u64(1);  // stream array
    w.u32(resource_id);
    w.u64(offset);
    w.u64(size);
    w.u64(0);  // no reply positions
    w.u32(0);  // dependency count
    w.u64(0);  // no dependencies
    w.u32(0);  // execution flags
    assert(w@ == execute_stub_message(resource_id, offset, size));
    w.to_array()
}

/// A reservation of no bytes or of more than the ring is never taken; one that finds no
/// free place in the queue is refused for that. Every other one is taken, or refused as
/// `Full`, and what is taken begins at the head, or at zero where the run to the end of
/// the ring is too short for it.
pub proof fn law_reservations_are_refused_for_a_reason(ring: Ring, cap: nat, len: int)
    requires
        0 <= ring.head <= ring.size,
        0 <= len,
    ensures
        ({
            let p = placement(ring, cap, len);
            let pad = padded(len);
            let takes = 0 < len <= ring.size && ring.entries.len() < cap;
            &&& p == Err::<(int, int), ReserveRefusal>(ReserveRefusal::Unrepresentable) <==> len
                == 0 || len > ring.size
            &&& p == Err::<(int, int), ReserveRefusal>(ReserveRefusal::QueueFull) <==> 0 < len
                <= ring.size && ring.entries.len() >= cap
            &&& takes ==> p is Ok || p == Err::<(int, int), ReserveRefusal>(ReserveRefusal::Full)
            &&& p matches Ok((offset, owned)) ==> takes && if ring.head + pad <= ring.size {
                offset == ring.head && owned == pad
            } else {
                offset == 0 && owned == ring.size - ring.head + pad
            }
            &&& len <= pad < len + 64 && pad % 64 == 0
        }),
{
}

/// What a release leaves: the reservations behind the leading done ones, in order, so
/// that the oldest that is left is live. No reservation that is not done leaves, and
/// none changes but the released one, which is done.
pub proof fn law_a_release_frees_the_done_front(ring: Ring, k: int) -> (gone: int)
    requires
        0 <= k < ring.entries.len(),
    ensures
        ({
            let marked = ring.entries.update(k, Entry { done: true, ..ring.entries[k] });
            let left = released(ring, k).entries;
            &&& 0 <= gone <= ring.entries.len()
            &&& left == marked.skip(gone)
            &&& forall|i: int| 0 <= i < gone ==> (#[trigger] marked[i]).done
            &&& left.len() > 0 ==> !left[0].done
            &&& released(ring, k).size == ring.size
            &&& released(ring, k).head == (if left.len() == 0 {
                0
            } else {
                ring.head
            })
        }),
{
    let marked = ring.entries.update(k, Entry { done: true, ..ring.entries[k] });
    lemma_done_front(marked)
}

proof fn lemma_done_front(entries: Seq<Entry>) -> (gone: int)
    ensures
        0 <= gone <= entries.len(),
        after_done(entries) == entries.skip(gone),
        forall|i: int| 0 <= i < gone ==> (#[trigger] entries[i]).done,
        after_done(entries).len() > 0 ==> !after_done(entries)[0].done,
    decreases entries.len(),
{
    if entries.len() > 0 && entries[0].done {
        let rest = lemma_done_front(entries.skip(1));
        assert(entries.skip(1).skip(rest) =~= entries.skip(rest + 1));
        assert forall|i: int| 0 <= i < rest + 1 implies (#[trigger] entries[i]).done by {
            if i > 0 {
                assert(entries.skip(1)[i - 1].done);
            }
        }
        rest + 1
    } else {
        assert(entries.skip(0) =~= entries);
        0
    }
}

/// The words of the command that executes a stream from the ring.
pub proof fn law_the_words_of_an_execution(resource_id: u32, offset: u64, size: u64)
    ensures
        ({
            let m = execute_stub_message(resource_id, offset, size);
            &&& m.len() == 64
            &&& bytes::word32(m, 0) == 180
            &&& bytes::word32(m, 4) == 0
            &&& bytes::word32(m, 8) == 1
            &&& bytes::word64(m, 12) == 1
            &&& bytes::word32(m, 20) == resource_id
            &&& bytes::word64(m, 24) == offset
            &&& bytes::word64(m, 32) == size
            &&& bytes::word64(m, 40) == 0
            &&& bytes::word32(m, 48) == 0
            &&& bytes::word64(m, 52) == 0
            &&& bytes::word32(m, 60) == 0
        }),
{
    broadcast use {bytes::group_lengths, bytes::group_reading};
}

/// The reservation that a release finds is live, is of exactly the region that is given
/// back, and no older one is both.
pub proof fn law_a_release_finds_the_oldest_of_its_region(
    entries: Seq<Entry>,
    region: Region,
    k: int,
    i: int,
)
    requires
        0 <= i < entries.len(),
    ensures
        first_live(entries, region, k) ==> 0 <= k < entries.len() && !entries[k].done
            && entries[k].region.offset == region.offset && entries[k].region.len == region.len,
        first_live(entries, region, k) && i < k ==> entries[i].done || entries[i].region.offset
            != region.offset || entries[i].region.len != region.len,
        is_live(entries[i], region) <==> !entries[i].done && entries[i].region.offset
            == region.offset && entries[i].region.len == region.len,
{
}

} // verus!
