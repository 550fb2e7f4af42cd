//! Allocation-scoped producer completion.
//!
//! Every publication on an allocation announces the next epoch. An epoch is
//! complete only when it and every earlier epoch of its allocation are done.
//! Storage is reserved when a table is made, and is never enlarged afterwards.

use vstd::prelude::*;

verus! {

pub const LIVE: u32 = 0;
pub const CANCELLED: u32 = 1;
pub const FAILED: u32 = 2;
pub const REMOVED: u32 = 3;

/// The link of a list that ends.
const NONE: usize = usize::MAX;

/// The identity of one incarnation of an allocation.
#[derive(Clone, Copy, Debug, PartialEq, Eq, Structural)]
pub struct Key {
    pub slot: u32,
    pub generation: u64,
}

impl Default for Key {
    fn default() -> (k: Self)
        ensures
            k == (Key { slot: 0, generation: 0 }),
    {
        Key { slot: 0, generation: 0 }
    }
}

#[derive(Clone, Copy, Debug, PartialEq, Eq, Structural)]
pub struct Snapshot {
    pub generation: u64,
    pub announced: u64,
    pub completed: u64,
    pub status: u32,
}

impl Default for Snapshot {
    fn default() -> (s: Self)
        ensures
            s == (Snapshot { generation: 0, announced: 0, completed: 0, status: 0 }),
    {
        Snapshot { generation: 0, announced: 0, completed: 0, status: 0 }
    }
}

#[derive(Clone, Copy, Debug, PartialEq, Eq, Structural)]
pub enum Error {
    Invalid,
    Capacity,
    Terminal(u32),
}

#[derive(Clone, Copy, Debug, PartialEq, Eq, Structural)]
pub enum Predicate {
    Ready,
    Pending,
    Terminal(u32),
}

/// One opened allocation of a process.
#[derive(Clone, Copy, PartialEq, Eq, Structural)]
pub struct Open {
    pub pointer: usize,
    pub process: usize,
    pub key: Key,
}

/// The opens of all processes, at most one for each private pointer.
pub struct Opens {
    entries: Vec<Option<Open>>,
}

impl View for Opens {
    type V = Seq<Option<Open>>;

    closed spec fn view(&self) -> Seq<Option<Open>> {
        self.entries@
    }
}

/// The place `k` is the first free one.
pub open spec fn first_free<T>(s: Seq<Option<T>>, k: int) -> bool {
    0 <= k < s.len() && s[k] is None && forall|i: int| 0 <= i < k ==> (#[trigger] s[i]) is Some
}

/// No place is free.
pub open spec fn is_full<T>(s: Seq<Option<T>>) -> bool {
    forall|i: int| 0 <= i < s.len() ==> (#[trigger] s[i]) is Some
}

/// The entry at `k` is the open of `pointer`.
pub open spec fn opens_pointer(s: Seq<Option<Open>>, k: int, pointer: usize) -> bool {
    0 <= k < s.len() && (s[k] matches Some(o) && o.pointer == pointer)
}

/// Makes a vector of `capacity` empty places.
fn empty_places<T: Copy>(capacity: usize) -> (r: Result<Vec<Option<T>>, Error>)
    ensures
        match r {
            Ok(v) => v@ == Seq::new(capacity as nat, |i: int| None::<T>),
            Err(e) => e == Error::Capacity && capacity > 0,
        },
{
    let mut v: Vec<Option<T>> = Vec::new();
    if capacity > 0 && v.try_reserve(capacity).is_err() {
        return Err(Error::Capacity);
    }
    let mut i: usize = 0;
    while i < capacity
        invariant
            i <= capacity,
            v@ == Seq::new(i as nat, |i: int| None::<T>),
        decreases capacity - i,
    {
        v.push(None);
        i = i + 1;
        assert(v@ =~= Seq::new(i as nat, |i: int| None::<T>));
    }
    Ok(v)
}

/// The first free place, if there is one.
fn find_free<T: Copy>(v: &Vec<Option<T>>) -> (r: Option<usize>)
    ensures
        match r {
            Some(k) => first_free(v@, k as int),
            None => is_full(v@),
        },
{
    let mut i: usize = 0;
    while i < v.len()
        invariant
            i <= v@.len(),
            forall|j: int| 0 <= j < i ==> (#[trigger] v@[j]) is Some,
        decreases v@.len() - i,
    {
        if v[i].is_none() {
            return Some(i);
        }
        i = i + 1;
    }
    None
}

impl Opens {
    /// No private pointer is open twice.
    pub open spec fn wf(&self) -> bool {
        forall|i: int, j: int, pointer: usize| #[trigger]
            opens_pointer(self@, i, pointer) && #[trigger] opens_pointer(self@, j, pointer) ==> i
                == j
    }

    pub fn new(capacity: usize) -> (r: Result<Self, Error>)
        ensures
            match r {
                Ok(o) => o.wf() && o@ == Seq::new(capacity as nat, |i: int| None::<Open>),
                Err(e) => e == Error::Capacity && capacity > 0,
            },
    {
        let entries = empty_places::<Open>(capacity)?;
        Ok(Opens { entries })
    }

    fn find(&self, pointer: usize) -> (r: Option<usize>)
        ensures
            match r {
                Some(k) => opens_pointer(self@, k as int, pointer),
                None => forall|i: int| !#[trigger] opens_pointer(self@, i, pointer),
            },
    {
        let mut i: usize = 0;
        while i < self.entries.len()
            invariant
                i <= self.entries@.len(),
                forall|j: int| 0 <= j < i ==> !#[trigger] opens_pointer(self@, j, pointer),
            decreases self.entries@.len() - i,
        {
            if let Some(o) = self.entries[i] {
                if o.pointer == pointer {
                    assert(opens_pointer(self@, i as int, pointer));
                    return Some(i);
                }
            }
            i = i + 1;
        }
        None
    }

    /// Associates a private pointer with the allocation it opened.
    pub fn register(&mut self, pointer: usize, process: usize, key: Key) -> (r: Result<(), Error>)
        requires
            old(self).wf(),
        ensures
            final(self).wf(),
            ({
                let refused = pointer == 0 || key.generation == 0 || exists|i: int| #[trigger]
                    opens_pointer(old(self)@, i, pointer);
                match r {
                    Err(e) => final(self)@ == old(self)@ && ((refused && e == Error::Invalid) || (
                    !refused && is_full(old(self)@) && e == Error::Capacity)),
                    Ok(_) => !refused && exists|k: int| #[trigger]
                        first_free(old(self)@, k) && final(self)@ == old(self)@.update(
                            k,
                            Some(Open { pointer, process, key }),
                        ),
                }
            }),
    {
        if pointer == 0 || key.generation == 0 || self.find(pointer).is_some() {
            return Err(Error::Invalid);
        }
        match find_free(&self.entries) {
            None => Err(Error::Capacity),
            Some(k) => {
                let ghost before = self@;
                self.entries[k] = Some(Open { pointer, process, key });
                assert forall|i: int, p: usize| #[trigger] opens_pointer(self@, i, p) implies (i == k
                    && p == pointer) || opens_pointer(before, i, p) by {}
                Ok(())
            },
        }
    }

    /// The allocation that `process` opened under `pointer`.
    pub fn resolve(&self, pointer: usize, process: usize) -> (r: Result<Key, Error>)
        requires
            self.wf(),
        ensures
            match r {
                Ok(key) => process != 0 && exists|i: int| #[trigger]
                    opens_pointer(self@, i, pointer) && self@[i] == Some(
                        Open { pointer, process, key },
                    ),
                Err(e) => e == Error::Invalid && (process == 0 || forall|i: int| #[trigger]
                    opens_pointer(self@, i, pointer) ==> self@[i]->0.process != process),
            },
    {
        if process == 0 {
            return Err(Error::Invalid);
        }
        match self.find(pointer) {
            None => Err(Error::Invalid),
            Some(k) => {
                match self.entries[k] {
                    None => Err(Error::Invalid),
                    Some(o) => {
                        if o.process == process {
                            assert(opens_pointer(self@, k as int, pointer));
                            Ok(o.key)
                        } else {
                            Err(Error::Invalid)
                        }
                    },
                }
            },
        }
    }

    /// Forgets the open of `pointer`, if there is one.
    pub fn remove(&mut self, pointer: usize)
        requires
            old(self).wf(),
        ensures
            final(self).wf(),
            final(self)@.len() == old(self)@.len(),
            forall|i: int|
                0 <= i < old(self)@.len() ==> #[trigger] final(self)@[i] == (if opens_pointer(
                    old(self)@,
                    i,
                    pointer,
                ) {
                    None
                } else {
                    old(self)@[i]
                }),
    {
        match self.find(pointer) {
            None => {},
            Some(k) => {
                let ghost before = self@;
                self.entries[k] = None;
                assert forall|i: int, p: usize| #[trigger] opens_pointer(self@, i, p) implies
                    opens_pointer(before, i, p) by {}
            },
        }
    }
}

/// Runs `use_data` on private data under one acquired reference, and gives the
/// reference back afterwards. A nonzero release token owns a reference even where
/// the data is null. Where there is data to use, `release` may rest on the use: it
/// can be called only once `use_data` has returned. A use that unwinds gives nothing
/// back here: a caller whose use may unwind keeps the token in a guard of its own.
pub fn with_reference<
    T,
    A: FnOnce() -> (usize, usize),
    R: FnOnce(usize),
    U: FnOnce(usize) -> Result<T, Error>,
>(acquire: A, release: R, use_data: U) -> (r: Result<T, Error>)
    requires
        call_requires(acquire, ()),
        forall|got: (usize, usize)| #[trigger]
            call_ensures(acquire, (), got) ==> (got.0 == 0 && got.1 != 0 ==> call_requires(
                release,
                (got.1,),
            )) && (got.0 != 0 && got.1 != 0 ==> call_requires(use_data, (got.0,))),
        forall|got: (usize, usize), used: Result<T, Error>|
            #![trigger call_ensures(acquire, (), got), call_ensures(use_data, (got.0,), used)]
            call_ensures(acquire, (), got) && got.0 != 0 && got.1 != 0 && call_ensures(
                use_data,
                (got.0,),
                used,
            ) ==> call_requires(release, (got.1,)),
    ensures
        exists|got: (usize, usize)| #[trigger]
            call_ensures(acquire, (), got) && (got.1 != 0 ==> call_ensures(
                release,
                (got.1,),
                (),
            )) && (if got.0 == 0 || got.1 == 0 {
                r == Err::<T, Error>(Error::Invalid)
            } else {
                call_ensures(use_data, (got.0,), r)
            }),
{
    let (data, token): (usize, usize) = acquire();
    let r: Result<T, Error> = if data == 0 || token == 0 {
        Err(Error::Invalid)
    } else {
        use_data(data)
    };
    if token != 0 {
        release(token);
    }
    r
}

/// What a slot holds.
#[derive(Clone, Copy, PartialEq, Eq, Structural)]
pub struct Allocation {
    pub id: usize,
    pub bindings: u32,
    pub snapshot: Snapshot,
}

/// One announced epoch that is not complete yet.
#[derive(Clone, Copy, PartialEq, Eq, Structural)]
pub struct Pending {
    pub key: Key,
    pub epoch: u64,
    pub stream: u64,
    pub value: u32,
    pub done: bool,
}

/// The last value that a stream published on an allocation.
#[derive(Clone, Copy, PartialEq, Eq, Structural)]
pub struct Writer {
    pub key: Key,
    pub stream: u64,
    pub value: u32,
}

/// Where the unfinished epochs of a slot begin and end, and whether the slot is
/// on the list of changed slots.
#[derive(Clone, Copy)]
struct Links {
    head: usize,
    tail: usize,
    dirty: bool,
}

/// What a table holds: its slots, the unfinished epochs by place, the last value
/// of each writer, the last generation given out, and the changed slots, of which
/// the last one is taken first.
#[verifier::ext_equal]
pub struct Ledger {
    pub allocations: Seq<Allocation>,
    pub pool: Seq<Option<Pending>>,
    pub writers: Seq<Option<Writer>>,
    pub generation: u64,
    pub dirty: Seq<u32>,
}

/// The completion state of all allocations. The unfinished epochs of a slot are
/// chained by place, oldest first.
pub struct Table {
    allocations: Vec<Allocation>,
    links: Vec<Links>,
    pending: Vec<Option<Pending>>,
    next: Vec<usize>,
    writers: Vec<Option<Writer>>,
    generation: u64,
    dirty: Vec<u32>,
}

impl View for Table {
    type V = Ledger;

    closed spec fn view(&self) -> Ledger {
        Ledger {
            allocations: self.allocations@,
            pool: self.pending@,
            writers: self.writers@,
            generation: self.generation,
            dirty: self.dirty@,
        }
    }
}

pub open spec fn empty_allocation() -> Allocation {
    Allocation {
        id: 0,
        bindings: 0,
        snapshot: Snapshot { generation: 0, announced: 0, completed: 0, status: REMOVED },
    }
}

pub open spec fn slot_key(v: Ledger, slot: int) -> Key {
    Key { slot: slot as u32, generation: v.allocations[slot].snapshot.generation }
}

/// The key names the allocation that its slot holds now.
pub open spec fn is_current(v: Ledger, key: Key) -> bool {
    key.generation != 0 && key.slot < v.allocations.len()
        && v.allocations[key.slot as int].snapshot.generation == key.generation
}

/// The slot `k` holds the allocation `id`.
pub open spec fn has_id(v: Ledger, k: int, id: usize) -> bool {
    0 <= k < v.allocations.len() && v.allocations[k].id == id
}

/// The slot can take a new allocation.
pub open spec fn is_vacant(v: Ledger, k: int) -> bool {
    0 <= k < v.allocations.len() && v.allocations[k].id == 0 && v.allocations[k].bindings == 0
}

/// `k` is the first slot that can take a new allocation.
pub open spec fn first_vacant(v: Ledger, k: int) -> bool {
    is_vacant(v, k) && forall|i: int| 0 <= i < k ==> !#[trigger] is_vacant(v, i)
}

/// The place `k` holds this epoch of this allocation.
pub open spec fn held_at(pool: Seq<Option<Pending>>, k: int, key: Key, epoch: int) -> bool {
    0 <= k < pool.len() && (pool[k] matches Some(p) && p.key == key && p.epoch == epoch)
}

/// The writer at `k` is this stream on this allocation.
pub open spec fn writes_at(
    writers: Seq<Option<Writer>>,
    k: int,
    key: Key,
    stream: u64,
) -> bool {
    0 <= k < writers.len() && (writers[k] matches Some(w) && w.key == key && w.stream == stream)
}

pub open spec fn with_snapshot(v: Ledger, slot: int, snapshot: Snapshot) -> Ledger {
    Ledger {
        allocations: v.allocations.update(slot, Allocation { snapshot, ..v.allocations[slot] }),
        ..v
    }
}

/// Puts the slot on the list of changed slots.
pub open spec fn changed(v: Ledger, slot: int) -> Ledger {
    if v.dirty.contains(slot as u32) {
        v
    } else {
        Ledger { dirty: v.dirty.push(slot as u32), ..v }
    }
}

/// The place holds the oldest unfinished epoch of the slot, and that epoch is done.
pub open spec fn ready_at(v: Ledger, slot: int, k: int) -> bool {
    held_at(v.pool, k, slot_key(v, slot), v.allocations[slot].snapshot.completed + 1)
        && v.pool[k]->0.done
}

/// The oldest unfinished epoch of the slot, at place `k`, becomes complete.
pub open spec fn stepped(v: Ledger, slot: int, k: int) -> Ledger {
    let s = v.allocations[slot].snapshot;
    Ledger {
        pool: v.pool.update(k, None),
        ..with_snapshot(v, slot, Snapshot { completed: (s.completed + 1) as u64, ..s })
    }
}

/// Completes the oldest unfinished epoch of the slot for as long as it is done.
pub open spec fn settled(v: Ledger, slot: int) -> Ledger
    decreases v.allocations[slot].snapshot.announced - v.allocations[slot].snapshot.completed,
{
    if 0 <= slot < v.allocations.len() && v.allocations[slot].snapshot.completed
        < v.allocations[slot].snapshot.announced && exists|k: int| #[trigger] ready_at(v, slot, k) {
        let k = choose|k: int| #[trigger] ready_at(v, slot, k);
        settled(stepped(v, slot, k), slot)
    } else {
        v
    }
}

/// The ledger after a publication on `key` that uses the writer `writer` and the
/// place `place`.
pub open spec fn published(
    v: Ledger,
    key: Key,
    stream: u64,
    value: u32,
    done: bool,
    writer: int,
    place: int,
) -> Ledger {
    let s = v.allocations[key.slot as int].snapshot;
    let epoch = (s.announced + 1) as u64;
    let entered = Ledger {
        pool: v.pool.update(place, Some(Pending { key, epoch, stream, value, done })),
        writers: v.writers.update(writer, Some(Writer { key, stream, value })),
        ..with_snapshot(v, key.slot as int, Snapshot { announced: epoch, ..s })
    };
    changed(settled(entered, key.slot as int), key.slot as int)
}

/// The writer that a publication uses: the one that is known, or else the first
/// free one.
pub open spec fn writer_for(v: Ledger, k: int, key: Key, stream: u64) -> bool {
    if exists|i: int| #[trigger] writes_at(v.writers, i, key, stream) {
        writes_at(v.writers, k, key, stream)
    } else {
        first_free(v.writers, k)
    }
}

/// Some writer of the stream on the allocation has published `value` or a later one.
pub open spec fn is_stale(v: Ledger, key: Key, stream: u64, value: u32) -> bool {
    exists|i: int| #[trigger]
        writes_at(v.writers, i, key, stream) && value <= v.writers[i]->0.value
}

/// There is no writer to use.
pub open spec fn no_writer(v: Ledger, key: Key, stream: u64) -> bool {
    is_full(v.writers) && forall|i: int| !#[trigger] writes_at(v.writers, i, key, stream)
}

/// What a publication is refused with.
pub open spec fn publish_refusal(v: Ledger, key: Key, stream: u64, value: u32) -> Option<Error> {
    let s = v.allocations[key.slot as int].snapshot;
    if !is_current(v, key) {
        Some(Error::Invalid)
    } else if s.status != LIVE {
        Some(Error::Terminal(s.status))
    } else if stream == 0 || value == 0 || is_stale(v, key, stream, value) {
        Some(Error::Invalid)
    } else if no_writer(v, key, stream) || is_full(v.pool) || s.announced == u64::MAX {
        Some(Error::Capacity)
    } else {
        None
    }
}

/// The place `i` holds the operation `value` of `stream`.
pub open spec fn is_operation(v: Ledger, i: int, stream: u64, value: u32) -> bool {
    v.pool[i] matches Some(p) && p.stream == stream && p.value == value
}

/// Marks the place done and lets its allocation advance.
pub open spec fn finished(v: Ledger, i: int) -> Ledger {
    let p = v.pool[i]->0;
    let marked = Ledger { pool: v.pool.update(i, Some(Pending { done: true, ..p })), ..v };
    changed(settled(marked, p.key.slot as int), p.key.slot as int)
}

/// Finishes the operation at every place from `i` on.
pub open spec fn completed_from(v: Ledger, stream: u64, value: u32, i: int) -> Ledger
    decreases v.pool.len() - i,
    via completed_from_decreases
{
    if 0 <= i < v.pool.len() {
        if is_operation(v, i, stream, value) {
            completed_from(finished(v, i), stream, value, i + 1)
        } else {
            completed_from(v, stream, value, i + 1)
        }
    } else {
        v
    }
}

#[via_fn]
proof fn completed_from_decreases(v: Ledger, stream: u64, value: u32, i: int) {
    if 0 <= i < v.pool.len() && is_operation(v, i, stream, value) {
        let p = v.pool[i]->0;
        let marked = Ledger { pool: v.pool.update(i, Some(Pending { done: true, ..p })), ..v };
        lemma_settled_frame(marked, p.key.slot as int);
    }
}

pub open spec fn ended(s: Snapshot, status: u32) -> Snapshot {
    if s.status == LIVE {
        Snapshot { status, ..s }
    } else {
        s
    }
}

/// Ends the slot with `status`, unless it has ended before.
pub open spec fn marked(v: Ledger, slot: int, status: u32) -> Ledger {
    changed(with_snapshot(v, slot, ended(v.allocations[slot].snapshot, status)), slot)
}

/// Marks the allocation of each of the first `n` places that the stream holds.
pub open spec fn stream_marked(v: Ledger, stream: u64, status: u32, n: int) -> Ledger
    decreases n,
{
    if n <= 0 {
        v
    } else {
        let before = stream_marked(v, stream, status, n - 1);
        match v.pool[n - 1] {
            Some(p) if p.stream == stream => marked(before, p.key.slot as int, status),
            _ => before,
        }
    }
}

/// The pool without the epochs of allocations that have ended.
pub open spec fn live_only(v: Ledger) -> Seq<Option<Pending>> {
    Seq::new(
        v.pool.len(),
        |i: int|
            match v.pool[i] {
                Some(p) if v.allocations[p.key.slot as int].snapshot.status != LIVE => None,
                other => other,
            },
    )
}

pub open spec fn without_stream(writers: Seq<Option<Writer>>, stream: u64) -> Seq<
    Option<Writer>,
> {
    Seq::new(
        writers.len(),
        |i: int|
            match writers[i] {
                Some(w) if w.stream == stream => None,
                other => other,
            },
    )
}

pub open spec fn without_writer_key(writers: Seq<Option<Writer>>, key: Key) -> Seq<
    Option<Writer>,
> {
    Seq::new(
        writers.len(),
        |i: int|
            match writers[i] {
                Some(w) if w.key == key => None,
                other => other,
            },
    )
}

pub open spec fn without_key(pool: Seq<Option<Pending>>, key: Key) -> Seq<Option<Pending>> {
    Seq::new(
        pool.len(),
        |i: int|
            match pool[i] {
                Some(p) if p.key == key => None,
                other => other,
            },
    )
}

/// The ledger after the failure of a stream.
pub open spec fn stream_failed(v: Ledger, stream: u64, status: u32) -> Ledger {
    if status == LIVE {
        v
    } else {
        let m = stream_marked(v, stream, status, v.pool.len() as int);
        Ledger { pool: live_only(m), writers: without_stream(v.writers, stream), ..m }
    }
}

/// The ledger after an allocation was ended.
pub open spec fn terminated(v: Ledger, key: Key, status: u32) -> Ledger {
    if !is_current(v, key) || status == LIVE {
        v
    } else {
        Ledger { pool: without_key(v.pool, key), ..marked(v, key.slot as int, status) }
    }
}

/// The ledger after an allocation was destroyed.
pub open spec fn removed(v: Ledger, key: Key) -> Ledger {
    if !is_current(v, key) {
        v
    } else {
        let t = terminated(v, key, REMOVED);
        let slot = key.slot as int;
        Ledger {
            allocations: t.allocations.update(slot, Allocation { id: 0, ..t.allocations[slot] }),
            writers: without_writer_key(v.writers, key),
            ..t
        }
    }
}

/// Ends each of the first `n` slots that holds an allocation.
pub open spec fn slots_ended(v: Ledger, n: int) -> Ledger
    decreases n,
{
    if n <= 0 {
        v
    } else {
        let before = slots_ended(v, n - 1);
        if v.allocations[n - 1].id != 0 {
            marked(before, n - 1, REMOVED)
        } else {
            before
        }
    }
}

pub open spec fn was_reset(v: Ledger) -> Ledger {
    Ledger {
        pool: Seq::new(v.pool.len(), |i: int| None::<Pending>),
        writers: Seq::new(v.writers.len(), |i: int| None::<Writer>),
        ..slots_ended(v, v.allocations.len() as int)
    }
}

/// Settling a slot keeps everything but that slot's completed epoch and the places
/// that its epochs held.
pub proof fn lemma_settled_frame(v: Ledger, slot: int)
    ensures
        settled(v, slot).pool.len() == v.pool.len(),
        settled(v, slot).allocations.len() == v.allocations.len(),
        settled(v, slot).writers == v.writers,
        settled(v, slot).generation == v.generation,
        settled(v, slot).dirty == v.dirty,
    decreases v.allocations[slot].snapshot.announced - v.allocations[slot].snapshot.completed,
{
    if 0 <= slot < v.allocations.len() && v.allocations[slot].snapshot.completed
        < v.allocations[slot].snapshot.announced && exists|k: int| #[trigger] ready_at(v, slot, k) {
        let k = choose|k: int| #[trigger] ready_at(v, slot, k);
        lemma_settled_frame(stepped(v, slot, k), slot);
    }
}

impl Table {
    /// An entry belongs to a live allocation, is unfinished, and leads to the entry
    /// of the next epoch.
    spec fn entry_ok(self, j: int) -> bool {
        self.pending@[j] matches Some(p) ==> {
            let s = self.allocations@[p.key.slot as int].snapshot;
            &&& p.key.slot < self.allocations@.len()
            &&& s.generation == p.key.generation
            &&& s.status == LIVE
            &&& s.completed < p.epoch <= s.announced
            &&& p.epoch == s.announced ==> self.links@[p.key.slot as int].tail == j
                && self.next@[j] == NONE
            &&& p.epoch < s.announced ==> held_at(
                self.pending@,
                self.next@[j] as int,
                p.key,
                p.epoch + 1,
            )
        }
    }

    /// The chain of a slot begins at its oldest unfinished epoch, which is not done,
    /// and ends at the newest one. Of the slot `loose` the oldest may be done.
    spec fn slot_ok(self, i: int, loose: int) -> bool {
        let s = self.allocations@[i].snapshot;
        let l = self.links@[i];
        &&& s.completed <= s.announced
        &&& s.generation <= self.generation
        &&& self.allocations@[i].id == 0 ==> s.status != LIVE
        &&& self.allocations@[i].id != 0 ==> s.generation != 0
        &&& l.dirty <==> self.dirty@.contains(i as u32)
        &&& if s.status == LIVE && s.completed < s.announced {
            &&& held_at(self.pending@, l.head as int, slot_key(self@, i), s.completed + 1)
            &&& held_at(self.pending@, l.tail as int, slot_key(self@, i), s.announced as int)
            &&& i != loose ==> !self.pending@[l.head as int]->0.done
        } else {
            &&& l.head == NONE
            &&& i != loose ==> l.tail == NONE
        }
    }

    spec fn lists_ok(self) -> bool {
        &&& self.links@.len() == self.allocations@.len()
        &&& self.next@.len() == self.pending@.len() <= usize::MAX
        &&& 0 < self.allocations@.len() <= u32::MAX
        &&& forall|k: int|
            0 <= k < self.dirty@.len() ==> (#[trigger] self.dirty@[k]) < self.allocations@.len()
        &&& self.dirty@.no_duplicates()
        &&& forall|i: int, j: int, id: usize|
            id != 0 && #[trigger] has_id(self@, i, id) && #[trigger] has_id(self@, j, id) ==> i == j
        &&& one_place_each(self.pending@)
        &&& one_writer_each(self.writers@)
    }

    spec fn wf_but(self, loose: int) -> bool {
        &&& self.lists_ok()
        &&& forall|j: int| 0 <= j < self.pending@.len() ==> #[trigger] self.entry_ok(j)
        &&& forall|i: int|
            0 <= i < self.allocations@.len() ==> #[trigger] self.slot_ok(i, loose)
    }

    pub closed spec fn wf(self) -> bool {
        self.wf_but(-1)
    }

    spec fn flags_ok(self) -> bool {
        forall|i: int|
            0 <= i < self.links@.len() ==> (#[trigger] self.links@[i].dirty
                <==> self.dirty@.contains(i as u32))
    }

    /// Puts the slot on the list of changed slots.
    fn note_changed(&mut self, slot: usize)
        requires
            old(self).lists_ok(),
            old(self).flags_ok(),
            slot < old(self).allocations@.len(),
        ensures
            final(self).lists_ok(),
            final(self).flags_ok(),
            final(self)@ == changed(old(self)@, slot as int),
            final(self).allocations@ == old(self).allocations@,
            final(self).pending@ == old(self).pending@,
            final(self).next@ == old(self).next@,
            forall|i: int|
                0 <= i < old(self).links@.len() ==> (#[trigger] final(self).links@[i]).head == old(
                    self,
                ).links@[i].head && final(self).links@[i].tail == old(self).links@[i].tail,
    {
        let mut l = self.links[slot];
        if !l.dirty {
            let ghost before = *self;
            l.dirty = true;
            self.links[slot] = l;
            let ghost d = self.dirty@;
            self.dirty.push(slot as u32);
            proof {
                assert(self.dirty@[d.len() as int] == slot);
                assert forall|i: u32| self.dirty@.contains(i) <==> (d.contains(i) || i == slot) by {
                    if d.contains(i) {
                        let k = choose|k: int| 0 <= k < d.len() && d[k] == i;
                        assert(self.dirty@[k] == i);
                    }
                }
                assert forall|i: int, j: int, id: usize|
                    id != 0 && #[trigger] has_id(self@, i, id) && #[trigger] has_id(
                        self@,
                        j,
                        id,
                    ) implies i == j by {
                    assert(has_id(before@, i, id) && has_id(before@, j, id));
                }
            }
        }
    }

    fn mark_changed(&mut self, slot: usize, Ghost(loose): Ghost<int>)
        requires
            old(self).wf_but(loose),
            slot < old(self).allocations@.len(),
        ensures
            final(self).wf_but(loose),
            final(self)@ == changed(old(self)@, slot as int),
    {
        let ghost before = *self;
        assert forall|i: int| 0 <= i < self.links@.len() implies (#[trigger] self.links@[i].dirty
            <==> self.dirty@.contains(i as u32)) by {
            assert(self.slot_ok(i, loose));
        }
        self.note_changed(slot);
        proof {
            assert forall|j: int| 0 <= j < self.pending@.len() implies #[trigger] self.entry_ok(
                j,
            ) by {
                assert(before.entry_ok(j));
            }
            assert forall|i: int| 0 <= i < self.allocations@.len() implies #[trigger] self.slot_ok(
                i,
                loose,
            ) by {
                assert(before.slot_ok(i, loose));
                assert(self.links@[i].dirty <==> self.dirty@.contains(i as u32));
                assert(self.links@[i].head == before.links@[i].head);
            }
        }
    }

    fn advance(&mut self, slot: usize)
        requires
            old(self).wf_but(slot as int),
            slot < old(self).allocations@.len(),
        ensures
            final(self).wf(),
            final(self)@ == changed(settled(old(self)@, slot as int), slot as int),
    {
        let ghost start = *self;
        loop
            invariant_except_break
                self.wf_but(slot as int),
                slot < self.allocations@.len(),
                settled(self@, slot as int) == settled(start@, slot as int),
            ensures
                self.wf_but(slot as int),
                slot < self.allocations@.len(),
                self@ == settled(start@, slot as int),
                ({
                    let s = self.allocations@[slot as int].snapshot;
                    s.status == LIVE && s.completed < s.announced
                        ==> !self.pending@[self.links@[slot as int].head as int]->0.done
                }),
            decreases
                    self.allocations@[slot as int].snapshot.announced
                        - self.allocations@[slot as int].snapshot.completed,
        {
            assert(self.slot_ok(slot as int, slot as int));
            let head: usize = self.links[slot].head;
            let ready: bool = if head < self.pending.len() {
                match self.pending[head] {
                    Some(p) => p.done,
                    None => false,
                }
            } else {
                false
            };
            if !ready {
                proof {
                    self.lemma_unready(slot as int);
                }
                break;
            }
            self.pop(slot, head);
        }
        assert(self.slot_ok(slot as int, slot as int));
        if self.links[slot].head == NONE {
            let ghost before = *self;
            let mut l = self.links[slot];
            l.tail = NONE;
            self.links[slot] = l;
            proof {
                assert forall|j: int| 0 <= j < self.pending@.len() implies #[trigger] self.entry_ok(
                    j,
                ) by {
                    assert(before.entry_ok(j));
                }
                assert forall|i: int|
                    0 <= i < self.allocations@.len() implies #[trigger] self.slot_ok(
                    i,
                    slot as int,
                ) by {
                    assert(before.slot_ok(i, slot as int));
                }
                assert(self@ == before@);
            }
        }
        assert forall|i: int| 0 <= i < self.allocations@.len() implies #[trigger] self.slot_ok(
            i,
            -1,
        ) by {
            assert(self.slot_ok(i, slot as int));
        }
        self.mark_changed(slot, Ghost(-1));
    }

    /// Where the oldest unfinished epoch of a slot is not done, or there is none,
    /// the slot is settled.
    proof fn lemma_unready(self, slot: int)
        requires
            self.wf_but(slot),
            0 <= slot < self.allocations@.len(),
            ({
                let s = self.allocations@[slot].snapshot;
                s.status == LIVE && s.completed < s.announced
                    ==> !self.pending@[self.links@[slot].head as int]->0.done
            }),
        ensures
            settled(self@, slot) == self@,
    {
        assert(self.slot_ok(slot, slot));
        if exists|k: int| #[trigger] ready_at(self@, slot, k) {
            let k = choose|k: int| #[trigger] ready_at(self@, slot, k);
            assert(self.entry_ok(k));
            assert(held_at(
                self.pending@,
                self.links@[slot].head as int,
                slot_key(self@, slot),
                self.allocations@[slot].snapshot.completed + 1,
            ));
        }
    }

    /// Completes the oldest unfinished epoch of the slot, which is done.
    fn pop(&mut self, slot: usize, head: usize)
        requires
            old(self).wf_but(slot as int),
            slot < old(self).allocations@.len(),
            head == old(self).links@[slot as int].head,
            head < old(self).pending@.len(),
            old(self).pending@[head as int] matches Some(p) && p.done,
        ensures
            final(self).wf_but(slot as int),
            final(self).allocations@.len() == old(self).allocations@.len(),
            final(self).allocations@[slot as int].snapshot.announced == old(
                self,
            ).allocations@[slot as int].snapshot.announced,
            final(self).allocations@[slot as int].snapshot.completed == old(
                self,
            ).allocations@[slot as int].snapshot.completed + 1,
            old(self).allocations@[slot as int].snapshot.completed < old(
                self,
            ).allocations@[slot as int].snapshot.announced,
            settled(final(self)@, slot as int) == settled(old(self)@, slot as int),
    {
        let ghost before = *self;
        let ghost key = slot_key(self@, slot as int);
        let ghost s = self.allocations@[slot as int].snapshot;
        assert(self.slot_ok(slot as int, slot as int));
        assert(self.entry_ok(head as int));
        let next: usize = self.next[head];
        let mut a = self.allocations[slot];
        a.snapshot.completed = a.snapshot.completed + 1;
        self.allocations[slot] = a;
        self.pending[head] = None;
        let mut l = self.links[slot];
        l.head = next;
        self.links[slot] = l;
        proof {
            assert(held_at(before.pending@, head as int, key, s.completed + 1));
            assert(ready_at(before@, slot as int, head as int));
            let k = choose|k: int| #[trigger] ready_at(before@, slot as int, k);
            assert(held_at(before.pending@, k, key, s.completed + 1));
            assert(k == head);
            assert(self@ =~= stepped(before@, slot as int, head as int));
            assert forall|j: int, e: Key, n: int| #[trigger]
                held_at(self.pending@, j, e, n) <==> (j != head && held_at(
                before.pending@,
                j,
                e,
                n,
            )) by {}
            assert forall|j: int| 0 <= j < self.pending@.len() implies #[trigger] self.entry_ok(
                j,
            ) by {
                assert(before.entry_ok(j));
                if let Some(q) = self.pending@[j] {
                    assert(before.pending@[j] == Some(q));
                    if q.key.slot == slot {
                        assert(held_at(before.pending@, j, key, q.epoch as int));
                        assert(q.epoch != s.completed + 1);
                    }
                    if q.epoch < before.allocations@[q.key.slot as int].snapshot.announced {
                        let m = before.next@[j] as int;
                        assert(held_at(before.pending@, m, q.key, q.epoch + 1));
                        assert(m != head);
                        assert(held_at(self.pending@, m, q.key, q.epoch + 1));
                    }
                }
            }
            assert forall|i: int| 0 <= i < self.allocations@.len() implies #[trigger] self.slot_ok(
                i,
                slot as int,
            ) by {
                assert(before.slot_ok(i, slot as int));
                if i != slot {
                    let si = before.allocations@[i].snapshot;
                    let li = before.links@[i];
                    assert(slot_key(self@, i) == slot_key(before@, i));
                    if si.status == LIVE && si.completed < si.announced {
                        assert(held_at(before.pending@, li.head as int, slot_key(before@, i), si.completed + 1));
                        assert(held_at(before.pending@, li.tail as int, slot_key(before@, i), si.announced as int));
                        assert(slot_key(before@, i).slot != key.slot);
                        assert(li.head != head);
                        assert(li.tail != head);
                        assert(held_at(self.pending@, li.head as int, slot_key(before@, i), si.completed + 1));
                        assert(held_at(self.pending@, li.tail as int, slot_key(before@, i), si.announced as int));
                    }
                } else {
                    if s.completed + 1 < s.announced {
                        assert(held_at(before.pending@, next as int, key, s.completed + 2));
                        assert(held_at(before.pending@, before.links@[i].tail as int, key, s.announced as int));
                        assert(next != head);
                        assert(before.links@[i].tail != head);
                        assert(held_at(self.pending@, next as int, key, s.completed + 2));
                        assert(held_at(self.pending@, before.links@[i].tail as int, key, s.announced as int));
                    }
                }
            }
            assert forall|i: int, j: int, id: usize|
                id != 0 && #[trigger] has_id(self@, i, id) && #[trigger] has_id(
                    self@,
                    j,
                    id,
                ) implies i == j by {
                assert(has_id(before@, i, id) && has_id(before@, j, id));
            }
            assert(one_place_each(self.pending@));
        }
    }
}

/// No stream has two writers on one allocation.
pub open spec fn one_writer_each(writers: Seq<Option<Writer>>) -> bool {
    forall|j: int, k: int, key: Key, stream: u64| #[trigger]
        writes_at(writers, j, key, stream) && #[trigger] writes_at(writers, k, key, stream) ==> j
            == k
}

/// No epoch of an allocation is held at two places.
pub open spec fn one_place_each(pool: Seq<Option<Pending>>) -> bool {
    forall|j: int, k: int, key: Key, epoch: int| #[trigger]
        held_at(pool, j, key, epoch) && #[trigger] held_at(pool, k, key, epoch) ==> j == k
}

/// No slot holds the allocation.
pub open spec fn lacks_id(v: Ledger, id: usize) -> bool {
    forall|k: int| !#[trigger] has_id(v, k, id)
}

/// The ledger after a new allocation took the slot `k`.
pub open spec fn registered(v: Ledger, k: int, id: usize) -> Ledger {
    let generation = (v.generation + 1) as u64;
    changed(
        Ledger {
            allocations: v.allocations.update(
                k,
                Allocation {
                    id,
                    bindings: 0,
                    snapshot: Snapshot { generation, announced: 0, completed: 0, status: LIVE },
                },
            ),
            generation,
            ..v
        },
        k,
    )
}

pub open spec fn with_bindings(v: Ledger, slot: int, bindings: int) -> Ledger {
    Ledger {
        allocations: v.allocations.update(
            slot,
            Allocation { bindings: bindings as u32, ..v.allocations[slot] },
        ),
        ..v
    }
}

/// What a wait for `epoch` of the allocation finds.
pub open spec fn predicate_of(v: Ledger, key: Key, epoch: u64) -> Result<Predicate, Error> {
    let s = v.allocations[key.slot as int].snapshot;
    if !is_current(v, key) || epoch > s.announced {
        Err(Error::Invalid)
    } else if s.status != LIVE {
        Ok(Predicate::Terminal(s.status))
    } else if s.completed >= epoch {
        Ok(Predicate::Ready)
    } else {
        Ok(Predicate::Pending)
    }
}

impl Table {
    /// A table with room for `allocations` allocations, `pending` unfinished epochs
    /// and `writers` writers. Success rests on the allocator.
    pub fn new(allocations: usize, pending: usize, writers: usize) -> (r: Result<Self, Error>)
        ensures
            (allocations == 0 || allocations > u32::MAX || pending == 0 || writers == 0) ==> r
                is Err && r->Err_0 == Error::Invalid,
            !(allocations == 0 || allocations > u32::MAX || pending == 0 || writers == 0)
                ==> match r {
                Err(e) => e == Error::Capacity,
                Ok(t) => t.wf() && t@ == (Ledger {
                    allocations: Seq::new(allocations as nat, |i: int| empty_allocation()),
                    pool: Seq::new(pending as nat, |i: int| None::<Pending>),
                    writers: Seq::new(writers as nat, |i: int| None::<Writer>),
                    generation: 0,
                    dirty: Seq::empty(),
                }),
            },
    {
        if allocations == 0 || allocations > u32::MAX as usize || pending == 0 || writers == 0 {
            return Err(Error::Invalid);
        }
        let mut a: Vec<Allocation> = Vec::new();
        let mut links: Vec<Links> = Vec::new();
        let mut next: Vec<usize> = Vec::new();
        let mut dirty: Vec<u32> = Vec::new();
        if a.try_reserve(allocations).is_err() || links.try_reserve(allocations).is_err()
            || dirty.try_reserve(allocations).is_err() || next.try_reserve(pending).is_err() {
            return Err(Error::Capacity);
        }
        let p = empty_places::<Pending>(pending)?;
        let w = empty_places::<Writer>(writers)?;
        let mut i: usize = 0;
        while i < allocations
            invariant
                i <= allocations,
                a@ == Seq::new(i as nat, |i: int| empty_allocation()),
                links@ == Seq::new(
                    i as nat,
                    |i: int| Links { head: NONE, tail: NONE, dirty: false },
                ),
            decreases allocations - i,
        {
            a.push(
                Allocation {
                    id: 0,
                    bindings: 0,
                    snapshot: Snapshot { generation: 0, announced: 0, completed: 0, status: REMOVED },
                },
            );
            links.push(Links { head: NONE, tail: NONE, dirty: false });
            i = i + 1;
            assert(a@ =~= Seq::new(i as nat, |i: int| empty_allocation()));
            assert(links@ =~= Seq::new(
                i as nat,
                |i: int| Links { head: NONE, tail: NONE, dirty: false },
            ));
        }
        let mut j: usize = 0;
        while j < pending
            invariant
                j <= pending,
                next@.len() == j,
            decreases pending - j,
        {
            next.push(NONE);
            j = j + 1;
        }
        let t = Table {
            allocations: a,
            links,
            pending: p,
            next,
            writers: w,
            generation: 0,
            dirty,
        };
        proof {
            assert(t.dirty@ =~= Seq::empty());
            assert forall|j: int| 0 <= j < t.pending@.len() implies #[trigger] t.entry_ok(j) by {}
            assert forall|i: int| 0 <= i < t.allocations@.len() implies #[trigger] t.slot_ok(
                i,
                -1,
            ) by {}
        }
        Ok(t)
    }

    /// The key of the allocation `id`, if it is registered.
    pub fn find(&self, id: usize) -> (r: Option<Key>)
        requires
            self.wf(),
        ensures
            match r {
                Some(key) => id != 0 && exists|k: int| #[trigger]
                    has_id(self@, k, id) && key == slot_key(self@, k),
                None => id == 0 || lacks_id(self@, id),
            },
    {
        if id == 0 {
            return None;
        }
        let mut i: usize = 0;
        while i < self.allocations.len()
            invariant
                self.wf(),
                id != 0,
                i <= self.allocations@.len(),
                forall|j: int| 0 <= j < i ==> !#[trigger] has_id(self@, j, id),
            decreases self.allocations@.len() - i,
        {
            if self.allocations[i].id == id {
                assert(has_id(self@, i as int, id));
                return Some(
                    Key { slot: i as u32, generation: self.allocations[i].snapshot.generation },
                );
            }
            i = i + 1;
        }
        None
    }

    /// Registers an allocation under a generation of its own, in the first vacant
    /// slot.
    pub fn register(&mut self, id: usize) -> (r: Result<Key, Error>)
        requires
            old(self).wf(),
        ensures
            final(self).wf(),
            match r {
                Ok(key) => id != 0 && lacks_id(old(self)@, id) && old(self)@.generation < u64::MAX
                    && exists|k: int| #[trigger]
                    first_vacant(old(self)@, k) && final(self)@ == registered(old(self)@, k, id)
                        && key == slot_key(final(self)@, k),
                Err(e) => final(self)@ == old(self)@ && if id == 0 || !lacks_id(old(self)@, id) {
                    e == Error::Invalid
                } else {
                    e == Error::Capacity && (old(self)@.generation == u64::MAX || forall|k: int|
                        !#[trigger] is_vacant(old(self)@, k))
                },
            },
    {
        if id == 0 || self.find(id).is_some() {
            return Err(Error::Invalid);
        }
        let mut slot: usize = 0;
        while slot < self.allocations.len() && !(self.allocations[slot].id == 0
            && self.allocations[slot].bindings == 0)
            invariant
                slot <= self.allocations@.len(),
                forall|j: int| 0 <= j < slot ==> !#[trigger] is_vacant(self@, j),
            decreases self.allocations@.len() - slot,
        {
            slot = slot + 1;
        }
        if slot >= self.allocations.len() || self.generation == u64::MAX {
            return Err(Error::Capacity);
        }
        let ghost before = *self;
        assert(first_vacant(self@, slot as int));
        assert(self.slot_ok(slot as int, -1));
        let generation: u64 = self.generation + 1;
        self.generation = generation;
        self.allocations[slot] = Allocation {
            id,
            bindings: 0,
            snapshot: Snapshot { generation, announced: 0, completed: 0, status: LIVE },
        };
        proof {
            assert forall|j: int| 0 <= j < self.pending@.len() implies #[trigger] self.entry_ok(
                j,
            ) by {
                assert(before.entry_ok(j));
            }
            assert forall|i: int| 0 <= i < self.allocations@.len() implies #[trigger] self.slot_ok(
                i,
                -1,
            ) by {
                assert(before.slot_ok(i, -1));
                assert(i != slot ==> slot_key(self@, i) == slot_key(before@, i));
            }
            assert forall|i: int, j: int, n: usize|
                n != 0 && #[trigger] has_id(self@, i, n) && #[trigger] has_id(
                    self@,
                    j,
                    n,
                ) implies i == j by {
                assert(i != slot ==> has_id(before@, i, n));
                assert(j != slot ==> has_id(before@, j, n));
            }
        }
        self.mark_changed(slot, Ghost(-1));
        Ok(Key { slot: slot as u32, generation })
    }

    /// What is known of the allocation.
    pub fn snapshot(&self, key: Key) -> (r: Result<Snapshot, Error>)
        ensures
            match r {
                Ok(s) => is_current(self@, key) && s
                    == self@.allocations[key.slot as int].snapshot,
                Err(e) => !is_current(self@, key) && e == Error::Invalid,
            },
    {
        let slot: usize = key.slot as usize;
        if slot >= self.allocations.len() {
            return Err(Error::Invalid);
        }
        let s = self.allocations[slot].snapshot;
        if key.generation == 0 || s.generation != key.generation {
            return Err(Error::Invalid);
        }
        Ok(s)
    }

    fn set_bindings(&mut self, slot: usize, bindings: u32)
        requires
            old(self).wf(),
            slot < old(self).allocations@.len(),
        ensures
            final(self).wf(),
            final(self)@ == with_bindings(old(self)@, slot as int, bindings as int),
    {
        let ghost before = *self;
        let mut a = self.allocations[slot];
        a.bindings = bindings;
        self.allocations[slot] = a;
        proof {
            lemma_same_chains(before, *self);
        }
    }

    /// Binds a live allocation once more.
    pub fn retain(&mut self, key: Key) -> (r: Result<(), Error>)
        requires
            old(self).wf(),
        ensures
            final(self).wf(),
            ({
                let v = old(self)@;
                let a = v.allocations[key.slot as int];
                match r {
                    Ok(_) => is_current(v, key) && a.snapshot.status == LIVE && a.bindings
                        < u32::MAX && final(self)@ == with_bindings(
                        v,
                        key.slot as int,
                        a.bindings + 1,
                    ),
                    Err(e) => final(self)@ == v && if !is_current(v, key) {
                        e == Error::Invalid
                    } else if a.snapshot.status != LIVE {
                        e == Error::Terminal(a.snapshot.status)
                    } else {
                        e == Error::Capacity && a.bindings == u32::MAX
                    },
                }
            }),
    {
        let s = self.snapshot(key)?;
        if s.status != LIVE {
            return Err(Error::Terminal(s.status));
        }
        let bindings: u32 = self.allocations[key.slot as usize].bindings;
        if bindings == u32::MAX {
            return Err(Error::Capacity);
        }
        self.set_bindings(key.slot as usize, bindings + 1);
        Ok(())
    }

    /// Gives back one binding.
    pub fn release(&mut self, key: Key) -> (r: Result<(), Error>)
        requires
            old(self).wf(),
        ensures
            final(self).wf(),
            ({
                let v = old(self)@;
                let a = v.allocations[key.slot as int];
                match r {
                    Ok(_) => is_current(v, key) && a.bindings > 0 && final(self)@ == with_bindings(
                        v,
                        key.slot as int,
                        a.bindings - 1,
                    ),
                    Err(e) => final(self)@ == v && e == Error::Invalid && (!is_current(v, key)
                        || a.bindings == 0),
                }
            }),
    {
        let _ = self.snapshot(key)?;
        let bindings: u32 = self.allocations[key.slot as usize].bindings;
        if bindings == 0 {
            return Err(Error::Invalid);
        }
        self.set_bindings(key.slot as usize, bindings - 1);
        Ok(())
    }

    /// Whether `epoch` is complete. That an allocation has ended takes precedence,
    /// even over an epoch that was complete before.
    pub fn predicate(&self, key: Key, epoch: u64) -> (r: Result<Predicate, Error>)
        ensures
            r == predicate_of(self@, key, epoch),
    {
        let s = self.snapshot(key)?;
        if epoch > s.announced {
            return Err(Error::Invalid);
        }
        if s.status != LIVE {
            return Ok(Predicate::Terminal(s.status));
        }
        if s.completed >= epoch {
            Ok(Predicate::Ready)
        } else {
            Ok(Predicate::Pending)
        }
    }

    pub fn slots(&self) -> (n: usize)
        ensures
            n == self@.allocations.len(),
    {
        self.allocations.len()
    }

    pub fn slot_snapshot(&self, slot: usize) -> (r: Option<Snapshot>)
        ensures
            r == (if slot < self@.allocations.len() {
                Some(self@.allocations[slot as int].snapshot)
            } else {
                None
            }),
    {
        if slot < self.allocations.len() {
            Some(self.allocations[slot].snapshot)
        } else {
            None
        }
    }

    /// Takes the slot that was put on the list of changed slots last.
    pub fn take_changed(&mut self) -> (r: Option<(u32, Snapshot)>)
        requires
            old(self).wf(),
        ensures
            final(self).wf(),
            ({
                let v = old(self)@;
                if v.dirty.len() == 0 {
                    r is None && final(self)@ == v
                } else {
                    r == Some((v.dirty.last(), v.allocations[v.dirty.last() as int].snapshot))
                        && final(self)@ == (Ledger { dirty: v.dirty.drop_last(), ..v })
                }
            }),
    {
        let ghost before = *self;
        match self.dirty.pop() {
            None => {
                proof {
                    lemma_same_chains(before, *self);
                }
                None
            },
            Some(slot) => {
                assert(before.dirty@[before.dirty@.len() - 1] == slot);
                let mut l = self.links[slot as usize];
                l.dirty = false;
                self.links[slot as usize] = l;
                proof {
                    assert(self.dirty@ == before.dirty@.drop_last());
                    assert forall|i: u32|
                        self.dirty@.contains(i) <==> (before.dirty@.contains(i) && i != slot) by {
                        if before.dirty@.contains(i) && i != slot {
                            let k = choose|k: int|
                                0 <= k < before.dirty@.len() && before.dirty@[k] == i;
                            assert(self.dirty@[k] == i);
                        }
                        if self.dirty@.contains(i) {
                            let k = choose|k: int| 0 <= k < self.dirty@.len() && self.dirty@[k] == i;
                            assert(before.dirty@[k] == i);
                        }
                    }
                    assert forall|j: int|
                        0 <= j < self.pending@.len() implies #[trigger] self.entry_ok(j) by {
                        assert(before.entry_ok(j));
                    }
                    assert forall|i: int|
                        0 <= i < self.allocations@.len() implies #[trigger] self.slot_ok(i, -1) by {
                        assert(before.slot_ok(i, -1));
                    }
                    assert forall|i: int, j: int, n: usize|
                        n != 0 && #[trigger] has_id(self@, i, n) && #[trigger] has_id(
                            self@,
                            j,
                            n,
                        ) implies i == j by {
                        assert(has_id(before@, i, n) && has_id(before@, j, n));
                    }
                }
                Some((slot, self.allocations[slot as usize].snapshot))
            },
        }
    }
}

/// A table in which only the bindings or the writers differ has the same chains.
proof fn lemma_same_chains(before: Table, after: Table)
    requires
        before.wf(),
        one_writer_each(after.writers@),
        after.links@ == before.links@,
        after.pending@ == before.pending@,
        after.next@ == before.next@,
        after.dirty@ == before.dirty@,
        after.generation == before.generation,
        after.allocations@.len() == before.allocations@.len(),
        forall|i: int|
            0 <= i < before.allocations@.len() ==> (#[trigger] after.allocations@[i]).snapshot
                == before.allocations@[i].snapshot && (after.allocations@[i].id
                == before.allocations@[i].id || (after.allocations@[i].id == 0
                && before.allocations@[i].snapshot.status != LIVE)),
    ensures
        after.wf(),
{
    assert forall|j: int| 0 <= j < after.pending@.len() implies #[trigger] after.entry_ok(j) by {
        assert(before.entry_ok(j));
    }
    assert forall|i: int| 0 <= i < after.allocations@.len() implies #[trigger] after.slot_ok(
        i,
        -1,
    ) by {
        assert(before.slot_ok(i, -1));
        assert(after.allocations@[i].snapshot == before.allocations@[i].snapshot);
        assert(slot_key(after@, i) == slot_key(before@, i));
    }
    assert forall|i: int, j: int, n: usize|
        n != 0 && #[trigger] has_id(after@, i, n) && #[trigger] has_id(after@, j, n) implies i
        == j by {
        assert(has_id(before@, i, n) && has_id(before@, j, n));
    }
}

impl Table {
    /// Announces the next epoch of an allocation, which is complete once the
    /// operation `value` of `stream` and every earlier epoch are done. `stream` is a
    /// registration that no other incarnation shares; `already_complete` says that
    /// the operation was seen to retire before this announcement. A refused
    /// publication changes nothing.
    pub fn publish(
        &mut self,
        key: Key,
        stream: u64,
        value: u32,
        already_complete: bool,
    ) -> (r: Result<u64, Error>)
        requires
            old(self).wf(),
        ensures
            final(self).wf(),
            match publish_refusal(old(self)@, key, stream, value) {
                Some(e) => r == Err::<u64, Error>(e) && final(self)@ == old(self)@,
                None => r == Ok::<u64, Error>(
                    (old(self)@.allocations[key.slot as int].snapshot.announced + 1) as u64,
                ) && exists|writer: int, place: int| #[trigger]
                    writer_for(old(self)@, writer, key, stream) && #[trigger] first_free(
                        old(self)@.pool,
                        place,
                    ) && final(self)@ == published(
                        old(self)@,
                        key,
                        stream,
                        value,
                        already_complete,
                        writer,
                        place,
                    ),
            },
    {
        let ghost v = self@;
        let s = self.snapshot(key)?;
        if s.status != LIVE {
            return Err(Error::Terminal(s.status));
        }
        if stream == 0 || value == 0 {
            return Err(Error::Invalid);
        }
        let writer: usize = match self.find_writer(key, stream) {
            Some(i) => {
                let last: u32 = match self.writers[i] {
                    Some(w) => w.value,
                    None => 0,
                };
                if value <= last {
                    assert(is_stale(v, key, stream, value)) by {
                        assert(writes_at(v.writers, i as int, key, stream));
                    }
                    return Err(Error::Invalid);
                }
                assert(!is_stale(v, key, stream, value)) by {
                    assert(writes_at(v.writers, i as int, key, stream));
                }
                i
            },
            None => {
                match find_free(&self.writers) {
                    Some(i) => i,
                    None => {
                        return Err(Error::Capacity);
                    },
                }
            },
        };
        assert(writer_for(v, writer as int, key, stream));
        assert(!is_stale(v, key, stream, value));
        assert(!no_writer(v, key, stream));
        let place: usize = match find_free(&self.pending) {
            Some(i) => i,
            None => {
                return Err(Error::Capacity);
            },
        };
        assert(!is_full(v.pool)) by {
            assert(v.pool[place as int] is None);
        }
        if s.announced == u64::MAX {
            return Err(Error::Capacity);
        }
        let epoch: u64 = s.announced + 1;
        let ghost before = *self;
        self.writers[writer] = Some(Writer { key, stream, value });
        proof {
            assert forall|j: int, e: Key, n: u64| #[trigger]
                writes_at(self.writers@, j, e, n) implies (j == writer && e == key && n == stream)
                || (j != writer && writes_at(v.writers, j, e, n) && !(e == key && n == stream)) by {
                if j != writer {
                    assert(writes_at(v.writers, j, e, n));
                }
            }
            lemma_same_chains(before, *self);
        }
        self.enter(key, Pending { key, epoch, stream, value, done: already_complete }, place);
        self.advance(key.slot as usize);
        Ok(epoch)
    }

    fn find_writer(&self, key: Key, stream: u64) -> (r: Option<usize>)
        requires
            self.wf(),
        ensures
            match r {
                Some(k) => writes_at(self@.writers, k as int, key, stream) && forall|i: int|
                    0 <= i < k ==> !#[trigger] writes_at(self@.writers, i, key, stream),
                None => forall|i: int| !#[trigger] writes_at(self@.writers, i, key, stream),
            },
    {
        let mut i: usize = 0;
        while i < self.writers.len()
            invariant
                i <= self.writers@.len(),
                forall|j: int| 0 <= j < i ==> !#[trigger] writes_at(self@.writers, j, key, stream),
            decreases self.writers@.len() - i,
        {
            if let Some(w) = self.writers[i] {
                if w.key == key && w.stream == stream {
                    assert(writes_at(self@.writers, i as int, key, stream));
                    return Some(i);
                }
            }
            i = i + 1;
        }
        None
    }

    /// Chains a new epoch behind the newest one of its allocation.
    fn enter(&mut self, key: Key, entry: Pending, place: usize)
        requires
            old(self).wf(),
            is_current(old(self)@, key),
            ({
                let s = old(self).allocations@[key.slot as int].snapshot;
                s.status == LIVE && entry.key == key && entry.epoch == s.announced + 1
            }),
            place < old(self).pending@.len(),
            old(self).pending@[place as int] is None,
        ensures
            final(self).wf_but(key.slot as int),
            final(self).allocations@.len() == old(self).allocations@.len(),
            ({
                let v = old(self)@;
                let s = v.allocations[key.slot as int].snapshot;
                final(self)@ == (Ledger {
                    pool: v.pool.update(place as int, Some(entry)),
                    ..with_snapshot(
                        v,
                        key.slot as int,
                        Snapshot { announced: entry.epoch, ..s },
                    )
                })
            }),
    {
        let ghost before = *self;
        let slot: usize = key.slot as usize;
        let ghost s = self.allocations@[slot as int].snapshot;
        assert(self.slot_ok(slot as int, -1));
        assert(slot_key(self@, slot as int) == key);
        self.pending[place] = Some(entry);
        self.next[place] = NONE;
        let mut l = self.links[slot];
        if l.tail == NONE {
            l.head = place;
        } else {
            self.next[l.tail] = place;
        }
        l.tail = place;
        self.links[slot] = l;
        let mut a = self.allocations[slot];
        a.snapshot.announced = entry.epoch;
        self.allocations[slot] = a;
        proof {
            assert forall|j: int, e: Key, n: int| #[trigger]
                held_at(self.pending@, j, e, n) <==> ((j == place && e == key && n == entry.epoch)
                || (j != place && held_at(before.pending@, j, e, n))) by {}
            assert forall|j: int, n: int| #[trigger] held_at(before.pending@, j, key, n) implies n
                <= s.announced by {
                assert(before.entry_ok(j));
            }
            assert forall|j: int| 0 <= j < self.pending@.len() implies #[trigger] self.entry_ok(
                j,
            ) by {
                assert(before.entry_ok(j));
                if j != place {
                    if let Some(q) = self.pending@[j] {
                        assert(before.pending@[j] == Some(q));
                        assert(held_at(before.pending@, j, q.key, q.epoch as int));
                        let sq = before.allocations@[q.key.slot as int].snapshot;
                        assert(slot_key(before@, q.key.slot as int) == q.key);
                        assert(before.slot_ok(q.key.slot as int, -1));
                        if q.epoch < sq.announced {
                            let m = before.next@[j] as int;
                            assert(held_at(before.pending@, m, q.key, q.epoch + 1));
                            assert(held_at(self.pending@, m, q.key, q.epoch + 1));
                            if q.key.slot == slot {
                                assert(held_at(
                                    before.pending@,
                                    before.links@[slot as int].tail as int,
                                    key,
                                    s.announced as int,
                                ));
                                assert(before.links@[slot as int].tail != j);
                            } else {
                                if s.completed < s.announced {
                                    assert(held_at(
                                        before.pending@,
                                        before.links@[slot as int].tail as int,
                                        key,
                                        s.announced as int,
                                    ));
                                    assert(before.links@[slot as int].tail != j);
                                }
                            }
                            assert(self.next@[j] == before.next@[j]);
                        } else {
                            if q.key.slot == slot {
                                assert(before.links@[slot as int].tail == j);
                                assert(self.next@[j] == place);
                                assert(held_at(self.pending@, place as int, key, entry.epoch as int));
                            } else {
                                if s.completed < s.announced {
                                    assert(held_at(
                                        before.pending@,
                                        before.links@[slot as int].tail as int,
                                        key,
                                        s.announced as int,
                                    ));
                                    assert(before.links@[slot as int].tail != j);
                                }
                            }
                        }
                    }
                }
            }
            assert forall|i: int| 0 <= i < self.allocations@.len() implies #[trigger] self.slot_ok(
                i,
                slot as int,
            ) by {
                assert(before.slot_ok(i, -1));
                assert(slot_key(self@, i) == slot_key(before@, i));
                let si = before.allocations@[i].snapshot;
                let li = before.links@[i];
                if si.status == LIVE && si.completed < si.announced {
                    assert(held_at(before.pending@, li.head as int, slot_key(before@, i), si.completed + 1));
                    assert(held_at(before.pending@, li.tail as int, slot_key(before@, i), si.announced as int));
                    assert(held_at(self.pending@, li.head as int, slot_key(before@, i), si.completed + 1));
                    assert(held_at(self.pending@, li.tail as int, slot_key(before@, i), si.announced as int));
                }
                if i == slot {
                    assert(held_at(self.pending@, place as int, key, entry.epoch as int));
                }
            }
            assert forall|i: int, j: int, n: usize|
                n != 0 && #[trigger] has_id(self@, i, n) && #[trigger] has_id(
                    self@,
                    j,
                    n,
                ) implies i == j by {
                assert(has_id(before@, i, n) && has_id(before@, j, n));
            }
            assert(one_place_each(self.pending@));
            assert(self@ =~= (Ledger {
                pool: before@.pool.update(place as int, Some(entry)),
                ..with_snapshot(before@, slot as int, Snapshot { announced: entry.epoch, ..s })
            }));
        }
    }

    /// Finishes exactly the operation `value` of `stream`, wherever it was
    /// published. A later epoch proves nothing about an earlier one.
    pub fn complete(&mut self, stream: u64, value: u32)
        requires
            old(self).wf(),
        ensures
            final(self).wf(),
            final(self)@ == completed_from(old(self)@, stream, value, 0),
    {
        let n: usize = self.pending.len();
        let mut i: usize = 0;
        while i < n
            invariant
                self.wf(),
                i <= n == self@.pool.len(),
                completed_from(self@, stream, value, i as int) == completed_from(
                    old(self)@,
                    stream,
                    value,
                    0,
                ),
            decreases n - i,
        {
            if let Some(p) = self.pending[i] {
                if p.stream == stream && p.value == value {
                    let ghost before = *self;
                    assert(self.entry_ok(i as int));
                    self.pending[i] = Some(
                        Pending {
                            key: p.key,
                            epoch: p.epoch,
                            stream: p.stream,
                            value: p.value,
                            done: true,
                        },
                    );
                    proof {
                        assert forall|j: int, e: Key, n: int| #[trigger]
                            held_at(self.pending@, j, e, n) <==> held_at(
                            before.pending@,
                            j,
                            e,
                            n,
                        ) by {}
                        assert forall|j: int|
                            0 <= j < self.pending@.len() implies #[trigger] self.entry_ok(j) by {
                            assert(before.entry_ok(j));
                        }
                        assert forall|k: int|
                            0 <= k < self.allocations@.len() implies #[trigger] self.slot_ok(
                            k,
                            p.key.slot as int,
                        ) by {
                            assert(before.slot_ok(k, -1));
                            assert(slot_key(self@, k) == slot_key(before@, k));
                            assert(held_at(
                                before.pending@,
                                before.links@[k].head as int,
                                slot_key(before@, k),
                                before.allocations@[k].snapshot.completed + 1,
                            ) && k != p.key.slot ==> before.links@[k].head != i);
                        }
                        assert forall|a: int, b: int, id: usize|
                            id != 0 && #[trigger] has_id(self@, a, id) && #[trigger] has_id(
                                self@,
                                b,
                                id,
                            ) implies a == b by {
                            assert(has_id(before@, a, id) && has_id(before@, b, id));
                        }
                        assert(one_place_each(self.pending@));
                        lemma_settled_frame(self@, p.key.slot as int);
                    }
                    self.advance(p.key.slot as usize);
                    assert(self@ == finished(before@, i as int));
                }
            }
            i = i + 1;
        }
    }
}

impl Table {
    /// Like `wf`, but the epochs of allocations that have ended may still be held.
    spec fn wf_ending(self) -> bool {
        &&& self.lists_ok()
        &&& forall|j: int| 0 <= j < self.pending@.len() ==> #[trigger] self.entry_ending(j)
        &&& forall|i: int| 0 <= i < self.allocations@.len() ==> #[trigger] self.slot_ok(i, -1)
    }

    spec fn entry_ending(self, j: int) -> bool {
        self.pending@[j] matches Some(p) ==> {
            let s = self.allocations@[p.key.slot as int].snapshot;
            &&& p.key.slot < self.allocations@.len()
            &&& s.generation == p.key.generation
            &&& s.status == LIVE ==> self.entry_ok(j)
        }
    }

    /// Once the epochs of ended allocations are dropped, the table is whole again.
    proof fn lemma_swept(before: Table, after: Table)
        requires
            before.wf_ending(),
            one_writer_each(after.writers@),
            after.links@ == before.links@,
            after.next@ == before.next@,
            after.dirty@ == before.dirty@,
            after.generation == before.generation,
            after.allocations@ == before.allocations@,
            after.pending@ == live_only(before@),
        ensures
            after.wf(),
    {
        assert forall|j: int, e: Key, n: int|
            #![trigger held_at(after.pending@, j, e, n)]
            #![trigger held_at(before.pending@, j, e, n)]
            held_at(after.pending@, j, e, n) <==> (held_at(before.pending@, j, e, n)
                && before.allocations@[e.slot as int].snapshot.status == LIVE) by {}
        assert forall|j: int| 0 <= j < after.pending@.len() implies #[trigger] after.entry_ok(j) by {
            assert(before.entry_ending(j));
            assert(after.pending@[j] is Some ==> before.entry_ok(j));
        }
        assert forall|i: int| 0 <= i < after.allocations@.len() implies #[trigger] after.slot_ok(
            i,
            -1,
        ) by {
            assert(before.slot_ok(i, -1));
            assert(slot_key(after@, i) == slot_key(before@, i));
        }
        assert forall|i: int, j: int, n: usize|
            n != 0 && #[trigger] has_id(after@, i, n) && #[trigger] has_id(after@, j, n) implies i
            == j by {
            assert(has_id(before@, i, n) && has_id(before@, j, n));
        }
        assert(one_place_each(after.pending@));
    }

    proof fn lemma_ending(self)
        requires
            self.wf(),
        ensures
            self.wf_ending(),
    {
        assert forall|j: int| 0 <= j < self.pending@.len() implies #[trigger] self.entry_ending(
            j,
        ) by {
            assert(self.entry_ok(j));
        }
    }

    /// Ends the allocation of a slot. Its epochs are still held.
    fn end_slot(&mut self, slot: usize, status: u32)
        requires
            old(self).wf_ending(),
            slot < old(self).allocations@.len(),
            status != LIVE,
        ensures
            final(self).wf_ending(),
            final(self)@ == marked(old(self)@, slot as int, status),
            final(self).pending@ == old(self).pending@,
            final(self).writers@ == old(self).writers@,
            final(self).allocations@.len() == old(self).allocations@.len(),
    {
        let ghost before = *self;
        let mut a = self.allocations[slot];
        if a.snapshot.status == LIVE {
            a.snapshot.status = status;
        }
        self.allocations[slot] = a;
        let mut l = self.links[slot];
        l.head = NONE;
        l.tail = NONE;
        self.links[slot] = l;
        proof {
            assert forall|i: int| 0 <= i < self.links@.len() implies (#[trigger] self.links@[i].dirty
                <==> self.dirty@.contains(i as u32)) by {
                assert(before.slot_ok(i, -1));
            }
            assert forall|i: int, j: int, n: usize|
                n != 0 && #[trigger] has_id(self@, i, n) && #[trigger] has_id(
                    self@,
                    j,
                    n,
                ) implies i == j by {
                assert(has_id(before@, i, n) && has_id(before@, j, n));
            }
        }
        let ghost middle = *self;
        self.note_changed(slot);
        proof {
            assert(middle@ =~= with_snapshot(
                before@,
                slot as int,
                ended(before@.allocations[slot as int].snapshot, status),
            ));
            assert forall|j: int| 0 <= j < self.pending@.len() implies #[trigger] self.entry_ending(
                j,
            ) by {
                assert(before.entry_ending(j));
            }
            assert forall|i: int| 0 <= i < self.allocations@.len() implies #[trigger] self.slot_ok(
                i,
                -1,
            ) by {
                assert(before.slot_ok(i, -1));
                assert(slot_key(self@, i) == slot_key(before@, i));
                assert(self.links@[i].head == middle.links@[i].head);
                assert(self.links@[i].dirty <==> self.dirty@.contains(i as u32));
            }
        }
    }

    /// The stream is lost: every allocation with an unfinished epoch on it ends
    /// with `status`, and the stream's writers are forgotten.
    pub fn fail_stream(&mut self, stream: u64, status: u32)
        requires
            old(self).wf(),
        ensures
            final(self).wf(),
            final(self)@ == stream_failed(old(self)@, stream, status),
    {
        if status == LIVE {
            return ;
        }
        proof {
            self.lemma_ending();
        }
        let ghost v = self@;
        let n: usize = self.pending.len();
        let mut i: usize = 0;
        while i < n
            invariant
                self.wf_ending(),
                status != LIVE,
                i <= n == self.pending@.len(),
                self.pending@ == v.pool,
                self.writers@ == v.writers,
                self@ == stream_marked(v, stream, status, i as int),
            decreases n - i,
        {
            if let Some(p) = self.pending[i] {
                assert(self.entry_ending(i as int));
                if p.stream == stream {
                    self.end_slot(p.key.slot as usize, status);
                }
            }
            i = i + 1;
        }
        let ghost m = *self;
        let mut j: usize = 0;
        while j < n
            invariant
                m.wf_ending(),
                j <= n == self.pending@.len(),
                self.pending@.len() == m.pending@.len(),
                self.allocations@ == m.allocations@,
                self.links@ == m.links@,
                self.next@ == m.next@,
                self.dirty@ == m.dirty@,
                self.generation == m.generation,
                self.writers@ == m.writers@,
                forall|k: int| 0 <= k < j ==> #[trigger] self.pending@[k] == live_only(m@)[k],
                forall|k: int| j <= k < n ==> #[trigger] self.pending@[k] == m.pending@[k],
            decreases n - j,
        {
            if let Some(p) = self.pending[j] {
                assert(m.entry_ending(j as int));
                if self.allocations[p.key.slot as usize].snapshot.status != LIVE {
                    self.pending[j] = None;
                }
            }
            j = j + 1;
        }
        assert(self.pending@ =~= live_only(m@));
        let ghost w = self.writers@;
        let nw: usize = self.writers.len();
        let mut k: usize = 0;
        while k < nw
            invariant
                k <= nw == self.writers@.len() == w.len(),
                self.allocations@ == m.allocations@,
                self.links@ == m.links@,
                self.next@ == m.next@,
                self.dirty@ == m.dirty@,
                self.generation == m.generation,
                self.pending@ == live_only(m@),
                forall|a: int| 0 <= a < k ==> #[trigger] self.writers@[a] == without_stream(w, stream)[a],
                forall|a: int| k <= a < nw ==> #[trigger] self.writers@[a] == w[a],
            decreases nw - k,
        {
            if let Some(x) = self.writers[k] {
                if x.stream == stream {
                    self.writers[k] = None;
                }
            }
            k = k + 1;
        }
        proof {
            assert(self.writers@ =~= without_stream(w, stream));
            assert forall|j: int, e: Key, n: u64| #[trigger]
                writes_at(self.writers@, j, e, n) implies writes_at(w, j, e, n) by {}
            Table::lemma_swept(m, *self);
        }
    }

    /// Ends one allocation. A failure never makes an epoch complete.
    pub fn terminal(&mut self, key: Key, status: u32)
        requires
            old(self).wf(),
        ensures
            final(self).wf(),
            final(self)@ == terminated(old(self)@, key, status),
    {
        if self.snapshot(key).is_err() || status == LIVE {
            return ;
        }
        let ghost start = *self;
        proof {
            self.lemma_ending();
        }
        self.end_slot(key.slot as usize, status);
        let ghost m = *self;
        let n: usize = self.pending.len();
        let mut j: usize = 0;
        while j < n
            invariant
                j <= n == self.pending@.len() == m.pending@.len(),
                self.allocations@ == m.allocations@,
                self.links@ == m.links@,
                self.next@ == m.next@,
                self.dirty@ == m.dirty@,
                self.generation == m.generation,
                self.writers@ == m.writers@,
                forall|k: int|
                    0 <= k < j ==> #[trigger] self.pending@[k] == without_key(m.pending@, key)[k],
                forall|k: int| j <= k < n ==> #[trigger] self.pending@[k] == m.pending@[k],
            decreases n - j,
        {
            if let Some(p) = self.pending[j] {
                if p.key == key {
                    self.pending[j] = None;
                }
            }
            j = j + 1;
        }
        proof {
            assert(self.pending@ =~= without_key(m.pending@, key));
            assert forall|k: int| 0 <= k < n implies without_key(m.pending@, key)[k] == live_only(
                m@,
            )[k] by {
                assert(m.entry_ending(k));
                assert(start.entry_ok(k));
            }
            assert(self.pending@ =~= live_only(m@));
            Table::lemma_swept(m, *self);
        }
    }

    /// Forgets an allocation that is destroyed. Its slot is vacant once every
    /// binding was given back.
    pub fn remove(&mut self, key: Key)
        requires
            old(self).wf(),
        ensures
            final(self).wf(),
            final(self)@ == removed(old(self)@, key),
    {
        if self.snapshot(key).is_err() {
            return ;
        }
        self.terminal(key, REMOVED);
        let ghost m = *self;
        let mut a = self.allocations[key.slot as usize];
        a.id = 0;
        self.allocations[key.slot as usize] = a;
        let ghost cleared = self.allocations@;
        let nw: usize = self.writers.len();
        let mut k: usize = 0;
        while k < nw
            invariant
                k <= nw == self.writers@.len() == m.writers@.len(),
                self.allocations@ == cleared,
                self.links@ == m.links@,
                self.next@ == m.next@,
                self.dirty@ == m.dirty@,
                self.generation == m.generation,
                self.pending@ == m.pending@,
                forall|a: int|
                    0 <= a < k ==> #[trigger] self.writers@[a] == without_writer_key(
                        m.writers@,
                        key,
                    )[a],
                forall|a: int| k <= a < nw ==> #[trigger] self.writers@[a] == m.writers@[a],
            decreases nw - k,
        {
            if let Some(x) = self.writers[k] {
                if x.key == key {
                    self.writers[k] = None;
                }
            }
            k = k + 1;
        }
        proof {
            assert(self.writers@ =~= without_writer_key(m.writers@, key));
            assert forall|j: int, e: Key, n: u64| #[trigger]
                writes_at(self.writers@, j, e, n) implies writes_at(m.writers@, j, e, n) by {}
            lemma_same_chains(m, *self);
        }
    }

    /// Ends every allocation, and forgets every unfinished epoch and every writer.
    pub fn reset(&mut self)
        requires
            old(self).wf(),
        ensures
            final(self).wf(),
            final(self)@ == was_reset(old(self)@),
    {
        let ghost v = self@;
        proof {
            self.lemma_ending();
        }
        let n: usize = self.allocations.len();
        let mut i: usize = 0;
        while i < n
            invariant
                self.wf_ending(),
                i <= n == self.allocations@.len() == v.allocations.len(),
                self.pending@ == v.pool,
                self.writers@ == v.writers,
                self@ == slots_ended(v, i as int),
                forall|k: int| #![trigger self.allocations@[k]]
                    0 <= k < n ==> self.allocations@[k].id == v.allocations[k].id,
                forall|k: int| #![trigger self.allocations@[k]]
                    0 <= k < i ==> self.allocations@[k].snapshot.status != LIVE,
            decreases n - i,
        {
            assert(self.slot_ok(i as int, -1));
            if self.allocations[i].id != 0 {
                self.end_slot(i, REMOVED);
            }
            i = i + 1;
        }
        let ghost m = *self;
        let np: usize = self.pending.len();
        let mut j: usize = 0;
        while j < np
            invariant
                j <= np == self.pending@.len() == m.pending@.len(),
                self.allocations@ == m.allocations@,
                self.links@ == m.links@,
                self.next@ == m.next@,
                self.dirty@ == m.dirty@,
                self.generation == m.generation,
                self.writers@ == m.writers@,
                forall|k: int| 0 <= k < j ==> (#[trigger] self.pending@[k]) is None,
            decreases np - j,
        {
            self.pending[j] = None;
            j = j + 1;
        }
        let nw: usize = self.writers.len();
        let mut k: usize = 0;
        while k < nw
            invariant
                k <= nw == self.writers@.len() == m.writers@.len(),
                self.allocations@ == m.allocations@,
                self.links@ == m.links@,
                self.next@ == m.next@,
                self.dirty@ == m.dirty@,
                self.generation == m.generation,
                self.pending@.len() == m.pending@.len(),
                forall|a: int| 0 <= a < self.pending@.len() ==> (#[trigger] self.pending@[a]) is None,
                forall|a: int| 0 <= a < k ==> (#[trigger] self.writers@[a]) is None,
            decreases nw - k,
        {
            self.writers[k] = None;
            k = k + 1;
        }
        proof {
            assert forall|k: int| 0 <= k < np implies live_only(m@)[k] is None by {
                assert(m.entry_ending(k));
            }
            assert(self.pending@ =~= live_only(m@));
            assert(self.pending@ =~= Seq::new(v.pool.len(), |i: int| None::<Pending>));
            assert(self.writers@ =~= Seq::new(v.writers.len(), |i: int| None::<Writer>));
            Table::lemma_swept(m, *self);
        }
    }
}

/// An event that is referenced until an epoch is complete, or until it is
/// cancelled.
#[derive(Clone, Copy, Debug, PartialEq, Eq, Structural)]
pub struct Wait {
    pub binding: u64,
    pub owner: usize,
    pub key: Key,
    pub epoch: u64,
    pub event: usize,
}

/// The registered events of all owners.
pub struct Waiters {
    entries: Vec<Option<Wait>>,
}

impl View for Waiters {
    type V = Seq<Option<Wait>>;

    closed spec fn view(&self) -> Seq<Option<Wait>> {
        self.entries@
    }
}

/// The entry at `k` is this event of this owner.
pub open spec fn waits_at(s: Seq<Option<Wait>>, k: int, owner: usize, event: usize) -> bool {
    0 <= k < s.len() && (s[k] matches Some(w) && w.owner == owner && w.event == event)
}

/// The wait is over: it is cancelled by its owner, for one binding or for all, or
/// what it waits for is no longer pending.
pub open spec fn is_due(v: Ledger, w: Wait, owner: Option<usize>, binding: Option<u64>) -> bool {
    (owner == Some(w.owner) && (binding is None || binding == Some(w.binding))) || predicate_of(
        v,
        w.key,
        w.epoch,
    ) != Ok::<Predicate, Error>(Predicate::Pending)
}

/// The place `k` holds a wait that is over.
pub open spec fn due_at(
    s: Seq<Option<Wait>>,
    v: Ledger,
    owner: Option<usize>,
    binding: Option<u64>,
    k: int,
) -> bool {
    0 <= k < s.len() && (s[k] matches Some(w) && is_due(v, w, owner, binding))
}

/// `k` is the first place from `from` on that holds a wait that is over.
pub open spec fn first_due(
    s: Seq<Option<Wait>>,
    v: Ledger,
    owner: Option<usize>,
    binding: Option<u64>,
    from: int,
    k: int,
) -> bool {
    from <= k && due_at(s, v, owner, binding, k) && forall|i: int|
        from <= i < k ==> !#[trigger] due_at(s, v, owner, binding, i)
}

/// The waits from the place `from` on that are over, in order.
pub open spec fn due_waits(
    s: Seq<Option<Wait>>,
    v: Ledger,
    owner: Option<usize>,
    binding: Option<u64>,
    from: int,
) -> Seq<Wait>
    decreases s.len() - from,
{
    if from >= s.len() {
        Seq::empty()
    } else {
        let behind = due_waits(s, v, owner, binding, from + 1);
        if due_at(s, v, owner, binding, from) {
            seq![s[from]->0] + behind
        } else {
            behind
        }
    }
}

/// The entries without the waits that are over.
pub open spec fn still_waiting(
    s: Seq<Option<Wait>>,
    v: Ledger,
    owner: Option<usize>,
    binding: Option<u64>,
) -> Seq<Option<Wait>> {
    Seq::new(
        s.len(),
        |i: int|
            match s[i] {
                Some(w) if is_due(v, w, owner, binding) => None,
                other => other,
            },
    )
}

impl Waiters {
    /// No owner waits twice on one event.
    pub open spec fn wf(&self) -> bool {
        forall|i: int, j: int, owner: usize, event: usize| #[trigger]
            waits_at(self@, i, owner, event) && #[trigger] waits_at(self@, j, owner, event) ==> i
                == j
    }

    pub fn new(capacity: usize) -> (r: Result<Self, Error>)
        ensures
            match r {
                Ok(w) => w.wf() && w@ == Seq::new(capacity as nat, |i: int| None::<Wait>),
                Err(e) => e == Error::Capacity && capacity > 0,
            },
    {
        let entries = empty_places::<Wait>(capacity)?;
        Ok(Waiters { entries })
    }

    /// Registers an event if what it waits for is pending.
    pub fn register(&mut self, table: &Table, wait: Wait) -> (r: Result<Predicate, Error>)
        requires
            old(self).wf(),
        ensures
            final(self).wf(),
            ({
                let p = predicate_of(table@, wait.key, wait.epoch);
                let taken = exists|i: int| #[trigger]
                    waits_at(old(self)@, i, wait.owner, wait.event);
                if wait.event == 0 || wait.binding == 0 || wait.owner == 0 {
                    r == Err::<Predicate, Error>(Error::Invalid) && final(self)@ == old(self)@
                } else if p != Ok::<Predicate, Error>(Predicate::Pending) {
                    r == p && final(self)@ == old(self)@
                } else if taken {
                    r == Err::<Predicate, Error>(Error::Invalid) && final(self)@ == old(self)@
                } else if is_full(old(self)@) {
                    r == Err::<Predicate, Error>(Error::Capacity) && final(self)@ == old(self)@
                } else {
                    r == p && exists|k: int| #[trigger]
                        first_free(old(self)@, k) && final(self)@ == old(self)@.update(
                            k,
                            Some(wait),
                        )
                }
            }),
    {
        if wait.event == 0 || wait.binding == 0 || wait.owner == 0 {
            return Err(Error::Invalid);
        }
        let predicate = table.predicate(wait.key, wait.epoch)?;
        if predicate == Predicate::Pending {
            if self.find(wait.owner, wait.event).is_some() {
                return Err(Error::Invalid);
            }
            match find_free(&self.entries) {
                None => {
                    return Err(Error::Capacity);
                },
                Some(k) => {
                    let ghost before = self@;
                    assert(before[k as int] is None);
                    self.entries[k] = Some(wait);
                    assert forall|i: int, o: usize, e: usize| #[trigger]
                        waits_at(self@, i, o, e) implies (i == k && o == wait.owner && e
                        == wait.event) || waits_at(before, i, o, e) by {}
                },
            }
        }
        Ok(predicate)
    }

    fn find(&self, owner: usize, event: usize) -> (r: Option<usize>)
        ensures
            match r {
                Some(k) => waits_at(self@, k as int, owner, event),
                None => forall|i: int| !#[trigger] waits_at(self@, i, owner, event),
            },
    {
        let mut i: usize = 0;
        while i < self.entries.len()
            invariant
                i <= self.entries@.len(),
                forall|j: int| 0 <= j < i ==> !#[trigger] waits_at(self@, j, owner, event),
            decreases self.entries@.len() - i,
        {
            if let Some(w) = self.entries[i] {
                if w.owner == owner && w.event == event {
                    assert(waits_at(self@, i as int, owner, event));
                    return Some(i);
                }
            }
            i = i + 1;
        }
        None
    }

    /// Takes back the event of one binding.
    pub fn cancel(&mut self, owner: usize, binding: u64, event: usize) -> (r: Option<Wait>)
        requires
            old(self).wf(),
        ensures
            final(self).wf(),
            match r {
                Some(w) => w.binding == binding && exists|k: int| #[trigger]
                    waits_at(old(self)@, k, owner, event) && old(self)@[k] == Some(w)
                        && final(self)@ == old(self)@.update(k, None),
                None => final(self)@ == old(self)@ && forall|k: int| #[trigger]
                    waits_at(old(self)@, k, owner, event) ==> old(self)@[k]->0.binding != binding,
            },
    {
        match self.find(owner, event) {
            None => None,
            Some(k) => {
                assert(waits_at(self@, k as int, owner, event));
                match self.entries[k] {
                    None => None,
                    Some(w) => {
                        if w.binding != binding {
                            return None;
                        }
                        let ghost before = self@;
                        self.entries[k] = None;
                        assert forall|i: int, o: usize, e: usize| #[trigger]
                            waits_at(self@, i, o, e) implies waits_at(before, i, o, e) by {}
                        Some(w)
                    },
                }
            },
        }
    }

    /// Takes out the first wait from the place `from` on that is over: cancelled by
    /// `owner`, for `binding` or for all of its bindings, or for something that is no
    /// longer pending. With it comes the place to go on from. The caller wakes it.
    pub fn drain(
        &mut self,
        table: &Table,
        owner: Option<usize>,
        binding: Option<u64>,
        from: usize,
    ) -> (r: Option<(Wait, usize)>)
        requires
            old(self).wf(),
        ensures
            final(self).wf(),
            match r {
                Some((wait, next)) => {
                    &&& first_due(old(self)@, table@, owner, binding, from as int, next - 1)
                    &&& old(self)@[next - 1] == Some(wait)
                    &&& final(self)@ == old(self)@.update(next - 1, None)
                },
                None => final(self)@ == old(self)@ && forall|k: int|
                    from <= k ==> !#[trigger] due_at(old(self)@, table@, owner, binding, k),
            },
    {
        let n: usize = self.entries.len();
        let mut i: usize = from;
        while i < n
            invariant
                n == self.entries@.len(),
                from <= i,
                self.wf(),
                self@ == old(self)@,
                forall|k: int|
                    from <= k < i ==> !#[trigger] due_at(self@, table@, owner, binding, k),
            decreases n - i,
        {
            if let Some(w) = self.entries[i] {
                let ours: bool = match owner {
                    Some(o) => o == w.owner,
                    None => false,
                };
                let bound: bool = match binding {
                    Some(b) => b == w.binding,
                    None => true,
                };
                let pending: bool = match table.predicate(w.key, w.epoch) {
                    Ok(Predicate::Pending) => true,
                    _ => false,
                };
                if (ours && bound) || !pending {
                    assert(due_at(self@, table@, owner, binding, i as int));
                    let ghost before = self@;
                    self.entries[i] = None;
                    assert forall|k: int, o: usize, e: usize| #[trigger]
                        waits_at(self@, k, o, e) implies waits_at(before, k, o, e) by {}
                    return Some((w, i + 1));
                }
            }
            i = i + 1;
        }
        None
    }
}

/// Some place holds this epoch of this allocation.
pub open spec fn is_held(v: Ledger, key: Key, epoch: int) -> bool {
    exists|k: int| #[trigger] held_at(v.pool, k, key, epoch)
}

/// What a table has announced of a live allocation and not completed, it holds:
/// each epoch at one place, and the oldest of them is not done. So the completed
/// epoch is the end of the longest prefix that is done.
pub proof fn law_completed_is_the_done_prefix(t: Table, slot: int, epoch: int)
    requires
        t.wf(),
        0 <= slot < t@.allocations.len(),
        t@.allocations[slot].snapshot.status == LIVE,
        t@.allocations[slot].snapshot.completed < epoch
            <= t@.allocations[slot].snapshot.announced,
    ensures
        is_held(t@, slot_key(t@, slot), epoch),
        one_place_each(t@.pool),
        forall|k: int| #[trigger] ready_at(t@, slot, k) ==> false,
    decreases epoch,
{
    assert(t.slot_ok(slot, -1));
    let s = t@.allocations[slot].snapshot;
    let key = slot_key(t@, slot);
    if epoch == s.completed + 1 {
        assert(held_at(t@.pool, t.links@[slot].head as int, key, epoch));
    } else {
        law_completed_is_the_done_prefix(t, slot, epoch - 1);
        let k = choose|k: int| #[trigger] held_at(t@.pool, k, key, epoch - 1);
        assert(t.entry_ok(k));
        assert(held_at(t@.pool, t.next@[k] as int, key, epoch));
    }
    assert forall|k: int| #[trigger] ready_at(t@, slot, k) implies false by {
        assert(held_at(t@.pool, k, key, s.completed + 1));
        assert(held_at(t@.pool, t.links@[slot].head as int, key, s.completed + 1));
    }
}

/// Whatever a table holds is an unfinished epoch of a live allocation: nothing of
/// an allocation that has ended, or of an earlier incarnation, is left behind.
pub proof fn law_only_live_epochs_are_held(t: Table, k: int)
    requires
        t.wf(),
        0 <= k < t@.pool.len(),
        t@.pool[k] is Some,
    ensures
        ({
            let p = t@.pool[k]->0;
            let s = t@.allocations[p.key.slot as int].snapshot;
            is_current(t@, p.key) && s.status == LIVE && s.completed < p.epoch <= s.announced
        }),
{
    assert(t.entry_ok(k));
    assert(t.slot_ok(t@.pool[k]->0.key.slot as int, -1));
}

/// A registration takes a generation above every earlier one, so no key of an
/// earlier allocation in that slot names the new one.
pub proof fn law_registration_is_fresh(t: Table, k: int, id: usize, earlier: Key)
    requires
        t.wf(),
        first_vacant(t@, k),
        t@.generation < u64::MAX,
        is_current(t@, earlier),
        earlier.slot == k,
    ensures
        slot_key(registered(t@, k, id), k).generation > earlier.generation,
        !is_current(registered(t@, k, id), earlier),
{
    assert(t.slot_ok(k, -1));
}

/// Settling a slot keeps what every slot is, and moves only that slot's completed epoch.
pub proof fn lemma_settled_keeps(v: Ledger, slot: int, i: int)
    requires
        0 <= i < v.allocations.len(),
    ensures
        ({
            let a = v.allocations[i];
            let b = settled(v, slot).allocations[i];
            a.id == b.id && a.bindings == b.bindings && a.snapshot.completed
                <= b.snapshot.completed && a.snapshot.announced == b.snapshot.announced
                && a.snapshot.status == b.snapshot.status && a.snapshot.generation
                == b.snapshot.generation && (a.snapshot.completed <= a.snapshot.announced
                ==> b.snapshot.completed <= b.snapshot.announced) && (i != slot ==> a == b)
        }),
    decreases v.allocations[slot].snapshot.announced - v.allocations[slot].snapshot.completed,
{
    if 0 <= slot < v.allocations.len() && v.allocations[slot].snapshot.completed
        < v.allocations[slot].snapshot.announced && exists|k: int| #[trigger] ready_at(v, slot, k) {
        let k = choose|k: int| #[trigger] ready_at(v, slot, k);
        lemma_settled_keeps(stepped(v, slot, k), slot, i);
    }
}

/// Completing an operation never takes a completed epoch back, never passes what
/// was announced, and neither announces nor ends anything.
pub proof fn law_completion_only_advances(v: Ledger, stream: u64, value: u32, from: int, i: int)
    requires
        0 <= i < v.allocations.len(),
    ensures
        ({
            let a = v.allocations[i];
            let b = completed_from(v, stream, value, from).allocations[i];
            a.id == b.id && a.bindings == b.bindings && a.snapshot.completed
                <= b.snapshot.completed && a.snapshot.announced == b.snapshot.announced
                && a.snapshot.status == b.snapshot.status && a.snapshot.generation
                == b.snapshot.generation && (a.snapshot.completed <= a.snapshot.announced
                ==> b.snapshot.completed <= b.snapshot.announced)
        }),
    decreases v.pool.len() - from,
{
    if 0 <= from < v.pool.len() {
        if is_operation(v, from, stream, value) {
            let p = v.pool[from]->0;
            let marked = Ledger {
                pool: v.pool.update(from, Some(Pending { done: true, ..p })),
                ..v
            };
            lemma_settled_frame(marked, p.key.slot as int);
            lemma_settled_keeps(marked, p.key.slot as int, i);
            law_completion_only_advances(finished(v, from), stream, value, from + 1, i);
        } else {
            law_completion_only_advances(v, stream, value, from + 1, i);
        }
    }
}

/// No failure, cancellation or reset completes or announces an epoch, and an
/// allocation that has ended keeps the status it ended with.
pub proof fn law_an_end_completes_nothing(
    t: Table,
    key: Key,
    stream: u64,
    status: u32,
    i: int,
)
    requires
        t.wf(),
        0 <= i < t@.allocations.len(),
    ensures
        same_progress(t@, terminated(t@, key, status), i),
        same_progress(t@, removed(t@, key), i),
        same_progress(t@, stream_failed(t@, stream, status), i),
        same_progress(t@, was_reset(t@), i),
{
    let v = t@;
    assert forall|k: int| 0 <= k < v.pool.len() && (#[trigger] v.pool[k]) is Some implies v.pool[k]->0.key.slot
        < v.allocations.len() by {
        assert(t.entry_ok(k));
    }
    lemma_stream_marked_keeps(v, stream, status, v.pool.len() as int, i);
    lemma_slots_ended_keeps(v, v.allocations.len() as int, i);
}

/// The slot has the same epochs in both, and the same end where it had ended.
pub open spec fn same_progress(v: Ledger, w: Ledger, i: int) -> bool {
    let a = v.allocations[i].snapshot;
    let b = w.allocations[i].snapshot;
    a.generation == b.generation && a.announced == b.announced && a.completed == b.completed && (
    a.status != LIVE ==> b.status == a.status)
}

proof fn lemma_stream_marked_keeps(v: Ledger, stream: u64, status: u32, n: int, i: int)
    requires
        0 <= i < v.allocations.len(),
        n <= v.pool.len(),
        forall|k: int|
            0 <= k < v.pool.len() && (#[trigger] v.pool[k]) is Some ==> v.pool[k]->0.key.slot
                < v.allocations.len(),
    ensures
        same_progress(v, stream_marked(v, stream, status, n), i),
        stream_marked(v, stream, status, n).allocations.len() == v.allocations.len(),
    decreases n,
{
    if n > 0 {
        lemma_stream_marked_keeps(v, stream, status, n - 1, i);
    }
}

proof fn lemma_slots_ended_keeps(v: Ledger, n: int, i: int)
    requires
        0 <= i < v.allocations.len(),
        n <= v.allocations.len(),
    ensures
        same_progress(v, slots_ended(v, n), i),
        slots_ended(v, n).allocations.len() == v.allocations.len(),
    decreases n,
{
    if n > 0 {
        lemma_slots_ended_keeps(v, n - 1, i);
    }
}

/// Where the drain with index `j` of a run of drains starts: the first at the first
/// place, every other one behind the place that the one before it cleared.
pub open spec fn drain_start(places: Seq<int>, from: int, j: int) -> int {
    if j == 0 {
        from
    } else {
        places[j - 1] + 1
    }
}

/// A run of drains from the place `from` on: each state leads to the next by the
/// removal of the first wait that is over, and after the last one none is left.
pub open spec fn is_drain_run(
    states: Seq<Seq<Option<Wait>>>,
    places: Seq<int>,
    v: Ledger,
    owner: Option<usize>,
    binding: Option<u64>,
    from: int,
) -> bool {
    &&& states.len() == places.len() + 1
    &&& forall|j: int|
        0 <= j < places.len() ==> #[trigger] first_due(
            states[j],
            v,
            owner,
            binding,
            drain_start(places, from, j),
            places[j],
        ) && states[j + 1] == states[j].update(places[j], None)
    &&& forall|k: int|
        drain_start(places, from, places.len() as int) <= k ==> !#[trigger] due_at(
            states.last(),
            v,
            owner,
            binding,
            k,
        )
}

/// A run of drains from the first place on hands out every wait that is over, each
/// once and in the order of their places, and leaves every other one where it was.
pub proof fn law_a_wait_is_handed_out_once(
    states: Seq<Seq<Option<Wait>>>,
    places: Seq<int>,
    v: Ledger,
    owner: Option<usize>,
    binding: Option<u64>,
)
    requires
        is_drain_run(states, places, v, owner, binding, 0),
    ensures
        Seq::new(places.len(), |j: int| states[j][places[j]]->0) == due_waits(
            states[0],
            v,
            owner,
            binding,
            0,
        ),
        states.last() == still_waiting(states[0], v, owner, binding),
{
    lemma_drain_run(states, places, v, owner, binding, 0);
    assert(states.last() =~= still_waiting(states[0], v, owner, binding));
}

proof fn lemma_not_due_between(
    s: Seq<Option<Wait>>,
    v: Ledger,
    owner: Option<usize>,
    binding: Option<u64>,
    from: int,
    to: int,
)
    requires
        0 <= from <= to,
        to <= s.len() || from >= s.len(),
        forall|k: int| from <= k < to ==> !#[trigger] due_at(s, v, owner, binding, k),
    ensures
        due_waits(s, v, owner, binding, from) == due_waits(s, v, owner, binding, to),
    decreases to - from,
{
    if from < to && from < s.len() {
        lemma_not_due_between(s, v, owner, binding, from + 1, to);
        assert(!due_at(s, v, owner, binding, from));
    }
}

proof fn lemma_due_waits_behind(
    s: Seq<Option<Wait>>,
    t: Seq<Option<Wait>>,
    v: Ledger,
    owner: Option<usize>,
    binding: Option<u64>,
    from: int,
)
    requires
        0 <= from,
        s.len() == t.len(),
        forall|k: int| from <= k < s.len() ==> s[k] == #[trigger] t[k],
    ensures
        due_waits(s, v, owner, binding, from) == due_waits(t, v, owner, binding, from),
    decreases s.len() - from,
{
    if from < s.len() {
        lemma_due_waits_behind(s, t, v, owner, binding, from + 1);
        assert(s[from] == t[from]);
    }
}

proof fn lemma_drain_run(
    states: Seq<Seq<Option<Wait>>>,
    places: Seq<int>,
    v: Ledger,
    owner: Option<usize>,
    binding: Option<u64>,
    from: int,
)
    requires
        0 <= from,
        is_drain_run(states, places, v, owner, binding, from),
    ensures
        Seq::new(places.len(), |j: int| states[j][places[j]]->0) == due_waits(
            states[0],
            v,
            owner,
            binding,
            from,
        ),
        states.last().len() == states[0].len(),
        forall|i: int|
            0 <= i < states[0].len() ==> #[trigger] states.last()[i] == (if i < from {
                states[0][i]
            } else {
                still_waiting(states[0], v, owner, binding)[i]
            }),
    decreases places.len(),
{
    let s = states[0];
    let handed = Seq::new(places.len(), |j: int| states[j][places[j]]->0);
    if places.len() == 0 {
        let end = if from < s.len() {
            s.len() as int
        } else {
            from
        };
        assert(states.last() == s);
        assert(drain_start(places, from, places.len() as int) == from);
        lemma_not_due_between(s, v, owner, binding, from, end);
        assert(handed =~= Seq::<Wait>::empty());
        assert forall|i: int| 0 <= i < s.len() implies #[trigger] states.last()[i] == (if i < from {
            s[i]
        } else {
            still_waiting(s, v, owner, binding)[i]
        }) by {
            if i >= from {
                assert(!due_at(s, v, owner, binding, i));
            }
        }
    } else {
        let k = places[0];
        let rest = states.skip(1);
        let others = places.skip(1);
        assert(first_due(states[0], v, owner, binding, drain_start(places, from, 0), places[0]));
        assert forall|j: int| 0 <= j < others.len() implies #[trigger] first_due(
            rest[j],
            v,
            owner,
            binding,
            drain_start(others, k + 1, j),
            others[j],
        ) && rest[j + 1] == rest[j].update(others[j], None) by {
            assert(first_due(
                states[j + 1],
                v,
                owner,
                binding,
                drain_start(places, from, j + 1),
                places[j + 1],
            ));
        }
        assert(rest.last() == states.last());
        assert(drain_start(others, k + 1, others.len() as int) == drain_start(
            places,
            from,
            places.len() as int,
        ));
        lemma_drain_run(rest, others, v, owner, binding, k + 1);
        let t = states[1];
        assert(t == s.update(k, None));
        lemma_not_due_between(s, v, owner, binding, from, k);
        lemma_due_waits_behind(s, t, v, owner, binding, k + 1);
        let tail = Seq::new(others.len(), |j: int| rest[j][others[j]]->0);
        assert(handed =~= seq![s[k]->0] + tail);
        assert forall|i: int| 0 <= i < s.len() implies #[trigger] states.last()[i] == (if i < from {
            s[i]
        } else {
            still_waiting(s, v, owner, binding)[i]
        }) by {
            assert(rest.last()[i] == (if i < k + 1 {
                t[i]
            } else {
                still_waiting(t, v, owner, binding)[i]
            }));
            if from <= i < k {
                assert(!due_at(s, v, owner, binding, i));
            }
        }
    }
}

/// A table has some slots, and each has a number that a key can hold. So the key
/// that is found for an allocation names it. No generation is above the last one
/// given out, nothing is complete that was not announced, and a vacant slot has ended.
/// No epoch has two places, and no stream two writers on one allocation.
pub proof fn law_keys_name_their_slots(t: Table, k: int)
    requires
        t.wf(),
        0 <= k < t@.allocations.len(),
    ensures
        0 < t@.allocations.len() <= u32::MAX,
        slot_key(t@, k).slot == k,
        t@.allocations[k].id != 0 ==> is_current(t@, slot_key(t@, k)),
        t@.allocations[k].id == 0 ==> t@.allocations[k].snapshot.status != LIVE,
        t@.allocations[k].snapshot.generation <= t@.generation,
        t@.allocations[k].snapshot.completed <= t@.allocations[k].snapshot.announced,
        one_place_each(t@.pool),
        one_writer_each(t@.writers),
{
    assert(t.slot_ok(k, -1));
}

/// The list of changed slots names each slot at most once, so it never outgrows what
/// was reserved for it.
pub proof fn law_the_changed_list_fits(t: Table)
    requires
        t.wf(),
    ensures
        t@.dirty.no_duplicates(),
        t@.dirty.len() <= t@.allocations.len(),
{
    let n = t@.allocations.len() as int;
    let slots = Seq::new(t@.dirty.len(), |k: int| t@.dirty[k] as int);
    assert(slots.no_duplicates());
    slots.unique_seq_to_set();
    vstd::set_lib::lemma_int_range(0, n);
    assert(slots.to_set().subset_of(vstd::set_lib::set_int_range(0, n)));
    vstd::set_lib::lemma_len_subset(slots.to_set(), vstd::set_lib::set_int_range(0, n));
}

} // verus!
