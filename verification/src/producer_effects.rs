//! What each operation on a completion table changes, and what it leaves alone.

use vstd::prelude::*;
use crate::producer_completion;
use crate::producer_completion::{
    Allocation, Error, Key, Ledger, Pending, Snapshot, Table, Wait, Writer,
};
use crate::producer_history;
use crate::producer_history::Step;

verus! {

/// The stream has published on the allocation, and the last value was `value` or above.
pub open spec fn has_published(v: Ledger, key: Key, stream: u64, value: int) -> bool {
    exists|i: int|
        0 <= i < v.writers.len() && (#[trigger] v.writers[i] matches Some(w) && w.key == key
            && w.stream == stream && w.value >= value)
}

/// Some place holds nothing.
pub open spec fn has_room<T>(s: Seq<Option<T>>) -> bool {
    exists|i: int| 0 <= i < s.len() && (#[trigger] s[i]) is None
}

/// A publication is taken exactly if its key names an allocation that has not ended, its
/// stream and value are not zero, the stream has published only lower values there, and
/// there is room for one more epoch and for one more writer where the stream is new. An
/// allocation that has ended answers with its end.
pub proof fn law_a_publication_is_taken_if_it_is_later(
    v: Ledger,
    key: Key,
    stream: u64,
    value: u32,
)
    ensures
        ({
            let s = v.allocations[key.slot as int].snapshot;
            let current = 0 < key.generation && key.slot < v.allocations.len() && s.generation
                == key.generation;
            let later = stream > 0 && value > 0 && !has_published(v, key, stream, value as int);
            let room = has_room(v.pool) && (has_published(v, key, stream, 0) || has_room(
                v.writers,
            )) && s.announced < u64::MAX;
            producer_completion::publish_refusal(v, key, stream, value) == (if !current {
                Some(Error::Invalid)
            } else if s.status != 0 {
                Some(Error::Terminal(s.status))
            } else if !later {
                Some(Error::Invalid)
            } else if !room {
                Some(Error::Capacity)
            } else {
                None
            })
        }),
{
    if producer_completion::is_stale(v, key, stream, value) {
        let i = choose|i: int| #[trigger]
            producer_completion::writes_at(v.writers, i, key, stream) && value
                <= v.writers[i]->0.value;
        assert(v.writers[i] is Some);
        assert(has_published(v, key, stream, value as int));
    }
    if has_published(v, key, stream, value as int) {
        let i = choose|i: int|
            0 <= i < v.writers.len() && (#[trigger] v.writers[i] matches Some(w) && w.key == key
                && w.stream == stream && w.value >= value);
        assert(producer_completion::writes_at(v.writers, i, key, stream));
    }
    if has_published(v, key, stream, 0) {
        let i = choose|i: int|
            0 <= i < v.writers.len() && (#[trigger] v.writers[i] matches Some(w) && w.key == key
                && w.stream == stream && w.value >= 0);
        assert(producer_completion::writes_at(v.writers, i, key, stream));
    } else {
        assert forall|i: int| !#[trigger] producer_completion::writes_at(
            v.writers,
            i,
            key,
            stream,
        ) by {
            if producer_completion::writes_at(v.writers, i, key, stream) {
                assert(v.writers[i] is Some);
                assert(has_published(v, key, stream, 0));
            }
        }
    }
    if !has_room(v.pool) {
        assert(producer_completion::is_full(v.pool));
    }
    if !has_room(v.writers) {
        assert(producer_completion::is_full(v.writers));
    }
}

/// A publication announces one more epoch of its allocation and of no other. From then on
/// the stream has published its value there, and every other stream what it had before.
pub proof fn law_a_publication_announces_one_epoch(
    t: Table,
    key: Key,
    stream: u64,
    value: u32,
    done: bool,
    w: Ledger,
    slot: int,
    other: Key,
    another: u64,
    above: int,
)
    requires
        t.wf(),
        producer_history::leads(t@, Step::Publish { key, stream, value, done }, w),
        0 <= slot < t@.allocations.len(),
        0 <= above,
    ensures
        ({
            let a = t@.allocations[slot];
            let b = w.allocations[slot];
            &&& slot != key.slot ==> b == a
            &&& slot == key.slot ==> b.id == a.id && b.bindings == a.bindings
                && b.snapshot.announced == a.snapshot.announced + 1 && a.snapshot.completed
                <= b.snapshot.completed <= b.snapshot.announced && b.snapshot.status == 0
                && b.snapshot.generation == key.generation
        }),
        w.generation == t@.generation,
        has_published(w, key, stream, above) <==> above <= value,
        (other, another) != (key, stream) ==> (has_published(w, other, another, above)
            <==> has_published(t@, other, another, above)),
{
    let v = t@;
    let s = v.allocations[key.slot as int].snapshot;
    let epoch = (s.announced + 1) as u64;
    let (writer, place) = choose|writer: int, place: int| #[trigger]
        producer_completion::writer_for(v, writer, key, stream) && #[trigger]
        producer_completion::first_free(v.pool, place) && w == producer_completion::published(
            v,
            key,
            stream,
            value,
            done,
            writer,
            place,
        );
    let entered = Ledger {
        pool: v.pool.update(place, Some(Pending { key, epoch, stream, value, done })),
        writers: v.writers.update(writer, Some(Writer { key, stream, value })),
        ..producer_completion::with_snapshot(
            v,
            key.slot as int,
            Snapshot { announced: epoch, ..s },
        )
    };
    producer_completion::law_keys_name_their_slots(t, slot);
    producer_completion::law_keys_name_their_slots(t, key.slot as int);
    producer_completion::lemma_settled_frame(entered, key.slot as int);
    producer_completion::lemma_settled_keeps(entered, key.slot as int, slot);
    assert(w.writers == v.writers.update(writer, Some(Writer { key, stream, value })));
    assert(0 <= writer < v.writers.len());
    if above <= value {
        assert(w.writers[writer] is Some);
        assert(has_published(w, key, stream, above));
    }
    if has_published(w, key, stream, above) {
        let i = choose|i: int|
            0 <= i < w.writers.len() && (#[trigger] w.writers[i] matches Some(x) && x.key == key
                && x.stream == stream && x.value >= above);
        if i != writer {
            assert(producer_completion::writes_at(v.writers, i, key, stream));
            assert(producer_completion::writes_at(v.writers, writer, key, stream));
        }
    }
    if (other, another) != (key, stream) {
        if has_published(w, other, another, above) {
            let i = choose|i: int|
                0 <= i < w.writers.len() && (#[trigger] w.writers[i] matches Some(x) && x.key
                    == other && x.stream == another && x.value >= above);
            assert(v.writers[i] == w.writers[i]);
        }
        if has_published(v, other, another, above) {
            let i = choose|i: int|
                0 <= i < v.writers.len() && (#[trigger] v.writers[i] matches Some(x) && x.key
                    == other && x.stream == another && x.value >= above);
            if i == writer {
                assert(producer_completion::writer_for(v, writer, key, stream));
                assert(v.writers[i] is Some);
            }
            assert(w.writers[i] == v.writers[i]);
        }
    }
}

/// The stream holds an unfinished epoch of the slot.
pub open spec fn strikes(v: Ledger, stream: u64, slot: int, n: int) -> bool {
    exists|k: int|
        0 <= k < n && (#[trigger] v.pool[k] matches Some(p) && p.stream == stream && p.key.slot
            == slot)
}

proof fn lemma_marked(t: Table, stream: u64, status: u32, n: int, i: int)
    requires
        t.wf(),
        0 <= n <= t@.pool.len(),
        0 <= i < t@.allocations.len(),
        status != 0,
    ensures
        ({
            let v = t@;
            let m = producer_completion::stream_marked(v, stream, status, n);
            &&& m.pool == v.pool && m.writers == v.writers && m.generation == v.generation
            &&& m.allocations.len() == v.allocations.len()
            &&& m.allocations[i] == (if strikes(v, stream, i, n) {
                Allocation {
                    snapshot: Snapshot { status, ..v.allocations[i].snapshot },
                    ..v.allocations[i]
                }
            } else {
                v.allocations[i]
            })
            &&& strikes(v, stream, i, n) ==> m.dirty.contains(i as u32)
            &&& forall|x: u32| #[trigger] v.dirty.contains(x) ==> m.dirty.contains(x)
        }),
    decreases n,
{
    let v = t@;
    producer_completion::law_keys_name_their_slots(t, i);
    if n > 0 {
        lemma_marked(t, stream, status, n - 1, i);
        let before = producer_completion::stream_marked(v, stream, status, n - 1);
        let m = producer_completion::stream_marked(v, stream, status, n);
        if let Some(p) = v.pool[n - 1] {
            if p.stream == stream {
                producer_completion::law_only_live_epochs_are_held(t, n - 1);
                lemma_listed(
                    producer_completion::with_snapshot(
                        before,
                        p.key.slot as int,
                        producer_completion::ended(
                            before.allocations[p.key.slot as int].snapshot,
                            status,
                        ),
                    ),
                    p.key.slot as int,
                );
                if p.key.slot == i {
                    assert(v.pool[n - 1] is Some);
                    assert(strikes(v, stream, i, n));
                }
            }
        }
        if strikes(v, stream, i, n) && !strikes(v, stream, i, n - 1) {
            let k = choose|k: int|
                0 <= k < n && (#[trigger] v.pool[k] matches Some(p) && p.stream == stream
                    && p.key.slot == i);
            assert(k == n - 1);
        }
        if strikes(v, stream, i, n - 1) {
            let k = choose|k: int|
                0 <= k < n - 1 && (#[trigger] v.pool[k] matches Some(p) && p.stream == stream
                    && p.key.slot == i);
            assert(v.pool[k] is Some);
            assert(strikes(v, stream, i, n));
        }
    }
}

proof fn lemma_listed(v: Ledger, slot: int)
    requires
        0 <= slot <= u32::MAX,
    ensures
        producer_completion::changed(v, slot).dirty.contains(slot as u32),
        forall|x: u32| #[trigger]
            v.dirty.contains(x) ==> producer_completion::changed(v, slot).dirty.contains(x),
{
    let w = producer_completion::changed(v, slot);
    if !v.dirty.contains(slot as u32) {
        assert(w.dirty[v.dirty.len() as int] == slot as u32);
        assert forall|x: u32| #[trigger] v.dirty.contains(x) implies w.dirty.contains(x) by {
            let k = choose|k: int| 0 <= k < v.dirty.len() && v.dirty[k] == x;
            assert(w.dirty[k] == x);
        }
    }
}

/// A stream that fails ends exactly the allocations of which it holds an unfinished epoch,
/// with the status that it failed with. Their unfinished epochs go, whatever stream holds
/// them, and so do its writers, and nothing else does. No stream fails as live.
pub proof fn law_a_failed_stream_ends_what_it_holds(
    t: Table,
    stream: u64,
    status: u32,
    i: int,
    k: int,
    j: int,
)
    requires
        t.wf(),
        0 <= i < t@.allocations.len(),
        0 <= k < t@.pool.len(),
        0 <= j < t@.writers.len(),
    ensures
        ({
            let v = t@;
            let w = producer_completion::stream_failed(v, stream, status);
            let n = v.pool.len() as int;
            &&& status == 0 ==> w == v
            &&& status != 0 ==> w.allocations.len() == v.allocations.len() && w.pool.len()
                == v.pool.len() && w.writers.len() == v.writers.len() && w.generation
                == v.generation
            &&& status != 0 && strikes(v, stream, i, n) ==> w.allocations[i] == (Allocation {
                snapshot: Snapshot { status, ..v.allocations[i].snapshot },
                ..v.allocations[i]
            }) && v.allocations[i].snapshot.status == 0 && w.dirty.contains(i as u32)
            &&& status != 0 && !strikes(v, stream, i, n) ==> w.allocations[i] == v.allocations[i]
            &&& status != 0 ==> w.pool[k] == (match v.pool[k] {
                Some(p) => if strikes(v, stream, p.key.slot as int, n) {
                    None
                } else {
                    Some(p)
                },
                None => None,
            })
            &&& status != 0 ==> w.writers[j] == (match v.writers[j] {
                Some(x) => if x.stream == stream {
                    None
                } else {
                    Some(x)
                },
                None => None,
            })
        }),
{
    let v = t@;
    let n = v.pool.len() as int;
    if status != 0 {
        lemma_marked(t, stream, status, n, i);
        if strikes(v, stream, i, n) {
            let h = choose|h: int|
                0 <= h < n && (#[trigger] v.pool[h] matches Some(p) && p.stream == stream
                    && p.key.slot == i);
            producer_completion::law_only_live_epochs_are_held(t, h);
        }
        if let Some(p) = v.pool[k] {
            producer_completion::law_only_live_epochs_are_held(t, k);
            lemma_marked(t, stream, status, n, p.key.slot as int);
        }
    }
}

/// What an end of one allocation does: it gets the status, unless it had ended before, and
/// its unfinished epochs go. A key that names nothing ends nothing, and neither does the
/// status of the living. Nothing changes of any other allocation.
pub proof fn law_an_end_clears_one_allocation(t: Table, key: Key, status: u32, i: int, k: int)
    requires
        t.wf(),
        0 <= i < t@.allocations.len(),
        0 <= k < t@.pool.len(),
    ensures
        ({
            let v = t@;
            let w = producer_completion::terminated(v, key, status);
            let a = v.allocations[i];
            let current = 0 < key.generation && key.slot < v.allocations.len()
                && v.allocations[key.slot as int].snapshot.generation == key.generation;
            &&& !current || status == 0 ==> w == v
            &&& current && status != 0 ==> {
                &&& w.allocations[i] == (if i == key.slot && a.snapshot.status == 0 {
                    Allocation { snapshot: Snapshot { status, ..a.snapshot }, ..a }
                } else {
                    a
                })
                &&& w.pool[k] == (match v.pool[k] {
                    Some(p) => if p.key == key {
                        None
                    } else {
                        Some(p)
                    },
                    None => None,
                })
                &&& w.allocations.len() == v.allocations.len() && w.pool.len() == v.pool.len()
                &&& w.writers == v.writers && w.generation == v.generation
                &&& w.dirty.contains(key.slot)
                &&& forall|x: u32| #[trigger] v.dirty.contains(x) ==> w.dirty.contains(x)
            }
        }),
{
    let v = t@;
    let slot = key.slot as int;
    if producer_completion::is_current(v, key) && status != 0 {
        lemma_listed(
            producer_completion::with_snapshot(
                v,
                slot,
                producer_completion::ended(v.allocations[slot].snapshot, status),
            ),
            slot,
        );
    }
}

/// What a removal does: the allocation ends as removed, unless it had ended before, its
/// unfinished epochs and its writers go, and its slot holds no allocation any more. Its
/// bindings stay, and so does everything of any other allocation.
pub proof fn law_a_removal_empties_one_slot(t: Table, key: Key, i: int, k: int, j: int)
    requires
        t.wf(),
        0 <= i < t@.allocations.len(),
        0 <= k < t@.pool.len(),
        0 <= j < t@.writers.len(),
    ensures
        ({
            let v = t@;
            let w = producer_completion::removed(v, key);
            let a = v.allocations[i];
            let current = 0 < key.generation && key.slot < v.allocations.len()
                && v.allocations[key.slot as int].snapshot.generation == key.generation;
            &&& !current ==> w == v
            &&& current ==> {
                &&& i != key.slot ==> w.allocations[i] == a
                &&& i == key.slot ==> w.allocations[i] == (Allocation {
                    id: 0,
                    bindings: a.bindings,
                    snapshot: Snapshot {
                        status: if a.snapshot.status == 0 {
                            3
                        } else {
                            a.snapshot.status
                        },
                        ..a.snapshot
                    },
                })
                &&& w.pool[k] == (match v.pool[k] {
                    Some(p) => if p.key == key {
                        None
                    } else {
                        Some(p)
                    },
                    None => None,
                })
                &&& w.writers[j] == (match v.writers[j] {
                    Some(x) => if x.key == key {
                        None
                    } else {
                        Some(x)
                    },
                    None => None,
                })
                &&& w.allocations.len() == v.allocations.len() && w.pool.len() == v.pool.len()
                &&& w.writers.len() == v.writers.len() && w.generation == v.generation
                &&& w.dirty.contains(key.slot)
                &&& forall|x: u32| #[trigger] v.dirty.contains(x) ==> w.dirty.contains(x)
            }
        }),
{
    law_an_end_clears_one_allocation(t, key, 3, i, k);
    if producer_completion::is_current(t@, key) {
        law_an_end_clears_one_allocation(t, key, 3, key.slot as int, k);
    }
}

proof fn lemma_ended(t: Table, n: int, i: int)
    requires
        t.wf(),
        0 <= n <= t@.allocations.len(),
        0 <= i < t@.allocations.len(),
    ensures
        ({
            let v = t@;
            let a = v.allocations[i];
            let w = producer_completion::slots_ended(v, n);
            &&& w.allocations.len() == v.allocations.len() && w.generation == v.generation
            &&& w.allocations[i] == (if i < n && a.id != 0 && a.snapshot.status == 0 {
                Allocation { snapshot: Snapshot { status: 3, ..a.snapshot }, ..a }
            } else {
                a
            })
            &&& i < n && a.id != 0 ==> w.dirty.contains(i as u32)
            &&& forall|x: u32| #[trigger] v.dirty.contains(x) ==> w.dirty.contains(x)
        }),
    decreases n,
{
    let v = t@;
    producer_completion::law_keys_name_their_slots(t, i);
    if n > 0 {
        lemma_ended(t, n - 1, i);
        let before = producer_completion::slots_ended(v, n - 1);
        if v.allocations[n - 1].id != 0 {
            lemma_listed(
                producer_completion::with_snapshot(
                    before,
                    n - 1,
                    producer_completion::ended(
                        before.allocations[n - 1].snapshot,
                        producer_completion::REMOVED,
                    ),
                ),
                n - 1,
            );
        }
    }
}

/// A reset ends every allocation as removed, unless it had ended before, and clears every
/// unfinished epoch and every writer. Generations go on.
pub proof fn law_a_reset_ends_every_allocation(t: Table, i: int, k: int, j: int)
    requires
        t.wf(),
        0 <= i < t@.allocations.len(),
        0 <= k < t@.pool.len(),
        0 <= j < t@.writers.len(),
    ensures
        ({
            let v = t@;
            let a = v.allocations[i];
            let w = producer_completion::was_reset(v);
            &&& w.allocations[i] == (if a.snapshot.status == 0 {
                Allocation { snapshot: Snapshot { status: 3, ..a.snapshot }, ..a }
            } else {
                a
            })
            &&& a.id != 0 ==> w.dirty.contains(i as u32)
            &&& w.pool.len() == v.pool.len() && w.pool[k] is None
            &&& w.writers.len() == v.writers.len() && w.writers[j] is None
            &&& w.allocations.len() == v.allocations.len() && w.generation == v.generation
        }),
{
    lemma_ended(t, t@.allocations.len() as int, i);
    producer_completion::law_keys_name_their_slots(t, i);
}

/// A registration puts a live allocation without epochs or bindings into its slot, under
/// the next generation, and changes nothing else.
pub proof fn law_a_registration_fills_one_slot(v: Ledger, slot: int, id: usize, i: int)
    requires
        0 <= slot < v.allocations.len() <= u32::MAX,
        v.generation < u64::MAX,
        0 <= i < v.allocations.len(),
    ensures
        ({
            let w = producer_completion::registered(v, slot, id);
            &&& w.generation == v.generation + 1
            &&& i != slot ==> w.allocations[i] == v.allocations[i]
            &&& w.allocations[slot].id == id && w.allocations[slot].bindings == 0
            &&& w.allocations[slot].snapshot.generation == v.generation + 1
            &&& w.allocations[slot].snapshot.announced == 0
            &&& w.allocations[slot].snapshot.completed == 0
            &&& w.allocations[slot].snapshot.status == 0
            &&& w.allocations.len() == v.allocations.len()
            &&& w.pool == v.pool && w.writers == v.writers
            &&& w.dirty.contains(slot as u32)
        }),
{
    let generation = (v.generation + 1) as u64;
    lemma_listed(
        Ledger {
            allocations: v.allocations.update(
                slot,
                Allocation {
                    id,
                    bindings: 0,
                    snapshot: Snapshot {
                        generation,
                        announced: 0,
                        completed: 0,
                        status: producer_completion::LIVE,
                    },
                },
            ),
            generation,
            ..v
        },
        slot,
    );
}

/// A registration takes the lowest slot that holds no allocation and no binding.
pub proof fn law_the_first_vacant_slot_is_taken(v: Ledger, slot: int, i: int)
    requires
        producer_completion::first_vacant(v, slot),
        0 <= i < v.allocations.len(),
        v.allocations[i].id == 0,
        v.allocations[i].bindings == 0,
    ensures
        slot <= i,
        v.allocations[slot].id == 0 && v.allocations[slot].bindings == 0,
{
    assert(producer_completion::is_vacant(v, i));
}

proof fn lemma_completion_listed(t: Table, v: Ledger, stream: u64, value: u32, from: int, i: int)
    requires
        t.wf(),
        0 <= from,
        v.allocations.len() == t@.allocations.len(),
        v.pool.len() == t@.pool.len(),
        forall|k: int|
            from <= k < v.pool.len() && (#[trigger] v.pool[k]) is Some ==> v.pool[k]->0.key.slot
                < v.allocations.len(),
        0 <= i < v.allocations.len(),
    ensures
        ({
            let w = producer_completion::completed_from(v, stream, value, from);
            &&& w.allocations[i] != v.allocations[i] ==> w.dirty.contains(i as u32)
            &&& forall|x: u32| #[trigger] v.dirty.contains(x) ==> w.dirty.contains(x)
        }),
    decreases v.pool.len() - from,
{
    producer_completion::law_keys_name_their_slots(t, i);
    if from < v.pool.len() {
        if producer_completion::is_operation(v, from, stream, value) {
            let p = v.pool[from]->0;
            assert(v.pool[from] is Some);
            let slot = p.key.slot as int;
            let marked = Ledger {
                pool: v.pool.update(from, Some(Pending { done: true, ..p })),
                ..v
            };
            let next = producer_completion::finished(v, from);
            producer_completion::lemma_settled_frame(marked, slot);
            producer_completion::lemma_settled_keeps(marked, slot, i);
            lemma_settled_pool(marked, slot);
            lemma_listed(producer_completion::settled(marked, slot), slot);
            lemma_completion_listed(t, next, stream, value, from + 1, i);
        } else {
            lemma_completion_listed(t, v, stream, value, from + 1, i);
        }
    }
}

proof fn lemma_settled_pool(v: Ledger, slot: int)
    ensures
        forall|k: int|
            0 <= k < v.pool.len() ==> #[trigger] producer_completion::settled(v, slot).pool[k]
                is None || producer_completion::settled(v, slot).pool[k] == v.pool[k],
    decreases v.allocations[slot].snapshot.announced - v.allocations[slot].snapshot.completed,
{
    if 0 <= slot < v.allocations.len() && v.allocations[slot].snapshot.completed
        < v.allocations[slot].snapshot.announced && exists|k: int| #[trigger]
        producer_completion::ready_at(v, slot, k) {
        let k = choose|k: int| #[trigger] producer_completion::ready_at(v, slot, k);
        lemma_settled_pool(producer_completion::stepped(v, slot, k), slot);
    }
}

/// Every change that a wait can see is listed: a slot whose snapshot an operation changes
/// is on the list of changed slots afterwards, and leaves it only by being taken from it.
pub proof fn law_changes_are_listed(t: Table, step: Step, w: Ledger, i: int)
    requires
        t.wf(),
        producer_history::leads(t@, step, w),
        0 <= i < t@.allocations.len(),
    ensures
        w.allocations[i].snapshot != t@.allocations[i].snapshot ==> w.dirty.contains(i as u32),
        !(step is TakeChanged) && t@.dirty.contains(i as u32) ==> w.dirty.contains(i as u32),
{
    let v = t@;
    producer_completion::law_keys_name_their_slots(t, i);
    match step {
        Step::Register { id } => {
            let k = choose|k: int| #[trigger]
                producer_completion::first_vacant(v, k) && w == producer_completion::registered(
                    v,
                    k,
                    id,
                );
            law_a_registration_fills_one_slot(v, k, id, i);
            let generation = (v.generation + 1) as u64;
            lemma_listed(
                Ledger {
                    allocations: v.allocations.update(
                        k,
                        Allocation {
                            id,
                            bindings: 0,
                            snapshot: Snapshot {
                                generation,
                                announced: 0,
                                completed: 0,
                                status: producer_completion::LIVE,
                            },
                        },
                    ),
                    generation,
                    ..v
                },
                k,
            );
        },
        Step::Publish { key, stream, value, done } => {
            let (writer, place) = choose|writer: int, place: int| #[trigger]
                producer_completion::writer_for(v, writer, key, stream) && #[trigger]
                producer_completion::first_free(v.pool, place) && w
                    == producer_completion::published(
                    v,
                    key,
                    stream,
                    value,
                    done,
                    writer,
                    place,
                );
            let s = v.allocations[key.slot as int].snapshot;
            let epoch = (s.announced + 1) as u64;
            let entered = Ledger {
                pool: v.pool.update(place, Some(Pending { key, epoch, stream, value, done })),
                writers: v.writers.update(writer, Some(Writer { key, stream, value })),
                ..producer_completion::with_snapshot(
                    v,
                    key.slot as int,
                    Snapshot { announced: epoch, ..s },
                )
            };
            producer_completion::lemma_settled_frame(entered, key.slot as int);
            producer_completion::lemma_settled_keeps(entered, key.slot as int, i);
            lemma_listed(
                producer_completion::settled(entered, key.slot as int),
                key.slot as int,
            );
        },
        Step::Complete { stream, value } => {
            assert forall|k: int|
                0 <= k < v.pool.len() && (#[trigger] v.pool[k]) is Some implies v.pool[k]->0.key.slot
                < v.allocations.len() by {
                producer_completion::law_only_live_epochs_are_held(t, k);
            }
            lemma_completion_listed(t, v, stream, value, 0, i);
        },
        Step::FailStream { stream, status } => {
            if status != 0 {
                lemma_marked(t, stream, status, v.pool.len() as int, i);
            }
        },
        Step::Terminal { key, status } => {
            lemma_one_end(v, key, status);
        },
        Step::Remove { key } => {
            lemma_one_end(v, key, 3);
        },
        Step::Reset => {
            lemma_ended(t, v.allocations.len() as int, i);
            producer_completion::law_keys_name_their_slots(t, i);
        },
        _ => {},
    }
}

proof fn lemma_one_end(v: Ledger, key: Key, status: u32)
    ensures
        producer_completion::is_current(v, key) && status != 0 ==> producer_completion::terminated(
            v,
            key,
            status,
        ).dirty.contains(key.slot),
        forall|x: u32| #[trigger]
            v.dirty.contains(x) ==> producer_completion::terminated(v, key, status).dirty.contains(
                x,
            ),
{
    let slot = key.slot as int;
    lemma_listed(
        producer_completion::with_snapshot(
            v,
            slot,
            producer_completion::ended(v.allocations[slot].snapshot, status),
        ),
        slot,
    );
}

/// A wait goes on exactly as long as nobody cancels it and its epoch or an earlier one of
/// a live allocation is announced and unfinished. Its owner cancels it, for the binding
/// that it belongs to or for all of them, and nobody else does.
pub proof fn law_a_wait_goes_on_while_it_is_unfinished(
    t: Table,
    w: Wait,
    owner: Option<usize>,
    binding: Option<u64>,
)
    requires
        t.wf(),
    ensures
        ({
            let cancelled = match owner {
                Some(o) => o == w.owner && (match binding {
                    Some(b) => b == w.binding,
                    None => true,
                }),
                None => false,
            };
            let unfinished = producer_history::names_live(t@, w.key) && w.epoch
                <= t@.allocations[w.key.slot as int].snapshot.announced
                && producer_history::waits_for(t@, w.key, w.epoch);
            producer_completion::is_due(t@, w, owner, binding) <==> cancelled || !unfinished
        }),
{
    producer_history::law_a_wait_finds_what_is_unfinished(t, w.key, w.epoch);
}

} // verus!
