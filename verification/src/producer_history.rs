//! What the operations on a completion table add up to: the completed epoch of a
//! live allocation is the end of the longest run of its publications, from the first
//! on, that were done when they were published or completed since.

use vstd::prelude::*;
use crate::producer_completion;
use crate::producer_completion::{Error, Key, Ledger, Pending, Predicate, Snapshot, Table};

verus! {

/// One operation on a table. `Nothing` is one that was refused.
pub enum Step {
    Register { id: usize },
    Retain { key: Key },
    Release { key: Key },
    Publish { key: Key, stream: u64, value: u32, done: bool },
    Complete { stream: u64, value: u32 },
    FailStream { stream: u64, status: u32 },
    Terminal { key: Key, status: u32 },
    Remove { key: Key },
    Reset,
    TakeChanged,
    Nothing,
}

/// The operation leads from `v` to `w`.
pub open spec fn leads(v: Ledger, step: Step, w: Ledger) -> bool {
    match step {
        Step::Register { id } => v.generation < u64::MAX && exists|k: int| #[trigger]
            producer_completion::first_vacant(v, k) && w == producer_completion::registered(
                v,
                k,
                id,
            ),
        Step::Retain { key } => producer_completion::is_current(v, key) && w
            == producer_completion::with_bindings(
            v,
            key.slot as int,
            v.allocations[key.slot as int].bindings + 1,
        ),
        Step::Release { key } => producer_completion::is_current(v, key) && w
            == producer_completion::with_bindings(
            v,
            key.slot as int,
            v.allocations[key.slot as int].bindings - 1,
        ),
        Step::Publish { key, stream, value, done } => producer_completion::publish_refusal(
            v,
            key,
            stream,
            value,
        ) is None && exists|writer: int, place: int| #[trigger]
            producer_completion::writer_for(v, writer, key, stream) && #[trigger]
            producer_completion::first_free(v.pool, place) && w == producer_completion::published(
                v,
                key,
                stream,
                value,
                done,
                writer,
                place,
            ),
        Step::Complete { stream, value } => w == producer_completion::completed_from(
            v,
            stream,
            value,
            0,
        ),
        Step::FailStream { stream, status } => w == producer_completion::stream_failed(
            v,
            stream,
            status,
        ),
        Step::Terminal { key, status } => w == producer_completion::terminated(v, key, status),
        Step::Remove { key } => w == producer_completion::removed(v, key),
        Step::Reset => w == producer_completion::was_reset(v),
        Step::TakeChanged => w == (Ledger { dirty: v.dirty.drop_last(), ..v }),
        Step::Nothing => w == v,
    }
}

/// One publication of an allocation: what it waits for, and whether that was done
/// when it was published or completed since.
pub struct Publication {
    pub stream: u64,
    pub value: u32,
    pub done: bool,
}

/// The publications after the operation `value` of `stream` completed.
pub open spec fn completing(log: Seq<Publication>, stream: u64, value: u32) -> Seq<Publication> {
    Seq::new(
        log.len(),
        |e: int|
            if log[e].stream == stream && log[e].value == value {
                Publication { done: true, ..log[e] }
            } else {
                log[e]
            },
    )
}

/// The publications of `key` after one more operation.
pub open spec fn logged(log: Seq<Publication>, step: Step, key: Key) -> Seq<Publication> {
    match step {
        Step::Publish { key: other, stream, value, done } => if other == key {
            log.push(Publication { stream, value, done })
        } else {
            log
        },
        Step::Complete { stream, value } => completing(log, stream, value),
        _ => log,
    }
}

/// The publications of `key` in a history that begins with its registration.
pub open spec fn publications(steps: Seq<Step>, key: Key) -> Seq<Publication>
    decreases steps.len(),
{
    if steps.len() == 0 {
        Seq::empty()
    } else {
        logged(publications(steps.drop_last(), key), steps.last(), key)
    }
}

/// The key names an allocation that has not ended.
pub open spec fn is_live(v: Ledger, key: Key) -> bool {
    producer_completion::is_current(v, key) && v.allocations[key.slot as int].snapshot.status
        == producer_completion::LIVE
}

/// The key names nothing live, and never will.
spec fn is_spent(v: Ledger, key: Key) -> bool {
    v.generation >= key.generation && !is_live(v, key)
}

/// The held epoch is unfinished, and is what was published.
spec fn entry_tracked(p: Pending, completed: int, log: Seq<Publication>) -> bool {
    &&& completed < p.epoch <= log.len()
    &&& p.stream == log[p.epoch - 1].stream
    &&& p.value == log[p.epoch - 1].value
    &&& p.done == log[p.epoch - 1].done
}

/// What the ledger holds of `key` is `to`, but that the places from `i` on are still
/// as in `from`.
spec fn tracks(
    v: Ledger,
    key: Key,
    from: Seq<Publication>,
    to: Seq<Publication>,
    i: int,
) -> bool {
    let s = v.allocations[key.slot as int].snapshot;
    &&& is_live(v, key)
    &&& v.allocations.len() <= u32::MAX
    &&& from.len() == s.announced
    &&& to.len() == s.announced
    &&& s.completed <= s.announced
    &&& forall|e: int| 0 <= e < s.completed ==> (#[trigger] to[e]).done
    &&& forall|e: int|
        0 <= e < to.len() ==> (#[trigger] from[e]).stream == to[e].stream && from[e].value
            == to[e].value && (from[e].done ==> to[e].done)
    &&& forall|k: int|
        0 <= k < v.pool.len() && (#[trigger] v.pool[k]) is Some && v.pool[k]->0.key == key
            ==> entry_tracked(
            v.pool[k]->0,
            s.completed as int,
            if k < i {
                to
            } else {
                from
            },
        )
    &&& producer_completion::one_place_each(v.pool)
}

proof fn lemma_fewer_places(
    pool: Seq<Option<Pending>>,
    left: Seq<Option<Pending>>,
)
    requires
        producer_completion::one_place_each(pool),
        left.len() == pool.len(),
        forall|k: int| 0 <= k < pool.len() ==> (#[trigger] left[k]) is None || left[k] == pool[k],
    ensures
        producer_completion::one_place_each(left),
{
    assert forall|j: int, k: int, key: Key, epoch: int| #[trigger]
        producer_completion::held_at(left, j, key, epoch) && #[trigger]
        producer_completion::held_at(left, k, key, epoch) implies j == k by {
        assert(left[j] == pool[j] && left[k] == pool[k]);
        assert(producer_completion::held_at(pool, j, key, epoch));
        assert(producer_completion::held_at(pool, k, key, epoch));
    }
}

/// A ledger that only lost entries, and knows the same of the allocation, holds the
/// same of it.
proof fn lemma_kept(v: Ledger, w: Ledger, key: Key, log: Seq<Publication>)
    requires
        tracks(v, key, log, log, 0),
        is_live(w, key),
        w.allocations.len() == v.allocations.len(),
        w.allocations[key.slot as int].snapshot == v.allocations[key.slot as int].snapshot,
        w.pool.len() == v.pool.len(),
        forall|k: int|
            0 <= k < v.pool.len() ==> (#[trigger] w.pool[k]) is None || w.pool[k] == v.pool[k],
    ensures
        tracks(w, key, log, log, 0),
{
    lemma_fewer_places(v.pool, w.pool);
}

proof fn lemma_stepped(
    v: Ledger,
    slot: int,
    k: int,
    key: Key,
    from: Seq<Publication>,
    to: Seq<Publication>,
    i: int,
)
    requires
        tracks(v, key, from, to, i),
        0 <= slot < v.allocations.len(),
        producer_completion::ready_at(v, slot, k),
        v.allocations[slot].snapshot.completed < v.allocations[slot].snapshot.announced,
    ensures
        tracks(producer_completion::stepped(v, slot, k), key, from, to, i),
{
    let w = producer_completion::stepped(v, slot, k);
    lemma_fewer_places(v.pool, w.pool);
    let s = v.allocations[key.slot as int].snapshot;
    if slot == key.slot {
        assert(producer_completion::slot_key(v, slot) == key);
        let p = v.pool[k]->0;
        assert(entry_tracked(
            p,
            s.completed as int,
            if k < i {
                to
            } else {
                from
            },
        ));
        assert(from[p.epoch - 1].done ==> to[p.epoch - 1].done);
        assert(to[s.completed as int].done);
        assert forall|j: int|
            0 <= j < w.pool.len() && (#[trigger] w.pool[j]) is Some && w.pool[j]->0.key
                == key implies entry_tracked(
            w.pool[j]->0,
            s.completed + 1,
            if j < i {
                to
            } else {
                from
            },
        ) by {
            assert(w.pool[j] == v.pool[j]);
            if w.pool[j]->0.epoch == s.completed + 1 {
                assert(producer_completion::held_at(v.pool, j, key, s.completed + 1));
                assert(producer_completion::held_at(v.pool, k, key, s.completed + 1));
            }
        }
    } else {
        assert forall|j: int|
            0 <= j < w.pool.len() && (#[trigger] w.pool[j]) is Some && w.pool[j]->0.key
                == key implies entry_tracked(
            w.pool[j]->0,
            s.completed as int,
            if j < i {
                to
            } else {
                from
            },
        ) by {
            assert(w.pool[j] == v.pool[j]);
        }
    }
}

proof fn lemma_settled(
    v: Ledger,
    slot: int,
    key: Key,
    from: Seq<Publication>,
    to: Seq<Publication>,
    i: int,
)
    requires
        tracks(v, key, from, to, i),
    ensures
        tracks(producer_completion::settled(v, slot), key, from, to, i),
        producer_completion::settled(v, slot).pool.len() == v.pool.len(),
        forall|j: int|
            0 <= j < v.pool.len() ==> (#[trigger] producer_completion::settled(
                v,
                slot,
            ).pool[j]) is None || producer_completion::settled(v, slot).pool[j] == v.pool[j],
    decreases v.allocations[slot].snapshot.announced - v.allocations[slot].snapshot.completed,
{
    if 0 <= slot < v.allocations.len() && v.allocations[slot].snapshot.completed
        < v.allocations[slot].snapshot.announced && exists|k: int| #[trigger]
        producer_completion::ready_at(v, slot, k) {
        let k = choose|k: int| #[trigger] producer_completion::ready_at(v, slot, k);
        lemma_stepped(v, slot, k, key, from, to, i);
        let w = producer_completion::stepped(v, slot, k);
        lemma_settled(w, slot, key, from, to, i);
        assert forall|j: int| 0 <= j < v.pool.len() implies (
        #[trigger] producer_completion::settled(v, slot).pool[j]) is None
            || producer_completion::settled(v, slot).pool[j] == v.pool[j] by {
            assert(producer_completion::settled(w, slot).pool[j] is None
                || producer_completion::settled(w, slot).pool[j] == w.pool[j]);
        }
    }
}

proof fn lemma_changed(
    v: Ledger,
    slot: int,
    key: Key,
    from: Seq<Publication>,
    to: Seq<Publication>,
    i: int,
)
    requires
        tracks(v, key, from, to, i),
    ensures
        tracks(producer_completion::changed(v, slot), key, from, to, i),
{
}

proof fn lemma_completed_from(
    v: Ledger,
    stream: u64,
    value: u32,
    i: int,
    key: Key,
    log: Seq<Publication>,
)
    requires
        0 <= i <= v.pool.len(),
        tracks(v, key, log, completing(log, stream, value), i),
    ensures
        tracks(
            producer_completion::completed_from(v, stream, value, i),
            key,
            completing(log, stream, value),
            completing(log, stream, value),
            0,
        ),
    decreases v.pool.len() - i,
{
    let to = completing(log, stream, value);
    if i < v.pool.len() {
        if producer_completion::is_operation(v, i, stream, value) {
            let p = v.pool[i]->0;
            let marked = Ledger {
                pool: v.pool.update(i, Some(Pending { done: true, ..p })),
                ..v
            };
            lemma_marked(v, marked, stream, value, i, key, log);
            lemma_settled(marked, p.key.slot as int, key, log, to, i + 1);
            let settled = producer_completion::settled(marked, p.key.slot as int);
            lemma_changed(settled, p.key.slot as int, key, log, to, i + 1);
            lemma_completed_from(
                producer_completion::finished(v, i),
                stream,
                value,
                i + 1,
                key,
                log,
            );
        } else {
            assert(tracks(v, key, log, to, i + 1));
            lemma_completed_from(v, stream, value, i + 1, key, log);
        }
    }
}

proof fn lemma_marked(
    v: Ledger,
    marked: Ledger,
    stream: u64,
    value: u32,
    i: int,
    key: Key,
    log: Seq<Publication>,
)
    requires
        0 <= i < v.pool.len(),
        tracks(v, key, log, completing(log, stream, value), i),
        producer_completion::is_operation(v, i, stream, value),
        marked == (Ledger {
            pool: v.pool.update(i, Some(Pending { done: true, ..v.pool[i]->0 })),
            ..v
        }),
    ensures
        tracks(marked, key, log, completing(log, stream, value), i + 1),
{
    assert forall|j: int, k: int, other: Key, epoch: int| #[trigger]
        producer_completion::held_at(marked.pool, j, other, epoch) && #[trigger]
        producer_completion::held_at(marked.pool, k, other, epoch) implies j == k by {
        assert(producer_completion::held_at(v.pool, j, other, epoch));
        assert(producer_completion::held_at(v.pool, k, other, epoch));
    }
    let to = completing(log, stream, value);
    let s = v.allocations[key.slot as int].snapshot;
    assert forall|k: int|
        0 <= k < marked.pool.len() && (#[trigger] marked.pool[k]) is Some
            && marked.pool[k]->0.key == key implies entry_tracked(
        marked.pool[k]->0,
        s.completed as int,
        if k < i + 1 {
            to
        } else {
            log
        },
    ) by {
        assert(v.pool[k] is Some && v.pool[k]->0.key == key);
    }
}

proof fn lemma_published(
    v: Ledger,
    other: Key,
    stream: u64,
    value: u32,
    done: bool,
    writer: int,
    place: int,
    key: Key,
    log: Seq<Publication>,
)
    requires
        tracks(v, key, log, log, 0),
        producer_completion::publish_refusal(v, other, stream, value) is None,
        producer_completion::first_free(v.pool, place),
        forall|k: int|
            0 <= k < v.pool.len() && (#[trigger] v.pool[k]) is Some ==> v.pool[k]->0.epoch
                <= v.allocations[v.pool[k]->0.key.slot as int].snapshot.announced,
    ensures
        tracks(
            producer_completion::published(v, other, stream, value, done, writer, place),
            key,
            logged(log, Step::Publish { key: other, stream, value, done }, key),
            logged(log, Step::Publish { key: other, stream, value, done }, key),
            0,
        ),
{
    let after = logged(log, Step::Publish { key: other, stream, value, done }, key);
    let s = v.allocations[other.slot as int].snapshot;
    let epoch = (s.announced + 1) as u64;
    let added = Pending { key: other, epoch, stream, value, done };
    let entered = Ledger {
        pool: v.pool.update(place, Some(added)),
        writers: v.writers.update(
            writer,
            Some(producer_completion::Writer { key: other, stream, value }),
        ),
        ..producer_completion::with_snapshot(
            v,
            other.slot as int,
            Snapshot { announced: epoch, ..s },
        )
    };
    assert(producer_completion::one_place_each(entered.pool)) by {
        assert forall|j: int, k: int, k2: Key, e: int| #[trigger]
            producer_completion::held_at(entered.pool, j, k2, e) && #[trigger]
            producer_completion::held_at(entered.pool, k, k2, e) implies j == k by {
            assert(j == place || producer_completion::held_at(v.pool, j, k2, e));
            assert(k == place || producer_completion::held_at(v.pool, k, k2, e));
            if j != k && (j == place || k == place) {
                let q = if j == place {
                    k
                } else {
                    j
                };
                assert(v.pool[q] is Some && v.pool[q]->0.key == other && v.pool[q]->0.epoch
                    == epoch);
            }
        }
    }
    assert(other.slot == key.slot ==> other == key);
    assert(tracks(entered, key, after, after, 0)) by {
        let t = entered.allocations[key.slot as int].snapshot;
        assert forall|k: int|
            0 <= k < entered.pool.len() && (#[trigger] entered.pool[k]) is Some
                && entered.pool[k]->0.key == key implies entry_tracked(
            entered.pool[k]->0,
            t.completed as int,
            after,
        ) by {
            if k != place {
                assert(v.pool[k] is Some && v.pool[k]->0.key == key);
                assert(entry_tracked(v.pool[k]->0, t.completed as int, log));
            }
        }
    }
    lemma_settled(entered, other.slot as int, key, after, after, 0);
    lemma_changed(
        producer_completion::settled(entered, other.slot as int),
        other.slot as int,
        key,
        after,
        after,
        0,
    );
}

/// Marking the allocations of a stream touches no epoch that is held.
proof fn lemma_stream_marked_pool(t: Table, stream: u64, status: u32, n: int)
    requires
        t.wf(),
        n <= t@.pool.len(),
    ensures
        producer_completion::stream_marked(t@, stream, status, n).pool == t@.pool,
        producer_completion::stream_marked(t@, stream, status, n).generation == t@.generation,
        producer_completion::stream_marked(t@, stream, status, n).allocations.len()
            == t@.allocations.len(),
    decreases n,
{
    if n > 0 {
        lemma_stream_marked_pool(t, stream, status, n - 1);
        if t@.pool[n - 1] is Some {
            producer_completion::law_only_live_epochs_are_held(t, n - 1);
        }
    }
}

proof fn lemma_slots_ended_frame(v: Ledger, n: int)
    requires
        n <= v.allocations.len(),
    ensures
        producer_completion::slots_ended(v, n).generation == v.generation,
        producer_completion::slots_ended(v, n).allocations.len() == v.allocations.len(),
    decreases n,
{
    if n > 0 {
        lemma_slots_ended_frame(v, n - 1);
    }
}

proof fn lemma_completed_frame(v: Ledger, stream: u64, value: u32, i: int)
    ensures
        producer_completion::completed_from(v, stream, value, i).generation == v.generation,
        producer_completion::completed_from(v, stream, value, i).allocations.len()
            == v.allocations.len(),
    decreases v.pool.len() - i,
{
    if 0 <= i < v.pool.len() {
        if producer_completion::is_operation(v, i, stream, value) {
            let p = v.pool[i]->0;
            let marked = Ledger {
                pool: v.pool.update(i, Some(Pending { done: true, ..p })),
                ..v
            };
            producer_completion::lemma_settled_frame(marked, p.key.slot as int);
            lemma_completed_frame(producer_completion::finished(v, i), stream, value, i + 1);
        } else {
            lemma_completed_frame(v, stream, value, i + 1);
        }
    }
}

/// No operation brings an ended allocation back, or a key that names none.
proof fn lemma_nothing_revives(t: Table, step: Step, w: Ledger, key: Key)
    requires
        t.wf(),
        leads(t@, step, w),
        is_spent(t@, key),
    ensures
        is_spent(w, key),
{
    let v = t@;
    let slot = key.slot as int;
    lemma_frame(t, step, w, slot);
}

/// What every operation keeps of a slot: its allocation, unless it registers another
/// one there, its end, once it has ended, and the epochs that it has reached.
proof fn lemma_frame(t: Table, step: Step, w: Ledger, slot: int)
    requires
        t.wf(),
        leads(t@, step, w),
    ensures
        w.allocations.len() == t@.allocations.len(),
        w.generation >= t@.generation,
        0 <= slot < w.allocations.len() ==> {
            let a = t@.allocations[slot].snapshot;
            let b = w.allocations[slot].snapshot;
            ||| b.generation == w.generation && w.generation == t@.generation + 1 && a.status
                != producer_completion::LIVE
            ||| b.generation == a.generation && a.announced <= b.announced && a.completed
                <= b.completed && (a.status != producer_completion::LIVE ==> b.status == a.status)
        },
{
    let v = t@;
    if 0 <= slot < v.allocations.len() {
        producer_completion::law_keys_name_their_slots(t, slot);
    }
    match step {
        Step::Register { id } => {},
        Step::Publish { key, stream, value, done } => {
            let s = v.allocations[key.slot as int].snapshot;
            let epoch = (s.announced + 1) as u64;
            let (writer, place) = choose|writer: int, place: int| #[trigger]
                producer_completion::writer_for(v, writer, key, stream) && #[trigger]
                producer_completion::first_free(v.pool, place) && w
                    == producer_completion::published(
                    v,
                    key,
                    stream,
                    value,
                    done,
                    writer,
                    place,
                );
            let entered = Ledger {
                pool: v.pool.update(place, Some(Pending { key, epoch, stream, value, done })),
                writers: v.writers.update(
                    writer,
                    Some(producer_completion::Writer { key, stream, value }),
                ),
                ..producer_completion::with_snapshot(
                    v,
                    key.slot as int,
                    Snapshot { announced: epoch, ..s },
                )
            };
            producer_completion::lemma_settled_frame(entered, key.slot as int);
            if 0 <= slot < v.allocations.len() {
                producer_completion::lemma_settled_keeps(entered, key.slot as int, slot);
            }
        },
        Step::Complete { stream, value } => {
            lemma_completed_frame(v, stream, value, 0);
            if 0 <= slot < v.allocations.len() {
                producer_completion::law_completion_only_advances(v, stream, value, 0, slot);
            }
        },
        Step::FailStream { stream, status } => {
            lemma_stream_marked_pool(t, stream, status, v.pool.len() as int);
            if 0 <= slot < v.allocations.len() {
                producer_completion::law_an_end_completes_nothing(
                    t,
                    Key { slot: 0, generation: 0 },
                    stream,
                    status,
                    slot,
                );
            }
        },
        Step::Terminal { key, status } => {
            if 0 <= slot < v.allocations.len() {
                producer_completion::law_an_end_completes_nothing(t, key, 0, status, slot);
            }
        },
        Step::Remove { key } => {
            if 0 <= slot < v.allocations.len() {
                producer_completion::law_an_end_completes_nothing(t, key, 0, 0, slot);
            }
        },
        Step::Reset => {
            lemma_slots_ended_frame(v, v.allocations.len() as int);
            if 0 <= slot < v.allocations.len() {
                producer_completion::law_an_end_completes_nothing(
                    t,
                    Key { slot: 0, generation: 0 },
                    0,
                    0,
                    slot,
                );
            }
        },
        _ => {},
    }
}

/// An operation leads from what a ledger holds of a live allocation to what its log
/// says afterwards, or ends the allocation.
proof fn lemma_one_step(t: Table, step: Step, w: Ledger, key: Key, log: Seq<Publication>)
    requires
        t.wf(),
        leads(t@, step, w),
        tracks(t@, key, log, log, 0),
    ensures
        tracks(w, key, logged(log, step, key), logged(log, step, key), 0) || is_spent(w, key),
{
    let v = t@;
    let slot = key.slot as int;
    producer_completion::law_keys_name_their_slots(t, slot);
    lemma_frame(t, step, w, slot);
    if is_live(w, key) {
        match step {
            Step::Publish { key: other, stream, value, done } => {
                let (writer, place) = choose|writer: int, place: int| #[trigger]
                    producer_completion::writer_for(v, writer, other, stream) && #[trigger]
                    producer_completion::first_free(v.pool, place) && w
                        == producer_completion::published(
                        v,
                        other,
                        stream,
                        value,
                        done,
                        writer,
                        place,
                    );
                assert forall|k: int|
                    0 <= k < v.pool.len() && (
                    #[trigger] v.pool[k]) is Some implies v.pool[k]->0.epoch
                    <= v.allocations[v.pool[k]->0.key.slot as int].snapshot.announced by {
                    producer_completion::law_only_live_epochs_are_held(t, k);
                }
                lemma_published(v, other, stream, value, done, writer, place, key, log);
            },
            Step::Complete { stream, value } => {
                assert(tracks(v, key, log, completing(log, stream, value), 0));
                lemma_completed_from(v, stream, value, 0, key, log);
            },
            Step::FailStream { stream, status } => {
                lemma_stream_marked_pool(t, stream, status, v.pool.len() as int);
                producer_completion::law_an_end_completes_nothing(t, key, stream, status, slot);
                lemma_kept(v, w, key, log);
            },
            Step::Terminal { key: other, status } => {
                producer_completion::law_an_end_completes_nothing(t, other, 0, status, slot);
                lemma_kept(v, w, key, log);
            },
            Step::Remove { key: other } => {
                producer_completion::law_an_end_completes_nothing(t, other, 0, 0, slot);
                lemma_kept(v, w, key, log);
            },
            Step::Reset => {
                producer_completion::law_an_end_completes_nothing(t, key, 0, 0, slot);
                lemma_kept(v, w, key, log);
            },
            _ => {
                lemma_kept(v, w, key, log);
            },
        }
    }
}

/// The tables follow each other by the steps.
pub open spec fn is_history(tables: Seq<Table>, steps: Seq<Step>) -> bool {
    &&& tables.len() == steps.len() + 1
    &&& forall|i: int| 0 <= i < tables.len() ==> (#[trigger] tables[i]).wf()
    &&& forall|i: int|
        0 <= i < steps.len() ==> leads(tables[i]@, #[trigger] steps[i], tables[i + 1]@)
}

proof fn lemma_history(tables: Seq<Table>, steps: Seq<Step>, key: Key)
    requires
        is_history(tables, steps),
        is_live(tables[0]@, key),
        tables[0]@.allocations[key.slot as int].snapshot.announced == 0,
    ensures
        ({
            let log = publications(steps, key);
            tracks(tables.last()@, key, log, log, 0) || is_spent(tables.last()@, key)
        }),
    decreases steps.len(),
{
    if steps.len() == 0 {
        let t = tables[0];
        producer_completion::law_keys_name_their_slots(t, key.slot as int);
        assert forall|k: int|
            0 <= k < t@.pool.len() && (#[trigger] t@.pool[k]) is Some && t@.pool[k]->0.key
                == key implies false by {
            producer_completion::law_only_live_epochs_are_held(t, k);
        }
    } else {
        let earlier = tables.drop_last();
        let before = steps.drop_last();
        let n = before.len() as int;
        assert forall|i: int| 0 <= i < before.len() implies leads(
            earlier[i]@,
            #[trigger] before[i],
            earlier[i + 1]@,
        ) by {
            assert(leads(tables[i]@, steps[i], tables[i + 1]@));
        }
        lemma_history(earlier, before, key);
        let t = tables[n];
        assert(earlier.last() == t);
        assert(leads(t@, steps[n], tables[n + 1]@));
        if is_spent(t@, key) {
            lemma_nothing_revives(t, steps[n], tables.last()@, key);
        } else {
            lemma_one_step(t, steps[n], tables.last()@, key, publications(before, key));
        }
    }
}

/// Over a whole history from the registration of an allocation on: as long as it is
/// live, every publication was announced under its own number, and the completed
/// epoch is the largest up to which every publication was done when it was published
/// or completed since. A later publication never covers an earlier one, and no other
/// operation completes anything.
pub proof fn law_completed_is_the_finished_prefix(
    tables: Seq<Table>,
    steps: Seq<Step>,
    key: Key,
)
    requires
        is_history(tables, steps),
        is_live(tables[0]@, key),
        tables[0]@.allocations[key.slot as int].snapshot.announced == 0,
        is_live(tables.last()@, key),
    ensures
        ({
            let log = publications(steps, key);
            let s = tables.last()@.allocations[key.slot as int].snapshot;
            &&& s.announced == log.len()
            &&& s.completed <= log.len()
            &&& forall|e: int| 0 <= e < s.completed ==> (#[trigger] log[e]).done
            &&& s.completed < log.len() ==> !log[s.completed as int].done
        }),
{
    lemma_history(tables, steps, key);
    let log = publications(steps, key);
    let t = tables.last();
    let slot = key.slot as int;
    let s = t@.allocations[slot].snapshot;
    producer_completion::law_keys_name_their_slots(t, slot);
    if s.completed < log.len() {
        let epoch = s.completed + 1;
        producer_completion::law_completed_is_the_done_prefix(t, slot, epoch);
        assert(producer_completion::slot_key(t@, slot) == key);
        let k = choose|k: int| #[trigger]
            producer_completion::held_at(t@.pool, k, producer_completion::slot_key(t@, slot), epoch);
        assert(!producer_completion::ready_at(t@, slot, k));
        assert(entry_tracked(t@.pool[k]->0, s.completed as int, log));
    }
}

/// The key names the allocation in its slot, and that allocation has not ended.
pub open spec fn names_live(v: Ledger, key: Key) -> bool {
    &&& 0 < key.generation
    &&& key.slot < v.allocations.len()
    &&& v.allocations[key.slot as int].snapshot.generation == key.generation
    &&& v.allocations[key.slot as int].snapshot.status == 0
}

/// The ledger holds an epoch of the allocation up to `epoch` as unfinished.
pub open spec fn waits_for(v: Ledger, key: Key, epoch: u64) -> bool {
    exists|k: int|
        0 <= k < v.pool.len() && (#[trigger] v.pool[k]) is Some && v.pool[k]->0.key == key
            && v.pool[k]->0.epoch <= epoch
}

/// What a wait finds: an error for a key that names nothing and for an epoch that was
/// never announced, the end of an allocation that has ended, and otherwise whether
/// that epoch or an earlier one is still unfinished.
pub proof fn law_a_wait_finds_what_is_unfinished(t: Table, key: Key, epoch: u64)
    requires
        t.wf(),
    ensures
        ({
            let v = t@;
            let s = v.allocations[key.slot as int].snapshot;
            let p = producer_completion::predicate_of(v, key, epoch);
            &&& (key.generation == 0 || key.slot >= v.allocations.len() || s.generation
                != key.generation || epoch > s.announced) <==> p == Err::<Predicate, Error>(
                Error::Invalid,
            )
            &&& key.generation != 0 && key.slot < v.allocations.len() && s.generation
                == key.generation && epoch <= s.announced && s.status != 0 ==> p == Ok::<
                Predicate,
                Error,
            >(Predicate::Terminal(s.status))
            &&& names_live(v, key) && epoch <= s.announced ==> p == Ok::<Predicate, Error>(
                if waits_for(v, key, epoch) {
                    Predicate::Pending
                } else {
                    Predicate::Ready
                },
            )
        }),
{
    let v = t@;
    let slot = key.slot as int;
    let s = v.allocations[slot].snapshot;
    if names_live(v, key) && epoch <= s.announced {
        producer_completion::law_keys_name_their_slots(t, slot);
        if s.completed < epoch {
            producer_completion::law_completed_is_the_done_prefix(t, slot, epoch as int);
            let k = choose|k: int| #[trigger]
                producer_completion::held_at(
                    v.pool,
                    k,
                    producer_completion::slot_key(v, slot),
                    epoch as int,
                );
            assert(v.pool[k] is Some && v.pool[k]->0.key == key && v.pool[k]->0.epoch <= epoch);
        }
        if waits_for(v, key, epoch) {
            let k = choose|k: int|
                0 <= k < v.pool.len() && (#[trigger] v.pool[k]) is Some && v.pool[k]->0.key == key
                    && v.pool[k]->0.epoch <= epoch;
            producer_completion::law_only_live_epochs_are_held(t, k);
        }
    }
}

/// What is ready for an epoch is ready for every earlier one, and stays ready under
/// every operation that does not end the allocation.
pub proof fn law_ready_stays_ready(
    t: Table,
    step: Step,
    w: Ledger,
    key: Key,
    epoch: u64,
    earlier: u64,
)
    requires
        t.wf(),
        leads(t@, step, w),
        producer_completion::predicate_of(t@, key, epoch) == Ok::<Predicate, Error>(
            Predicate::Ready,
        ),
        earlier <= epoch,
    ensures
        producer_completion::predicate_of(t@, key, earlier) == Ok::<Predicate, Error>(
            Predicate::Ready,
        ),
        names_live(w, key) ==> producer_completion::predicate_of(w, key, earlier) == Ok::<
            Predicate,
            Error,
        >(Predicate::Ready),
{
    law_a_wait_finds_what_is_unfinished(t, key, epoch);
    law_a_wait_finds_what_is_unfinished(t, key, earlier);
    lemma_frame(t, step, w, key.slot as int);
    producer_completion::law_keys_name_their_slots(t, key.slot as int);
}

/// An allocation that has ended answers every wait for an announced epoch with the same
/// end from then on, as long as its slot is not given to another one.
pub proof fn law_an_end_is_final(t: Table, step: Step, w: Ledger, key: Key, epoch: u64, status: u32)
    requires
        t.wf(),
        leads(t@, step, w),
        producer_completion::predicate_of(t@, key, epoch) == Ok::<Predicate, Error>(
            Predicate::Terminal(status),
        ),
    ensures
        w.allocations[key.slot as int].snapshot.generation == key.generation
            ==> producer_completion::predicate_of(w, key, epoch) == Ok::<Predicate, Error>(
            Predicate::Terminal(status),
        ),
        w.allocations[key.slot as int].snapshot.generation != key.generation
            ==> producer_completion::predicate_of(w, key, epoch) == Err::<Predicate, Error>(
            Error::Invalid,
        ),
{
    law_a_wait_finds_what_is_unfinished(t, key, epoch);
    lemma_frame(t, step, w, key.slot as int);
    producer_completion::law_keys_name_their_slots(t, key.slot as int);
}

} // verus!
