use core::cell::Cell;
use kmd_logic::producer_completion::{
    with_reference, Error, Key, Opens, Predicate, Table, Wait, Waiters, FAILED, REMOVED,
};

fn table() -> Table {
    Table::new(4, 8, 8).unwrap()
}
fn wait(key: Key, epoch: u64) -> Wait {
    Wait {
        owner: 1,
        binding: 1,
        key,
        epoch,
        event: 1,
    }
}

fn drain(w: &mut Waiters, t: &Table, owner: Option<usize>, binding: Option<u64>) -> Vec<Wait> {
    let mut woken = Vec::new();
    let mut from = 0;
    while let Some((wait, next)) = w.drain(t, owner, binding, from) {
        woken.push(wait);
        from = next;
    }
    woken
}

#[test]
fn announcement_before_submission_stays_pending() {
    let mut t = table();
    let a = t.register(11).unwrap();
    assert_eq!(t.publish(a, 101, 77, false), Ok(1));
    assert_eq!(t.predicate(a, 1), Ok(Predicate::Pending));
    t.complete(102, 77);
    t.complete(101, 76);
    assert_eq!(t.predicate(a, 1), Ok(Predicate::Pending));
    t.complete(101, 77);
    assert_eq!(t.predicate(a, 1), Ok(Predicate::Ready));
}

#[test]
fn exact_retirement_before_publication_is_ready() {
    let mut t = table();
    let a = t.register(11).unwrap();
    assert_eq!(t.publish(a, 101, 77, true), Ok(1));
    assert_eq!(t.predicate(a, 1), Ok(Predicate::Ready));
}

#[test]
fn out_of_order_resources_advance_independently_and_only_through_prefix() {
    let mut t = table();
    let a = t.register(11).unwrap();
    let b = t.register(12).unwrap();
    t.publish(a, 101, 40, false).unwrap();
    t.publish(a, 202, 1, false).unwrap();
    t.publish(b, 202, 1, false).unwrap();
    t.complete(202, 1);
    assert_eq!(t.snapshot(a).unwrap().completed, 0);
    assert_eq!(t.snapshot(b).unwrap().completed, 1);
    t.complete(101, 40);
    assert_eq!(t.snapshot(a).unwrap().completed, 2);
}

#[test]
fn completed_later_epoch_does_not_cover_pending_earlier_epoch_on_publication() {
    let mut t = table();
    let a = t.register(11).unwrap();
    t.publish(a, 101, 1, false).unwrap();
    t.publish(a, 202, 6, true).unwrap();
    assert_eq!(t.predicate(a, 2), Ok(Predicate::Pending));
    t.complete(101, 1);
    assert_eq!(t.predicate(a, 2), Ok(Predicate::Ready));
}

#[test]
fn independent_opens_retain_one_allocation_incarnation() {
    let mut t = table();
    let a = t.register(11).unwrap();
    let open1 = t.find(11).unwrap();
    let open2 = t.find(11).unwrap();
    t.retain(open1).unwrap();
    t.retain(open2).unwrap();
    t.publish(open1, 101, 1, false).unwrap();
    assert_eq!(t.snapshot(open2).unwrap().announced, 1);
    t.release(open1).unwrap();
    assert_eq!(t.predicate(open2, 1), Ok(Predicate::Pending));
    t.complete(101, 1);
    assert_eq!(t.snapshot(open2), t.snapshot(a));
}

#[test]
fn stale_generation_and_recycled_pointer_never_inherit_readiness() {
    let mut t = Table::new(1, 4, 4).unwrap();
    let a = t.register(11).unwrap();
    t.retain(a).unwrap();
    t.publish(a, 101, 1, false).unwrap();
    t.remove(a);
    assert_eq!(t.register(11), Err(Error::Capacity));
    assert_eq!(t.predicate(a, 1), Ok(Predicate::Terminal(REMOVED)));
    t.release(a).unwrap();
    let b = t.register(11).unwrap();
    assert_ne!(a.generation, b.generation);
    assert_eq!(t.snapshot(a), Err(Error::Invalid));
    t.publish(b, 202, 1, false).unwrap();
    t.complete(101, 1);
    assert_eq!(t.predicate(b, 1), Ok(Predicate::Pending));
}

#[test]
fn rejection_is_atomic_and_stream_values_are_not_resource_epochs() {
    let mut t = Table::new(2, 1, 2).unwrap();
    let a = t.register(11).unwrap();
    t.publish(a, 101, 900, false).unwrap();
    let before = t.snapshot(a).unwrap();
    for (stream, value, error) in [
        (101, 900, Error::Invalid),
        (101, 899, Error::Invalid),
        (0, 1, Error::Invalid),
        (101, 0, Error::Invalid),
        (202, 1, Error::Capacity),
    ] {
        assert_eq!(t.publish(a, stream, value, false), Err(error));
        assert_eq!(t.snapshot(a).unwrap(), before);
    }
    t.complete(101, 900);
    assert_eq!(t.publish(a, 202, 1, false), Ok(2));
}

#[test]
fn producer_failure_cancels_prefix_without_completing_it() {
    let mut t = table();
    let a = t.register(11).unwrap();
    let b = t.register(12).unwrap();
    t.publish(a, 101, 1, true).unwrap();
    t.publish(a, 101, 2, false).unwrap();
    t.publish(a, 202, 5, true).unwrap();
    t.publish(b, 202, 5, true).unwrap();
    t.fail_stream(101, FAILED);
    t.complete(101, 2);
    assert_eq!(t.snapshot(a).unwrap().completed, 1);
    assert_eq!(t.predicate(a, 1), Ok(Predicate::Terminal(FAILED)));
    assert_eq!(t.publish(a, 303, 1, true), Err(Error::Terminal(FAILED)));
    assert_eq!(t.predicate(b, 1), Ok(Predicate::Ready));
}

#[test]
fn register_retire_and_cancel_permutations_transfer_event_once() {
    for retire_first in [false, true] {
        for cancel_first in [false, true] {
            let mut t = table();
            let mut w = Waiters::new(2).unwrap();
            let a = t.register(11).unwrap();
            t.publish(a, 101, 1, false).unwrap();
            let request = wait(a, 1);
            if retire_first {
                t.complete(101, 1);
            }
            let predicate = w.register(&t, request).unwrap();
            let mut transferred = usize::from(predicate != Predicate::Pending);
            if cancel_first {
                transferred += usize::from(w.cancel(1, 1, 1).is_some());
            }
            t.complete(101, 1);
            transferred += drain(&mut w, &t, None, None).len();
            transferred += usize::from(w.cancel(1, 1, 1).is_some());
            assert!(drain(&mut w, &t, None, None).is_empty(), "event transferred twice");
            assert_eq!(transferred, 1);
        }
    }
}

#[test]
fn cancelled_event_reuse_cannot_cancel_a_different_binding() {
    let mut t = table();
    let mut w = Waiters::new(2).unwrap();
    let a = t.register(11).unwrap();
    t.publish(a, 101, 1, false).unwrap();
    let request = wait(a, 1);
    w.register(&t, request).unwrap();
    assert_eq!(w.cancel(2, 1, 1), None);
    assert_eq!(w.cancel(1, 2, 1), None);
    assert_eq!(w.cancel(1, 1, 1), Some(request));
    let next = Wait {
        binding: 2,
        ..request
    };
    w.register(&t, next).unwrap();
    assert_eq!(w.cancel(1, 1, 1), None);
    t.complete(101, 1);
    assert_eq!(drain(&mut w, &t, None, None), vec![next]);
}

#[test]
fn binding_close_only_cancels_its_own_waiters() {
    let mut t = table();
    let mut w = Waiters::new(3).unwrap();
    let a = t.register(11).unwrap();
    t.publish(a, 101, 1, false).unwrap();
    for binding in 1..=3 {
        w.register(
            &t,
            Wait {
                binding,
                event: binding as usize,
                ..wait(a, 1)
            },
        )
        .unwrap();
    }
    let mut got = Vec::new();
    for x in drain(&mut w, &t, Some(1), Some(2)) {
        got.push(x.binding);
    }
    assert_eq!(got, [2]);
    assert_eq!(t.predicate(a, 1), Ok(Predicate::Pending));
    for x in drain(&mut w, &t, Some(1), None) {
        got.push(x.binding);
    }
    assert_eq!(got, [2, 1, 3]);
}

#[test]
fn reset_and_allocation_teardown_wake_pending_without_completion() {
    for reset in [false, true] {
        let mut t = table();
        let mut w = Waiters::new(1).unwrap();
        let a = t.register(11).unwrap();
        t.publish(a, 101, 1, false).unwrap();
        w.register(&t, wait(a, 1)).unwrap();
        if reset {
            t.reset();
        } else {
            t.remove(a);
        }
        assert_eq!(drain(&mut w, &t, None, None).len(), 1);
        assert_eq!(t.snapshot(a).unwrap().completed, 0);
        assert_eq!(t.predicate(a, 1), Ok(Predicate::Terminal(REMOVED)));
        assert_eq!(w.register(&t, wait(a, 1)), Ok(Predicate::Terminal(REMOVED)));
    }
}

#[test]
fn invalid_future_or_capacity_wait_does_not_take_event_ownership() {
    let mut t = table();
    let mut w = Waiters::new(1).unwrap();
    let a = t.register(11).unwrap();
    t.publish(a, 101, 1, false).unwrap();
    assert_eq!(w.register(&t, wait(a, 2)), Err(Error::Invalid));
    w.register(&t, wait(a, 1)).unwrap();
    assert_eq!(w.register(&t, wait(a, 1)), Err(Error::Invalid));
    assert_eq!(
        w.register(
            &t,
            Wait {
                event: 2,
                ..wait(a, 1)
            }
        ),
        Err(Error::Capacity)
    );
    assert_eq!(w.cancel(1, 1, 2), None);
}

#[test]
fn dirty_view_reports_latest_snapshot_once_after_slot_reuse() {
    let mut t = table();
    let a = t.register(11).unwrap();
    t.publish(a, 101, 1, true).unwrap();
    t.remove(a);
    let b = t.register(12).unwrap();
    assert_eq!(a.slot, b.slot);
    assert_eq!(t.take_changed(), Some((b.slot, t.snapshot(b).unwrap())));
    assert_eq!(t.take_changed(), None);
}

#[test]
fn different_process_opens_share_the_registered_global_allocation() {
    let mut t = table();
    let mut opens = Opens::new(3).unwrap();
    let key = t.register(11).unwrap();
    opens.register(101, 1, key).unwrap();
    opens.register(102, 2, key).unwrap();
    t.retain(opens.resolve(101, 1).unwrap()).unwrap();
    t.retain(opens.resolve(102, 2).unwrap()).unwrap();
    t.publish(key, 1001, 1, true).unwrap();
    assert_eq!(t.snapshot(key).unwrap().completed, 1);
    opens.remove(101);
    t.release(key).unwrap();
    assert_eq!(opens.resolve(102, 2), Ok(key));
    assert_eq!(t.snapshot(key).unwrap().completed, 1);
}

#[test]
fn open_resolution_rejects_foreign_process_and_changed_generation() {
    let mut t = table();
    let mut opens = Opens::new(1).unwrap();
    let old = t.register(11).unwrap();
    opens.register(101, 1, old).unwrap();
    assert_eq!(opens.resolve(101, 2), Err(Error::Invalid));
    assert_eq!(opens.resolve(999, 1), Err(Error::Invalid));
    assert_eq!(opens.resolve(101, 1), Ok(old));
    t.remove(old);
    let new = t.register(12).unwrap();
    assert_eq!(old.slot, new.slot);
    assert_eq!(
        t.retain(opens.resolve(101, 1).unwrap()),
        Err(Error::Invalid)
    );
    opens.remove(101);
    assert_eq!(opens.resolve(101, 1), Err(Error::Invalid));
    opens.register(101, 1, new).unwrap();
    assert_eq!(opens.resolve(101, 1), Ok(new));
}

#[test]
fn opens_release_capacity_on_close_and_require_a_process_for_binding() {
    let key = Key {
        slot: 0,
        generation: 1,
    };
    let mut opens = Opens::new(1).unwrap();
    opens.register(101, 0, key).unwrap();
    assert_eq!(opens.resolve(101, 0), Err(Error::Invalid));
    assert_eq!(opens.register(101, 1, key), Err(Error::Invalid));
    assert_eq!(opens.register(102, 1, key), Err(Error::Capacity));
    opens.remove(101);
    opens.register(102, 1, key).unwrap();
}

#[test]
fn acquired_reference_spans_use_and_releases_once_on_success_or_refusal() {
    for result in [Ok(7), Err(Error::Capacity), Err(Error::Terminal(REMOVED))] {
        let held = Cell::new(false);
        let released = Cell::new(0);
        let got = with_reference(
            || {
                held.set(true);
                (11, 12)
            },
            |token| {
                assert_eq!(token, 12);
                assert!(held.replace(false));
                released.set(released.get() + 1);
            },
            |data| {
                assert_eq!(data, 11);
                assert!(held.get());
                result
            },
        );
        assert_eq!(got, result);
        assert!(!held.get());
        assert_eq!(released.get(), 1);
    }
}

#[test]
fn null_private_data_still_releases_an_acquired_reference() {
    let released = Cell::new(0);
    let result: Result<(), Error> = with_reference(
        || (0, 12),
        |token| {
            assert_eq!(token, 12);
            released.set(released.get() + 1);
        },
        |_| panic!("null private data must not be used"),
    );
    assert_eq!(result, Err(Error::Invalid));
    assert_eq!(released.get(), 1);
}

#[test]
fn failed_acquire_does_not_release_or_use_unprotected_data() {
    for data in [0, 11] {
        let result: Result<(), Error> = with_reference(
            || (data, 0),
            |_| panic!("no reference was acquired"),
            |_| panic!("unprotected private data must not be used"),
        );
        assert_eq!(result, Err(Error::Invalid));
    }
}

#[test]
fn the_completed_epoch_is_the_finished_prefix_in_every_order() {
    let orders = [[1u32, 2, 3], [1, 3, 2], [2, 1, 3], [2, 3, 1], [3, 1, 2], [3, 2, 1]];
    for order in orders {
        let mut t = table();
        let a = t.register(11).unwrap();
        for value in 1..=3 {
            t.publish(a, 101, value, false).unwrap();
        }
        let mut done = [false; 3];
        for value in order {
            t.complete(101, value);
            done[value as usize - 1] = true;
            let prefix = done.iter().take_while(|d| **d).count() as u64;
            assert_eq!(t.snapshot(a).unwrap().completed, prefix);
        }
    }
}

#[test]
fn a_drain_goes_on_from_where_it_is_told() {
    let mut t = table();
    let mut w = Waiters::new(3).unwrap();
    let a = t.register(11).unwrap();
    t.publish(a, 101, 1, false).unwrap();
    for binding in 1..=3 {
        let request = Wait {
            binding,
            event: binding as usize,
            ..wait(a, 1)
        };
        w.register(&t, request).unwrap();
    }
    assert_eq!(w.drain(&t, None, None, 0), None);
    t.complete(101, 1);
    let (second, next) = w.drain(&t, None, None, 1).unwrap();
    assert_eq!((second.binding, next), (2, 2));
    let (first, next) = w.drain(&t, None, None, 0).unwrap();
    assert_eq!((first.binding, next), (1, 1));
    let (third, next) = w.drain(&t, None, None, next).unwrap();
    assert_eq!((third.binding, next), (3, 3));
    assert_eq!(w.drain(&t, None, None, 0), None);
}

#[test]
fn nothing_is_reserved_for_no_capacity() {
    let mut opens = Opens::new(0).unwrap();
    let key = table().register(11).unwrap();
    assert_eq!(opens.register(1, 1, key), Err(Error::Capacity));
    let mut t = table();
    let a = t.register(11).unwrap();
    t.publish(a, 101, 1, false).unwrap();
    let mut w = Waiters::new(0).unwrap();
    assert_eq!(w.register(&t, wait(a, 1)), Err(Error::Capacity));
}
