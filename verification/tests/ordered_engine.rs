use kmd_logic::ordered_engine::{
    AdmissionRefusal, CompletionDisposition, FailureDisposition, OrderedEngine,
};

#[test]
fn invalidate_makes_every_prior_ticket_stale_and_never_retired() {
    let mut engine: OrderedEngine<4> = OrderedEngine::new();
    assert!(engine.reopen(0));
    let retired = engine.admit_fence(1).unwrap();
    assert!(matches!(
        engine.mark_host_completed(retired),
        CompletionDisposition::Marked { .. }
    ));
    let ready = engine.peek_ready().unwrap();
    assert_eq!(engine.retire_ready(ready), Ok(1));
    assert!(engine.ticket_was_retired(retired));
    assert!(!engine.ticket_is_stale_epoch(retired));
    let pending = engine.admit_fence(2).unwrap();

    assert!(engine.invalidate().epoch_advanced);
    assert!(engine.reopen(1));
    assert!(!engine.ticket_was_retired(retired));
    assert!(engine.ticket_is_stale_epoch(retired));
    assert!(!engine.ticket_was_retired(pending));
    assert!(engine.ticket_is_stale_epoch(pending));
    let fresh = engine.admit_fence(3).unwrap();
    assert!(!engine.ticket_is_stale_epoch(fresh));
    assert!(!engine.ticket_was_retired(fresh));
}

fn open<const N: usize>() -> OrderedEngine<N> {
    let mut engine = OrderedEngine::new();
    assert!(engine.reopen(0));
    engine
}

#[test]
fn head_awaiting_host_names_only_an_unfinished_head() {
    let mut engine = open::<4>();
    assert_eq!(engine.head_awaiting_host(), None, "empty");
    let first = engine.admit_fence(1).unwrap();
    let second = engine.admit_fence(2).unwrap();
    assert_eq!(engine.head_awaiting_host(), Some(first));
    assert!(matches!(
        engine.mark_host_completed(second),
        CompletionDisposition::Marked {
            retained_early: true
        }
    ));
    assert_eq!(engine.head_awaiting_host(), Some(first));
    assert!(matches!(
        engine.mark_host_completed(first),
        CompletionDisposition::Marked {
            retained_early: false
        }
    ));
    assert_eq!(engine.head_awaiting_host(), None);
    let ready = engine.peek_ready().unwrap();
    assert_eq!(engine.retire_ready(ready), Ok(1));
    assert_eq!(engine.head_awaiting_host(), None);
    let ready = engine.peek_ready().unwrap();
    assert_eq!(engine.retire_ready(ready), Ok(2));
    let third = engine.admit_fence(3).unwrap();
    assert_eq!(engine.head_awaiting_host(), Some(third));
    assert!(engine.invalidate().epoch_advanced);
    assert_eq!(engine.head_awaiting_host(), None, "closed after invalidate");
}

#[test]
fn closed_frontier_admits_nothing() {
    let mut engine = OrderedEngine::<4>::new();
    assert_eq!(engine.admit_fence(1), Err(AdmissionRefusal::Closed));
}

#[test]
fn early_completion_is_retained_until_the_head_completes() {
    let mut engine = open::<4>();
    let first = engine.admit_fence(10).unwrap();
    let second = engine.admit_fence(40).unwrap();
    assert_eq!(
        engine.mark_host_completed(second),
        CompletionDisposition::Marked {
            retained_early: true
        }
    );
    assert_eq!(engine.peek_ready(), None);
    assert_eq!(
        engine.mark_host_completed(first),
        CompletionDisposition::Marked {
            retained_early: false
        }
    );
    assert_eq!(engine.peek_ready().unwrap().fence(), 10);
    let ready = engine.peek_ready().unwrap();
    assert_eq!(engine.retire_ready(ready), Ok(10));
    assert_eq!(engine.peek_ready().unwrap().fence(), 40);
}

#[test]
fn notification_failure_keeps_the_same_ready_head() {
    let mut engine = open::<2>();
    let ticket = engine.admit_fence(7).unwrap();
    engine.mark_host_completed(ticket);
    let before = engine.peek_ready().unwrap();
    assert_eq!(engine.peek_ready(), Some(before));
    assert_eq!(engine.len(), 1);
}

#[test]
fn reset_invalidates_a_late_callback_and_allows_a_fresh_generation() {
    let mut engine = open::<2>();
    let stale = engine.admit_fence(9).unwrap();
    let invalidation = engine.invalidate();
    assert_eq!(invalidation.dropped, 1);
    assert!(invalidation.epoch_advanced);
    assert_eq!(
        engine.mark_host_completed(stale),
        CompletionDisposition::StaleEpoch
    );
    assert!(engine.reopen(8));
    let fresh = engine.admit_fence(9).unwrap();
    assert_ne!(fresh.epoch(), stale.epoch());
    assert_eq!(
        engine.mark_host_completed(fresh),
        CompletionDisposition::Marked {
            retained_early: false
        }
    );
}

#[test]
fn capacity_exhaustion_poisoned_the_generation_instead_of_bypassing() {
    let mut engine = open::<2>();
    let first = engine.admit_fence(1).unwrap();
    engine.admit_fence(2).unwrap();
    assert_eq!(engine.admit_fence(3), Err(AdmissionRefusal::Capacity));
    assert!(engine.is_poisoned());
    assert_eq!(
        engine.mark_host_completed(first),
        CompletionDisposition::Poisoned
    );
    assert_eq!(engine.peek_ready(), None);
    engine.invalidate();
    assert!(engine.reopen(0));
}

#[test]
fn duplicate_or_backward_scheduler_fence_fails_closed() {
    let mut duplicate = open::<2>();
    duplicate.admit_fence(4).unwrap();
    assert_eq!(
        duplicate.admit_fence(4),
        Err(AdmissionRefusal::NotForward {
            previous: 4,
            found: 4
        })
    );
    assert!(duplicate.is_poisoned());

    let mut backward = open::<2>();
    backward.admit_fence(8).unwrap();
    assert_eq!(
        backward.admit_fence(7),
        Err(AdmissionRefusal::NotForward {
            previous: 8,
            found: 7
        })
    );
    assert!(backward.is_poisoned());
}

#[test]
fn submission_fence_wrap_uses_wddm_half_range_ordering() {
    let mut engine = OrderedEngine::<2>::new();
    assert!(engine.reopen(u32::MAX - 1));
    engine.admit_fence(u32::MAX).unwrap();
    engine.admit_fence(0).unwrap();
}

#[test]
fn host_rejection_never_advances_a_later_completion() {
    let mut engine = open::<3>();
    let failed = engine.admit_fence(1).unwrap();
    let later = engine.admit_fence(2).unwrap();
    assert_eq!(engine.fail_submission(failed), FailureDisposition::Poisoned);
    assert_eq!(
        engine.mark_host_completed(later),
        CompletionDisposition::Poisoned
    );
    assert_eq!(engine.peek_ready(), None);
}

#[test]
fn a_reused_physical_slot_does_not_accept_its_old_ticket() {
    let mut engine = open::<1>();
    let old = engine.admit_fence(1).unwrap();
    engine.mark_host_completed(old);
    let ready = engine.peek_ready().unwrap();
    engine.retire_ready(ready).unwrap();
    assert!(engine.ticket_was_retired(old));
    let fresh = engine.admit_fence(2).unwrap();
    assert_eq!(old.slot(), fresh.slot());
    assert_ne!(old.serial(), fresh.serial());
    assert_eq!(
        engine.mark_host_completed(old),
        CompletionDisposition::StaleTicket
    );
}

#[test]
fn zero_capacity_never_opens() {
    let mut engine = OrderedEngine::<0>::new();
    assert!(!engine.reopen(0));
    assert_eq!(engine.admit_fence(1), Err(AdmissionRefusal::Closed));
}

#[test]
fn in_place_initialization_matches_the_const_constructor() {
    let mut engine = OrderedEngine::<4>::new();
    assert!(engine.reopen(0));
    assert!(engine.admit_fence(1).is_ok());
    assert!(engine.invalidate().epoch_advanced);
    OrderedEngine::initialize_at(&mut engine);
    assert_eq!(engine.epoch(), 1);
    assert_eq!(engine.len(), 0);
    assert!(!engine.is_open());
    assert!(engine.reopen(0));
    assert!(engine.admit_fence(1).is_ok());
}

#[test]
fn a_second_invalidation_changes_nothing() {
    let mut engine = OrderedEngine::<4>::new();
    let idle = engine.invalidate();
    assert!(idle.dropped == 0 && !idle.epoch_advanced && engine.epoch() == 1);
    assert!(engine.reopen(0));
    let ticket = engine.admit_fence(1).unwrap();
    let first = engine.invalidate();
    assert!(first.dropped == 1 && first.epoch_advanced);
    assert_eq!((engine.epoch(), engine.len()), (2, 0));
    assert!(engine.ticket_is_stale_epoch(ticket));
    assert!(!engine.ticket_is_live(ticket) && !engine.ticket_was_retired(ticket));
    let second = engine.invalidate();
    assert!(second.dropped == 0 && !second.epoch_advanced && engine.epoch() == 2);
}
