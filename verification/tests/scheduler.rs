//! Slot admission, step by step.
use std::collections::HashSet;

use aivyx_broker::scheduler::{AdmitEvent, AdmitStep};
use aivyx_broker::wake::wake_all;
use aivyx_broker::{Admission, Scheduler, SchedulerError, SlotHint};
use tokio::sync::oneshot;

fn hint(prefix_hash: &str, preferred_slot: Option<u32>) -> Option<SlotHint> {
    Some(SlotHint { prefix_hash: prefix_hash.to_string(), preferred_slot })
}

fn attempt(s: &mut Scheduler, hint: &Option<SlotHint>) -> (AdmitStep, oneshot::Receiver<()>) {
    let (tx, rx) = oneshot::channel();
    (s.admit_request(hint, AdmitEvent::Attempt(tx)), rx)
}

fn place(s: &mut Scheduler, hint: &Option<SlotHint>) -> Admission {
    match attempt(s, hint).0 {
        AdmitStep::Admitted(admission) => admission,
        other => panic!("expected an admission, got {other:?}"),
    }
}

/// Queues a caller and hands back what it is woken through.
fn queue(s: &mut Scheduler, hint: &Option<SlotHint>) -> oneshot::Receiver<()> {
    let (step, rx) = attempt(s, hint);
    assert_eq!(step, AdmitStep::Queued);
    rx
}

fn expire(s: &mut Scheduler, hint: &Option<SlotHint>) -> AdmitStep {
    s.admit_request(hint, AdmitEvent::Expired)
}

#[test]
fn admits_free_slot_with_no_hint() {
    let mut s = Scheduler::new(2);
    let admission = place(&mut s, &None);
    assert!(admission.slot_id < 2);
    assert!(!admission.cache_ready);
}

#[test]
fn second_admission_for_same_prefix_on_idle_slot_is_cache_ready() {
    let mut s = Scheduler::new(2);
    let first = place(&mut s, &None);
    s.mark_resident(first.slot_id, "prefix-a".to_string());
    s.release(first.slot_id);

    let second = place(&mut s, &hint("prefix-a", None));
    assert_eq!(second.slot_id, first.slot_id);
    assert!(second.cache_ready);
}

#[test]
fn preferred_slot_busy_queues_for_that_slot_specifically() {
    let mut s = Scheduler::new(2);
    let first = place(&mut s, &hint("a", Some(0)));
    assert_eq!(first.slot_id, 0);

    // Slot 1 is idle, and yet the second caller waits for slot 0.
    let mut rx = queue(&mut s, &hint("a", Some(0)));
    assert!(rx.try_recv().is_err());
    assert_eq!(wake_all(s.release(0)), vec![true]);
    assert_eq!(rx.try_recv(), Ok(()));
    assert_eq!(place(&mut s, &hint("a", Some(0))).slot_id, 0);
}

#[test]
fn no_free_slots_and_no_preference_times_out_with_clear_error() {
    let mut s = Scheduler::new(1);
    place(&mut s, &None);
    let _rx = queue(&mut s, &None);
    assert_eq!(expire(&mut s, &None), AdmitStep::Failed(SchedulerError::Timeout));
    assert_eq!(SchedulerError::Timeout.message(), "timed out waiting for a free slot");
}

#[test]
fn seed_busy_marks_slot_unavailable_until_explicitly_released() {
    let mut s = Scheduler::new(1);
    s.seed_busy(0);
    let _rx = queue(&mut s, &None);
    assert_eq!(expire(&mut s, &None), AdmitStep::Failed(SchedulerError::Timeout));

    s.release(0);
    assert_eq!(place(&mut s, &None).slot_id, 0);
}

#[test]
fn snapshot_reflects_busy_and_resident_state() {
    let mut s = Scheduler::new(2);
    let admission = place(&mut s, &None);
    s.mark_resident(admission.slot_id, "p".to_string());

    let snap = s.snapshot();
    let this_slot = snap.iter().find(|row| row.slot_id == admission.slot_id).unwrap();
    assert!(this_slot.busy);
    assert_eq!(this_slot.resident_prefix.as_deref(), Some("p"));
    assert_eq!(snap.len(), 2);
    assert!(!snap[1].busy);
    assert_eq!(snap[1].resident_prefix, None);
}

#[test]
fn release_retries_timed_out_waiters_preserving_fifo_for_slot() {
    let mut s = Scheduler::new(1);
    place(&mut s, &hint("test", Some(0)));

    let first = queue(&mut s, &hint("test", Some(0)));
    let mut second = queue(&mut s, &hint("test", Some(0)));
    assert_eq!(
        expire(&mut s, &hint("test", Some(0))),
        AdmitStep::Failed(SchedulerError::Timeout)
    );
    drop(first);

    // The first waiter is gone; the second is woken all the same.
    assert_eq!(wake_all(s.release(0)), vec![false, true]);
    assert_eq!(second.try_recv(), Ok(()));
    assert_eq!(place(&mut s, &hint("test", Some(0))).slot_id, 0);
}

#[test]
fn dropping_a_woken_waiter_before_repolling_does_not_leak_the_slot() {
    let mut s = Scheduler::new(1);
    let held = place(&mut s, &None);
    let waiter = queue(&mut s, &None);

    assert_eq!(wake_all(s.release(held.slot_id)), vec![true]);
    drop(waiter);

    let snap = s.snapshot();
    let slot = snap.iter().find(|row| row.slot_id == held.slot_id).unwrap();
    assert!(!slot.busy, "slot leaked: still busy after its woken waiter was dropped");
    assert!(s.try_admit(&None).is_some());
}

#[test]
fn reconcile_seeded_idle_frees_a_never_claimed_seeded_slot() {
    let mut s = Scheduler::new(1);
    s.seed_busy(0);
    assert!(s.try_admit(&None).is_none());

    s.reconcile_seeded_idle(0);
    assert_eq!(place(&mut s, &None).slot_id, 0);
}

#[test]
fn reconcile_seeded_idle_is_a_no_op_for_a_slot_claimed_by_the_broker() {
    let mut s = Scheduler::new(1);
    let held = place(&mut s, &None);
    assert_eq!(s.reconcile_seeded_idle(held.slot_id).len(), 0);

    let snap = s.snapshot();
    let slot = snap.iter().find(|row| row.slot_id == held.slot_id).unwrap();
    assert!(slot.busy, "a slot that the broker claimed must not be freed");
}

#[test]
fn a_seeded_slot_that_was_claimed_since_is_not_reconciled() {
    let mut s = Scheduler::new(1);
    s.seed_busy(0);
    s.reconcile_seeded_idle(0);
    place(&mut s, &None);
    assert_eq!(s.reconcile_seeded_idle(0).len(), 0);
    assert!(s.snapshot()[0].busy);
}

#[test]
fn a_slot_seeded_after_a_claim_is_not_freed_under_its_holder() {
    let mut s = Scheduler::new(1);
    assert_eq!(place(&mut s, &None).slot_id, 0);
    s.seed_busy(0);
    let mut waiter = queue(&mut s, &None);
    assert_eq!(s.reconcile_seeded_idle(0).len(), 0);
    assert!(s.snapshot()[0].busy);
    assert!(waiter.try_recv().is_err());

    // Only the holder frees it.
    assert_eq!(wake_all(s.release(0)), vec![true]);
    assert!(!s.snapshot()[0].busy);
}

#[test]
fn a_slot_claimed_once_stays_the_brokers_own() {
    let mut s = Scheduler::new(2);
    place(&mut s, &hint("p", Some(0)));
    s.release(0);
    // Claimed and given back before it is seeded.
    s.seed_busy(0);
    s.seed_busy(1);
    s.reconcile_seeded_idle(0);
    s.reconcile_seeded_idle(1);
    assert!(s.snapshot()[0].busy);
    assert!(!s.snapshot()[1].busy);
    // Seeded twice before any claim, it is freed all the same.
    s.seed_busy(1);
    s.seed_busy(1);
    s.reconcile_seeded_idle(1);
    assert!(!s.snapshot()[1].busy);
}

#[test]
fn there_are_never_more_admissions_than_slots() {
    let mut s = Scheduler::new(3);
    for slot_id in 0..3 {
        assert_eq!(place(&mut s, &None).slot_id, slot_id);
        s.seed_busy(slot_id);
        s.reconcile_seeded_idle(slot_id);
    }
    assert!(s.try_admit(&None).is_none());
    s.release(1);
    assert_eq!(place(&mut s, &None).slot_id, 1);
    assert!(s.try_admit(&None).is_none());
}

#[test]
fn fallback_admission_spreads_across_slots_via_lru_not_first_free() {
    let mut s = Scheduler::new(4);
    let mut slots_used = Vec::new();
    for i in 0..4 {
        let admission = place(&mut s, &hint(&format!("p{i}"), None));
        slots_used.push(admission.slot_id);
        s.release(admission.slot_id);
    }
    let distinct: HashSet<_> = slots_used.iter().collect();
    assert_eq!(
        distinct.len(),
        4,
        "expected all 4 slots to be used across 4 sequential admissions, got {slots_used:?}"
    );
    assert_eq!(slots_used, vec![0, 1, 2, 3]);
    // The fifth request goes to the one that was used the longest ago.
    assert_eq!(place(&mut s, &None).slot_id, 0);
}

#[test]
fn ping_pong_between_two_prefixes_uses_more_than_one_slot() {
    let mut s = Scheduler::new(4);
    let mut slots_used = HashSet::new();
    for i in 0..8 {
        let prefix = if i % 2 == 0 { "prefix-a" } else { "prefix-b" };
        let admission = place(&mut s, &hint(prefix, None));
        slots_used.insert(admission.slot_id);
        s.release(admission.slot_id);
    }
    assert!(
        slots_used.len() > 1,
        "expected more than 1 distinct slot across 8 ping-pong requests, got {slots_used:?}"
    );
}

#[test]
fn release_wakes_a_second_waiter_even_if_the_first_woken_one_is_dropped_unpolled() {
    let mut s = Scheduler::new(1);
    let held = place(&mut s, &None);
    let a = queue(&mut s, &None);
    let mut b = queue(&mut s, &None);

    assert_eq!(wake_all(s.release(held.slot_id)), vec![true, true]);
    drop(a);
    assert_eq!(b.try_recv(), Ok(()));
    assert_eq!(place(&mut s, &None).slot_id, held.slot_id);
}

#[test]
fn out_of_range_preferred_slot_falls_back_instead_of_hanging_the_full_timeout() {
    let mut s = Scheduler::new(2);
    let admission = place(&mut s, &hint("p", Some(99)));
    assert!(admission.slot_id < 2);
}

#[test]
fn out_of_range_preferred_slot_under_contention_falls_back_instead_of_hanging() {
    let mut s = Scheduler::new(2);
    let held_a = place(&mut s, &None);
    let _held_b = place(&mut s, &None);

    let mut waiter = queue(&mut s, &hint("p", Some(99)));
    assert_eq!(wake_all(s.release(held_a.slot_id)), vec![true]);
    assert_eq!(waiter.try_recv(), Ok(()));
    assert!(place(&mut s, &hint("p", Some(99))).slot_id < 2);
}

#[test]
fn reconcile_seeded_idle_wakes_a_queued_waiter() {
    let mut s = Scheduler::new(1);
    s.seed_busy(0);
    let mut waiter = queue(&mut s, &None);

    assert_eq!(wake_all(s.reconcile_seeded_idle(0)), vec![true]);
    assert_eq!(waiter.try_recv(), Ok(()));
    assert_eq!(place(&mut s, &None).slot_id, 0);
}

#[test]
fn clear_resident_removes_stale_prefix_bookkeeping() {
    let mut s = Scheduler::new(1);
    let first = place(&mut s, &hint("a", None));
    s.mark_resident(first.slot_id, "a".to_string());
    s.release(first.slot_id);

    let second = place(&mut s, &None);
    assert_eq!(second.slot_id, first.slot_id);
    s.clear_resident(second.slot_id);

    let snap = s.snapshot();
    let slot = snap.iter().find(|row| row.slot_id == second.slot_id).unwrap();
    assert_eq!(slot.resident_prefix, None);
}

#[test]
fn a_freed_slot_wakes_its_own_waiters_before_the_others() {
    let mut s = Scheduler::new(2);
    place(&mut s, &None);
    place(&mut s, &None);
    let mut any = queue(&mut s, &None);
    let mut own = queue(&mut s, &hint("p", Some(1)));
    let other = queue(&mut s, &hint("p", Some(0)));

    let mut woken = s.release(1).into_iter();
    woken.next().unwrap().send(()).unwrap();
    assert_eq!(own.try_recv(), Ok(()));
    assert!(any.try_recv().is_err());
    woken.next().unwrap().send(()).unwrap();
    assert_eq!(any.try_recv(), Ok(()));
    assert!(woken.next().is_none());
    drop(other);
    assert_eq!(wake_all(s.release(0)), vec![false]);
}

#[test]
fn a_resident_prefix_outranks_an_older_slot() {
    let mut s = Scheduler::new(3);
    for _ in 0..3 {
        place(&mut s, &None);
    }
    s.mark_resident(2, "warm".to_string());
    for slot_id in 0..3 {
        s.release(slot_id);
    }
    let admission = place(&mut s, &hint("warm", None));
    assert_eq!(admission, Admission { slot_id: 2, cache_ready: true });
    // The prefix does not match here, so the least recent slot is taken.
    let admission = place(&mut s, &hint("cold", None));
    assert_eq!(admission, Admission { slot_id: 0, cache_ready: false });
}

#[test]
fn a_preferred_slot_with_another_prefix_is_not_ready() {
    let mut s = Scheduler::new(2);
    s.mark_resident(0, "x".to_string());
    s.mark_resident(1, "y".to_string());
    let admission = place(&mut s, &hint("y", Some(0)));
    assert_eq!(admission, Admission { slot_id: 0, cache_ready: false });
}

#[test]
fn slots_that_do_not_exist_are_left_alone() {
    let mut s = Scheduler::new(1);
    s.seed_busy(1);
    s.mark_resident(7, "p".to_string());
    s.clear_resident(7);
    assert_eq!(s.release(1).len(), 0);
    assert_eq!(s.reconcile_seeded_idle(1).len(), 0);
    let snap = s.snapshot();
    assert_eq!(snap.len(), 1);
    assert!(!snap[0].busy);
    assert_eq!(s.admissions(), 0);
    place(&mut s, &None);
    assert_eq!(s.admissions(), 1);
}
