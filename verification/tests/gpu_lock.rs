//! The GPU lock, step by step.
use aivyx_broker::gpu_lock::{AcquireEvent, AcquireStep, Reaped};
use aivyx_broker::wake::wake_all;
use aivyx_broker::{GpuLock, GpuLockError, LeaseId};
use tokio::sync::oneshot;

const MILLISECOND: u128 = 1_000_000;
const SECOND: u128 = 1000 * MILLISECOND;

fn attempt(lock: &mut GpuLock, now: u128) -> (AcquireStep, oneshot::Receiver<()>) {
    let (waiter, rx) = oneshot::channel();
    (lock.acquire(AcquireEvent::Attempt { waiter, now }), rx)
}

fn acquire(lock: &mut GpuLock, now: u128) -> LeaseId {
    match attempt(lock, now).0 {
        AcquireStep::Granted(lease) => lease,
        other => panic!("expected a lease, got {other:?}"),
    }
}

fn queue(lock: &mut GpuLock, now: u128) -> oneshot::Receiver<()> {
    let (step, rx) = attempt(lock, now);
    assert_eq!(step, AcquireStep::Queued);
    rx
}

fn refused(lock: &mut GpuLock, lease: LeaseId) -> GpuLockError {
    match lock.release(lease) {
        Ok(_) => panic!("the release must be refused"),
        Err(error) => error,
    }
}

#[test]
fn acquire_and_release_round_trips() {
    let mut lock = GpuLock::new(60 * SECOND);
    let lease = acquire(&mut lock, 0);
    lock.release(lease).unwrap();
}

#[test]
fn a_second_acquire_waits_for_the_first_release() {
    let mut lock = GpuLock::new(60 * SECOND);
    let first = acquire(&mut lock, 0);
    let mut waiter = queue(&mut lock, 0);
    assert!(waiter.try_recv().is_err());

    assert_eq!(wake_all(lock.release(first).unwrap()), vec![true]);
    assert_eq!(waiter.try_recv(), Ok(()));
    let second = acquire(&mut lock, 50 * MILLISECOND);
    assert!(second != first);
    lock.release(second).unwrap();
}

#[test]
fn acquire_times_out_clearly_when_never_released() {
    let mut lock = GpuLock::new(60 * SECOND);
    let _held = acquire(&mut lock, 0);
    let _rx = queue(&mut lock, 0);
    let step = lock.acquire(AcquireEvent::Expired);
    assert_eq!(step, AcquireStep::Failed(GpuLockError::Timeout));
    assert_eq!(GpuLockError::Timeout.message(), "timed out waiting for the GPU lock");
}

#[test]
fn releasing_an_unknown_or_already_released_lease_is_a_clear_error() {
    let mut lock = GpuLock::new(60 * SECOND);
    let lease = acquire(&mut lock, 0);
    lock.release(lease).unwrap();
    assert_eq!(refused(&mut lock, lease), GpuLockError::UnknownLease);
    assert_eq!(
        GpuLockError::UnknownLease.message(),
        "lease not found, already released, or expired"
    );
}

#[test]
fn release_rejects_a_lease_that_does_not_match_the_current_holder() {
    let mut lock = GpuLock::new(60 * SECOND);
    let real_holder = acquire(&mut lock, 0);
    let foreign_lease = LeaseId::from(uuid::Uuid::new_v4().as_u128());
    assert_eq!(refused(&mut lock, foreign_lease), GpuLockError::UnknownLease);
    lock.release(real_holder).unwrap();
}

#[test]
fn release_wakes_every_queued_waiter_not_just_the_first() {
    let mut lock = GpuLock::new(60 * SECOND);
    let held = acquire(&mut lock, 0);
    let a = queue(&mut lock, 0);
    let mut b = queue(&mut lock, 0);

    assert_eq!(wake_all(lock.release(held).unwrap()), vec![true, true]);
    drop(a);
    assert_eq!(b.try_recv(), Ok(()));
    let admitted = acquire(&mut lock, SECOND);
    lock.release(admitted).unwrap();
    assert!(!lock.is_held(), "lock must be free after the final release");
}

#[test]
fn reap_expired_force_releases_a_lease_past_max_hold() {
    let mut lock = GpuLock::new(50 * MILLISECOND);
    let held = acquire(&mut lock, 0);
    let reaped = lock.reap_expired(100 * MILLISECOND).unwrap();
    assert_eq!(reaped.lease, held);
    assert_eq!(reaped.held_for, 100 * MILLISECOND);
    acquire(&mut lock, 100 * MILLISECOND);
}

#[test]
fn reap_expired_is_a_no_op_when_nothing_is_held_or_the_hold_is_still_fresh() {
    let mut lock = GpuLock::new(60 * SECOND);
    assert!(lock.reap_expired(0).is_none());
    let held = acquire(&mut lock, SECOND);
    assert!(lock.reap_expired(SECOND).is_none());
    assert!(lock.reap_expired(0).is_none());
    lock.release(held).unwrap();
}

#[test]
fn a_lease_is_reaped_only_past_max_hold() {
    let mut lock = GpuLock::new(50);
    acquire(&mut lock, 10);
    assert!(lock.reap_expired(60).is_none());
    assert!(lock.reap_expired(61).is_some());
    assert!(!lock.is_held());
}

#[test]
fn a_late_release_after_reap_cannot_steal_the_next_holders_lock() {
    let mut lock = GpuLock::new(50 * MILLISECOND);
    let stale = acquire(&mut lock, 0);
    assert!(lock.reap_expired(100 * MILLISECOND).is_some());
    let fresh = acquire(&mut lock, 100 * MILLISECOND);

    assert_eq!(refused(&mut lock, stale), GpuLockError::UnknownLease);
    assert!(lock.is_held(), "fresh holder's lease must still be held");
    lock.release(fresh).unwrap();
}

#[test]
fn reap_expired_wakes_a_queued_waiter() {
    let mut lock = GpuLock::new(50 * MILLISECOND);
    let _held = acquire(&mut lock, 0);
    let mut waiter = queue(&mut lock, 20 * MILLISECOND);

    let Reaped { woken, .. } = lock.reap_expired(80 * MILLISECOND).unwrap();
    assert_eq!(wake_all(woken), vec![true]);
    assert_eq!(waiter.try_recv(), Ok(()));
    let admitted = acquire(&mut lock, 80 * MILLISECOND);
    lock.release(admitted).unwrap();
}

#[test]
fn a_given_lease_is_granted_only_while_the_lock_is_free() {
    let mut lock = GpuLock::new(SECOND);
    let (a, b) = (LeaseId::from(1), LeaseId::from(2));
    assert!(lock.grant(a, 0));
    assert!(!lock.grant(b, 0));
    assert_eq!(refused(&mut lock, b), GpuLockError::UnknownLease);
    lock.release(a).unwrap();
    assert!(lock.grant(b, 0));
}

#[test]
fn a_fresh_lease_is_a_random_uuid() {
    let mut lock = GpuLock::new(SECOND);
    let lease = acquire(&mut lock, 0);
    let uuid = uuid::Uuid::parse_str(&lease.to_text()).unwrap();
    assert_eq!(uuid.get_version_num(), 4);
    assert_eq!((uuid.as_u128() >> 62) % 4, 2);
    assert_eq!(LeaseId::from(uuid.as_u128()), lease);
}

#[test]
fn a_lease_id_is_written_with_hyphens_and_read_in_every_form() {
    let lease = LeaseId::from(0x936d_a01f_9abd_4d9d_80c7_02af_85c8_22a8);
    assert_eq!(lease.to_text(), "936da01f-9abd-4d9d-80c7-02af85c822a8");
    for text in [
        "936da01f-9abd-4d9d-80c7-02af85c822a8",
        "936DA01F-9ABD-4D9D-80C7-02AF85C822A8",
        "936da01f9abd4d9d80c702af85c822a8",
        "{936da01f-9abd-4d9d-80c7-02af85c822a8}",
        "urn:uuid:936da01f-9abd-4d9d-80c7-02af85c822a8",
        "URN:Uuid:936da01f-9abd-4d9d-80c7-02af85c822a8",
    ] {
        assert_eq!(LeaseId::parse(text), Some(lease));
    }
    for text in [
        "",
        "not-a-uuid",
        "936da01f-9abd-4d9d-80c7-02af85c822a",
        "936da01f09abd-4d9d-80c7-02af85c822a8",
        "{936da01f-9abd-4d9d-80c7-02af85c822a8)",
        "urn-uuid:936da01f-9abd-4d9d-80c7-02af85c822a8",
        "936da01f-9abd-4d9d-80c7-02af85c822\u{e9}8",
        "936da01f9abd4d9d80c702af85c822\u{e9}",
    ] {
        assert_eq!(LeaseId::parse(text), None);
    }
    assert_eq!(LeaseId::parse("936da01f-9abd-4d9d-80c7-02af85c822ag"), None);
    assert_eq!(LeaseId::from(0).to_text(), "00000000-0000-0000-0000-000000000000");
}
