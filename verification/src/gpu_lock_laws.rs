//! What holds of the GPU lock as a whole.
use crate::gpu_lock::{GpuLockView, HeldView};
use tokio::sync::oneshot;
use vstd::arithmetic::power::pow;
use vstd::prelude::*;

verus! {

/// One thing that can happen to the lock.
pub ghost enum LockChange {
    /// An attempt that would get `lease` at `now`, and waits with `waiter` if
    /// the lock is held.
    Attempt { waiter: oneshot::Sender<()>, lease: u128, now: nat },
    Release(u128),
    Reap(nat),
}

impl LockChange {
    pub open spec fn apply(self, s: GpuLockView) -> GpuLockView {
        match self {
            LockChange::Attempt { waiter, lease, now } => if s.held is None {
                s.granted(lease, now)
            } else {
                s.enqueue(waiter)
            },
            LockChange::Release(lease) => if s.held_by(lease) {
                s.freed()
            } else {
                s
            },
            LockChange::Reap(now) => if s.overdue(now) {
                s.freed()
            } else {
                s
            },
        }
    }

    /// Everyone who is woken by it.
    pub open spec fn wakes(self, s: GpuLockView) -> Seq<oneshot::Sender<()>> {
        match self {
            LockChange::Attempt { .. } => Seq::empty(),
            LockChange::Release(lease) => if s.held_by(lease) {
                s.queue
            } else {
                Seq::empty()
            },
            LockChange::Reap(now) => if s.overdue(now) {
                s.queue
            } else {
                Seq::empty()
            },
        }
    }
}

/// `states[k + 1]` is `states[k]` after `changes[k]`.
pub open spec fn lock_history(states: Seq<GpuLockView>, changes: Seq<LockChange>) -> bool {
    &&& states.len() == changes.len() + 1
    &&& forall|k: int|
        0 <= k < changes.len() ==> states[k + 1] == (#[trigger] changes[k]).apply(states[k])
}

/// At most one lease holds the lock.
pub proof fn law_the_lock_has_one_holder(s: GpuLockView, a: u128, b: u128)
    requires
        s.held_by(a),
        s.held_by(b),
    ensures
        a == b,
{
}

/// A lease holds the lock, unchanged since it was granted, through any history
/// in which neither its own release nor a reaping past the allowed time occurs:
/// no attempt of anyone else and no foreign release ends it.
pub proof fn law_a_lease_holds_until_it_is_released_or_reaped(
    states: Seq<GpuLockView>,
    changes: Seq<LockChange>,
    held: HeldView,
)
    requires
        lock_history(states, changes),
        states[0].held == Some(held),
        forall|k: int|
            0 <= k < changes.len() ==> {
                &&& #[trigger] changes[k] != LockChange::Release(held.lease)
                &&& changes[k] matches LockChange::Reap(now) ==> now - held.acquired_at
                    <= states[0].max_hold
            },
    ensures
        states.last().held == Some(held),
        states.last().max_hold == states[0].max_hold,
    decreases changes.len(),
{
    if changes.len() > 0 {
        let k = changes.len() - 1;
        let earlier = states.drop_last();
        assert forall|j: int| 0 <= j < changes.drop_last().len() implies earlier[j + 1] == (
        #[trigger] changes.drop_last()[j]).apply(earlier[j]) by {
            assert(changes[j].apply(states[j]) == states[j + 1]);
        }
        law_a_lease_holds_until_it_is_released_or_reaped(earlier, changes.drop_last(), held);
        assert(earlier.last() == states[k]);
        assert(states[k + 1] == changes[k].apply(states[k]));
    }
}

/// A release by anything but the holder's own lease is refused and changes
/// nothing.
pub proof fn law_a_foreign_release_is_refused(s: GpuLockView, foreign: u128)
    requires
        !s.held_by(foreign),
    ensures
        LockChange::Release(foreign).apply(s) == s,
        LockChange::Release(foreign).wakes(s).len() == 0,
{
}

/// A lease can be released only once.
pub proof fn law_a_second_release_is_refused(s: GpuLockView, lease: u128)
    requires
        s.held_by(lease),
    ensures
        !LockChange::Release(lease).apply(s).held_by(lease),
{
}

/// A holder that was reaped cannot take the lock from the next one: its late
/// release is refused, and the next holder keeps the lock.
pub proof fn law_a_late_release_cannot_steal_the_lock(
    s: GpuLockView,
    stale: u128,
    reaped_at: nat,
    waiter: oneshot::Sender<()>,
    fresh: u128,
    granted_at: nat,
)
    requires
        s.held_by(stale),
        s.overdue(reaped_at),
        fresh != stale,
    ensures
        ({
            let reaped = LockChange::Reap(reaped_at).apply(s);
            let next = LockChange::Attempt { waiter, lease: fresh, now: granted_at }.apply(reaped);
            &&& !reaped.held_by(stale)
            &&& next.held_by(fresh)
            &&& !next.held_by(stale)
            &&& LockChange::Release(stale).apply(next) == next
        }),
{
}

/// A lease is reaped exactly when it has been held for longer than allowed.
pub proof fn law_only_an_overdue_lease_is_reaped(s: GpuLockView, lease: u128, from: nat, now: nat)
    requires
        s.held is None,
    ensures
        now <= from + s.max_hold ==> LockChange::Reap(now).apply(s.granted(lease, from))
            == s.granted(lease, from),
        now > from + s.max_hold ==> LockChange::Reap(now).apply(s.granted(lease, from)).held
            is None,
        LockChange::Reap(now).apply(s) == s,
{
}

/// Nobody who waits is ever lost: a change either leaves the waiters in the
/// queue, or wakes all of them; and whenever the lock becomes free, it wakes
/// all of them.
pub proof fn law_no_waiter_for_the_lock_is_lost(s: GpuLockView, change: LockChange)
    ensures
        s.queue.is_prefix_of(change.apply(s).queue) || change.wakes(s) == s.queue,
        s.held is Some && change.apply(s).held is None ==> change.wakes(s) == s.queue
            && change.apply(s).queue.len() == 0,
{
}

/// A free lock is there for the taking, whatever becomes of those who were
/// woken for it.
pub proof fn law_a_free_lock_is_granted(
    s: GpuLockView,
    lease: u128,
    waiter: oneshot::Sender<()>,
    fresh: u128,
    now: nat,
)
    requires
        s.held_by(lease),
    ensures
        ({
            let freed = LockChange::Release(lease).apply(s);
            LockChange::Attempt { waiter, lease: fresh, now }.apply(freed).held_by(fresh)
        }),
{
}

/// The lock goes from one holder to the next only by way of an end: whenever a
/// holding has given way, it was ended by its own release or by a reaping past
/// the allowed time.
pub proof fn law_a_holding_ends_by_release_or_reaping(
    states: Seq<GpuLockView>,
    changes: Seq<LockChange>,
    held: HeldView,
)
    requires
        lock_history(states, changes),
        states[0].held == Some(held),
        states.last().held != Some(held),
    ensures
        exists|k: int|
            0 <= k < changes.len() && (#[trigger] changes[k] == LockChange::Release(held.lease)
                || (changes[k] matches LockChange::Reap(now) && now - held.acquired_at
                > states[0].max_hold)),
{
    if forall|k: int|
        0 <= k < changes.len() ==> {
            &&& #[trigger] changes[k] != LockChange::Release(held.lease)
            &&& changes[k] matches LockChange::Reap(now) ==> now - held.acquired_at
                <= states[0].max_hold
        } {
        law_a_lease_holds_until_it_is_released_or_reaped(states, changes, held);
    }
}

/// A lease that does not hold the lock never does again, as long as no attempt
/// draws the same id: no release, no reaping and nobody else's attempt brings
/// it back.
pub proof fn law_an_ended_lease_stays_ended(
    states: Seq<GpuLockView>,
    changes: Seq<LockChange>,
    ended: u128,
)
    requires
        lock_history(states, changes),
        !states[0].held_by(ended),
        forall|k: int|
            0 <= k < changes.len() ==> (#[trigger] changes[k] matches LockChange::Attempt {
                lease,
                ..
            } ==> lease != ended),
    ensures
        !states.last().held_by(ended),
    decreases changes.len(),
{
    if changes.len() > 0 {
        let k = changes.len() - 1;
        let earlier = states.drop_last();
        let shorter = changes.drop_last();
        assert forall|j: int| 0 <= j < shorter.len() implies earlier[j + 1] == (
        #[trigger] shorter[j]).apply(earlier[j]) by {
            assert(changes[j].apply(states[j]) == states[j + 1]);
        }
        assert forall|j: int| 0 <= j < shorter.len() implies (
        #[trigger] shorter[j] matches LockChange::Attempt { lease, .. } ==> lease != ended) by {
            assert(changes[j] == shorter[j]);
        }
        law_an_ended_lease_stays_ended(earlier, shorter, ended);
        assert(earlier.last() == states[k]);
        assert(states[k + 1] == changes[k].apply(states[k]));
    }
}

/// An attempt is granted exactly when the lock is free, at once and however
/// short the wait it would allow; from then on its lease is the only one that
/// holds the lock.
pub proof fn law_an_attempt_is_granted_exactly_when_the_lock_is_free(
    s: GpuLockView,
    waiter: oneshot::Sender<()>,
    lease: u128,
    now: nat,
    other: u128,
)
    ensures
        ({
            let t = LockChange::Attempt { waiter, lease, now }.apply(s);
            &&& s.held is None ==> t == s.granted(lease, now) && (t.held_by(other) <==> other
                == lease)
            &&& s.held is Some ==> t.held == s.held && t.queue == s.queue.push(waiter)
        }),
{
}

/// The digit of `v` at place `k`, and what it is worth.
proof fn lemma_hex_digit(v: u128, k: int)
    requires
        0 <= k < 32,
    ensures
        hex_value_at(v, k) == crate::gpu_lock::hex_value(crate::gpu_lock::hex_digit(v, k)),
{
    vstd::arithmetic::power::lemma_pow_positive(16, (31 - k) as nat);
    let d = (v as int / pow(16, (31 - k) as nat)) % 16;
    assert(0 <= d < 16);
}

spec fn hex_value_at(v: u128, k: int) -> Option<nat> {
    Some(((v as int / pow(16, (31 - k) as nat)) % 16) as nat)
}

/// All 32 digits of `v`.
spec fn hex_digits(v: u128) -> Seq<char> {
    Seq::new(32, |k: int| crate::gpu_lock::hex_digit(v, k))
}

/// The first `n` digits of `v` are worth `v` without its last `32 - n` digits.
proof fn lemma_leading_digits(v: u128, n: int)
    requires
        0 <= n <= 32,
    ensures
        crate::gpu_lock::hex_number(hex_digits(v).take(n)) == v as int
            / pow(16, (32 - n) as nat),
    decreases n,
{
    lemma_pow_16_32();
    if n == 0 {
        assert(hex_digits(v).take(0).len() == 0);
        vstd::arithmetic::div_mod::lemma_basic_div(
            v as int,
            pow(16, 32),
        );
    } else {
        let digits = hex_digits(v).take(n);
        assert(digits.drop_last() =~= hex_digits(v).take(n - 1));
        assert(digits.last() == crate::gpu_lock::hex_digit(v, n - 1));
        lemma_leading_digits(v, n - 1);
        lemma_hex_digit(v, n - 1);
        let p = pow(16, (32 - n) as nat);
        vstd::arithmetic::power::lemma_pow_positive(16, (32 - n) as nat);
        assert(pow(16, (33 - n) as nat) == 16 * p) by {
            reveal(pow);
        }
        assert(p * 16 == 16 * p);
        vstd::arithmetic::div_mod::lemma_div_denominator(v as int, p, 16);
        let x = v as int / p;
        assert(x >= 0) by {
            vstd::arithmetic::div_mod::lemma_div_pos_is_pos(v as int, p);
        }
        assert(x == (x / 16) * 16 + x % 16);
    }
}

proof fn lemma_pow_16_32()
    ensures
        pow(16, 32) == 0x1_0000_0000_0000_0000_0000_0000_0000_0000int,
{
    assert(pow(16, 8) == 0x1_0000_0000) by {
        reveal_with_fuel(pow, 9);
    }
    vstd::arithmetic::power::lemma_pow_adds(16, 8, 8);
    vstd::arithmetic::power::lemma_pow_adds(16, 16, 16);
    let a = pow(16, 8);
    let b = pow(16, 16);
    assert(a * a == 0x1_0000_0000_0000_0000) by (nonlinear_arith)
        requires
            a == 0x1_0000_0000,
    ;
    assert(b * b == 0x1_0000_0000_0000_0000_0000_0000_0000_0000) by (nonlinear_arith)
        requires
            b == 0x1_0000_0000_0000_0000,
    ;
}

/// The text that a client gets with a lease names that lease: what is written
/// is read back, for every lease.
pub proof fn law_a_lease_is_read_back(v: u128)
    ensures
        crate::gpu_lock::uuid_of_text(crate::gpu_lock::hyphenated(v)) == Some(v),
{
    let s = crate::gpu_lock::hyphenated(v);
    let digits = hex_digits(v);
    assert(s.subrange(0, 8) + s.subrange(9, 13) + s.subrange(14, 18) + s.subrange(19, 23)
        + s.subrange(24, 36) =~= digits);
    assert forall|k: int| 0 <= k < 32 implies crate::gpu_lock::hex_value(
        #[trigger] digits[k],
    ) is Some by {
        lemma_hex_digit(v, k);
    }
    lemma_leading_digits(v, 32);
    assert(digits.take(32) =~= digits);
    assert(pow(16, 0) == 1) by {
        reveal(pow);
    }
    assert(v as int / 1 == v as int);
}

/// What each operation does to the lock, and what it leaves alone: a grant
/// names the holder and the moment, queueing adds one waiter at the end, and
/// freeing leaves neither holder nor waiters. The allowed time never changes.
pub proof fn law_what_happens_to_the_lock(
    s: GpuLockView,
    lease: u128,
    now: nat,
    waiter: oneshot::Sender<()>,
)
    ensures
        ({
            let t = s.granted(lease, now);
            &&& t.held is Some
            &&& t.held->0.lease == lease
            &&& t.held->0.acquired_at == now
            &&& t.queue == s.queue
            &&& t.max_hold == s.max_hold
        }),
        ({
            let t = s.enqueue(waiter);
            &&& t.held == s.held
            &&& t.queue == s.queue.push(waiter)
            &&& t.max_hold == s.max_hold
        }),
        ({
            let t = s.freed();
            &&& t.held is None
            &&& t.queue.len() == 0
            &&& t.max_hold == s.max_hold
        }),
{
}

/// The lock is held by a lease exactly if that is the lease it was granted
/// under, and overdue exactly if its holder has had it for longer than allowed.
pub proof fn law_who_holds_the_lock_and_how_long(s: GpuLockView, lease: u128, now: nat)
    ensures
        s.held is None ==> !s.held_by(lease) && !s.overdue(now),
        s.held matches Some(h) ==> (s.held_by(lease) <==> h.lease == lease),
        s.held matches Some(h) ==> (s.overdue(now) <==> h.acquired_at + s.max_hold < now),
{
}

/// Every fresh lease reads as a random UUID: a `4` in front of the third group,
/// and one of `8`, `9`, `a` and `b` in front of the fourth.
pub proof fn law_a_fresh_lease_reads_as_a_random_uuid(v: u128)
    requires
        crate::gpu_lock::is_random_uuid(v),
    ensures
        crate::gpu_lock::hyphenated(v).len() == 36,
        crate::gpu_lock::hyphenated(v)[14] == '4',
        crate::gpu_lock::hyphenated(v)[19] == '8' || crate::gpu_lock::hyphenated(v)[19] == '9'
            || crate::gpu_lock::hyphenated(v)[19] == 'a' || crate::gpu_lock::hyphenated(v)[19]
            == 'b',
{
    let x = v as int;
    vstd::arithmetic::power::lemma_pow_multiplies(2, 4, 19);
    vstd::arithmetic::power::lemma_pow_multiplies(2, 4, 15);
    assert(pow(2, 4) == 16) by {
        reveal_with_fuel(pow, 5);
    }
    assert(pow(16, 19) == pow(2, 76));
    assert(pow(16, 15) == pow(2, 60));
    assert(pow(2, 62) == pow(2, 60) * 4) by {
        vstd::arithmetic::power::lemma_pow_adds(2, 60, 2);
        reveal_with_fuel(pow, 3);
    }
    vstd::arithmetic::power::lemma_pow_positive(2, 60);
    vstd::arithmetic::div_mod::lemma_div_denominator(x, pow(2, 60), 4);
    let y = x / pow(2, 60);
    vstd::arithmetic::div_mod::lemma_div_pos_is_pos(x, pow(2, 60));
    assert((y / 4) % 4 == 2);
    assert((y % 16) / 4 == (y / 4) % 4);
    assert(8 <= y % 16 < 12);
}

/// Two leases read alike only if they are the same, and the other forms of a
/// lease's text stand for the same lease: without hyphens, in braces, or as a
/// URN.
pub proof fn law_a_lease_is_read_in_every_form(v: u128, w: u128)
    ensures
        crate::gpu_lock::hyphenated(v) == crate::gpu_lock::hyphenated(w) <==> v == w,
        crate::gpu_lock::uuid_of_text(
            seq!['{'] + crate::gpu_lock::hyphenated(v) + seq!['}'],
        ) == Some(v),
        crate::gpu_lock::uuid_of_text("urn:uuid:"@ + crate::gpu_lock::hyphenated(v)) == Some(v),
        ({
            let text = crate::gpu_lock::hyphenated(v);
            crate::gpu_lock::uuid_of_text(
                text.subrange(0, 8) + text.subrange(9, 13) + text.subrange(14, 18)
                    + text.subrange(19, 23) + text.subrange(24, 36),
            ) == Some(v)
        }),
{
    law_a_lease_is_read_back(v);
    law_a_lease_is_read_back(w);
    let text = crate::gpu_lock::hyphenated(v);
    let braced = seq!['{'] + text + seq!['}'];
    assert(braced.subrange(1, 37) =~= text);
    reveal_strlit("urn:uuid:");
    let urn = "urn:uuid:"@ + text;
    assert("urn:uuid:"@.len() == 9);
    assert(urn.subrange(9, 45) =~= text);
    assert(crate::gpu_lock::starts_with_in_any_case(urn, "urn:uuid:"@));
}

} // verus!
