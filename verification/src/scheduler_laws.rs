//! What holds of slot admission as a whole.
use crate::scheduler::{HintView, SchedulerView, SlotHint};
use tokio::sync::oneshot;
use vstd::prelude::*;

verus! {

/// A change of the scheduler's state, as its operations make them.
pub ghost enum Change {
    /// Slot claimed by an admitted request.
    Claim(int),
    /// Caller queued because nothing could be admitted.
    Enqueue(Option<HintView>, oneshot::Sender<()>),
    /// Slot released by its holder.
    Release(int),
    /// Slot reported idle by `llama-server`.
    Reconcile(int),
    /// Resident prefix recorded or forgotten.
    Resident(int, Option<Seq<char>>),
    /// Slot found busy at startup.
    Seed(int),
}

impl Change {
    /// The change can happen in this state.
    pub open spec fn possible(self, s: SchedulerView) -> bool {
        match self {
            Change::Claim(i) => s.idle(i) && s.clock < u64::MAX,
            Change::Enqueue(hint, _) => !s.admittable(hint),
            Change::Release(i) => 0 <= i < s.slots.len(),
            Change::Reconcile(i) => 0 <= i < s.slots.len(),
            Change::Resident(i, _) => 0 <= i < s.slots.len(),
            Change::Seed(i) => 0 <= i < s.slots.len(),
        }
    }

    pub open spec fn apply(self, s: SchedulerView) -> SchedulerView {
        match self {
            Change::Claim(i) => s.claim(i),
            Change::Enqueue(hint, waiter) => s.enqueue(hint, waiter),
            Change::Release(i) => s.freed(i),
            Change::Reconcile(i) => if s.slots[i].seeded_unowned {
                s.freed(i)
            } else {
                s
            },
            Change::Resident(i, prefix) => s.with_resident(i, prefix),
            Change::Seed(i) => s.seeded(i),
        }
    }

    /// Everyone whom the change wakes.
    pub open spec fn wakes(self, s: SchedulerView) -> Seq<oneshot::Sender<()>> {
        match self {
            Change::Release(i) => s.woken(i),
            Change::Reconcile(i) => if s.slots[i].seeded_unowned {
                s.woken(i)
            } else {
                Seq::empty()
            },
            _ => Seq::empty(),
        }
    }
}

/// `states` is a history of the scheduler: each state follows from the one
/// before by the change between them.
pub open spec fn history(states: Seq<SchedulerView>, changes: Seq<Change>) -> bool {
    &&& states.len() == changes.len() + 1
    &&& states[0].valid()
    &&& forall|k: int|
        0 <= k < changes.len() ==> {
            &&& (#[trigger] changes[k]).possible(states[k])
            &&& states[k + 1] == changes[k].apply(states[k])
        }
}

/// No change breaks the scheduler's invariant, and none adds or removes a
/// slot.
pub proof fn law_every_change_keeps_the_invariant(s: SchedulerView, change: Change)
    requires
        s.valid(),
        change.possible(s),
    ensures
        change.apply(s).valid(),
        change.apply(s).slots.len() == s.slots.len(),
{
    let t = change.apply(s);
    assert forall|i: int| 0 <= i < t.slots.len() implies (#[trigger] t.slots[i]).last_used
        <= t.clock by {
        assert(s.slots[i].last_used <= s.clock);
    }
    assert forall|i: int, j: int|
        0 <= i < j < t.slots.len() && (#[trigger] t.slots[i]).last_used == (
        #[trigger] t.slots[j]).last_used implies t.slots[i].last_used == 0 by {
        assert(s.slots[i].last_used <= s.clock);
        assert(s.slots[j].last_used <= s.clock);
    }
    assert forall|i: int|
        0 <= i < t.slots.len() && (
        #[trigger] t.slots[i]).seeded_unowned implies t.slots[i].last_used == 0 by {
        assert(s.slots[i].seeded_unowned ==> s.slots[i].last_used == 0);
    }
}

/// A choice exists exactly when the request can be admitted, and there is only
/// one: the state and the hint alone decide which slot a request gets.
pub proof fn law_the_choice_is_determined(
    s: SchedulerView,
    hint: Option<HintView>,
)
    ensures
        s.admittable(hint) <==> exists|i: int| s.chosen(hint, i),
        forall|i: int, j: int| s.chosen(hint, i) && s.chosen(hint, j) ==> i == j,
{
    if s.admittable(hint) {
        match s.preference(hint) {
            Some(p) => {
                assert(s.chosen(hint, p));
            },
            None => {
                if exists|j: int| s.idle_resident(hint, j) {
                    let j = choose|j: int| s.idle_resident(hint, j);
                    let i = lemma_first_idle_resident(s, hint, j);
                    assert(s.chosen(hint, i));
                } else {
                    let j = choose|j: int| s.idle(j);
                    let i = lemma_least_recent(s, s.slots.len() as int, j);
                    assert(s.chosen(hint, i));
                }
            },
        }
    }
}

proof fn lemma_first_idle_resident(s: SchedulerView, hint: Option<HintView>, from: int) -> (i: int)
    requires
        s.idle_resident(hint, from),
    ensures
        s.idle_resident(hint, i),
        forall|j: int| s.idle_resident(hint, j) ==> i <= j,
    decreases from,
{
    if exists|j: int| s.idle_resident(hint, j) && j < from {
        let j = choose|j: int| s.idle_resident(hint, j) && j < from;
        lemma_first_idle_resident(s, hint, j)
    } else {
        from
    }
}

proof fn lemma_least_recent(s: SchedulerView, n: int, w: int) -> (i: int)
    requires
        0 <= n <= s.slots.len(),
        s.idle(w) && w < n,
    ensures
        s.idle(i) && i < n,
        forall|j: int| s.idle(j) && j < n ==> s.less_recent(i, j),
    decreases n,
{
    if exists|v: int| s.idle(v) && v < n - 1 {
        let v = choose|v: int| s.idle(v) && v < n - 1;
        let i = lemma_least_recent(s, n - 1, v);
        if s.idle(n - 1) && !s.less_recent(i, n - 1) {
            n - 1
        } else {
            i
        }
    } else {
        w
    }
}

/// A preferred slot is given or waited for, never swapped for another one.
pub proof fn law_a_preferred_slot_is_never_swapped(
    s: SchedulerView,
    hint: HintView,
    slot_id: u32,
    waiter: oneshot::Sender<()>,
)
    requires
        hint.preferred_slot == Some(slot_id),
        s.has_slot(slot_id),
    ensures
        forall|i: int| s.chosen(Some(hint), i) ==> i == slot_id,
        s.admittable(Some(hint)) <==> s.idle(slot_id as int),
        s.enqueue(Some(hint), waiter).queues == s.queues.update(
            slot_id as int,
            s.queues[slot_id as int].push(waiter),
        ),
        s.enqueue(Some(hint), waiter).global_queue == s.global_queue,
{
}

/// A preference for a slot that does not exist is no preference at all: the
/// request is admitted, placed and queued as if it had none.
pub proof fn law_an_out_of_range_preference_is_no_preference(
    s: SchedulerView,
    hint: HintView,
    slot_id: u32,
    waiter: oneshot::Sender<()>,
)
    requires
        hint.preferred_slot == Some(slot_id),
        !s.has_slot(slot_id),
    ensures
        ({
            let plain = HintView { preferred_slot: None, ..hint };
            &&& s.admittable(Some(hint)) == s.admittable(Some(plain))
            &&& forall|i: int| s.chosen(Some(hint), i) == s.chosen(Some(plain), i)
            &&& s.admission(Some(hint)) == s.admission(Some(plain))
            &&& s.attempted(Some(hint)) == s.attempted(Some(plain))
            &&& s.enqueue(Some(hint), waiter) == s.enqueue(Some(plain), waiter)
            &&& s.enqueue(Some(hint), waiter).global_queue == s.global_queue.push(waiter)
        }),
{
    let plain = HintView { preferred_slot: None, ..hint };
    assert forall|i: int| s.idle_resident(Some(hint), i) == s.idle_resident(Some(plain), i) by {}
    assert forall|i: int| s.chosen(Some(hint), i) == s.chosen(Some(plain), i) by {
        if s.chosen(Some(hint), i) {
            assert forall|j: int| s.idle_resident(Some(plain), j) implies i <= j by {
                assert(s.idle_resident(Some(hint), j));
            }
        }
        if s.chosen(Some(plain), i) {
            assert forall|j: int| s.idle_resident(Some(hint), j) implies i <= j by {
                assert(s.idle_resident(Some(plain), j));
            }
        }
    }
    if s.admittable(Some(hint)) {
        law_the_choice_is_determined(s, Some(hint));
        law_the_choice_is_determined(s, Some(plain));
        assert(s.chosen(Some(plain), s.choice(Some(hint))));
    }
}

/// Two requests never hold one slot: after an admission, no request whatever
/// gets that slot as long as it is busy.
pub proof fn law_a_claimed_slot_is_not_given_again(
    s: SchedulerView,
    first: Option<HintView>,
    i: int,
    second: Option<HintView>,
    j: int,
)
    requires
        s.chosen(first, i),
        s.claim(i).chosen(second, j),
    ensures
        j != i,
{
}

/// A slot that this broker holds stays busy through any history in which it is
/// not released. In particular no reconciliation frees it, whether or not it is
/// seeded meanwhile.
pub proof fn law_a_held_slot_stays_held(
    states: Seq<SchedulerView>,
    changes: Seq<Change>,
    i: int,
)
    requires
        history(states, changes),
        0 <= i < states[0].slots.len(),
        states[0].slots[i].busy,
        states[0].slots[i].last_used > 0,
        forall|k: int| 0 <= k < changes.len() ==> #[trigger] changes[k] != Change::Release(i),
    ensures
        states.last().slots.len() == states[0].slots.len(),
        states.last().slots[i].busy,
        states.last().slots[i].last_used > 0,
        !states.last().slots[i].seeded_unowned,
    decreases changes.len(),
{
    if changes.len() > 0 {
        let shorter = changes.drop_last();
        law_a_held_slot_stays_held(states.drop_last(), shorter, i);
        lemma_history_is_valid(states.drop_last(), shorter);
        let k = changes.len() - 1;
        assert(changes[k].possible(states[k]));
        law_every_change_keeps_the_invariant(states[k], changes[k]);
    }
}

proof fn lemma_history_is_valid(states: Seq<SchedulerView>, changes: Seq<Change>)
    requires
        history(states, changes),
    ensures
        states.last().valid(),
    decreases changes.len(),
{
    if changes.len() > 0 {
        let k = changes.len() - 1;
        lemma_history_is_valid(states.drop_last(), changes.drop_last());
        assert(changes[k].possible(states[k]));
        law_every_change_keeps_the_invariant(states[k], changes[k]);
    }
}

/// An admission gives out an idle slot, and gives a slot out again only after
/// it was released: no earlier admission to the same slot is still unreleased,
/// whatever seedings and reports came between.
pub proof fn law_a_slot_is_given_again_only_after_its_release(
    states: Seq<SchedulerView>,
    changes: Seq<Change>,
    a: int,
    b: int,
    i: int,
)
    requires
        history(states, changes),
        0 <= a < b < changes.len(),
        changes[a] == Change::Claim(i),
        changes[b] == Change::Claim(i),
    ensures
        states[b].idle(i),
        states[b + 1].slots[i].busy,
        exists|k: int| a < k < b && #[trigger] changes[k] == Change::Release(i),
{
    assert(changes[a].possible(states[a]));
    assert(changes[b].possible(states[b]));
    if forall|k: int| a < k < b ==> #[trigger] changes[k] != Change::Release(i) {
        let states_between = states.subrange(a + 1, b + 1);
        let changes_between = changes.subrange(a + 1, b);
        let states_before = states.take(a + 2);
        let changes_before = changes.take(a + 1);
        assert forall|k: int| 0 <= k < changes_before.len() implies {
            &&& (#[trigger] changes_before[k]).possible(states_before[k])
            &&& states_before[k + 1] == changes_before[k].apply(states_before[k])
        } by {
            assert(changes[k].possible(states[k]));
        }
        lemma_history_is_valid(states_before, changes_before);
        assert forall|k: int| 0 <= k < changes_between.len() implies {
            &&& (#[trigger] changes_between[k]).possible(states_between[k])
            &&& states_between[k + 1] == changes_between[k].apply(states_between[k])
            &&& changes_between[k] != Change::Release(i)
        } by {
            assert(changes[k + a + 1].possible(states[k + a + 1]));
        }
        law_a_held_slot_stays_held(states_between, changes_between, i);
    }
}

/// The slots that were given out and not released since.
pub open spec fn outstanding(changes: Seq<Change>) -> Set<int>
    decreases changes.len(),
{
    if changes.len() == 0 {
        Set::empty()
    } else {
        let earlier = outstanding(changes.drop_last());
        match changes.last() {
            Change::Claim(i) => earlier.insert(i),
            Change::Release(i) => earlier.remove(i),
            _ => earlier,
        }
    }
}

/// There are never more admissions outstanding than there are slots, and every
/// slot that is given out is busy.
pub proof fn law_no_more_admissions_than_slots(
    states: Seq<SchedulerView>,
    changes: Seq<Change>,
)
    requires
        history(states, changes),
    ensures
        outstanding(changes).finite(),
        outstanding(changes).len() <= states[0].slots.len(),
        forall|i: int| #[trigger]
            outstanding(changes).contains(i) ==> {
                &&& 0 <= i < states.last().slots.len()
                &&& states.last().slots[i].busy
            },
{
    lemma_outstanding_slots_are_busy(states, changes);
    let all = vstd::set_lib::set_int_range(0, states[0].slots.len() as int);
    vstd::set_lib::lemma_int_range(0, states[0].slots.len() as int);
    assert(outstanding(changes).subset_of(all));
    vstd::set_lib::lemma_len_subset(outstanding(changes), all);
}

proof fn lemma_outstanding_slots_are_busy(states: Seq<SchedulerView>, changes: Seq<Change>)
    requires
        history(states, changes),
    ensures
        states.last().slots.len() == states[0].slots.len(),
        forall|i: int| #[trigger]
            outstanding(changes).contains(i) ==> {
                &&& 0 <= i < states.last().slots.len()
                &&& states.last().slots[i].busy
                &&& states.last().slots[i].last_used > 0
            },
    decreases changes.len(),
{
    if changes.len() > 0 {
        let k = changes.len() - 1;
        let shorter = changes.drop_last();
        lemma_outstanding_slots_are_busy(states.drop_last(), shorter);
        lemma_history_is_valid(states.drop_last(), shorter);
        assert(states.drop_last().last() == states[k]);
        assert(changes[k].possible(states[k]));
        law_every_change_keeps_the_invariant(states[k], changes[k]);
        assert forall|i: int| #[trigger] outstanding(changes).contains(i) implies {
            &&& 0 <= i < states.last().slots.len()
            &&& states.last().slots[i].busy
            &&& states.last().slots[i].last_used > 0
        } by {
            if changes[k] != Change::Claim(i) {
                assert(outstanding(shorter).contains(i));
            }
        }
    }
}

/// Once this broker has claimed a slot, the slot is its own for good: whatever
/// happens, releases and seedings included, a report that the slot is idle
/// never changes anything.
pub proof fn law_a_claimed_slot_is_never_reconciled(
    states: Seq<SchedulerView>,
    changes: Seq<Change>,
    i: int,
)
    requires
        history(states, changes),
        changes.len() > 0,
        changes[0] == Change::Claim(i),
    ensures
        0 <= i < states.last().slots.len(),
        states.last().slots[i].last_used > 0,
        !states.last().slots[i].seeded_unowned,
        Change::Reconcile(i).apply(states.last()) == states.last(),
        Change::Reconcile(i).wakes(states.last()).len() == 0,
    decreases changes.len(),
{
    let k = changes.len() - 1;
    assert(changes[k].possible(states[k]));
    if changes.len() > 1 {
        law_a_claimed_slot_is_never_reconciled(states.drop_last(), changes.drop_last(), i);
        assert(states.drop_last().last() == states[k]);
    }
    assert(states.last() == changes[k].apply(states[k]));
}

/// A seeded slot takes no request until it is released or, unless this broker
/// has ever claimed it, reported idle; and then it does. A slot that was
/// claimed before is not freed by the report.
pub proof fn law_a_seeded_slot_waits_for_its_report(s: SchedulerView, i: int, hint: Option<HintView>)
    requires
        0 <= i < s.slots.len(),
    ensures
        !s.seeded(i).chosen(hint, i),
        s.slots[i].last_used == 0 ==> Change::Reconcile(i).apply(s.seeded(i)).idle(i),
        s.valid() && s.slots[i].last_used > 0 ==> Change::Reconcile(i).apply(s.seeded(i))
            == s.seeded(i),
        Change::Release(i).apply(s.seeded(i)).idle(i),
        Change::Reconcile(i).apply(s.seeded(i)).slots[i].resident_prefix
            == s.slots[i].resident_prefix,
{
}

/// Nobody who waits is ever lost: a change either leaves a queue's waiters
/// where they are, or wakes all of them.
pub proof fn law_no_waiter_is_lost(s: SchedulerView, change: Change, q: int)
    requires
        s.valid(),
        change.possible(s),
        0 <= q < s.queues.len(),
    ensures
        ({
            let t = change.apply(s);
            let woken = change.wakes(s);
            &&& s.queues[q].is_prefix_of(t.queues[q]) || forall|w: oneshot::Sender<()>|
                s.queues[q].contains(w) ==> #[trigger] woken.contains(w)
            &&& s.global_queue.is_prefix_of(t.global_queue) || forall|w: oneshot::Sender<()>|
                s.global_queue.contains(w) ==> #[trigger] woken.contains(w)
        }),
{
    let woken = change.wakes(s);
    let freed = match change {
        Change::Release(i) => Some(i),
        Change::Reconcile(i) => if s.slots[i].seeded_unowned {
            Some(i)
        } else {
            None
        },
        _ => None,
    };
    if let Some(i) = freed {
        assert(woken == s.queues[i] + s.global_queue);
        assert forall|w: oneshot::Sender<()>| s.global_queue.contains(w) implies woken.contains(
            w,
        ) by {
            let k = choose|k: int| 0 <= k < s.global_queue.len() && s.global_queue[k] == w;
            assert(woken[s.queues[i].len() + k] == w);
        }
        assert forall|w: oneshot::Sender<()>| s.queues[i].contains(w) implies woken.contains(w) by {
            let k = choose|k: int| 0 <= k < s.queues[i].len() && s.queues[i][k] == w;
            assert(woken[k] == w);
        }
    }
}

/// When a slot becomes free, those who wait for that very slot are woken
/// before those who wait for any, each queue in order of arrival; nobody who
/// waits for another slot is disturbed.
pub proof fn law_a_freed_slot_wakes_its_own_waiters_first(s: SchedulerView, i: int)
    requires
        s.valid(),
        0 <= i < s.slots.len(),
    ensures
        s.woken(i).take(s.queues[i].len() as int) == s.queues[i],
        s.woken(i).skip(s.queues[i].len() as int) == s.global_queue,
        s.freed(i).queues[i].len() == 0,
        s.freed(i).global_queue.len() == 0,
        forall|j: int|
            0 <= j < s.queues.len() && j != i ==> #[trigger] s.freed(i).queues[j] == s.queues[j],
{
    assert(s.woken(i).take(s.queues[i].len() as int) =~= s.queues[i]);
    assert(s.woken(i).skip(s.queues[i].len() as int) =~= s.global_queue);
}

/// A freed slot is there for the taking whatever becomes of those who were
/// woken: a request that prefers it is admitted to it, and one without a
/// usable preference is admitted to some slot.
pub proof fn law_a_freed_slot_can_be_admitted(s: SchedulerView, i: int, hint: Option<HintView>)
    requires
        s.valid(),
        0 <= i < s.slots.len(),
        s.preference(hint) is None || s.preference(hint) == Some(i),
    ensures
        s.freed(i).admittable(hint),
        s.preference(hint) == Some(i) ==> s.freed(i).chosen(hint, i),
{
    assert(s.freed(i).idle(i));
}

/// A prefix that was left in a slot is found again: once the slot is free, a
/// request for that prefix without a preference gets a slot that is ready for
/// it, and this very one if no other idle slot holds the prefix.
pub proof fn law_a_resident_prefix_is_found_again(
    s: SchedulerView,
    i: int,
    hint: HintView,
    j: int,
)
    requires
        s.valid(),
        0 <= i < s.slots.len(),
        hint.preferred_slot is None,
        s.with_resident(i, Some(hint.prefix_hash)).freed(i).chosen(Some(hint), j),
    ensures
        s.with_resident(i, Some(hint.prefix_hash)).freed(i).slots[j].holds(Some(hint)),
        (forall|k: int| k != i ==> !s.idle_resident(Some(hint), k)) ==> j == i,
{
    let t = s.with_resident(i, Some(hint.prefix_hash)).freed(i);
    assert(t.idle_resident(Some(hint), i));
    assert(t.idle_resident(Some(hint), j));
    if j != i {
        assert(s.idle_resident(Some(hint), j));
    }
}

/// A slot whose prefix was forgotten is ready for nobody, and no slot is ever
/// ready for a request without a hint.
pub proof fn law_a_forgotten_prefix_is_not_ready(s: SchedulerView, i: int, hint: Option<HintView>)
    requires
        0 <= i < s.slots.len(),
    ensures
        !s.with_resident(i, None).slots[i].holds(hint),
        !s.slots[i].holds(None),
{
}

/// Requests that come and go one after the other, with nothing resident for
/// them and no preference, visit every slot before any of them twice.
pub proof fn law_sequential_requests_spread_over_all_slots(
    states: Seq<SchedulerView>,
    hints: Seq<Option<HintView>>,
    slots: Seq<int>,
)
    requires
        states.len() == slots.len() + 1,
        hints.len() == slots.len(),
        slots.len() <= states[0].slots.len(),
        states[0].valid(),
        forall|i: int| 0 <= i < states[0].slots.len() ==> states[0].idle(i),
        forall|k: int|
            0 <= k < slots.len() ==> {
                &&& states[k].preference(#[trigger] hints[k]) is None
                &&& forall|j: int| !states[k].idle_resident(hints[k], j)
                &&& states[k].chosen(hints[k], slots[k])
                &&& states[k + 1] == states[k].claim(slots[k]).freed(slots[k])
            },
    ensures
        slots.no_duplicates(),
{
    assert forall|a: int, b: int| 0 <= a < b < slots.len() implies slots[a] != slots[b] by {
        lemma_spread(states, hints, slots, b);
        let used = slots.take(b);
        let u = lemma_some_int_is_missing(used, states[0].slots.len() as int);
        assert(hints[b] == hints[b]);
        if slots[a] == slots[b] {
            assert(used[a] == slots[b]);
            assert(states[b].slots[slots[b]].last_used > states[0].clock);
            assert(states[b].slots[u].last_used <= states[0].clock);
            assert(states[b].idle(u));
            assert(states[b].less_recent(slots[b], u));
        }
    }
}

/// After `n` rounds every slot is idle, those used so far carry a later clock
/// than the start, and the others an earlier one.
proof fn lemma_spread(
    states: Seq<SchedulerView>,
    hints: Seq<Option<HintView>>,
    slots: Seq<int>,
    n: int,
)
    requires
        0 <= n <= slots.len(),
        states.len() == slots.len() + 1,
        hints.len() == slots.len(),
        states[0].valid(),
        forall|i: int| 0 <= i < states[0].slots.len() ==> states[0].idle(i),
        forall|k: int|
            0 <= k < slots.len() ==> {
                &&& states[k].preference(#[trigger] hints[k]) is None
                &&& forall|j: int| !states[k].idle_resident(hints[k], j)
                &&& states[k].chosen(hints[k], slots[k])
                &&& states[k + 1] == states[k].claim(slots[k]).freed(slots[k])
            },
    ensures
        states[n].slots.len() == states[0].slots.len(),
        states[n].clock >= states[0].clock,
        forall|i: int| 0 <= i < states[0].slots.len() ==> states[n].idle(i),
        forall|k: int| 0 <= k < n ==> 0 <= #[trigger] slots[k] < states[0].slots.len(),
        forall|k: int|
            0 <= k < n ==> states[n].slots[#[trigger] slots[k]].last_used > states[0].clock,
        forall|i: int|
            0 <= i < states[0].slots.len() && !slots.take(n).contains(i) ==> (
            #[trigger] states[n].slots[i]).last_used <= states[0].clock,
    decreases n,
{
    if n == 0 {
        assert forall|i: int| 0 <= i < states[0].slots.len() implies (
        #[trigger] states[0].slots[i]).last_used <= states[0].clock by {}
    } else {
        lemma_spread(states, hints, slots, n - 1);
        let h = hints[n - 1];
        let s = states[n - 1];
        let t = states[n];
        assert(s.chosen(h, slots[n - 1]));
        assert(t == s.claim(slots[n - 1]).freed(slots[n - 1]));
        assert forall|i: int| 0 <= i < states[0].slots.len() implies t.idle(i) by {
            assert(s.idle(i));
        }
        assert forall|i: int|
            0 <= i < states[0].slots.len() && !slots.take(n).contains(i) implies (
        #[trigger] t.slots[i]).last_used <= states[0].clock by {
            assert(slots.take(n)[n - 1] == slots[n - 1]);
            assert(i != slots[n - 1]);
            let prior = slots.take(n - 1);
            if prior.contains(i) {
                let k = choose|k: int| 0 <= k < prior.len() && prior[k] == i;
                assert(slots.take(n)[k] == i);
            }
            assert(s.slots[i].last_used <= states[0].clock);
        }
    }
}

proof fn lemma_some_int_is_missing(used: Seq<int>, n: int) -> (u: int)
    requires
        used.len() < n,
    ensures
        0 <= u < n,
        !used.contains(u),
{
    if forall|u: int| 0 <= u < n ==> used.contains(u) {
        vstd::set_lib::lemma_int_range(0, n);
        let range = vstd::set_lib::set_int_range(0, n);
        assert(range.subset_of(used.to_set())) by {
            assert forall|u: int| range.contains(u) implies used.to_set().contains(u) by {
                assert(used.contains(u));
            }
        }
        vstd::seq_lib::seq_to_set_is_finite(used);
        vstd::set_lib::lemma_len_subset(range, used.to_set());
        used.lemma_cardinality_of_set();
    }
    choose|u: int| 0 <= u < n && !used.contains(u)
}

/// Whoever waits for the same is woken in order of arrival.
pub proof fn law_waiters_are_woken_in_order_of_arrival(
    s: SchedulerView,
    hint: Option<HintView>,
    first: oneshot::Sender<()>,
    second: oneshot::Sender<()>,
    i: int,
)
    requires
        s.valid(),
        0 <= i < s.slots.len(),
        s.preference(hint) is None || s.preference(hint) == Some(i),
    ensures
        ({
            let t = s.enqueue(hint, first).enqueue(hint, second);
            let earlier = if s.preference(hint) is None {
                s.queues[i].len() + s.global_queue.len()
            } else {
                s.queues[i].len()
            };
            &&& t.woken(i)[earlier as int] == first
            &&& t.woken(i)[earlier as int + 1] == second
        }),
{
    let one = s.enqueue(hint, first);
    assert(one.preference(hint) == s.preference(hint));
}

// ---------------------------------------------------------------------------
// What each operation does, and what it leaves alone
// ---------------------------------------------------------------------------

/// Only slot `i` differs between the two states: every other slot, every queue
/// and the number of slots are the same.
pub open spec fn only_slot_differs(s: SchedulerView, t: SchedulerView, i: int) -> bool {
    &&& t.slots.len() == s.slots.len()
    &&& forall|j: int| 0 <= j < s.slots.len() && j != i ==> #[trigger] t.slots[j] == s.slots[j]
    &&& t.queues == s.queues
    &&& t.global_queue == s.global_queue
}

/// A new scheduler has as many slots as it was made for, all of them idle,
/// empty and never used, and nobody waits.
pub proof fn law_a_new_scheduler_is_idle_and_empty(n: nat)
    ensures
        ({
            let s = SchedulerView::fresh(n);
            &&& s.slots.len() == n
            &&& s.queues.len() == n
            &&& s.global_queue.len() == 0
            &&& s.clock == 0
            &&& forall|i: int|
                0 <= i < n ==> {
                    &&& !(#[trigger] s.slots[i]).busy
                    &&& s.slots[i].resident_prefix is None
                    &&& !s.slots[i].seeded_unowned
                    &&& s.slots[i].last_used == 0
                    &&& s.queues[i].len() == 0
                }
            &&& n <= u32::MAX ==> s.valid()
        }),
{
}

/// An admission makes its slot busy, the broker's own, and the most recently
/// used of all. It does not touch the record of what the slot holds, nor
/// anything else.
pub proof fn law_an_admission_keeps_what_the_slot_holds(s: SchedulerView, i: int)
    requires
        s.valid(),
        0 <= i < s.slots.len(),
    ensures
        ({
            let t = s.claim(i);
            &&& only_slot_differs(s, t, i)
            &&& t.slots[i].busy
            &&& t.slots[i].resident_prefix == s.slots[i].resident_prefix
            &&& !t.slots[i].seeded_unowned
            &&& t.slots[i].last_used > 0
            &&& forall|j: int|
                0 <= j < s.slots.len() && j != i ==> (#[trigger] t.slots[j]).last_used
                    < t.slots[i].last_used
            &&& t.clock == s.clock + 1
        }),
{
    assert forall|j: int| 0 <= j < s.slots.len() && j != i implies (
    #[trigger] s.claim(i).slots[j]).last_used < s.claim(i).slots[i].last_used by {
        assert(s.slots[j].last_used <= s.clock);
    }
}

/// Queueing puts the waiter behind everyone in one queue, that of the slot the
/// request prefers or else the one for any slot, and does nothing else.
pub proof fn law_queueing_adds_one_waiter_to_one_queue(
    s: SchedulerView,
    hint: Option<HintView>,
    waiter: oneshot::Sender<()>,
)
    requires
        s.valid(),
    ensures
        ({
            let t = s.enqueue(hint, waiter);
            let preferred = if hint is Some && hint->0.preferred_slot is Some
                && hint->0.preferred_slot->0 < s.slots.len() {
                hint->0.preferred_slot->0 as int
            } else {
                -1
            };
            &&& t.slots == s.slots
            &&& t.clock == s.clock
            &&& t.queues.len() == s.queues.len()
            &&& forall|q: int|
                0 <= q < s.queues.len() ==> #[trigger] t.queues[q] == (if q == preferred {
                    s.queues[q].push(waiter)
                } else {
                    s.queues[q]
                })
            &&& t.global_queue == (if preferred == -1 {
                s.global_queue.push(waiter)
            } else {
                s.global_queue
            })
        }),
{
}

/// The release of a slot makes it idle, and wakes exactly those who wait for it
/// or for any slot. It does not touch the record of what the slot holds or when
/// it was used, nor any other slot and its waiters.
pub proof fn law_a_release_keeps_what_the_slot_holds(s: SchedulerView, i: int)
    requires
        s.valid(),
        0 <= i < s.slots.len(),
    ensures
        ({
            let t = s.freed(i);
            &&& t.slots.len() == s.slots.len()
            &&& forall|j: int|
                0 <= j < s.slots.len() && j != i ==> #[trigger] t.slots[j] == s.slots[j]
            &&& !t.slots[i].busy
            &&& t.slots[i].resident_prefix == s.slots[i].resident_prefix
            &&& t.slots[i].seeded_unowned == s.slots[i].seeded_unowned
            &&& t.slots[i].last_used == s.slots[i].last_used
            &&& t.clock == s.clock
            &&& t.queues.len() == s.queues.len()
            &&& forall|q: int|
                0 <= q < s.queues.len() && q != i ==> #[trigger] t.queues[q] == s.queues[q]
            &&& t.queues[i].len() == 0
            &&& t.global_queue.len() == 0
            &&& s.woken(i).len() == s.queues[i].len() + s.global_queue.len()
            &&& forall|w: oneshot::Sender<()>| #[trigger]
                s.woken(i).contains(w) <==> s.queues[i].contains(w) || s.global_queue.contains(w)
        }),
{
    let woken = s.woken(i);
    assert forall|w: oneshot::Sender<()>| #[trigger]
        woken.contains(w) <==> s.queues[i].contains(w) || s.global_queue.contains(w) by {
        if s.queues[i].contains(w) {
            let k = choose|k: int| 0 <= k < s.queues[i].len() && s.queues[i][k] == w;
            assert(woken[k] == w);
        }
        if s.global_queue.contains(w) {
            let k = choose|k: int| 0 <= k < s.global_queue.len() && s.global_queue[k] == w;
            assert(woken[s.queues[i].len() + k] == w);
        }
    }
}

/// Recording what a slot holds, or that it holds nothing known, changes that
/// record and nothing else.
pub proof fn law_a_record_changes_nothing_but_itself(
    s: SchedulerView,
    i: int,
    prefix: Option<Seq<char>>,
)
    requires
        0 <= i < s.slots.len(),
    ensures
        ({
            let t = s.with_resident(i, prefix);
            &&& only_slot_differs(s, t, i)
            &&& t.slots[i].resident_prefix == prefix
            &&& t.slots[i].busy == s.slots[i].busy
            &&& t.slots[i].seeded_unowned == s.slots[i].seeded_unowned
            &&& t.slots[i].last_used == s.slots[i].last_used
            &&& t.clock == s.clock
        }),
{
}

/// Seeding makes a slot busy, on behalf of someone unknown if this broker never
/// claimed it, and changes nothing else.
pub proof fn law_a_seeding_only_makes_a_slot_busy(s: SchedulerView, i: int)
    requires
        s.valid(),
        0 <= i < s.slots.len(),
    ensures
        ({
            let t = s.seeded(i);
            &&& only_slot_differs(s, t, i)
            &&& t.slots[i].busy
            &&& t.slots[i].seeded_unowned <==> s.slots[i].last_used == 0
            &&& t.slots[i].resident_prefix == s.slots[i].resident_prefix
            &&& t.slots[i].last_used == s.slots[i].last_used
            &&& t.clock == s.clock
        }),
{
    assert(s.slots[i].seeded_unowned ==> s.slots[i].last_used == 0);
}

/// Which slot a request gets, in terms of what the slots are like:
/// - a request that prefers a slot that exists is admitted exactly when that
///   slot is idle, and to that slot;
/// - any other is admitted exactly when some slot is idle: to one that holds
///   its prefix, if an idle slot does, and of several to the first;
/// - and else to one than which no idle slot was used longer ago, and of
///   several to the first.
pub proof fn law_which_slot_a_request_gets(
    s: SchedulerView,
    prefix: Seq<char>,
    preferred_slot: Option<u32>,
    j: int,
)
    requires
        s.valid(),
        0 <= j < s.slots.len(),
    ensures
        ({
            let hint = Some(HintView { prefix_hash: prefix, preferred_slot });
            let bound = preferred_slot is Some && preferred_slot->0 < s.slots.len();
            let admission = s.admission(hint);
            let i = admission->0.slot_id as int;
            &&& bound ==> (admission is Some <==> !s.slots[preferred_slot->0 as int].busy)
            &&& bound && admission is Some ==> i == preferred_slot->0
            &&& !bound && !s.slots[j].busy ==> admission is Some
            &&& admission is Some ==> {
                &&& 0 <= i < s.slots.len()
                &&& !s.slots[i].busy
                &&& admission->0.cache_ready == (s.slots[i].resident_prefix == Some(prefix))
                &&& s.attempted(hint) == s.claim(i)
            }
            &&& admission is None ==> s.attempted(hint) == s
            &&& admission is Some && !bound && !s.slots[j].busy ==> {
                let ready_i = s.slots[i].resident_prefix == Some(prefix);
                let ready_j = s.slots[j].resident_prefix == Some(prefix);
                &&& ready_j ==> ready_i && i <= j
                &&& !ready_i ==> s.slots[i].last_used <= s.slots[j].last_used
                &&& !ready_i && s.slots[i].last_used == s.slots[j].last_used ==> i <= j
            }
        }),
{
    let hint = Some(HintView { prefix_hash: prefix, preferred_slot });
    law_the_choice_is_determined(s, hint);
    if s.admittable(hint) {
        let i = s.choice(hint);
        assert(s.chosen(hint, i));
        assert(s.idle(j) ==> s.idle_resident(hint, j) || !s.slots[j].holds(hint));
        assert(s.idle_resident(hint, i) || !s.slots[i].holds(hint));
        if s.preference(hint) is None {
            if exists|k: int| s.idle_resident(hint, k) {
                assert(s.idle_resident(hint, i));
            } else {
                assert(s.idle(j) ==> s.less_recent(i, j));
                assert(!s.idle_resident(hint, j));
            }
        }
    } else {
        assert(!(preferred_slot is Some && preferred_slot->0 < s.slots.len()) ==> !s.idle(j));
    }
}

/// The same of a request without a hint: it is admitted exactly when some slot
/// is idle, to one than which no idle slot was used longer ago, and nothing is
/// ready for it.
pub proof fn law_which_slot_a_hintless_request_gets(s: SchedulerView, j: int)
    requires
        s.valid(),
        0 <= j < s.slots.len(),
    ensures
        ({
            let admission = s.admission(None);
            let i = admission->0.slot_id as int;
            &&& !s.slots[j].busy ==> admission is Some
            &&& admission is Some ==> {
                &&& 0 <= i < s.slots.len()
                &&& !s.slots[i].busy
                &&& !admission->0.cache_ready
                &&& s.attempted(None) == s.claim(i)
            }
            &&& admission is None ==> s.attempted(None) == s
            &&& admission is Some && !s.slots[j].busy ==> {
                &&& s.slots[i].last_used <= s.slots[j].last_used
                &&& s.slots[i].last_used == s.slots[j].last_used ==> i <= j
            }
        }),
{
    law_the_choice_is_determined(s, None);
    if s.admittable(None) {
        assert(s.chosen(None, s.choice(None)));
        assert(s.idle(j) ==> s.less_recent(s.choice(None), j));
    } else {
        assert(!s.idle(j));
    }
}

/// A full scheduler admits nobody, and one whose preferred slot is busy does
/// not admit who prefers it, however many other slots are idle.
pub proof fn law_a_busy_slot_admits_nobody(s: SchedulerView, hint: Option<HintView>)
    requires
        s.valid(),
        (forall|j: int| 0 <= j < s.slots.len() ==> (#[trigger] s.slots[j]).busy) || (hint is Some
            && hint->0.preferred_slot is Some && hint->0.preferred_slot->0 < s.slots.len()
            && s.slots[hint->0.preferred_slot->0 as int].busy),
    ensures
        s.admission(hint) is None,
        s.attempted(hint) == s,
{
}

/// The hint that a client gave is what admission goes by: its prefix and its
/// preference, as they are.
pub proof fn law_a_hint_counts_as_it_was_given(hint: SlotHint, text: String)
    ensures
        crate::scheduler::hint_model(Some(hint)) == Some(
            (HintView { prefix_hash: hint.prefix_hash@, preferred_slot: hint.preferred_slot }),
        ),
        crate::scheduler::hint_model(None) is None,
        crate::scheduler::text_model(Some(text)) == Some(text@),
        crate::scheduler::text_model(None) is None,
{
}

/// A prefix stays where it is through any number of admissions and releases of
/// its slot: as long as nobody records anything else for the slot, it is found
/// there.
pub proof fn law_a_resident_prefix_outlives_admissions(
    states: Seq<SchedulerView>,
    changes: Seq<Change>,
    i: int,
)
    requires
        history(states, changes),
        0 <= i < states[0].slots.len(),
        forall|k: int|
            0 <= k < changes.len() ==> !(#[trigger] changes[k] matches Change::Resident(j, _) && j
                == i),
    ensures
        states.last().slots.len() == states[0].slots.len(),
        states.last().slots[i].resident_prefix == states[0].slots[i].resident_prefix,
    decreases changes.len(),
{
    if changes.len() > 0 {
        let k = changes.len() - 1;
        let earlier = states.drop_last();
        let shorter = changes.drop_last();
        assert forall|j: int| 0 <= j < shorter.len() implies !(#[trigger] shorter[j] matches
            Change::Resident(l, _) && l == i) by {
            assert(shorter[j] == changes[j]);
        }
        law_a_resident_prefix_outlives_admissions(earlier, shorter, i);
        assert(earlier.last() == states[k]);
        assert(changes[k].possible(states[k]));
        assert(states[k + 1] == changes[k].apply(states[k]));
    }
}

} // verus!
