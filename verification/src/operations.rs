//! What the operations of the library do: from what each is given to what it
//! hands back and what it leaves behind.
use crate::completion::{Completion, Event, Outcome, Phase, Reply};
use crate::config::{BrokerConfig, ConfigError, Setting};
use crate::gpu::{DrmEntry, ProbeEvent, ProbeStep, SystemGpuProbe, Vram, VramOverflow, VramSource};
use crate::gpu_lock::{AcquireEvent, AcquireStep, GpuLock, GpuLockError, LeaseId, Reaped};
use crate::json::{Json, JsonView};
use crate::llama_client::{LlamaClientError, LlamaSlot, Model};
use crate::scheduler::{
    Admission, AdmitEvent, AdmitStep, Scheduler, SchedulerError, SchedulerView, SlotHint,
    SlotSnapshot,
};
use crate::server::Answer;
use crate::vram_cache::{Lookup, ProbeOutcome, VramCache};
use tokio::sync::oneshot;
use vstd::prelude::*;

verus! {

// ---------------------------------------------------------------------------
// Slots
// ---------------------------------------------------------------------------

/// The queues of both, slot by slot and the one for any slot, are the same.
pub open spec fn same_queues(s: SchedulerView, t: SchedulerView) -> bool {
    s.queues == t.queues && s.global_queue == t.global_queue
}

/// `t` has the slots of `s`, all but slot `i` as they were.
pub open spec fn other_slots_kept(s: SchedulerView, t: SchedulerView, i: int) -> bool {
    &&& t.slots.len() == s.slots.len()
    &&& forall|j: int| 0 <= j < s.slots.len() && j != i ==> #[trigger] t.slots[j] == s.slots[j]
}

/// Every slot is idle at first, holds nothing, and nobody waits.
pub proof fn law_of_a_new_scheduler(num_slots: u32, r: Scheduler, i: int)
    requires
        call_ensures(Scheduler::new, (num_slots,), r),
    ensures
        r@.slots.len() == num_slots,
        r@.queues.len() == num_slots,
        r@.global_queue.len() == 0,
        r@.clock == 0,
        0 <= i < num_slots ==> {
            &&& !r@.slots[i].busy
            &&& r@.slots[i].resident_prefix is None
            &&& !r@.slots[i].seeded_unowned
            &&& r@.slots[i].last_used == 0
            &&& r@.queues[i].len() == 0
        },
{
}

/// An attempt gets an idle slot, its preferred one if that exists, and leaves
/// everything else as it was; or it gets nothing and changes nothing, which
/// happens exactly if its preferred slot, or without one every slot, is busy.
pub proof fn law_of_an_attempt(
    s: &mut Scheduler,
    hint: Option<SlotHint>,
    r: Option<Admission>,
    j: int,
)
    requires
        old(s).wf(),
        call_ensures(Scheduler::try_admit, (s, &hint), r),
    ensures
        ({
            let (a, b) = (old(s)@, final(s)@);
            let preferred: Option<u32> = match hint {
                Some(h) => match h.preferred_slot {
                    Some(p) => if p < a.slots.len() {
                        Some(p)
                    } else {
                        None
                    },
                    None => None,
                },
                None => None,
            };
            &&& r is None ==> b == a
            &&& preferred matches Some(p) ==> (r is Some <==> !a.slots[p as int].busy)
            &&& preferred is None && 0 <= j < a.slots.len() && !a.slots[j].busy ==> r is Some
            &&& r matches Some(admission) ==> {
                let i = admission.slot_id as int;
                &&& 0 <= i < a.slots.len()
                &&& !a.slots[i].busy
                &&& b.slots[i].busy
                &&& b.slots[i].resident_prefix == a.slots[i].resident_prefix
                &&& !b.slots[i].seeded_unowned
                &&& b.slots[i].last_used == a.clock + 1
                &&& b.clock == a.clock + 1
                &&& other_slots_kept(a, b, i)
                &&& same_queues(a, b)
                &&& admission.cache_ready <==> (hint matches Some(h)
                    && a.slots[i].resident_prefix == Some(h.prefix_hash@))
                &&& preferred matches Some(p) ==> i == p
                &&& preferred is None && admission.cache_ready && 0 <= j < i && !a.slots[j].busy
                    ==> a.slots[j].resident_prefix != a.slots[i].resident_prefix
                &&& preferred is None && !admission.cache_ready && 0 <= j < a.slots.len()
                    && !a.slots[j].busy ==> {
                    &&& hint matches Some(h) ==> a.slots[j].resident_prefix != Some(h.prefix_hash@)
                    &&& a.slots[i].last_used <= a.slots[j].last_used
                    &&& a.slots[i].last_used == a.slots[j].last_used ==> i <= j
                }
            }
        }),
{
    let view = crate::scheduler::hint_model(hint);
    if 0 <= j < old(s)@.slots.len() && !old(s)@.slots[j].busy {
        assert(old(s)@.idle(j));
        if let Some(admission) = r {
            assert(old(s)@.chosen(view, admission.slot_id as int));
            if old(s)@.slots[j].holds(view) {
                assert(old(s)@.idle_resident(view, j));
            }
        }
    }
    if let Some(admission) = r {
        crate::scheduler_laws::law_the_choice_is_determined(old(s)@, view);
        let i = admission.slot_id as int;
        assert(old(s)@.chosen(view, i));
        assert(i == old(s)@.choice(view));
    }
}

/// A caller that asks for a slot gets what the attempt gets, or waits: at the
/// end of the queue of its preferred slot if that exists, and else of the queue
/// for any slot. A caller whose time is over gets an error and changes nothing.
pub proof fn law_of_a_request_for_a_slot(
    s: &mut Scheduler,
    hint: Option<SlotHint>,
    event: AdmitEvent,
    r: AdmitStep,
)
    requires
        old(s).wf(),
        call_ensures(Scheduler::admit_request, (s, &hint, event), r),
    ensures
        event is Expired ==> r == AdmitStep::Failed(SchedulerError::Timeout) && final(s)@
            == old(s)@,
        event matches AdmitEvent::Attempt(waiter) ==> {
            let view = crate::scheduler::hint_model(hint);
            let (a, b) = (old(s)@, final(s)@);
            &&& r is Admitted <==> a.admittable(view)
            &&& r matches AdmitStep::Admitted(admission) ==> {
                &&& a.admission(view) == Some(admission)
                &&& b == a.attempted(view)
            }
            &&& !(r is Admitted) ==> {
                &&& r is Queued
                &&& b.slots == a.slots
                &&& b.clock == a.clock
                &&& a.preference(view) matches Some(p) ==> {
                    &&& b.queues == a.queues.update(p, a.queues[p].push(waiter))
                    &&& b.global_queue == a.global_queue
                }
                &&& a.preference(view) is None ==> {
                    &&& b.queues == a.queues
                    &&& b.global_queue == a.global_queue.push(waiter)
                }
            }
        },
{
}

/// A release makes the slot idle and touches no other, keeps what every slot
/// holds, and hands back those who wait for this slot, then those who wait for
/// any, each in their order. A slot that does not exist changes nothing.
pub proof fn law_of_a_release(s: &mut Scheduler, slot_id: u32, woken: Vec<oneshot::Sender<()>>)
    requires
        old(s).wf(),
        call_ensures(Scheduler::release, (s, slot_id), woken),
    ensures
        ({
            let (a, b) = (old(s)@, final(s)@);
            let i = slot_id as int;
            &&& i >= a.slots.len() ==> b == a && woken@.len() == 0
            &&& i < a.slots.len() ==> {
                &&& !b.slots[i].busy
                &&& b.slots[i].resident_prefix == a.slots[i].resident_prefix
                &&& b.slots[i].seeded_unowned == a.slots[i].seeded_unowned
                &&& b.slots[i].last_used == a.slots[i].last_used
                &&& other_slots_kept(a, b, i)
                &&& b.clock == a.clock
                &&& woken@ == a.queues[i] + a.global_queue
                &&& b.queues == a.queues.update(i, Seq::empty())
                &&& b.global_queue.len() == 0
            }
        }),
{
}

/// A slot that is reported idle is released if it is still on record as someone
/// else's, and else left alone.
pub proof fn law_of_a_reconciliation(
    s: &mut Scheduler,
    slot_id: u32,
    woken: Vec<oneshot::Sender<()>>,
)
    requires
        old(s).wf(),
        call_ensures(Scheduler::reconcile_seeded_idle, (s, slot_id), woken),
    ensures
        ({
            let (a, b) = (old(s)@, final(s)@);
            let i = slot_id as int;
            let foreign = i < a.slots.len() && a.slots[i].seeded_unowned;
            &&& !foreign ==> b == a && woken@.len() == 0
            &&& foreign ==> {
                &&& !b.slots[i].busy
                &&& b.slots[i].resident_prefix == a.slots[i].resident_prefix
                &&& b.slots[i].seeded_unowned
                &&& b.slots[i].last_used == a.slots[i].last_used
                &&& other_slots_kept(a, b, i)
                &&& b.clock == a.clock
                &&& woken@ == a.queues[i] + a.global_queue
                &&& b.queues == a.queues.update(i, Seq::empty())
                &&& b.global_queue.len() == 0
            }
        }),
{
}

/// A seeded slot is busy, and someone else's unless this broker ever had it.
pub proof fn law_of_a_seeding(s: &mut Scheduler, slot_id: u32)
    requires
        old(s).wf(),
        call_ensures(Scheduler::seed_busy, (s, slot_id), ()),
    ensures
        ({
            let (a, b) = (old(s)@, final(s)@);
            let i = slot_id as int;
            &&& same_queues(a, b)
            &&& b.clock == a.clock
            &&& i >= a.slots.len() ==> b == a
            &&& i < a.slots.len() ==> {
                &&& b.slots[i].busy
                &&& b.slots[i].resident_prefix == a.slots[i].resident_prefix
                &&& b.slots[i].last_used == a.slots[i].last_used
                &&& b.slots[i].seeded_unowned <==> a.slots[i].seeded_unowned
                    || a.slots[i].last_used == 0
                &&& other_slots_kept(a, b, i)
            }
        }),
{
}

/// What is recorded of a slot is what it holds from then on, nothing else about
/// it changes, and no other slot does.
pub proof fn law_of_a_record(s: &mut Scheduler, slot_id: u32, prefix_hash: String)
    requires
        old(s).wf(),
        call_ensures(Scheduler::mark_resident, (s, slot_id, prefix_hash), ()),
    ensures
        ({
            let (a, b) = (old(s)@, final(s)@);
            let i = slot_id as int;
            &&& same_queues(a, b)
            &&& b.clock == a.clock
            &&& i >= a.slots.len() ==> b == a
            &&& i < a.slots.len() ==> {
                &&& b.slots[i].resident_prefix == Some(prefix_hash@)
                &&& b.slots[i].busy == a.slots[i].busy
                &&& b.slots[i].seeded_unowned == a.slots[i].seeded_unowned
                &&& b.slots[i].last_used == a.slots[i].last_used
                &&& other_slots_kept(a, b, i)
            }
        }),
{
}

/// A slot of which nothing is known any more holds nothing on record; nothing
/// else about it changes, and no other slot does.
pub proof fn law_of_a_forgotten_record(s: &mut Scheduler, slot_id: u32)
    requires
        old(s).wf(),
        call_ensures(Scheduler::clear_resident, (s, slot_id), ()),
    ensures
        ({
            let (a, b) = (old(s)@, final(s)@);
            let i = slot_id as int;
            &&& same_queues(a, b)
            &&& b.clock == a.clock
            &&& i >= a.slots.len() ==> b == a
            &&& i < a.slots.len() ==> {
                &&& b.slots[i].resident_prefix is None
                &&& b.slots[i].busy == a.slots[i].busy
                &&& b.slots[i].seeded_unowned == a.slots[i].seeded_unowned
                &&& b.slots[i].last_used == a.slots[i].last_used
                &&& other_slots_kept(a, b, i)
            }
        }),
{
}

/// The occupancy table has a row for each slot, with its number, whether it is
/// busy, and what it holds.
pub proof fn law_of_a_snapshot(s: Scheduler, r: Vec<SlotSnapshot>, i: int)
    requires
        s.wf(),
        call_ensures(Scheduler::snapshot, (&s,), r),
    ensures
        r@.len() == s@.slots.len(),
        0 <= i < r@.len() ==> {
            &&& r@[i].slot_id as int == i
            &&& r@[i].busy == s@.slots[i].busy
            &&& r@[i].resident_prefix is None <==> s@.slots[i].resident_prefix is None
            &&& r@[i].resident_prefix matches Some(prefix) ==> s@.slots[i].resident_prefix == Some(
                prefix@,
            )
        },
{
}

/// The admissions are counted.
pub proof fn law_of_the_admission_count(s: Scheduler, r: u64)
    requires
        call_ensures(Scheduler::admissions, (&s,), r),
    ensures
        r as int == s@.clock,
{
}

// ---------------------------------------------------------------------------
// The GPU lock
// ---------------------------------------------------------------------------

/// A new lock is free, nobody waits for it, and it may be held for as long as
/// was said.
pub proof fn law_of_a_new_lock(max_hold: u128, r: GpuLock)
    requires
        call_ensures(GpuLock::new, (max_hold,), r),
    ensures
        r@.held is None,
        r@.queue.len() == 0,
        r@.max_hold == max_hold,
{
}

/// A free lock is granted under the given lease from the given moment on, a
/// held one is not; the waiters and the allowed time stay.
pub proof fn law_of_a_grant(lock: &mut GpuLock, lease: LeaseId, now: u128, r: bool)
    requires
        call_ensures(GpuLock::grant, (lock, lease, now), r),
    ensures
        r <==> old(lock)@.held is None,
        final(lock)@.queue == old(lock)@.queue,
        final(lock)@.max_hold == old(lock)@.max_hold,
        !r ==> final(lock)@.held == old(lock)@.held,
        r ==> {
            &&& final(lock)@.held is Some
            &&& final(lock)@.held->0.lease == lease@
            &&& final(lock)@.held->0.acquired_at == now
        },
{
}

/// An attempt gets a free lock, under a random lease, from its moment on; or
/// waits at the end of the queue. A caller whose time is over gets an error and
/// changes nothing.
pub proof fn law_of_a_request_for_the_lock(lock: &mut GpuLock, event: AcquireEvent, r: AcquireStep)
    requires
        call_ensures(GpuLock::acquire, (lock, event), r),
    ensures
        final(lock)@.max_hold == old(lock)@.max_hold,
        event is Expired ==> r == AcquireStep::Failed(GpuLockError::Timeout) && final(lock)@
            == old(lock)@,
        event matches AcquireEvent::Attempt { waiter, now } ==> {
            let (a, b) = (old(lock)@, final(lock)@);
            &&& r is Granted <==> a.held is None
            &&& r matches AcquireStep::Granted(lease) ==> {
                &&& b.held is Some
                &&& b.held->0.lease == lease@
                &&& b.held->0.acquired_at == now
                &&& b.queue == a.queue
                &&& crate::gpu_lock::was_drawn(lease@)
                &&& crate::gpu_lock::is_random_uuid(lease@)
            }
            &&& !(r is Granted) ==> {
                &&& r is Queued
                &&& b.held == a.held
                &&& b.queue == a.queue.push(waiter)
            }
        },
{
}

/// A release by the holder's lease frees the lock and hands back everyone who
/// waits, in their order; any other is an error and changes nothing.
pub proof fn law_of_a_lock_release(
    lock: &mut GpuLock,
    lease: LeaseId,
    r: Result<Vec<oneshot::Sender<()>>, GpuLockError>,
)
    requires
        call_ensures(GpuLock::release, (lock, lease), r),
    ensures
        r is Ok <==> old(lock)@.held is Some && old(lock)@.held->0.lease == lease@,
        final(lock)@.max_hold == old(lock)@.max_hold,
        r matches Ok(woken) ==> {
            &&& final(lock)@.held is None
            &&& final(lock)@.queue.len() == 0
            &&& woken@ == old(lock)@.queue
        },
        r matches Err(e) ==> e == GpuLockError::UnknownLease && final(lock)@ == old(lock)@,
{
}

/// A lease that was held for longer than allowed is taken away, and no other;
/// everyone who waits is handed back, in their order.
pub proof fn law_of_a_reaping(lock: &mut GpuLock, now: u128, r: Option<Reaped>)
    requires
        call_ensures(GpuLock::reap_expired, (lock, now), r),
    ensures
        r is Some <==> old(lock)@.held is Some && now > old(lock)@.held->0.acquired_at
            + old(lock)@.max_hold,
        final(lock)@.max_hold == old(lock)@.max_hold,
        r is None ==> final(lock)@ == old(lock)@,
        r matches Some(reaped) ==> {
            &&& final(lock)@.held is None
            &&& final(lock)@.queue.len() == 0
            &&& reaped.lease@ == old(lock)@.held->0.lease
            &&& reaped.held_for + old(lock)@.held->0.acquired_at == now
            &&& reaped.woken@ == old(lock)@.queue
        },
{
}

/// Whether the lock is held, and how a lease reads.
pub proof fn law_of_the_lock_and_its_lease(
    lock: GpuLock,
    held: bool,
    lease: LeaseId,
    text: String,
)
    requires
        call_ensures(GpuLock::is_held, (&lock,), held),
        call_ensures(LeaseId::to_text, (&lease,), text),
    ensures
        held <==> lock@.held is Some,
        text@ == crate::gpu_lock::hyphenated(lease@),
{
}

/// A text names the lease that reads like it, and no lease if it is no UUID.
pub proof fn law_of_a_lease_by_name(text: &str, r: Option<LeaseId>, lease: u128)
    requires
        call_ensures(LeaseId::parse, (text,), r),
    ensures
        r is Some <==> crate::gpu_lock::uuid_of_text(text@) is Some,
        r is Some ==> crate::gpu_lock::uuid_of_text(text@) == Some(r->0@),
        text@ == crate::gpu_lock::hyphenated(lease) ==> r is Some && r->0@ == lease,
{
    crate::gpu_lock_laws::law_a_lease_is_read_back(lease);
}

/// What the errors of the lock and of the slots read like.
pub proof fn law_of_the_messages(
    a: GpuLockError,
    b: SchedulerError,
    c: LlamaClientError,
    for_a: String,
    for_b: String,
    for_c: String,
)
    requires
        call_ensures(GpuLockError::message, (&a,), for_a),
        call_ensures(SchedulerError::message, (&b,), for_b),
        call_ensures(LlamaClientError::message, (&c,), for_c),
    ensures
        a is Timeout ==> for_a@ == "timed out waiting for the GPU lock"@,
        a is UnknownLease ==> for_a@ == "lease not found, already released, or expired"@,
        for_b@ == "timed out waiting for a free slot"@,
        c matches LlamaClientError::Request(m) ==> for_c@ == "request to llama-server failed: "@
            + m@,
        c is Parse ==> for_c@ == "failed to parse llama-server /slots response"@,
{
}

// ---------------------------------------------------------------------------
// Reports of `llama-server`
// ---------------------------------------------------------------------------

/// A slot report is understood exactly if it is a list and each entry has a
/// number and says whether it is processing; then it says that, entry by entry.
/// Otherwise the error tells what went wrong.
pub proof fn law_of_a_slot_report(
    answer: Result<Json, String>,
    r: Result<Vec<LlamaSlot>, LlamaClientError>,
    i: int,
)
    requires
        call_ensures(crate::llama_client::read_slots, (answer,), r),
    ensures
        answer matches Err(message) ==> (r matches Err(LlamaClientError::Request(m)) && m@
            == message@),
        answer matches Ok(report) ==> {
            let understood = report@ is Array && forall|k: int|
                0 <= k < report@->Array_0.len() ==> {
                    &&& (#[trigger] report@->Array_0[k]).get("id"@) matches Some(
                        JsonView::Unsigned(_),
                    )
                    &&& report@->Array_0[k].get("is_processing"@) matches Some(JsonView::Bool(_))
                };
            &&& r is Ok <==> understood
            &&& !understood ==> (r matches Err(LlamaClientError::Parse))
            &&& r matches Ok(slots) ==> {
                &&& slots@.len() == report@->Array_0.len()
                &&& 0 <= i < slots@.len() ==> {
                    let entry = report@->Array_0[i];
                    &&& entry.get("is_processing"@) == Some(
                        JsonView::Bool(slots@[i].is_processing),
                    )
                    &&& entry.get("id"@) matches Some(JsonView::Unsigned(n))
                    &&& slots@[i].id as int == n as int % 0x1_0000_0000
                }
            }
        },
{
    if let Ok(report) = answer {
        if report@ is Array {
            let entries = report@->Array_0;
            assert forall|k: int| 0 <= k < entries.len() implies (crate::llama_client::slot_of(
                #[trigger] entries[k],
            ) is Some <==> {
                &&& entries[k].get("id"@) matches Some(JsonView::Unsigned(_))
                &&& entries[k].get("is_processing"@) matches Some(JsonView::Bool(_))
            }) by {}
            if r is Ok && 0 <= i < entries.len() {
                assert(crate::llama_client::slot_of(entries[i]) is Some);
            }
        }
    }
}

/// At startup there are as many slots as were reported, as far as their number
/// can be counted, and those reported mid-generation are taken.
pub proof fn law_of_a_startup(slots: Vec<LlamaSlot>, r: Scheduler)
    requires
        call_ensures(crate::llama_client::scheduler_for, (&slots,), r),
    ensures
        r@ == SchedulerView::fresh(slots@.len() % 0x1_0000_0000).seeded_from(slots@),
{
}

/// A report at startup seeds the slots and is counted; a later one frees them
/// and hands back those who are woken.
pub proof fn law_of_a_report(
    s: &mut Scheduler,
    slots: Vec<LlamaSlot>,
    count: u32,
    t: &mut Scheduler,
    woken: Vec<oneshot::Sender<()>>,
)
    requires
        old(s).wf(),
        old(t).wf(),
        call_ensures(
            crate::llama_client::seed_scheduler_from_llama_server,
            (s, &slots),
            count,
        ),
        call_ensures(crate::llama_client::reconcile_seeded_slots, (t, &slots), woken),
    ensures
        final(s)@ == old(s)@.seeded_from(slots@),
        count as int == slots@.len() % 0x1_0000_0000,
        final(t)@ == old(t)@.reconciled_with(slots@),
        woken@ == old(t)@.woken_by_report(slots@),
{
}

/// The models of a list, in its order; none if the list could not be had or is
/// not understood.
pub proof fn law_of_a_model_list(answer: Option<Json>, r: Vec<Model>, i: int)
    requires
        call_ensures(crate::llama_client::read_models, (answer,), r),
    ensures
        answer is None ==> r@.len() == 0,
        answer matches Some(list) ==> (match crate::llama_client::models_of(list@) {
            Some(models) => {
                &&& r@.len() == models.len()
                &&& 0 <= i < r@.len() ==> r@[i].id@ == models[i].id && r@[i].loaded
                    == models[i].loaded
            },
            None => r@.len() == 0,
        }),
{
    assert(crate::llama_client::model_views(r@).len() == r@.len());
    if 0 <= i < r@.len() {
        assert(crate::llama_client::model_views(r@)[i] == r@[i]@);
    }
}

// ---------------------------------------------------------------------------
// Documents
// ---------------------------------------------------------------------------

/// What is looked up in a document is what an object holds there.
pub proof fn law_of_a_look_up(document: Json, key: &str, r: Option<&Json>)
    requires
        call_ensures(Json::get, (&document, key), r),
    ensures
        r is Some <==> document@ is Object && document@->Object_0.contains_key(key@),
        r matches Some(value) ==> value@ == document@->Object_0[key@],
{
}

/// What is put into an object is there, and nothing else in it changes; only
/// objects change.
pub proof fn law_of_an_insertion(document: &mut Json, key: &str, value: Json, other: Seq<char>)
    requires
        call_ensures(Json::insert, (document, key, value), ()),
    ensures
        !(old(document)@ is Object) ==> final(document)@ == old(document)@,
        old(document)@ is Object ==> {
            &&& final(document)@ is Object
            &&& final(document)@.get(key@) == Some(value@)
            &&& other != key@ ==> final(document)@.get(other) == old(document)@.get(other)
        },
{
}

/// What is taken out of an object is gone, and handed back if it was there;
/// nothing else in it changes.
pub proof fn law_of_a_removal(document: &mut Json, key: &str, r: Option<Json>, other: Seq<char>)
    requires
        call_ensures(Json::remove, (document, key), r),
    ensures
        r is Some <==> old(document)@.get(key@) is Some,
        r matches Some(value) ==> old(document)@.get(key@) == Some(value@),
        final(document)@.get(key@) is None,
        other != key@ ==> final(document)@.get(other) == old(document)@.get(other),
        final(document)@ is Object <==> old(document)@ is Object,
        !(old(document)@ is Object) ==> final(document)@ == old(document)@,
{
}

/// A new object is empty, a text holds what it was given, and a document is a
/// list or a certain text exactly if it is one.
pub proof fn law_of_plain_documents(
    empty: Json,
    text: &str,
    made: Json,
    document: Json,
    items: Option<&Vec<Json>>,
    is: bool,
    i: int,
)
    requires
        call_ensures(Json::object, (), empty),
        call_ensures(Json::text, (text,), made),
        call_ensures(Json::as_array, (&document,), items),
        call_ensures(Json::is_text, (&document, text), is),
    ensures
        empty@ is Object && empty@->Object_0 == Map::<Seq<char>, JsonView>::empty(),
        made@ == JsonView::Text(text@),
        is <==> document@ == JsonView::Text(text@),
        items is Some <==> document@ is Array,
        items matches Some(list) ==> {
            &&& list@.len() == document@->Array_0.len()
            &&& 0 <= i < list@.len() ==> document@->Array_0[i] == list@[i]@
        },
{
    if let Some(list) = items {
        crate::json::lemma_items_model(list@);
    }
}

/// An address is the base, without slashes at its end, and then the path.
pub proof fn law_of_an_address(base: &str, path: &str, r: String)
    requires
        call_ensures(crate::text::endpoint, (base, path), r),
    ensures
        r@ == crate::text::endpoint_of(base@, path@),
{
}

// ---------------------------------------------------------------------------
// Completions
// ---------------------------------------------------------------------------

/// A new completion holds what it was given, and waits.
pub proof fn law_of_a_new_completion(
    base_url: String,
    body: Json,
    hint: Option<SlotHint>,
    r: Completion,
    phase: Phase,
)
    requires
        call_ensures(Completion::new, (base_url, body, hint), r),
        call_ensures(Completion::phase, (&r,), phase),
    ensures
        phase == Phase::Waiting,
        r@.phase == phase,
        r@.base_url == base_url@,
        r@.body == body@,
        r@.hint == crate::scheduler::hint_model(hint),
{
}

/// The hint is taken out of a request, which keeps everything else.
pub proof fn law_of_a_taken_hint(body: &mut Json, r: Option<Json>, other: Seq<char>)
    requires
        call_ensures(crate::completion::take_hint, (body,), r),
    ensures
        r is Some <==> old(body)@.get("aivyx_slot_hint"@) is Some,
        r matches Some(hint) ==> old(body)@.get("aivyx_slot_hint"@) == Some(hint@),
        final(body)@.get("aivyx_slot_hint"@) is None,
        other != "aivyx_slot_hint"@ ==> final(body)@.get(other) == old(body)@.get(other),
{
}

/// The warm-up of a request, its system message, an error reply, and the slot
/// of a phase.
pub proof fn law_of_the_parts_of_a_completion(
    body: Json,
    message: Json,
    slot_id: u32,
    request: Json,
    status: u16,
    text: String,
    reply: Reply,
    phase: Phase,
    held: Option<u32>,
)
    requires
        call_ensures(crate::completion::system_message, (&body,), message),
        call_ensures(crate::completion::warm_up, (&body, slot_id), request),
        call_ensures(Reply::error, (status, text), reply),
        call_ensures(Phase::held_slot, (&phase,), held),
    ensures
        message@ == crate::completion::system_message_of(body@),
        request@ == crate::completion::warm_up_of(body@, slot_id),
        reply.status == status,
        reply.body is Some,
        reply.body->0@.get("error"@) == Some(JsonView::Text(text@)),
        held == phase.slot(),
{
}

/// A step does to the completion, to the slots and to those who wait what the
/// event calls for, and says what to do next.
pub proof fn law_of_a_step(c: &mut Completion, s: &mut Scheduler, event: Event, r: Outcome)
    requires
        old(s).wf(),
        call_ensures(Completion::step, (c, s, event), r),
    ensures
        r.action@ == old(c)@.stepped(old(s)@, event).action,
        r.woken@ == old(c)@.stepped(old(s)@, event).woken,
        final(c)@ == old(c)@.stepped(old(s)@, event).completion,
        final(s)@ == old(c)@.stepped(old(s)@, event).scheduler,
        final(s).wf(),
{
}

// ---------------------------------------------------------------------------
// VRAM
// ---------------------------------------------------------------------------

/// What `nvidia-smi` printed comes to a sum, to nothing, or to too much.
pub proof fn law_of_a_printed_reading(
    out: &str,
    r: Result<Option<Vram>, VramOverflow>,
    plain: Option<Vram>,
)
    requires
        !(crate::gpu::smi(out@) is Overflow),
        call_ensures(crate::gpu::sum_nvidia_smi, (out,), r),
        call_ensures(crate::gpu::parse_nvidia_smi, (out,), plain),
    ensures
        r == Ok::<Option<Vram>, VramOverflow>(crate::gpu::smi(out@).vram()),
        plain == crate::gpu::smi(out@).vram(),
{
}

/// Too much memory is told apart from none.
pub proof fn law_of_an_overflow(out: &str, r: Result<Option<Vram>, VramOverflow>)
    requires
        call_ensures(crate::gpu::sum_nvidia_smi, (out,), r),
    ensures
        r is Err <==> crate::gpu::smi(out@) is Overflow,
{
}

/// The card that is reported has the most VRAM of all, and is the last of
/// several that have it.
pub proof fn law_of_the_cards(entries: Vec<DrmEntry>, r: Option<Vram>, j: int)
    requires
        call_ensures(crate::gpu::amd, (&entries,), r),
        0 <= j < entries@.len(),
    ensures
        r is Some && entries@[j].reading() is Some ==> entries@[j].reading()->0.total_bytes
            <= r->0.total_bytes,
        r matches Some(vram) ==> exists|k: int|
            0 <= k < entries@.len() && (#[trigger] entries@[k]).reading() == Some(vram) && (j > k
                && entries@[j].reading() is Some ==> entries@[j].reading()->0.total_bytes
                < vram.total_bytes),
{
    if let Some(vram) = r {
        let k = choose|k: int| crate::gpu::is_largest(entries@, k, vram);
        assert(crate::gpu::is_largest(entries@, k, vram));
        assert(entries@[k].reading() == Some(vram));
    }
}

/// An entry is a card by its name alone.
pub proof fn law_of_a_card_name(name: &str, r: bool)
    requires
        call_ensures(crate::gpu::is_card, (name,), r),
    ensures
        r <==> name@.len() >= 4 && name@[0] == 'c' && name@[1] == 'a' && name@[2] == 'r'
            && name@[3] == 'd' && !name@.contains('-'),
{
    reveal_strlit("card");
    let n = name@;
    assert("card"@.len() == 4);
    if "card"@.is_prefix_of(n) {
        assert(n[0] == "card"@[0] && n[1] == "card"@[1] && n[2] == "card"@[2] && n[3]
            == "card"@[3]);
    }
    if n.len() >= 4 && n[0] == 'c' && n[1] == 'a' && n[2] == 'r' && n[3] == 'd' {
        assert("card"@ =~= n.subrange(0, 4));
        assert("card"@.is_prefix_of(n));
    }
}

/// A probe reads from its source and from no other; without a particular one
/// it asks `nvidia-smi` first, and the kernel if that gives nothing.
pub proof fn law_of_a_probe(probe: SystemGpuProbe, event: ProbeEvent, r: ProbeStep)
    requires
        call_ensures(SystemGpuProbe::vram, (&probe, event), r),
    ensures
        event is Start ==> {
            &&& probe.source() is Off ==> r == ProbeStep::Done(None)
            &&& probe.source() is Amd ==> r is ReadDrm
            &&& probe.source() is Nvidia || probe.source() is Auto ==> r is RunNvidiaSmi
        },
        event matches ProbeEvent::NvidiaSmi(None) ==> {
            &&& probe.source() is Auto ==> r is ReadDrm
            &&& !(probe.source() is Auto) ==> r == ProbeStep::Done(None)
        },
        event matches ProbeEvent::NvidiaSmi(Some(text)) ==> {
            let sum = crate::gpu::smi(text@);
            &&& sum is Overflow ==> r is Overflow
            &&& sum.vram() is Some ==> r == ProbeStep::Done(sum.vram())
            &&& !(sum is Overflow) && sum.vram() is None && probe.source() is Auto ==> r is ReadDrm
            &&& !(sum is Overflow) && sum.vram() is None && !(probe.source() is Auto) ==> r
                == ProbeStep::Done(None)
        },
        event matches ProbeEvent::Drm(None) ==> r == ProbeStep::Done(None),
        event matches ProbeEvent::Drm(Some(entries)) ==> {
            &&& r is Done
            &&& r matches ProbeStep::Done(Some(vram)) ==> exists|k: int|
                crate::gpu::is_largest(entries@, k, vram)
            &&& r == ProbeStep::Done(None) ==> forall|j: int|
                0 <= j < entries@.len() ==> (#[trigger] entries@[j]).reading() is None
        },
{
}

/// A new probe reads from the source that it was given, and finds the cards
/// where the kernel lists them.
pub proof fn law_of_a_new_probe(source: VramSource, r: SystemGpuProbe, root: &String)
    requires
        call_ensures(SystemGpuProbe::new, (source,), r),
        call_ensures(SystemGpuProbe::drm_root, (&r,), root),
    ensures
        r.source() == source,
        root@ == "/sys/class/drm"@,
{
}

/// What a request for the VRAM is told, and what it leaves behind.
pub proof fn law_of_a_vram_request(cache: &mut VramCache, now: u128, r: Lookup)
    requires
        call_ensures(VramCache::get, (cache, now), r),
    ensures
        final(cache)@.last == old(cache)@.last,
        final(cache)@.in_flight <==> old(cache)@.in_flight || r is Probe,
        r is Probe <==> !old(cache)@.in_flight && (old(cache)@.last matches Some(reading) ==> now
            >= reading.taken + reading.fresh_for),
        r matches Lookup::Serve(vram) ==> vram == (match old(cache)@.last {
            Some(reading) => reading.vram,
            None => None,
        }),
{
}

/// What is known after a probe: what it found, or nothing if it took too long,
/// from this moment on.
pub proof fn law_of_a_vram_record(
    cache: &mut VramCache,
    now: u128,
    outcome: ProbeOutcome,
    r: Option<Vram>,
)
    requires
        call_ensures(VramCache::record, (cache, now, outcome), r),
    ensures
        r == (match outcome {
            ProbeOutcome::Finished(vram) => vram,
            ProbeOutcome::TimedOut => None,
        }),
        final(cache)@.in_flight == old(cache)@.in_flight,
        final(cache)@.last is Some,
        final(cache)@.last->0.taken == now,
        final(cache)@.last->0.vram == r,
        outcome is Finished ==> final(cache)@.last->0.fresh_for == 2_000_000_000,
        outcome is TimedOut ==> final(cache)@.last->0.fresh_for == 30_000_000_000,
{
}

/// A probe that came back is out no longer, and what is known stays.
pub proof fn law_of_a_probe_that_came_back(cache: &mut VramCache)
    requires
        call_ensures(VramCache::probe_returned, (cache,), ()),
    ensures
        !final(cache)@.in_flight,
        final(cache)@.last == old(cache)@.last,
{
}

// ---------------------------------------------------------------------------
// Answers
// ---------------------------------------------------------------------------

/// What the routes that only report say.
pub proof fn law_of_the_reports(
    url: &str,
    status: Json,
    s: Scheduler,
    slots: Json,
    models: Vec<Model>,
    vram: Option<Vram>,
    residency: Json,
)
    requires
        s.wf(),
        call_ensures(crate::server::status, (url,), status),
        call_ensures(crate::server::slots, (&s,), slots),
        call_ensures(crate::server::residency, (&models, vram, &s), residency),
    ensures
        status@ == crate::server::status_document(url@),
        slots@ == crate::server::slots_document(s@),
        residency@ == crate::server::residency_document(
            crate::llama_client::model_views(models@),
            vram,
            s@,
        ),
{
}

/// A client that asks for the lock is answered with its lease, which then holds
/// the lock; or not yet, and waits; or that its time is over.
pub proof fn law_of_an_answered_acquisition(
    lock: &mut GpuLock,
    event: AcquireEvent,
    r: Option<Reply>,
)
    requires
        call_ensures(crate::server::gpu_lock_acquire, (lock, event), r),
    ensures
        final(lock)@.max_hold == old(lock)@.max_hold,
        event is Expired ==> {
            &&& final(lock)@ == old(lock)@
            &&& r is Some && r->0.status == 503 && r->0.body is Some
            &&& r->0.body->0@.get("error"@) == Some(
                JsonView::Text("timed out waiting for the GPU lock"@),
            )
        },
        event matches AcquireEvent::Attempt { waiter, now } ==> {
            let (a, b) = (old(lock)@, final(lock)@);
            &&& r is Some <==> a.held is None
            &&& r matches Some(reply) ==> {
                &&& b.held is Some
                &&& b.held->0.acquired_at == now
                &&& b.queue == a.queue
                &&& reply.status == 200
                &&& reply.body is Some
                &&& reply.body->0@.get("lease_id"@) == Some(
                    JsonView::Text(crate::gpu_lock::hyphenated(b.held->0.lease)),
                )
            }
            &&& r is None ==> b.held == a.held && b.queue == a.queue.push(waiter)
        },
{
}

/// A client that gives its lease back frees the lock, and everyone who waits is
/// woken; a lease that does not hold it is not found, and a text that is none is
/// refused, both without any change.
pub proof fn law_of_an_answered_release(lock: &mut GpuLock, lease_id: &str, r: Answer)
    requires
        call_ensures(crate::server::gpu_lock_release, (lock, lease_id), r),
    ensures
        ({
            let named = crate::gpu_lock::uuid_of_text(lease_id@);
            let holds = old(lock)@.held is Some && named == Some(old(lock)@.held->0.lease);
            &&& holds ==> {
                &&& r.reply.status == 200
                &&& r.reply.body is None
                &&& r.woken@ == old(lock)@.queue
                &&& final(lock)@.held is None
                &&& final(lock)@.queue.len() == 0
                &&& final(lock)@.max_hold == old(lock)@.max_hold
            }
            &&& !holds ==> {
                &&& final(lock)@ == old(lock)@
                &&& r.woken@.len() == 0
                &&& r.reply.body is Some
            }
            &&& !holds && named is Some ==> {
                &&& r.reply.status == 404
                &&& r.reply.body->0@.get("error"@) == Some(
                    JsonView::Text("lease not found, already released, or expired"@),
                )
            }
            &&& named is None ==> {
                &&& r.reply.status == 400
                &&& r.reply.body->0@.get("error"@) == Some(
                    JsonView::Text("lease_id is not a valid UUID"@),
                )
            }
        }),
{
}

// ---------------------------------------------------------------------------
// Configuration
// ---------------------------------------------------------------------------

/// What the values of command line and environment come to, and which settings
/// there are.
pub proof fn law_of_a_configuration(
    command_line: Vec<Option<String>>,
    environment: Vec<Option<String>>,
    r: Result<BrokerConfig, ConfigError>,
    settings: Vec<Setting>,
)
    requires
        command_line@.len() == 8,
        environment@.len() == 8,
        call_ensures(BrokerConfig::from_values, (&command_line, &environment), r),
        call_ensures(crate::config::settings, (), settings),
    ensures
        crate::config::is_outcome(
            r,
            crate::config::effective(
                crate::config::value_views(command_line@),
                crate::config::value_views(environment@),
            ),
        ),
        crate::config::setting_views(settings@) == crate::config::table(),
{
}

/// A command line that `clap` takes comes to what its values and the
/// environment come to; one that it does not take, to what `clap` says.
pub proof fn law_of_a_command_line(
    argv: Vec<String>,
    environment: Vec<Option<String>>,
    r: Result<BrokerConfig, ConfigError>,
)
    requires
        environment@.len() == 8,
        call_ensures(BrokerConfig::parse_from, (&argv, &environment), r),
    ensures
        ({
            let values = crate::config::value_views(environment@);
            let settings = crate::config::asked(values);
            let arguments = crate::config::argument_views(argv@);
            match crate::config::clap_values(settings, arguments) {
                Some(given) => crate::config::is_outcome(
                    r,
                    crate::config::effective(given, values),
                ),
                None => {
                    &&& r matches Err(ConfigError::Usage { text, exit_code })
                    &&& text@ == crate::config::clap_text(settings, arguments)
                    &&& exit_code == crate::config::clap_exit_code(settings, arguments)
                },
            }
        }),
{
}

/// What is printed of an error, and the status: of what `clap` does not take
/// its own, of a setting its flag and 2.
pub proof fn law_of_a_complaint(error: ConfigError, text: String, exit_code: i32)
    requires
        call_ensures(ConfigError::message, (&error,), text),
        call_ensures(ConfigError::exit_code, (&error,), exit_code),
    ensures
        match error {
            ConfigError::Usage { text: usage, exit_code: status } => {
                &&& text@ == usage@
                &&& exit_code == status
            },
            ConfigError::Invalid(k) => {
                &&& k < 8 ==> text@ == "error: invalid value for --"@
                    + crate::config::table()[k as int].flag
                &&& exit_code == 2
            },
            ConfigError::Missing(k) => {
                &&& k < 8 ==> text@ == "error: a value is required for --"@
                    + crate::config::table()[k as int].flag
                &&& exit_code == 2
            },
        },
{
}

// ---------------------------------------------------------------------------
// Wake signals
// ---------------------------------------------------------------------------

/// Everyone is sent their signal, and of each is reported what came of it.
pub proof fn law_of_the_wake_signals(
    waiters: Vec<oneshot::Sender<()>>,
    heard: Vec<bool>,
    i: int,
)
    requires
        call_ensures(crate::wake::wake_all, (waiters,), heard),
    ensures
        heard@.len() == waiters@.len(),
        0 <= i < waiters@.len() ==> crate::wake::was_signalled(waiters@[i], heard@[i]),
{
}

} // verus!
