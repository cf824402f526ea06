//! Slot admission: which KV-cache slot a request gets, who waits for which
//! slot, and who is woken when one becomes free.
use crate::wake::drain_into;
use std::collections::{HashMap, VecDeque};
use tokio::sync::oneshot;
use vstd::prelude::*;

verus! {

broadcast use {vstd::std_specs::hash::group_hash_axioms, vstd::seq_lib::group_seq_properties};

/// What a client says about the slot it would like.
#[derive(Debug, Clone)]
pub struct SlotHint {
    pub prefix_hash: String,
    pub preferred_slot: Option<u32>,
}

/// One row of the occupancy table.
#[derive(Debug, Clone, PartialEq, Eq)]
pub struct SlotSnapshot {
    pub slot_id: u32,
    pub busy: bool,
    pub resident_prefix: Option<String>,
}

/// A granted slot. `cache_ready` says that the slot already holds the hinted
/// prefix, so nothing has to be restored or warmed.
#[derive(Debug, Clone, Copy, PartialEq, Eq, Structural)]
pub struct Admission {
    pub slot_id: u32,
    pub cache_ready: bool,
}

#[derive(Debug, Clone, Copy, PartialEq, Eq, Structural)]
pub enum SchedulerError {
    Timeout,
}

/// What happened to a caller that wants a slot.
#[derive(Debug)]
pub enum AdmitEvent {
    /// It asks for a slot, for the first time or after a wake signal. The
    /// sender is what it can be woken through, should it have to wait.
    Attempt(oneshot::Sender<()>),
    /// Its deadline passed, or its wake signal was dropped unsent.
    Expired,
}

/// What the caller has to do next.
#[derive(Debug, Clone, Copy, PartialEq, Eq, Structural)]
pub enum AdmitStep {
    /// The slot is the caller's until it is released.
    Admitted(Admission),
    /// The caller is queued: it waits for its wake signal and attempts again.
    Queued,
    Failed(SchedulerError),
}

#[derive(Debug)]
struct SlotState {
    busy: bool,
    resident_prefix: Option<String>,
    /// Seeded as busy since before this broker started, and never claimed by
    /// it. Cleared by the first claim, for good.
    seeded_unowned: bool,
    /// The clock at this slot's latest admission, zero before the first.
    last_used: u64,
}

/// Admission state of every slot, with the queues of those who wait.
pub struct Scheduler {
    slots: Vec<SlotState>,
    /// Waiters for one particular slot.
    slot_waiters: HashMap<u32, VecDeque<oneshot::Sender<()>>>,
    /// Waiters for any slot.
    global_waiters: VecDeque<oneshot::Sender<()>>,
    /// Counts admissions.
    clock: u64,
}

// ---------------------------------------------------------------------------
// Model
// ---------------------------------------------------------------------------

pub ghost struct HintView {
    pub prefix_hash: Seq<char>,
    pub preferred_slot: Option<u32>,
}

pub ghost struct SlotView {
    pub busy: bool,
    pub resident_prefix: Option<Seq<char>>,
    pub seeded_unowned: bool,
    pub last_used: nat,
}

/// The scheduler as plain data: the queue of slot `i` is `queues[i]`.
#[verifier::ext_equal]
pub ghost struct SchedulerView {
    pub slots: Seq<SlotView>,
    pub queues: Seq<Seq<oneshot::Sender<()>>>,
    pub global_queue: Seq<oneshot::Sender<()>>,
    pub clock: nat,
}

impl SlotHint {
    pub open spec fn model(self) -> HintView {
        HintView { prefix_hash: self.prefix_hash@, preferred_slot: self.preferred_slot }
    }
}

/// The model of an optional hint.
pub open spec fn hint_model(hint: Option<SlotHint>) -> Option<HintView> {
    match hint {
        Some(h) => Some(h.model()),
        None => None,
    }
}

/// The model of an optional text.
pub open spec fn text_model(text: Option<String>) -> Option<Seq<char>> {
    match text {
        Some(t) => Some(t@),
        None => None,
    }
}

impl SlotView {
    /// A slot nobody has used.
    pub open spec fn fresh() -> SlotView {
        SlotView { busy: false, resident_prefix: None, seeded_unowned: false, last_used: 0 }
    }

    /// The slot is known to hold exactly the hinted prefix.
    pub open spec fn holds(self, hint: Option<HintView>) -> bool {
        hint matches Some(h) && self.resident_prefix == Some(h.prefix_hash)
    }
}

impl SchedulerView {
    /// `num_slots` slots that nobody has used, and nobody waiting.
    pub open spec fn fresh(num_slots: nat) -> SchedulerView {
        SchedulerView {
            slots: Seq::new(num_slots, |i: int| SlotView::fresh()),
            queues: Seq::new(num_slots, |i: int| Seq::empty()),
            global_queue: Seq::empty(),
            clock: 0,
        }
    }

    /// What every operation keeps: slot ids fit in a `u32`, every slot has one
    /// queue, no slot was used in the future, no two slots were last admitted
    /// by the same admission, and a slot that was ever claimed is no longer
    /// on record as belonging to someone unknown.
    pub open spec fn valid(self) -> bool {
        &&& self.slots.len() <= u32::MAX
        &&& self.queues.len() == self.slots.len()
        &&& self.clock <= u64::MAX
        &&& forall|i: int|
            0 <= i < self.slots.len() ==> (#[trigger] self.slots[i]).last_used <= self.clock
        &&& forall|i: int, j: int|
            0 <= i < j < self.slots.len() && (#[trigger] self.slots[i]).last_used == (
            #[trigger] self.slots[j]).last_used ==> self.slots[i].last_used == 0
        &&& forall|i: int|
            0 <= i < self.slots.len() && (#[trigger] self.slots[i]).seeded_unowned
                ==> self.slots[i].last_used == 0
    }

    pub open spec fn has_slot(self, slot_id: u32) -> bool {
        slot_id < self.slots.len()
    }

    pub open spec fn idle(self, i: int) -> bool {
        0 <= i < self.slots.len() && !self.slots[i].busy
    }

    /// The slot that the hint asks for, if there is such a slot. A preference
    /// for a slot that does not exist is no preference.
    pub open spec fn preference(self, hint: Option<HintView>) -> Option<int> {
        match hint {
            Some(h) => match h.preferred_slot {
                Some(p) => if self.has_slot(p) {
                    Some(p as int)
                } else {
                    None
                },
                None => None,
            },
            None => None,
        }
    }

    /// A request with this hint can be admitted right now: its preferred slot
    /// is idle, or it has no usable preference and some slot is idle.
    pub open spec fn admittable(self, hint: Option<HintView>) -> bool {
        match self.preference(hint) {
            Some(p) => self.idle(p),
            None => exists|i: int| self.idle(i),
        }
    }

    pub open spec fn idle_resident(self, hint: Option<HintView>, i: int) -> bool {
        self.idle(i) && self.slots[i].holds(hint)
    }

    /// `i` was admitted before `j`, or neither ever was and `i` comes first.
    pub open spec fn less_recent(self, i: int, j: int) -> bool {
        ||| self.slots[i].last_used < self.slots[j].last_used
        ||| self.slots[i].last_used == self.slots[j].last_used && i <= j
    }

    /// `i` is the slot that a request with this hint gets: the preferred slot;
    /// without one, the first idle slot that holds the hinted prefix; without
    /// that, the least recently used idle slot.
    pub open spec fn chosen(self, hint: Option<HintView>, i: int) -> bool {
        &&& self.idle(i)
        &&& match self.preference(hint) {
            Some(p) => i == p,
            None => if exists|j: int| self.idle_resident(hint, j) {
                &&& self.idle_resident(hint, i)
                &&& forall|j: int| self.idle_resident(hint, j) ==> i <= j
            } else {
                forall|j: int| self.idle(j) ==> self.less_recent(i, j)
            },
        }
    }

    /// The slot that a request with this hint gets, if it can be admitted.
    pub open spec fn choice(self, hint: Option<HintView>) -> int {
        choose|i: int| self.chosen(hint, i)
    }

    /// What an attempt with this hint gets right now.
    pub open spec fn admission(self, hint: Option<HintView>) -> Option<Admission> {
        if self.admittable(hint) {
            let i = self.choice(hint);
            Some(Admission { slot_id: i as u32, cache_ready: self.slots[i].holds(hint) })
        } else {
            None
        }
    }

    /// What an attempt with this hint leaves behind: the slot claimed, if it
    /// gets one, and else nothing changed.
    pub open spec fn attempted(self, hint: Option<HintView>) -> SchedulerView {
        if self.admittable(hint) {
            self.claim(self.choice(hint))
        } else {
            self
        }
    }

    /// Slot `i` claimed by a request.
    pub open spec fn claim(self, i: int) -> SchedulerView {
        let clock = self.clock + 1;
        SchedulerView {
            slots: self.slots.update(
                i,
                SlotView {
                    busy: true,
                    seeded_unowned: false,
                    last_used: clock,
                    ..self.slots[i]
                },
            ),
            clock,
            ..self
        }
    }

    /// `waiter` at the end of the queue it belongs to: that of its preferred
    /// slot, or else the one for any slot.
    pub open spec fn enqueue(
        self,
        hint: Option<HintView>,
        waiter: oneshot::Sender<()>,
    ) -> SchedulerView {
        match self.preference(hint) {
            Some(p) => SchedulerView {
                queues: self.queues.update(p, self.queues[p].push(waiter)),
                ..self
            },
            None => SchedulerView { global_queue: self.global_queue.push(waiter), ..self },
        }
    }

    pub open spec fn with_busy(self, i: int, busy: bool) -> SchedulerView {
        SchedulerView {
            slots: self.slots.update(i, SlotView { busy, ..self.slots[i] }),
            ..self
        }
    }

    pub open spec fn with_resident(self, i: int, prefix: Option<Seq<char>>) -> SchedulerView {
        SchedulerView {
            slots: self.slots.update(i, SlotView { resident_prefix: prefix, ..self.slots[i] }),
            ..self
        }
    }

    /// Everyone who is woken when slot `i` becomes free: those who wait for
    /// this very slot, then those who wait for any, each in order of arrival.
    pub open spec fn woken(self, i: int) -> Seq<oneshot::Sender<()>> {
        self.queues[i] + self.global_queue
    }

    /// Slot `i` idle, with nobody left waiting for it or for any slot.
    pub open spec fn freed(self, i: int) -> SchedulerView {
        SchedulerView {
            queues: self.queues.update(i, Seq::empty()),
            global_queue: Seq::empty(),
            ..self.with_busy(i, false)
        }
    }

    /// Slot `i` busy on behalf of someone this broker does not know. A slot
    /// that this broker has claimed even once stays its own.
    pub open spec fn seeded(self, i: int) -> SchedulerView {
        SchedulerView {
            slots: self.slots.update(
                i,
                SlotView {
                    busy: true,
                    seeded_unowned: self.slots[i].seeded_unowned || self.slots[i].last_used == 0,
                    ..self.slots[i]
                },
            ),
            ..self
        }
    }
}

impl SlotState {
    spec fn model(self) -> SlotView {
        SlotView {
            busy: self.busy,
            resident_prefix: text_model(self.resident_prefix),
            seeded_unowned: self.seeded_unowned,
            last_used: self.last_used as nat,
        }
    }

    /// Whether the slot is known to hold exactly the hinted prefix.
    fn holds(&self, hint: &Option<SlotHint>) -> (r: bool)
        ensures
            r == self.model().holds(hint_model(*hint)),
    {
        match (hint, &self.resident_prefix) {
            (Some(h), Some(prefix)) => *prefix == h.prefix_hash,
            _ => false,
        }
    }
}

impl SchedulerError {
    /// The error as it is shown to clients.
    pub fn message(&self) -> (r: String)
        ensures
            r@ == "timed out waiting for a free slot"@,
    {
        match self {
            SchedulerError::Timeout => String::from_str("timed out waiting for a free slot"),
        }
    }
}

impl View for Scheduler {
    type V = SchedulerView;

    closed spec fn view(&self) -> SchedulerView {
        SchedulerView {
            slots: self.slots@.map_values(|s: SlotState| s.model()),
            queues: Seq::new(self.slots@.len(), |i: int| self.queue_of(i as u32)),
            global_queue: self.global_waiters@,
            clock: self.clock as nat,
        }
    }
}

impl Scheduler {
    spec fn queue_of(&self, slot_id: u32) -> Seq<oneshot::Sender<()>> {
        if self.slot_waiters@.contains_key(slot_id) {
            self.slot_waiters@[slot_id]@
        } else {
            Seq::empty()
        }
    }

    /// Nobody waits for a slot that does not exist.
    pub closed spec fn queues_in_range(&self) -> bool {
        forall|slot_id: u32| #[trigger]
            self.slot_waiters@.contains_key(slot_id) ==> slot_id < self.slots@.len()
    }

    /// What constructors establish and methods keep.
    pub open spec fn wf(&self) -> bool {
        self@.valid() && self.queues_in_range()
    }

    /// `num_slots` idle slots, nothing resident, nobody waiting.
    pub fn new(num_slots: u32) -> (r: Self)
        ensures
            r.wf(),
            r@ == SchedulerView::fresh(num_slots as nat),
    {
        let mut slots: Vec<SlotState> = Vec::new();
        let mut i: u32 = 0;
        while i < num_slots
            invariant
                i <= num_slots,
                slots@.len() == i,
                forall|j: int| 0 <= j < i ==> (#[trigger] slots@[j]).model() == SlotView::fresh(),
            decreases num_slots - i,
        {
            slots.push(
                SlotState {
                    busy: false,
                    resident_prefix: None,
                    seeded_unowned: false,
                    last_used: 0,
                },
            );
            i = i + 1;
        }
        let scheduler = Scheduler {
            slots,
            slot_waiters: HashMap::new(),
            global_waiters: VecDeque::new(),
            clock: 0,
        };
        assert(scheduler@ =~~= SchedulerView::fresh(num_slots as nat));
        scheduler
    }

    /// The first idle slot that holds the hinted prefix.
    fn find_idle_resident(&self, hint: &Option<SlotHint>) -> (r: Option<usize>)
        ensures
            match r {
                Some(i) => self@.idle_resident(hint_model(*hint), i as int) && forall|j: int|
                    self@.idle_resident(hint_model(*hint), j) ==> i <= j,
                None => forall|j: int| !self@.idle_resident(hint_model(*hint), j),
            },
    {
        let mut i: usize = 0;
        while i < self.slots.len()
            invariant
                i <= self.slots@.len(),
                forall|j: int| 0 <= j < i ==> !self@.idle_resident(hint_model(*hint), j),
            decreases self.slots@.len() - i,
        {
            if !self.slots[i].busy && self.slots[i].holds(hint) {
                return Some(i);
            }
            i = i + 1;
        }
        None
    }

    /// The least recently used idle slot.
    fn find_least_recent(&self) -> (r: Option<usize>)
        ensures
            match r {
                Some(i) => self@.idle(i as int) && forall|j: int|
                    self@.idle(j) ==> self@.less_recent(i as int, j),
                None => forall|j: int| !self@.idle(j),
            },
    {
        let mut best: Option<usize> = None;
        let mut i: usize = 0;
        while i < self.slots.len()
            invariant
                i <= self.slots@.len(),
                match best {
                    Some(b) => b < i && self@.idle(b as int) && forall|j: int|
                        0 <= j < i && self@.idle(j) ==> self@.less_recent(b as int, j),
                    None => forall|j: int| 0 <= j < i ==> !self@.idle(j),
                },
            decreases self.slots@.len() - i,
        {
            if !self.slots[i].busy {
                let better = match best {
                    Some(b) => self.slots[i].last_used < self.slots[b].last_used,
                    None => true,
                };
                if better {
                    best = Some(i);
                }
            }
            i = i + 1;
        }
        best
    }

    /// The preferred slot of the hint, if there is such a slot.
    fn usable_preference(&self, hint: &Option<SlotHint>) -> (r: Option<u32>)
        requires
            self.wf(),
        ensures
            match r {
                Some(p) => self@.preference(hint_model(*hint)) == Some(p as int),
                None => self@.preference(hint_model(*hint)) is None,
            },
    {
        if let Some(h) = hint {
            if let Some(preferred) = h.preferred_slot {
                if (preferred as usize) < self.slots.len() {
                    return Some(preferred);
                }
            }
        }
        None
    }

    /// Marks an idle slot busy for a request with this hint.
    fn claim(&mut self, idx: usize, hint: &Option<SlotHint>) -> (r: Admission)
        requires
            old(self).wf(),
            old(self)@.idle(idx as int),
            old(self)@.clock < u64::MAX,
        ensures
            final(self).wf(),
            final(self)@ == old(self)@.claim(idx as int),
            r.slot_id == idx,
            r.cache_ready == old(self)@.slots[idx as int].holds(hint_model(*hint)),
    {
        let cache_ready = self.slots[idx].holds(hint);
        self.clock = self.clock + 1;
        let clock = self.clock;
        let slot = &mut self.slots[idx];
        slot.busy = true;
        slot.seeded_unowned = false;
        slot.last_used = clock;
        assert(self@ =~= old(self)@.claim(idx as int));
        Admission { slot_id: idx as u32, cache_ready }
    }

    /// Attempts admission right now, without queueing.
    pub fn try_admit(&mut self, hint: &Option<SlotHint>) -> (r: Option<Admission>)
        requires
            old(self).wf(),
            old(self)@.clock < u64::MAX,
        ensures
            final(self).wf(),
            r == old(self)@.admission(hint_model(*hint)),
            final(self)@ == old(self)@.attempted(hint_model(*hint)),
            r matches Some(admission) ==> old(self)@.chosen(
                hint_model(*hint),
                admission.slot_id as int,
            ),
    {
        proof {
            crate::scheduler_laws::law_the_choice_is_determined(self@, hint_model(*hint));
        }
        if let Some(preferred) = self.usable_preference(hint) {
            // Never another slot: it would lack the prefix the hint is about.
            if self.slots[preferred as usize].busy {
                return None;
            }
            return Some(self.claim(preferred as usize, hint));
        }
        if let Some(idx) = self.find_idle_resident(hint) {
            return Some(self.claim(idx, hint));
        }
        match self.find_least_recent() {
            Some(idx) => Some(self.claim(idx, hint)),
            None => None,
        }
    }

    /// Puts `waiter` at the end of the queue it belongs to.
    fn enqueue(&mut self, hint: &Option<SlotHint>, waiter: oneshot::Sender<()>)
        requires
            old(self).wf(),
        ensures
            final(self).wf(),
            final(self)@ == old(self)@.enqueue(hint_model(*hint), waiter),
    {
        match self.usable_preference(hint) {
            Some(preferred) => {
                self.slot_waiters.entry(preferred).or_insert(VecDeque::new()).push_back(waiter);
            },
            None => {
                self.global_waiters.push_back(waiter);
            },
        }
        assert(self@ =~~= old(self)@.enqueue(hint_model(*hint), waiter));
    }

    /// One step of a caller that wants a slot.
    ///
    /// An attempt either claims a slot or queues the caller; it never does
    /// both. A wake signal claims nothing by itself: the woken caller simply
    /// attempts again, against whatever the state is by then.
    pub fn admit_request(&mut self, hint: &Option<SlotHint>, event: AdmitEvent) -> (r: AdmitStep)
        requires
            old(self).wf(),
            event is Attempt ==> old(self)@.clock < u64::MAX,
        ensures
            final(self).wf(),
            match event {
                AdmitEvent::Attempt(waiter) => match old(self)@.admission(hint_model(*hint)) {
                    Some(admission) => {
                        &&& r == AdmitStep::Admitted(admission)
                        &&& old(self)@.chosen(hint_model(*hint), admission.slot_id as int)
                        &&& final(self)@ == old(self)@.attempted(hint_model(*hint))
                    },
                    None => {
                        &&& r == AdmitStep::Queued
                        &&& final(self)@ == old(self)@.enqueue(hint_model(*hint), waiter)
                    },
                },
                AdmitEvent::Expired => {
                    &&& r == AdmitStep::Failed(SchedulerError::Timeout)
                    &&& final(self)@ == old(self)@
                },
            },
    {
        match event {
            AdmitEvent::Attempt(waiter) => match self.try_admit(hint) {
                Some(admission) => AdmitStep::Admitted(admission),
                None => {
                    self.enqueue(hint, waiter);
                    AdmitStep::Queued
                },
            },
            AdmitEvent::Expired => AdmitStep::Failed(SchedulerError::Timeout),
        }
    }

    /// How many admissions there have been.
    pub fn admissions(&self) -> (r: u64)
        ensures
            r == self@.clock,
    {
        self.clock
    }

    /// Marks a slot busy that `llama-server` reports mid-generation at
    /// startup, on behalf of a request this broker never admitted. A slot that
    /// this broker has claimed before is not given back to someone unknown:
    /// only its holder frees it.
    pub fn seed_busy(&mut self, slot_id: u32)
        requires
            old(self).wf(),
        ensures
            final(self).wf(),
            final(self)@ == (if old(self)@.has_slot(slot_id) {
                old(self)@.seeded(slot_id as int)
            } else {
                old(self)@
            }),
    {
        if (slot_id as usize) < self.slots.len() {
            let slot = &mut self.slots[slot_id as usize];
            slot.busy = true;
            slot.seeded_unowned = slot.seeded_unowned || slot.last_used == 0;
            assert(self@ =~= old(self)@.seeded(slot_id as int));
        }
    }

    /// Records that the slot now holds the content of `prefix_hash`.
    pub fn mark_resident(&mut self, slot_id: u32, prefix_hash: String)
        requires
            old(self).wf(),
        ensures
            final(self).wf(),
            final(self)@ == (if old(self)@.has_slot(slot_id) {
                old(self)@.with_resident(slot_id as int, Some(prefix_hash@))
            } else {
                old(self)@
            }),
    {
        if (slot_id as usize) < self.slots.len() {
            self.slots[slot_id as usize].resident_prefix = Some(prefix_hash);
            assert(self@ =~= old(self)@.with_resident(slot_id as int, Some(prefix_hash@)));
        }
    }

    /// Forgets what the slot holds, without touching whether it is busy: its
    /// real content is about to be overwritten by a request without a hint.
    pub fn clear_resident(&mut self, slot_id: u32)
        requires
            old(self).wf(),
        ensures
            final(self).wf(),
            final(self)@ == (if old(self)@.has_slot(slot_id) {
                old(self)@.with_resident(slot_id as int, None)
            } else {
                old(self)@
            }),
    {
        if (slot_id as usize) < self.slots.len() {
            self.slots[slot_id as usize].resident_prefix = None;
            assert(self@ =~= old(self)@.with_resident(slot_id as int, None));
        }
    }

    /// Takes everyone who waits for this slot, then everyone who waits for
    /// any slot, out of their queues.
    fn take_waiters(&mut self, slot_id: u32) -> (r: Vec<oneshot::Sender<()>>)
        requires
            old(self).wf(),
            old(self)@.has_slot(slot_id),
        ensures
            final(self).wf(),
            r@ == old(self)@.woken(slot_id as int),
            final(self)@ == (SchedulerView {
                queues: old(self)@.queues.update(slot_id as int, Seq::empty()),
                global_queue: Seq::empty(),
                ..old(self)@
            }),
    {
        let mut woken: Vec<oneshot::Sender<()>> = Vec::new();
        if let Some(queue) = self.slot_waiters.remove(&slot_id) {
            let mut queue = queue;
            drain_into(&mut queue, &mut woken);
        }
        drain_into(&mut self.global_waiters, &mut woken);
        assert(woken@ =~= old(self)@.woken(slot_id as int));
        assert(self@ =~~= (SchedulerView {
            queues: old(self)@.queues.update(slot_id as int, Seq::empty()),
            global_queue: Seq::empty(),
            ..old(self)@
        }));
        woken
    }

    /// Frees the slot and hands back everyone who has to be woken for it.
    ///
    /// Nobody is given the slot here: whoever is woken attempts again, and a
    /// waiter that is gone by then leaves the slot idle for the others. That
    /// is why all of them are woken and not only the first.
    pub fn release(&mut self, slot_id: u32) -> (woken: Vec<oneshot::Sender<()>>)
        requires
            old(self).wf(),
        ensures
            final(self).wf(),
            if old(self)@.has_slot(slot_id) {
                &&& final(self)@ == old(self)@.freed(slot_id as int)
                &&& woken@ == old(self)@.woken(slot_id as int)
            } else {
                &&& final(self)@ == old(self)@
                &&& woken@.len() == 0
            },
    {
        if (slot_id as usize) >= self.slots.len() {
            return Vec::new();
        }
        self.slots[slot_id as usize].busy = false;
        assert(self@ =~= old(self)@.with_busy(slot_id as int, false));
        self.take_waiters(slot_id)
    }

    /// Frees a slot that was seeded busy and that `llama-server` now reports
    /// idle, and hands back everyone who has to be woken for it. A slot that
    /// this broker has claimed even once is left alone: only its holder frees
    /// it.
    pub fn reconcile_seeded_idle(&mut self, slot_id: u32) -> (woken: Vec<oneshot::Sender<()>>)
        requires
            old(self).wf(),
        ensures
            final(self).wf(),
            if old(self)@.has_slot(slot_id) && old(self)@.slots[slot_id as int].seeded_unowned {
                &&& final(self)@ == old(self)@.freed(slot_id as int)
                &&& woken@ == old(self)@.woken(slot_id as int)
            } else {
                &&& final(self)@ == old(self)@
                &&& woken@.len() == 0
            },
    {
        if (slot_id as usize) < self.slots.len() && self.slots[slot_id as usize].seeded_unowned {
            self.release(slot_id)
        } else {
            Vec::new()
        }
    }

    /// The occupancy table, one row for each slot.
    pub fn snapshot(&self) -> (r: Vec<SlotSnapshot>)
        requires
            self.wf(),
        ensures
            r@.len() == self@.slots.len(),
            forall|i: int|
                0 <= i < r@.len() ==> {
                    &&& (#[trigger] r@[i]).slot_id == i
                    &&& r@[i].busy == self@.slots[i].busy
                    &&& text_model(r@[i].resident_prefix) == self@.slots[i].resident_prefix
                },
    {
        let mut rows: Vec<SlotSnapshot> = Vec::new();
        let mut i: usize = 0;
        while i < self.slots.len()
            invariant
                self.wf(),
                i <= self.slots@.len(),
                rows@.len() == i,
                forall|j: int|
                    0 <= j < i ==> {
                        &&& (#[trigger] rows@[j]).slot_id == j
                        &&& rows@[j].busy == self@.slots[j].busy
                        &&& text_model(rows@[j].resident_prefix) == self@.slots[j].resident_prefix
                    },
            decreases self.slots@.len() - i,
        {
            let slot = &self.slots[i];
            let resident_prefix = match &slot.resident_prefix {
                Some(prefix) => Some(prefix.clone()),
                None => None,
            };
            rows.push(SlotSnapshot { slot_id: i as u32, busy: slot.busy, resident_prefix });
            i = i + 1;
        }
        rows
    }
}

} // verus!
