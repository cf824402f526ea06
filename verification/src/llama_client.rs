//! What `llama-server` reports of its slots and models, and what the slot
//! scheduler makes of it.
use crate::json::{Json, JsonView};
use crate::scheduler::{Scheduler, SchedulerView};
use tokio::sync::oneshot;
use vstd::prelude::*;

verus! {

/// Why nothing could be learned from `llama-server`.
#[derive(Debug, Clone)]
pub enum LlamaClientError {
    /// The request failed, and how.
    Request(String),
    /// The answer is not a list of slots.
    Parse,
}

/// A slot as `llama-server` reports it.
#[derive(Debug, Clone, Copy, PartialEq, Eq, Structural)]
pub struct LlamaSlot {
    pub id: u32,
    pub is_processing: bool,
}

/// A model that the upstream knows.
#[derive(Debug, Clone, PartialEq, Eq)]
pub struct Model {
    pub id: String,
    pub loaded: bool,
}

pub ghost struct ModelView {
    pub id: Seq<char>,
    pub loaded: bool,
}

impl View for Model {
    type V = ModelView;

    open spec fn view(&self) -> ModelView {
        ModelView { id: self.id@, loaded: self.loaded }
    }
}

// ---------------------------------------------------------------------------
// Slots
// ---------------------------------------------------------------------------

/// One entry of the slot report. Of a number that is too large for a slot id
/// the low 32 bits count.
pub open spec fn slot_of(entry: JsonView) -> Option<LlamaSlot> {
    match (entry.get("id"@), entry.get("is_processing"@)) {
        (Some(JsonView::Unsigned(n)), Some(JsonView::Bool(is_processing))) => Some(
            LlamaSlot { id: (n % 0x1_0000_0000) as u32, is_processing },
        ),
        _ => None,
    }
}

/// The slot report: a list in which every entry is a slot.
pub open spec fn slots_of(report: JsonView) -> Option<Seq<LlamaSlot>> {
    match report {
        JsonView::Array(entries) => if forall|i: int|
            0 <= i < entries.len() ==> slot_of(#[trigger] entries[i]) is Some {
            Some(entries.map_values(|entry: JsonView| slot_of(entry)->0))
        } else {
            None
        },
        _ => None,
    }
}

/// Reads one entry of the slot report.
fn parse_slot(entry: &Json) -> (r: Option<LlamaSlot>)
    ensures
        r == slot_of(entry@),
{
    match (entry.get("id"), entry.get("is_processing")) {
        (Some(Json::Unsigned(n)), Some(Json::Bool(is_processing))) => {
            let number: u64 = *n;
            #[verifier::truncate]
            let id: u32 = number as u32;
            assert(number as u32 == number % 0x1_0000_0000) by (bit_vector);
            Some(LlamaSlot { id, is_processing: *is_processing })
        },
        _ => None,
    }
}

/// Reads `llama-server`'s slot report. A single entry that is no slot spoils
/// the whole report.
pub fn parse_slots(report: &Json) -> (r: Option<Vec<LlamaSlot>>)
    ensures
        match r {
            Some(slots) => slots_of(report@) == Some(slots@),
            None => slots_of(report@) is None,
        },
{
    match report.as_array() {
        Some(entries) => {
            let ghost model = crate::json::items_model(entries@);
            proof {
                crate::json::lemma_items_model(entries@);
            }
            let mut slots: Vec<LlamaSlot> = Vec::new();
            let mut i: usize = 0;
            while i < entries.len()
                invariant
                    i <= entries@.len(),
                    model.len() == entries@.len(),
                    forall|j: int| 0 <= j < model.len() ==> #[trigger] model[j] == entries@[j]@,
                    report@ == JsonView::Array(model),
                    slots@.len() == i,
                    forall|j: int| 0 <= j < i ==> slot_of(#[trigger] model[j]) == Some(slots@[j]),
                decreases entries@.len() - i,
            {
                assert(model[i as int] == entries@[i as int]@);
                match parse_slot(&entries[i]) {
                    Some(slot) => slots.push(slot),
                    None => {
                        return None;
                    },
                }
                i = i + 1;
            }
            assert(slots@ =~= model.map_values(|entry: JsonView| slot_of(entry)->0));
            Some(slots)
        },
        None => None,
    }
}

/// What a request for the slot report came to, given the answer's document or
/// what went wrong.
pub fn read_slots(answer: Result<Json, String>) -> (r: Result<Vec<LlamaSlot>, LlamaClientError>)
    ensures
        match answer {
            Ok(report) => match r {
                Ok(slots) => slots_of(report@) == Some(slots@),
                Err(LlamaClientError::Parse) => slots_of(report@) is None,
                Err(LlamaClientError::Request(_)) => false,
            },
            Err(message) => r matches Err(LlamaClientError::Request(m)) && m@ == message@,
        },
{
    match answer {
        Ok(report) => match parse_slots(&report) {
            Some(slots) => Ok(slots),
            None => Err(LlamaClientError::Parse),
        },
        Err(message) => Err(LlamaClientError::Request(message)),
    }
}

impl LlamaClientError {
    /// The error as it is reported.
    pub fn message(&self) -> (r: String)
        ensures
            r@ == match self {
                LlamaClientError::Request(m) => "request to llama-server failed: "@ + m@,
                LlamaClientError::Parse => "failed to parse llama-server /slots response"@,
            },
    {
        match self {
            LlamaClientError::Request(m) => String::from_str(
                "request to llama-server failed: ",
            ).concat(m.as_str()),
            LlamaClientError::Parse => String::from_str(
                "failed to parse llama-server /slots response",
            ),
        }
    }
}

impl SchedulerView {
    /// With every slot seeded that is reported mid-generation.
    pub open spec fn seeded_from(self, slots: Seq<LlamaSlot>) -> SchedulerView
        decreases slots.len(),
    {
        if slots.len() == 0 {
            self
        } else {
            let earlier = self.seeded_from(slots.drop_last());
            let slot = slots.last();
            if slot.is_processing && earlier.has_slot(slot.id) {
                earlier.seeded(slot.id as int)
            } else {
                earlier
            }
        }
    }

    /// A report that slot `slot_id` is idle frees it.
    pub open spec fn freed_by_report(self, slot: LlamaSlot) -> bool {
        &&& !slot.is_processing
        &&& self.has_slot(slot.id)
        &&& self.slots[slot.id as int].seeded_unowned
    }

    /// With every slot freed that is reported idle and that this broker has
    /// not claimed since it was seeded.
    pub open spec fn reconciled_with(self, slots: Seq<LlamaSlot>) -> SchedulerView
        decreases slots.len(),
    {
        if slots.len() == 0 {
            self
        } else {
            let earlier = self.reconciled_with(slots.drop_last());
            if earlier.freed_by_report(slots.last()) {
                earlier.freed(slots.last().id as int)
            } else {
                earlier
            }
        }
    }

    /// Everyone who is woken by that, in order.
    pub open spec fn woken_by_report(self, slots: Seq<LlamaSlot>) -> Seq<oneshot::Sender<()>>
        decreases slots.len(),
    {
        if slots.len() == 0 {
            Seq::empty()
        } else {
            let earlier = self.reconciled_with(slots.drop_last());
            let woken = self.woken_by_report(slots.drop_last());
            if earlier.freed_by_report(slots.last()) {
                woken + earlier.woken(slots.last().id as int)
            } else {
                woken
            }
        }
    }
}

/// The low 32 bits of a length.
fn low_bits(len: usize) -> (r: u32)
    ensures
        r == len as nat % 0x1_0000_0000,
{
    let wide: u64 = len as u64;
    #[verifier::truncate]
    let low: u32 = wide as u32;
    assert(wide as u32 == wide % 0x1_0000_0000) by (bit_vector);
    low
}

/// Marks every slot busy that `llama-server` reports mid-generation, and says
/// how many slots it reports.
pub fn seed_scheduler_from_llama_server(
    scheduler: &mut Scheduler,
    slots: &Vec<LlamaSlot>,
) -> (count: u32)
    requires
        old(scheduler).wf(),
    ensures
        final(scheduler).wf(),
        final(scheduler)@ == old(scheduler)@.seeded_from(slots@),
        count == slots@.len() % 0x1_0000_0000,
{
    let mut i: usize = 0;
    while i < slots.len()
        invariant
            i <= slots@.len(),
            scheduler.wf(),
            scheduler@ == old(scheduler)@.seeded_from(slots@.take(i as int)),
        decreases slots@.len() - i,
    {
        assert(slots@.take(i + 1).drop_last() =~= slots@.take(i as int));
        if slots[i].is_processing {
            scheduler.seed_busy(slots[i].id);
        }
        i = i + 1;
    }
    assert(slots@.take(slots@.len() as int) =~= slots@);
    low_bits(slots.len())
}

/// A scheduler for the slots that `llama-server` reports at startup.
pub fn scheduler_for(slots: &Vec<LlamaSlot>) -> (r: Scheduler)
    ensures
        r.wf(),
        r@ == SchedulerView::fresh(slots@.len() % 0x1_0000_0000).seeded_from(slots@),
{
    let mut scheduler = Scheduler::new(low_bits(slots.len()));
    let _ = seed_scheduler_from_llama_server(&mut scheduler, slots);
    scheduler
}

/// Frees every slot that was seeded busy and is now reported idle, and hands
/// back everyone who has to be woken for it.
pub fn reconcile_seeded_slots(
    scheduler: &mut Scheduler,
    slots: &Vec<LlamaSlot>,
) -> (woken: Vec<oneshot::Sender<()>>)
    requires
        old(scheduler).wf(),
    ensures
        final(scheduler).wf(),
        final(scheduler)@ == old(scheduler)@.reconciled_with(slots@),
        woken@ == old(scheduler)@.woken_by_report(slots@),
{
    let mut woken: Vec<oneshot::Sender<()>> = Vec::new();
    let mut i: usize = 0;
    while i < slots.len()
        invariant
            i <= slots@.len(),
            scheduler.wf(),
            scheduler@ == old(scheduler)@.reconciled_with(slots@.take(i as int)),
            woken@ == old(scheduler)@.woken_by_report(slots@.take(i as int)),
        decreases slots@.len() - i,
    {
        assert(slots@.take(i + 1).drop_last() =~= slots@.take(i as int));
        if !slots[i].is_processing {
            let mut more = scheduler.reconcile_seeded_idle(slots[i].id);
            woken.append(&mut more);
        }
        i = i + 1;
        assert(woken@ =~= old(scheduler)@.woken_by_report(slots@.take(i as int)));
    }
    assert(slots@.take(slots@.len() as int) =~= slots@);
    woken
}

// ---------------------------------------------------------------------------
// Models
// ---------------------------------------------------------------------------

/// Whether a model of the upstream's list is loaded: a router says so in the
/// model's status, and a server with a single model has no status at all.
pub open spec fn is_loaded(entry: JsonView) -> bool {
    match entry.get("status"@) {
        Some(status) => match status.get("value"@) {
            Some(JsonView::Text(value)) => value == "loaded"@ || value == "loading"@,
            _ => false,
        },
        None => true,
    }
}

/// One entry of the model list.
pub open spec fn model_of(entry: JsonView) -> Option<ModelView> {
    match entry.get("id"@) {
        Some(JsonView::Text(id)) => Some(ModelView { id, loaded: is_loaded(entry) }),
        _ => None,
    }
}

/// The model list: every entry under `data` has an id.
pub open spec fn models_of(list: JsonView) -> Option<Seq<ModelView>> {
    match list.get("data"@) {
        Some(JsonView::Array(entries)) => if forall|i: int|
            0 <= i < entries.len() ==> model_of(#[trigger] entries[i]) is Some {
            Some(entries.map_values(|entry: JsonView| model_of(entry)->0))
        } else {
            None
        },
        _ => None,
    }
}

/// The views of a list of models.
pub open spec fn model_views(models: Seq<Model>) -> Seq<ModelView> {
    models.map_values(|model: Model| model@)
}

/// Reads one entry of the model list.
fn parse_model(entry: &Json) -> (r: Option<Model>)
    ensures
        match r {
            Some(model) => model_of(entry@) == Some(model@),
            None => model_of(entry@) is None,
        },
{
    match entry.get("id") {
        Some(Json::Text(id)) => {
            let loaded = match entry.get("status") {
                Some(status) => match status.get("value") {
                    Some(value) => value.is_text("loaded") || value.is_text("loading"),
                    None => false,
                },
                None => true,
            };
            Some(Model { id: id.clone(), loaded })
        },
        _ => None,
    }
}

/// Reads the upstream's model list.
pub fn parse_models(list: &Json) -> (r: Option<Vec<Model>>)
    ensures
        match r {
            Some(models) => models_of(list@) == Some(model_views(models@)),
            None => models_of(list@) is None,
        },
{
    let data = match list.get("data") {
        Some(data) => data,
        None => {
            return None;
        },
    };
    match data.as_array() {
        Some(entries) => {
            let ghost model = crate::json::items_model(entries@);
            proof {
                crate::json::lemma_items_model(entries@);
            }
            let mut models: Vec<Model> = Vec::new();
            let mut i: usize = 0;
            while i < entries.len()
                invariant
                    i <= entries@.len(),
                    model.len() == entries@.len(),
                    forall|j: int| 0 <= j < model.len() ==> #[trigger] model[j] == entries@[j]@,
                    list@.get("data"@) == Some(JsonView::Array(model)),
                    models@.len() == i,
                    forall|j: int|
                        0 <= j < i ==> model_of(#[trigger] model[j]) == Some(models@[j]@),
                decreases entries@.len() - i,
            {
                assert(model[i as int] == entries@[i as int]@);
                match parse_model(&entries[i]) {
                    Some(parsed) => models.push(parsed),
                    None => {
                        return None;
                    },
                }
                i = i + 1;
            }
            assert(model_views(models@) =~= model.map_values(
                |entry: JsonView| model_of(entry)->0,
            ));
            Some(models)
        },
        None => None,
    }
}

/// The upstream's models, given its answer, if there was one: none at all if
/// it could not be reached or made no sense.
pub fn read_models(answer: Option<Json>) -> (r: Vec<Model>)
    ensures
        model_views(r@) == match answer {
            Some(list) => match models_of(list@) {
                Some(models) => models,
                None => Seq::empty(),
            },
            None => Seq::empty(),
        },
{
    let none: Vec<Model> = Vec::new();
    assert(model_views(none@) =~= Seq::empty());
    match &answer {
        Some(list) => match parse_models(list) {
            Some(models) => models,
            None => none,
        },
        None => none,
    }
}

// ---------------------------------------------------------------------------
// Laws
// ---------------------------------------------------------------------------

/// Seeding makes exactly those slots busy that `llama-server` reports
/// mid-generation, on behalf of someone unknown unless this broker has ever
/// claimed them. At startup it has claimed none.
pub proof fn law_a_restart_spares_running_generations(
    s: SchedulerView,
    report: Seq<LlamaSlot>,
    i: int,
)
    requires
        0 <= i < s.slots.len() <= u32::MAX,
    ensures
        ({
            let t = s.seeded_from(report);
            let reported = exists|k: int|
                0 <= k < report.len() && (#[trigger] report[k]).id == i
                    && report[k].is_processing;
            &&& t.slots.len() == s.slots.len()
            &&& t.slots[i].busy == (s.slots[i].busy || reported)
            &&& t.slots[i].last_used == s.slots[i].last_used
            &&& t.slots[i].seeded_unowned == (s.slots[i].seeded_unowned || reported
                && s.slots[i].last_used == 0)
        }),
    decreases report.len(),
{
    if report.len() > 0 {
        let shorter = report.drop_last();
        law_a_restart_spares_running_generations(s, shorter, i);
        let last = report.last();
        if exists|k: int|
            0 <= k < shorter.len() && (#[trigger] shorter[k]).id == i
                && shorter[k].is_processing {
            let k = choose|k: int|
                0 <= k < shorter.len() && (#[trigger] shorter[k]).id == i
                    && shorter[k].is_processing;
            assert(report[k].id == i && report[k].is_processing);
        } else {
            assert forall|k: int|
                0 <= k < shorter.len() && (#[trigger] report[k]).id
                    == i implies !report[k].is_processing by {
                assert(shorter[k] == report[k]);
            }
            if last.id == i && last.is_processing {
                assert(report[report.len() - 1].id == i);
            }
        }
    }
}

/// Reconciling keeps every slot's seeding mark, and makes no slot busy.
proof fn lemma_reconciling_keeps(s: SchedulerView, report: Seq<LlamaSlot>, i: int)
    requires
        0 <= i < s.slots.len(),
    ensures
        s.reconciled_with(report).slots.len() == s.slots.len(),
        s.reconciled_with(report).slots[i].seeded_unowned == s.slots[i].seeded_unowned,
        s.reconciled_with(report).slots[i].resident_prefix == s.slots[i].resident_prefix,
        !s.slots[i].busy ==> !s.reconciled_with(report).slots[i].busy,
    decreases report.len(),
{
    if report.len() > 0 {
        lemma_reconciling_keeps(s, report.drop_last(), i);
    }
}

/// A restart costs no slot for good: a slot that was seeded busy and not
/// claimed since is idle again after the first report that says so.
pub proof fn law_a_seeded_slot_is_recovered(
    s: SchedulerView,
    report: Seq<LlamaSlot>,
    k: int,
)
    requires
        0 <= k < report.len(),
        !report[k].is_processing,
        report[k].id < s.slots.len(),
        s.slots[report[k].id as int].seeded_unowned,
    ensures
        s.reconciled_with(report).idle(report[k].id as int),
    decreases report.len(),
{
    let i = report[k].id as int;
    let shorter = report.drop_last();
    lemma_reconciling_keeps(s, shorter, i);
    if k < report.len() - 1 {
        assert(shorter[k] == report[k]);
        law_a_seeded_slot_is_recovered(s, shorter, k);
    }
}

/// A report leaves every slot alone that this broker has ever claimed.
pub proof fn law_a_report_frees_no_claimed_slot(s: SchedulerView, report: Seq<LlamaSlot>, i: int)
    requires
        s.valid(),
        0 <= i < s.slots.len(),
        s.slots[i].last_used > 0,
    ensures
        s.reconciled_with(report).slots[i] == s.slots[i],
    decreases report.len(),
{
    if report.len() > 0 {
        lemma_reconciling_keeps(s, report.drop_last(), i);
        law_a_report_frees_no_claimed_slot(s, report.drop_last(), i);
    }
}

/// A slot report is read entry by entry: it is understood exactly if it is a
/// list in which every entry has an unsigned number for its `id` and a truth
/// value for `is_processing`, and then it has one slot for each entry, in their
/// order, with just these values.
pub proof fn law_a_report_is_read_entry_by_entry(report: JsonView, i: int, number: u64, busy: bool)
    ensures
        !(report is Array) ==> slots_of(report) is None,
        report is Array && (forall|j: int|
            0 <= j < report->Array_0.len() ==> {
                let entry = #[trigger] report->Array_0[j];
                &&& entry.get("id"@) is Some && entry.get("id"@)->0 is Unsigned
                &&& entry.get("is_processing"@) is Some && entry.get("is_processing"@)->0 is Bool
            }) ==> slots_of(report) is Some,
        slots_of(report) is Some ==> slots_of(report)->0.len() == report->Array_0.len(),
        slots_of(report) is Some && 0 <= i < report->Array_0.len() ==> {
            let entry = report->Array_0[i];
            let slot = slots_of(report)->0[i];
            &&& entry.get("id"@) == Some(JsonView::Unsigned(number)) ==> slot.id as int
                == number as int % 0x1_0000_0000
            &&& number <= u32::MAX && entry.get("id"@) == Some(JsonView::Unsigned(number))
                ==> slot.id == number
            &&& entry.get("is_processing"@) == Some(JsonView::Bool(busy)) ==> slot.is_processing
                == busy
        },
        report is Array && 0 <= i < report->Array_0.len() && {
            let entry = report->Array_0[i];
            ||| entry.get("id"@) is None
            ||| !(entry.get("id"@)->0 is Unsigned)
            ||| entry.get("is_processing"@) is None
            ||| !(entry.get("is_processing"@)->0 is Bool)
        } ==> slots_of(report) is None,
{
    if report is Array && 0 <= i < report->Array_0.len() {
        let entry = report->Array_0[i];
        assert(slots_of(report) is Some ==> slot_of(entry) is Some);
    }
}

/// Seeding touches nothing but whether slots are busy, and on whose behalf:
/// what they hold, when they were used, and who waits all stay.
pub proof fn law_seeding_keeps_everything_else(s: SchedulerView, report: Seq<LlamaSlot>, i: int)
    requires
        0 <= i < s.slots.len(),
    ensures
        ({
            let t = s.seeded_from(report);
            &&& t.slots.len() == s.slots.len()
            &&& t.slots[i].resident_prefix == s.slots[i].resident_prefix
            &&& t.slots[i].last_used == s.slots[i].last_used
            &&& t.queues == s.queues
            &&& t.global_queue == s.global_queue
            &&& t.clock == s.clock
        }),
    decreases report.len(),
{
    if report.len() > 0 {
        law_seeding_keeps_everything_else(s, report.drop_last(), i);
    }
}

/// The report says that slot `i` is idle.
pub open spec fn reported_idle(report: Seq<LlamaSlot>, i: int) -> bool {
    exists|k: int|
        0 <= k < report.len() && (#[trigger] report[k]).id == i && !report[k].is_processing
}

/// The report frees slot `i`: it says that the slot is idle, and the slot is on
/// record as belonging to someone unknown.
pub open spec fn frees(s: SchedulerView, report: Seq<LlamaSlot>, i: int) -> bool {
    0 <= i < s.slots.len() && s.slots[i].seeded_unowned && reported_idle(report, i)
}

proof fn lemma_reported_idle(report: Seq<LlamaSlot>, i: int)
    requires
        report.len() > 0,
    ensures
        reported_idle(report, i) <==> reported_idle(report.drop_last(), i) || (report.last().id == i
            && !report.last().is_processing),
{
    let shorter = report.drop_last();
    if reported_idle(report, i) {
        let k = choose|k: int|
            0 <= k < report.len() && (#[trigger] report[k]).id == i && !report[k].is_processing;
        if k < shorter.len() {
            assert(shorter[k].id == i);
        }
    }
    if reported_idle(shorter, i) {
        let k = choose|k: int|
            0 <= k < shorter.len() && (#[trigger] shorter[k]).id == i && !shorter[k].is_processing;
        assert(report[k].id == i);
    }
    if report.last().id == i && !report.last().is_processing {
        assert(report[report.len() - 1].id == i);
    }
}

/// A report frees exactly the slots that it says are idle and that belong to
/// someone unknown, and leaves nobody waiting for those; with the first of them
/// nobody is left waiting for any slot either. It changes nothing else.
pub proof fn law_what_a_report_changes(s: SchedulerView, report: Seq<LlamaSlot>, i: int)
    requires
        s.valid(),
        0 <= i < s.slots.len(),
    ensures
        ({
            let t = s.reconciled_with(report);
            &&& t.slots.len() == s.slots.len()
            &&& t.queues.len() == s.queues.len()
            &&& t.slots[i].busy == (s.slots[i].busy && !frees(s, report, i))
            &&& t.slots[i].resident_prefix == s.slots[i].resident_prefix
            &&& t.slots[i].seeded_unowned == s.slots[i].seeded_unowned
            &&& t.slots[i].last_used == s.slots[i].last_used
            &&& t.queues[i] == (if frees(s, report, i) {
                Seq::empty()
            } else {
                s.queues[i]
            })
            &&& (forall|j: int| !#[trigger] frees(s, report, j)) ==> t.global_queue
                == s.global_queue
            &&& (exists|j: int| #[trigger] frees(s, report, j)) ==> t.global_queue.len() == 0
            &&& t.clock == s.clock
        }),
    decreases report.len(),
{
    if report.len() == 0 {
        assert(forall|j: int| !#[trigger] frees(s, report, j));
    } else {
        let shorter = report.drop_last();
        let last = report.last();
        let id = last.id as int;
        law_what_a_report_changes(s, shorter, i);
        assert forall|j: int| #[trigger] frees(s, report, j) <==> frees(s, shorter, j) || (j == id
            && 0 <= j < s.slots.len() && s.slots[j].seeded_unowned && !last.is_processing) by {
            lemma_reported_idle(report, j);
        }
        if id < s.slots.len() {
            law_what_a_report_changes(s, shorter, id);
        }
        if exists|j: int| #[trigger] frees(s, shorter, j) {
            let j = choose|j: int| #[trigger] frees(s, shorter, j);
            assert(frees(s, report, j));
        }
        if s.reconciled_with(shorter).freed_by_report(last) {
            assert(frees(s, report, id));
        } else if exists|j: int| #[trigger] frees(s, report, j) {
            let j = choose|j: int| #[trigger] frees(s, report, j);
            assert(frees(s, shorter, j));
        }
    }
}

/// No waiter is lost by a report: whoever stood in a queue before still stands
/// there, or is woken; and nobody is woken who did not wait.
pub proof fn law_no_waiter_is_lost_by_a_report(
    s: SchedulerView,
    report: Seq<LlamaSlot>,
    q: int,
    w: oneshot::Sender<()>,
)
    requires
        s.valid(),
        0 <= q < s.queues.len(),
    ensures
        ({
            let t = s.reconciled_with(report);
            let woken = s.woken_by_report(report);
            &&& s.queues[q].contains(w) ==> t.queues[q].contains(w) || woken.contains(w)
            &&& s.global_queue.contains(w) ==> t.global_queue.contains(w) || woken.contains(w)
            &&& woken.contains(w) ==> s.global_queue.contains(w) || exists|p: int|
                0 <= p < s.queues.len() && (#[trigger] s.queues[p]).contains(w)
            &&& frees(s, report, q) && s.queues[q].contains(w) ==> woken.contains(w)
        }),
    decreases report.len(),
{
    law_what_a_report_changes(s, report, q);
    if report.len() > 0 {
        let shorter = report.drop_last();
        let last = report.last();
        let id = last.id as int;
        let before = s.reconciled_with(shorter);
        let already = s.woken_by_report(shorter);
        let woken = s.woken_by_report(report);
        law_no_waiter_is_lost_by_a_report(s, shorter, q, w);
        law_what_a_report_changes(s, shorter, q);
        if before.freed_by_report(last) {
            law_what_a_report_changes(s, shorter, id);
            let more = before.woken(id);
            assert(woken == already + more);
            if already.contains(w) {
                let k = choose|k: int| 0 <= k < already.len() && already[k] == w;
                assert(woken[k] == w);
            }
            if before.queues[id].contains(w) {
                let k = choose|k: int| 0 <= k < before.queues[id].len() && before.queues[id][k] == w;
                assert(more[k] == w);
                assert(woken[already.len() + k] == w);
            }
            if before.global_queue.contains(w) {
                let k = choose|k: int|
                    0 <= k < before.global_queue.len() && before.global_queue[k] == w;
                assert(more[before.queues[id].len() + k] == w);
                assert(woken[already.len() + before.queues[id].len() + k] == w);
            }
            if woken.contains(w) && !already.contains(w) {
                let k = choose|k: int| 0 <= k < woken.len() && woken[k] == w;
                let m = k - already.len();
                assert(k >= already.len()) by {
                    if k < already.len() {
                        assert(already[k] == w);
                    }
                }
                assert(more[m] == w);
                if m < before.queues[id].len() {
                    assert(before.queues[id][m] == w);
                    assert(before.queues[id] == s.queues[id]);
                    assert(s.queues[id].contains(w));
                } else {
                    assert(before.global_queue[m - before.queues[id].len()] == w);
                    if exists|j: int| #[trigger] frees(s, shorter, j) {
                        assert(before.global_queue.len() == 0);
                    } else {
                        assert(before.global_queue == s.global_queue);
                    }
                }
            }
        }
    }
}

/// How many wait in these queues.
pub open spec fn waiting_in(queues: Seq<Seq<oneshot::Sender<()>>>) -> nat
    decreases queues.len(),
{
    if queues.len() == 0 {
        0
    } else {
        waiting_in(queues.drop_last()) + queues.last().len()
    }
}

proof fn lemma_an_emptied_queue(queues: Seq<Seq<oneshot::Sender<()>>>, i: int)
    requires
        0 <= i < queues.len(),
    ensures
        waiting_in(queues.update(i, Seq::empty())) + queues[i].len() == waiting_in(queues),
    decreases queues.len(),
{
    let emptied = queues.update(i, Seq::empty());
    if i == queues.len() - 1 {
        assert(emptied.drop_last() =~= queues.drop_last());
    } else {
        lemma_an_emptied_queue(queues.drop_last(), i);
        assert(emptied.drop_last() =~= queues.drop_last().update(i, Seq::empty()));
    }
}

/// Every waiter is accounted for, and woken at most once for each time that it
/// waits: those who are woken by a report and those who still wait after it are
/// as many as those who waited before.
pub proof fn law_a_report_wakes_each_waiter_once(s: SchedulerView, report: Seq<LlamaSlot>)
    requires
        s.queues.len() == s.slots.len(),
    ensures
        ({
            let t = s.reconciled_with(report);
            &&& t.queues.len() == s.queues.len()
            &&& t.slots.len() == s.slots.len()
            &&& s.woken_by_report(report).len() + waiting_in(t.queues) + t.global_queue.len()
                == waiting_in(s.queues) + s.global_queue.len()
        }),
    decreases report.len(),
{
    if report.len() > 0 {
        let shorter = report.drop_last();
        law_a_report_wakes_each_waiter_once(s, shorter);
        let before = s.reconciled_with(shorter);
        if before.freed_by_report(report.last()) {
            lemma_an_emptied_queue(before.queues, report.last().id as int);
        }
    }
}

/// A model list is read entry by entry: it is understood exactly if its `data`
/// is a list in which every entry has a text for its `id`, and then it has one
/// model for each entry, in their order. A model is loaded if its status says
/// `loaded` or `loading`, or if it has no status at all; and not otherwise.
pub proof fn law_a_model_list_is_read_entry_by_entry(
    list: JsonView,
    entries: Seq<JsonView>,
    i: int,
    id: Seq<char>,
    value: Seq<char>,
)
    ensures
        list.get("data"@) is None || !(list.get("data"@)->0 is Array) ==> models_of(list) is None,
        list.get("data"@) == Some(JsonView::Array(entries)) ==> {
            &&& (forall|j: int|
                0 <= j < entries.len() ==> (#[trigger] entries[j]).get("id"@) is Some
                    && entries[j].get("id"@)->0 is Text) <==> models_of(list) is Some
            &&& models_of(list) is Some ==> models_of(list)->0.len() == entries.len()
            &&& models_of(list) is Some && 0 <= i < entries.len() ==> {
                let entry = entries[i];
                let model = models_of(list)->0[i];
                let status = entry.get("status"@);
                &&& entry.get("id"@) == Some(JsonView::Text(id)) ==> model.id == id
                &&& status is None ==> model.loaded
                &&& status is Some && status->0.get("value"@) == Some(JsonView::Text(value)) ==> (
                model.loaded <==> value == "loaded"@ || value == "loading"@)
                &&& status is Some && (status->0.get("value"@) is None || !(status->0.get(
                    "value"@,
                )->0 is Text)) ==> !model.loaded
            }
        },
{
    if list.get("data"@) == Some(JsonView::Array(entries)) {
        if models_of(list) is Some {
            assert forall|j: int| 0 <= j < entries.len() implies (#[trigger] entries[j]).get(
                "id"@,
            ) is Some && entries[j].get("id"@)->0 is Text by {
                assert(model_of(entries[j]) is Some);
            }
        }
        if forall|j: int|
            0 <= j < entries.len() ==> (#[trigger] entries[j]).get("id"@) is Some
                && entries[j].get("id"@)->0 is Text {
            assert forall|j: int| 0 <= j < entries.len() implies model_of(
                #[trigger] entries[j],
            ) is Some by {
                assert(entries[j].get("id"@) is Some);
            }
        }
    }
}

/// The view of a model is the model.
pub proof fn law_a_model_is_what_it_is(model: Model, models: Seq<Model>, i: int)
    ensures
        model@.id == model.id@,
        model@.loaded == model.loaded,
        model_views(models).len() == models.len(),
        0 <= i < models.len() ==> model_views(models)[i] == models[i]@,
{
}

} // verus!
