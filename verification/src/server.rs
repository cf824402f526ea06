//! The broker's own answers: what its routes say, apart from the completions
//! that it relays.
use crate::completion::{Reply, ReplyView};
use crate::gpu::Vram;
use crate::gpu_lock::{AcquireEvent, AcquireStep, GpuLock, LeaseId};
use crate::json::{Json, JsonView};
use crate::llama_client::{Model, ModelView};
use crate::scheduler::{Scheduler, SchedulerView, SlotView};
use tokio::sync::oneshot;
use vstd::prelude::*;

verus! {

/// An answer, and everyone whose wait has to be ended before it.
#[derive(Debug)]
pub struct Answer {
    pub reply: Reply,
    pub woken: Vec<oneshot::Sender<()>>,
}

// ---------------------------------------------------------------------------
// Model
// ---------------------------------------------------------------------------

/// `GET /status`
pub open spec fn status_document(llama_server_url: Seq<char>) -> JsonView {
    JsonView::Object(
        map![
            "llama_server_url"@ => JsonView::Text(llama_server_url),
            "queue_depth"@ => JsonView::Unsigned(0),
        ],
    )
}

/// One row of `GET /slots`.
pub open spec fn slot_row(slot_id: int, slot: SlotView) -> JsonView {
    JsonView::Object(
        map![
            "slot_id"@ => JsonView::Unsigned(slot_id as u64),
            "busy"@ => JsonView::Bool(slot.busy),
            "resident_prefix"@ => match slot.resident_prefix {
                Some(prefix) => JsonView::Text(prefix),
                None => JsonView::Null,
            },
        ],
    )
}

/// `GET /slots`: one row for each slot.
pub open spec fn slots_document(s: SchedulerView) -> JsonView {
    JsonView::Array(Seq::new(s.slots.len(), |i: int| slot_row(i, s.slots[i])))
}

/// How many of the slots are busy.
pub open spec fn busy_count(slots: Seq<SlotView>) -> nat
    decreases slots.len(),
{
    if slots.len() == 0 {
        0
    } else {
        busy_count(slots.drop_last()) + if slots.last().busy {
            1nat
        } else {
            0nat
        }
    }
}

/// One model of the residency report.
pub open spec fn model_document(model: ModelView) -> JsonView {
    JsonView::Object(
        map!["id"@ => JsonView::Text(model.id), "loaded"@ => JsonView::Bool(model.loaded)],
    )
}

/// The VRAM of the residency report.
pub open spec fn vram_document(vram: Option<Vram>) -> JsonView {
    match vram {
        Some(v) => JsonView::Object(
            map![
                "total_bytes"@ => JsonView::Unsigned(v.total_bytes),
                "used_bytes"@ => JsonView::Unsigned(v.used_bytes),
            ],
        ),
        None => JsonView::Null,
    }
}

/// The slot pressure of the residency report.
pub open spec fn pressure_document(s: SchedulerView) -> JsonView {
    JsonView::Object(
        map![
            "busy"@ => JsonView::Unsigned(busy_count(s.slots) as u64),
            "total"@ => JsonView::Unsigned(s.slots.len() as u64),
        ],
    )
}

/// `GET /v1/aivyx/residency`
pub open spec fn residency_document(
    models: Seq<ModelView>,
    vram: Option<Vram>,
    s: SchedulerView,
) -> JsonView {
    JsonView::Object(
        map![
            "models"@ => JsonView::Array(
                models.map_values(|model: ModelView| model_document(model)),
            ),
            "vram"@ => vram_document(vram),
            "slots"@ => pressure_document(s),
        ],
    )
}

/// The answer that grants a lease.
pub open spec fn lease_reply(lease: u128) -> ReplyView {
    ReplyView {
        status: 200,
        body: Some(
            JsonView::Object(
                map!["lease_id"@ => JsonView::Text(crate::gpu_lock::hyphenated(lease))],
            ),
        ),
    }
}

// ---------------------------------------------------------------------------
// Answers
// ---------------------------------------------------------------------------

/// `GET /status`
pub fn status(llama_server_url: &str) -> (r: Json)
    ensures
        r@ == status_document(llama_server_url@),
{
    let mut document = Json::object();
    document.insert("llama_server_url", Json::text(llama_server_url));
    document.insert("queue_depth", Json::Unsigned(0));
    assert(document@->Object_0 =~= status_document(llama_server_url@)->Object_0);
    document
}

/// `GET /slots`
pub fn slots(scheduler: &Scheduler) -> (r: Json)
    requires
        scheduler.wf(),
    ensures
        r@ == slots_document(scheduler@),
{
    let snapshot = scheduler.snapshot();
    let ghost slots = scheduler@.slots;
    let mut rows: Vec<Json> = Vec::new();
    let mut i: usize = 0;
    while i < snapshot.len()
        invariant
            i <= snapshot@.len(),
            snapshot@.len() == slots.len(),
            slots.len() <= u32::MAX,
            forall|j: int|
                0 <= j < snapshot@.len() ==> {
                    &&& (#[trigger] snapshot@[j]).slot_id == j
                    &&& snapshot@[j].busy == slots[j].busy
                    &&& crate::scheduler::text_model(snapshot@[j].resident_prefix)
                        == slots[j].resident_prefix
                },
            rows@.len() == i,
            forall|j: int| 0 <= j < i ==> (#[trigger] rows@[j])@ == slot_row(j, slots[j]),
        decreases snapshot@.len() - i,
    {
        let slot = &snapshot[i];
        let mut row = Json::object();
        row.insert("slot_id", Json::Unsigned(slot.slot_id as u64));
        row.insert("busy", Json::Bool(slot.busy));
        let prefix = match &slot.resident_prefix {
            Some(prefix) => Json::Text(prefix.clone()),
            None => Json::Null,
        };
        row.insert("resident_prefix", prefix);
        assert(row@->Object_0 =~= slot_row(i as int, slots[i as int])->Object_0);
        rows.push(row);
        i = i + 1;
    }
    proof {
        crate::json::lemma_items_model(rows@);
        assert(crate::json::items_model(rows@) =~= Seq::new(
            slots.len(),
            |j: int| slot_row(j, slots[j]),
        ));
    }
    Json::Array(rows)
}

/// The slot pressure of the residency report.
fn pressure(scheduler: &Scheduler) -> (r: Json)
    requires
        scheduler.wf(),
    ensures
        r@ == pressure_document(scheduler@),
{
    let snapshot = scheduler.snapshot();
    let ghost slots = scheduler@.slots;
    let mut busy: u64 = 0;
    let mut i: usize = 0;
    while i < snapshot.len()
        invariant
            i <= snapshot@.len(),
            snapshot@.len() == slots.len(),
            slots.len() <= u32::MAX,
            forall|j: int|
                0 <= j < snapshot@.len() ==> (#[trigger] snapshot@[j]).busy == slots[j].busy,
            busy == busy_count(slots.take(i as int)),
            busy <= i,
        decreases snapshot@.len() - i,
    {
        assert(slots.take(i + 1).drop_last() =~= slots.take(i as int));
        if snapshot[i].busy {
            busy = busy + 1;
        }
        i = i + 1;
    }
    assert(slots.take(slots.len() as int) =~= slots);
    let mut document = Json::object();
    document.insert("busy", Json::Unsigned(busy));
    document.insert("total", Json::Unsigned(snapshot.len() as u64));
    assert(document@->Object_0 =~= pressure_document(scheduler@)->Object_0);
    document
}

/// The VRAM of the residency report.
fn vram_report(vram: Option<Vram>) -> (r: Json)
    ensures
        r@ == vram_document(vram),
{
    match vram {
        Some(v) => {
            let mut document = Json::object();
            document.insert("total_bytes", Json::Unsigned(v.total_bytes));
            document.insert("used_bytes", Json::Unsigned(v.used_bytes));
            assert(document@->Object_0 =~= vram_document(vram)->Object_0);
            document
        },
        None => Json::Null,
    }
}

/// `GET /v1/aivyx/residency`: the upstream's models, host VRAM and slot
/// pressure. There is always an answer, whatever could not be found out.
pub fn residency(models: &Vec<Model>, vram: Option<Vram>, scheduler: &Scheduler) -> (r: Json)
    requires
        scheduler.wf(),
    ensures
        r@ == residency_document(crate::llama_client::model_views(models@), vram, scheduler@),
{
    let ghost views = crate::llama_client::model_views(models@);
    let mut list: Vec<Json> = Vec::new();
    let mut i: usize = 0;
    while i < models.len()
        invariant
            i <= models@.len(),
            views == crate::llama_client::model_views(models@),
            list@.len() == i,
            forall|j: int| 0 <= j < i ==> (#[trigger] list@[j])@ == model_document(views[j]),
        decreases models@.len() - i,
    {
        let mut entry = Json::object();
        entry.insert("id", Json::Text(models[i].id.clone()));
        entry.insert("loaded", Json::Bool(models[i].loaded));
        assert(entry@->Object_0 =~= model_document(views[i as int])->Object_0);
        list.push(entry);
        i = i + 1;
    }
    proof {
        crate::json::lemma_items_model(list@);
        assert(crate::json::items_model(list@) =~= views.map_values(
            |model: ModelView| model_document(model),
        ));
    }
    let mut document = Json::object();
    document.insert("models", Json::Array(list));
    document.insert("vram", vram_report(vram));
    document.insert("slots", pressure(scheduler));
    assert(document@->Object_0 =~= residency_document(views, vram, scheduler@)->Object_0);
    document
}

/// `POST /gpu-lock/acquire`: one step of a client that wants the GPU lock, and
/// its answer, unless it has to wait.
pub fn gpu_lock_acquire(lock: &mut GpuLock, event: AcquireEvent) -> (r: Option<Reply>)
    ensures
        match event {
            AcquireEvent::Attempt { waiter, now } => if old(lock)@.held is None {
                &&& r is Some
                &&& final(lock)@.held is Some
                &&& crate::gpu_lock::was_drawn(final(lock)@.held->0.lease)
                &&& crate::gpu_lock::is_random_uuid(final(lock)@.held->0.lease)
                &&& r->0@ == lease_reply(final(lock)@.held->0.lease)
                &&& final(lock)@ == old(lock)@.granted(final(lock)@.held->0.lease, now as nat)
            } else {
                &&& r is None
                &&& final(lock)@ == old(lock)@.enqueue(waiter)
            },
            AcquireEvent::Expired => {
                &&& r is Some
                &&& r->0@ == crate::completion::error_reply(
                    503,
                    "timed out waiting for the GPU lock"@,
                )
                &&& final(lock)@ == old(lock)@
            },
        },
{
    match lock.acquire(event) {
        AcquireStep::Granted(lease) => {
            let mut body = Json::object();
            body.insert("lease_id", Json::Text(lease.to_text()));
            assert(body@->Object_0 =~= lease_reply(lease@).body->0->Object_0);
            Some(Reply { status: 200, body: Some(body) })
        },
        AcquireStep::Queued => None,
        AcquireStep::Failed(error) => Some(Reply::error(503, error.message())),
    }
}

/// `POST /gpu-lock/release`: gives back the lock that a client holds under the
/// lease it names. The text that it got with the lease is always understood.
pub fn gpu_lock_release(lock: &mut GpuLock, lease_id: &str) -> (r: Answer)
    ensures
        match crate::gpu_lock::uuid_of_text(lease_id@) {
            Some(lease) => if old(lock)@.held_by(lease) {
                &&& r.reply@ == (ReplyView { status: 200, body: None })
                &&& final(lock)@ == old(lock)@.freed()
                &&& r.woken@ == old(lock)@.queue
            } else {
                &&& r.reply@ == crate::completion::error_reply(
                    404,
                    "lease not found, already released, or expired"@,
                )
                &&& final(lock)@ == old(lock)@
                &&& r.woken@.len() == 0
            },
            None => {
                &&& r.reply@ == crate::completion::error_reply(
                    400,
                    "lease_id is not a valid UUID"@,
                )
                &&& final(lock)@ == old(lock)@
                &&& r.woken@.len() == 0
            },
        },
        forall|lease: u128|
            #![trigger crate::gpu_lock::hyphenated(lease)]
            lease_id@ == crate::gpu_lock::hyphenated(lease) && old(lock)@.held_by(
                lease,
            ) ==> r.reply.status == 200 && final(lock)@ == old(lock)@.freed(),
        forall|lease: u128|
            #![trigger crate::gpu_lock::hyphenated(lease)]
            lease_id@ == crate::gpu_lock::hyphenated(lease) && !old(lock)@.held_by(
                lease,
            ) ==> r.reply.status == 404 && final(lock)@ == old(lock)@,
{
    proof {
        assert forall|lease: u128|
            lease_id@ == #[trigger] crate::gpu_lock::hyphenated(
                lease,
            ) implies crate::gpu_lock::uuid_of_text(lease_id@) == Some(lease) by {
            crate::gpu_lock_laws::law_a_lease_is_read_back(lease);
        }
    }
    match LeaseId::parse(lease_id) {
        Some(lease) => match lock.release(lease) {
            Ok(woken) => Answer { reply: Reply { status: 200, body: None }, woken },
            Err(error) => Answer { reply: Reply::error(404, error.message()), woken: Vec::new() },
        },
        None => Answer {
            reply: Reply::error(400, String::from_str("lease_id is not a valid UUID")),
            woken: Vec::new(),
        },
    }
}

// ---------------------------------------------------------------------------
// Laws
// ---------------------------------------------------------------------------

proof fn lemma_busy_count_update(slots: Seq<SlotView>, i: int, slot: SlotView)
    requires
        0 <= i < slots.len(),
    ensures
        busy_count(slots.update(i, slot)) == busy_count(slots) - (if slots[i].busy {
            1int
        } else {
            0int
        }) + (if slot.busy {
            1int
        } else {
            0int
        }),
    decreases slots.len(),
{
    let updated = slots.update(i, slot);
    if i == slots.len() - 1 {
        assert(updated.drop_last() =~= slots.drop_last());
    } else {
        lemma_busy_count_update(slots.drop_last(), i, slot);
        assert(updated.drop_last() =~= slots.drop_last().update(i, slot));
    }
}

/// The reported pressure follows what happens to the slots: it never exceeds
/// their number, an admission adds one, and the release of a busy slot takes
/// one away.
pub proof fn law_pressure_follows_the_slots(s: SchedulerView, i: int)
    requires
        0 <= i < s.slots.len(),
    ensures
        busy_count(s.slots) <= s.slots.len(),
        s.idle(i) ==> busy_count(s.claim(i).slots) == busy_count(s.slots) + 1,
        s.slots[i].busy ==> busy_count(s.freed(i).slots) == busy_count(s.slots) - 1,
{
    lemma_busy_count_is_bounded(s.slots);
    lemma_busy_count_update(s.slots, i, s.claim(i).slots[i]);
    lemma_busy_count_update(s.slots, i, s.freed(i).slots[i]);
}

proof fn lemma_busy_count_is_bounded(slots: Seq<SlotView>)
    ensures
        busy_count(slots) <= slots.len(),
    decreases slots.len(),
{
    if slots.len() > 0 {
        lemma_busy_count_is_bounded(slots.drop_last());
    }
}

proof fn lemma_busy_count_is_a_count(slots: Seq<SlotView>)
    ensures
        busy_count(slots) == slots.filter(|slot: SlotView| slot.busy).len(),
    decreases slots.len(),
{
    reveal(Seq::filter);
    if slots.len() > 0 {
        lemma_busy_count_is_a_count(slots.drop_last());
    }
}

/// What the residency report says of the slots: under `total` how many there
/// are, under `busy` how many of them are busy, and nothing else. It says so
/// whatever is reported of models and VRAM.
pub proof fn law_residency_counts_the_slots(
    models: Seq<ModelView>,
    vram: Option<Vram>,
    s: SchedulerView,
    n: nat,
)
    requires
        s.valid(),
        n <= u32::MAX,
    ensures
        ({
            let pressure = residency_document(models, vram, s).get("slots"@);
            let busy = s.slots.filter(|slot: SlotView| slot.busy).len();
            &&& pressure is Some && pressure->0 is Object
            &&& pressure->0.get("total"@) is Some && pressure->0.get("total"@)->0 is Unsigned
            &&& pressure->0.get("total"@)->0->Unsigned_0 as int == s.slots.len()
            &&& pressure->0.get("busy"@) is Some && pressure->0.get("busy"@)->0 is Unsigned
            &&& pressure->0.get("busy"@)->0->Unsigned_0 as int == busy
            &&& busy <= s.slots.len()
            &&& forall|key: Seq<char>|
                key != "total"@ && key != "busy"@ ==> pressure->0.get(key) is None
        }),
        ({
            let fresh = residency_document(models, vram, SchedulerView::fresh(n)).get("slots"@)->0;
            &&& fresh.get("total"@) is Some
            &&& fresh.get("total"@)->0->Unsigned_0 as int == n
            &&& fresh.get("busy"@) == Some(JsonView::Unsigned(0))
        }),
{
    lemma_document_keys_differ();
    lemma_busy_count_is_a_count(s.slots);
    lemma_busy_count_is_bounded(s.slots);
    let slots = SchedulerView::fresh(n).slots;
    lemma_nobody_is_busy(slots);
}

proof fn lemma_nobody_is_busy(slots: Seq<SlotView>)
    requires
        forall|i: int| 0 <= i < slots.len() ==> !(#[trigger] slots[i]).busy,
    ensures
        busy_count(slots) == 0,
    decreases slots.len(),
{
    if slots.len() > 0 {
        assert(!slots[slots.len() - 1].busy);
        lemma_nobody_is_busy(slots.drop_last());
    }
}

/// What the residency report says of models and VRAM: each model, in order,
/// with its id and whether it is loaded; the two sizes as they were read, or
/// nothing if they were not; and no other part.
pub proof fn law_residency_reports_models_and_vram(
    models: Seq<ModelView>,
    vram: Option<Vram>,
    s: SchedulerView,
    i: int,
    key: Seq<char>,
)
    ensures
        ({
            let document = residency_document(models, vram, s);
            let list = document.get("models"@);
            let sizes = document.get("vram"@);
            &&& document is Object
            &&& key != "models"@ && key != "vram"@ && key != "slots"@ ==> document.get(key) is None
            &&& list is Some && list->0 is Array && list->0->Array_0.len() == models.len()
            &&& 0 <= i < models.len() ==> {
                let model = list->0->Array_0[i];
                &&& model is Object
                &&& model.get("id"@) == Some(JsonView::Text(models[i].id))
                &&& model.get("loaded"@) == Some(JsonView::Bool(models[i].loaded))
                &&& key != "id"@ && key != "loaded"@ ==> model.get(key) is None
            }
            &&& vram is None ==> sizes == Some(JsonView::Null)
            &&& vram matches Some(v) ==> {
                &&& sizes is Some && sizes->0 is Object
                &&& sizes->0.get("total_bytes"@) == Some(JsonView::Unsigned(v.total_bytes))
                &&& sizes->0.get("used_bytes"@) == Some(JsonView::Unsigned(v.used_bytes))
                &&& key != "total_bytes"@ && key != "used_bytes"@ ==> sizes->0.get(key) is None
            }
        }),
{
    lemma_document_keys_differ();
}

/// What the status says: which server is shared, a queue depth of zero, and
/// nothing else.
pub proof fn law_the_status_names_the_server(url: Seq<char>, key: Seq<char>)
    ensures
        status_document(url) is Object,
        status_document(url).get("llama_server_url"@) == Some(JsonView::Text(url)),
        status_document(url).get("queue_depth"@) == Some(JsonView::Unsigned(0)),
        key != "llama_server_url"@ && key != "queue_depth"@ ==> status_document(url).get(key)
            is None,
{
    lemma_document_keys_differ();
}

/// What the slot list says: one row for each slot, in order, with its number,
/// whether it is busy, and the prefix it holds, if any is known.
pub proof fn law_the_slot_list_has_a_row_for_each_slot(s: SchedulerView, i: int, key: Seq<char>)
    requires
        s.valid(),
    ensures
        ({
            let rows = slots_document(s);
            &&& rows is Array && rows->Array_0.len() == s.slots.len()
            &&& 0 <= i < s.slots.len() ==> {
                let row = rows->Array_0[i];
                &&& row is Object
                &&& row.get("slot_id"@) is Some && row.get("slot_id"@)->0 is Unsigned
                &&& row.get("slot_id"@)->0->Unsigned_0 as int == i
                &&& row.get("busy"@) == Some(JsonView::Bool(s.slots[i].busy))
                &&& s.slots[i].resident_prefix is None ==> row.get("resident_prefix"@) == Some(
                    JsonView::Null,
                )
                &&& s.slots[i].resident_prefix matches Some(prefix) ==> row.get(
                    "resident_prefix"@,
                ) == Some(JsonView::Text(prefix))
                &&& key != "slot_id"@ && key != "busy"@ && key != "resident_prefix"@ ==> row.get(
                    key,
                ) is None
            }
        }),
{
    lemma_document_keys_differ();
}

/// What a client is told: of a granted lease its text and nothing else, with
/// status 200; of an error its message and nothing else, with the status of
/// the error.
pub proof fn law_what_a_client_is_told(
    lease: u128,
    status: u16,
    message: Seq<char>,
    key: Seq<char>,
)
    ensures
        ({
            let granted = lease_reply(lease);
            &&& granted.status == 200
            &&& granted.body is Some && granted.body->0 is Object
            &&& granted.body->0.get("lease_id"@) == Some(
                JsonView::Text(crate::gpu_lock::hyphenated(lease)),
            )
            &&& key != "lease_id"@ ==> granted.body->0.get(key) is None
        }),
        ({
            let refused = crate::completion::error_reply(status, message);
            &&& refused.status == status
            &&& refused.body is Some && refused.body->0 is Object
            &&& refused.body->0.get("error"@) == Some(JsonView::Text(message))
            &&& key != "error"@ ==> refused.body->0.get(key) is None
        }),
{
}

/// The keys of each document are different from each other.
proof fn lemma_document_keys_differ()
    ensures
        "busy"@ != "total"@,
        "models"@ != "vram"@,
        "models"@ != "slots"@,
        "vram"@ != "slots"@,
        "id"@ != "loaded"@,
        "total_bytes"@ != "used_bytes"@,
        "llama_server_url"@ != "queue_depth"@,
        "slot_id"@ != "busy"@,
        "slot_id"@ != "resident_prefix"@,
        "busy"@ != "resident_prefix"@,
{
    reveal_strlit("busy");
    reveal_strlit("total");
    reveal_strlit("models");
    reveal_strlit("vram");
    reveal_strlit("slots");
    reveal_strlit("id");
    reveal_strlit("loaded");
    reveal_strlit("total_bytes");
    reveal_strlit("used_bytes");
    reveal_strlit("llama_server_url");
    reveal_strlit("queue_depth");
    reveal_strlit("slot_id");
    reveal_strlit("resident_prefix");
    assert("busy"@.len() == 4 && "total"@.len() == 5);
    assert("models"@.len() == 6 && "vram"@.len() == 4 && "slots"@.len() == 5);
    assert("id"@.len() == 2 && "loaded"@.len() == 6);
    assert("total_bytes"@.len() == 11 && "used_bytes"@.len() == 10);
    assert("llama_server_url"@.len() == 16 && "queue_depth"@.len() == 11);
    assert("slot_id"@.len() == 7 && "resident_prefix"@.len() == 15);
}

} // verus!
