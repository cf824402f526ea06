//! The life of one chat completion: from its arrival, through waiting for a
//! slot, restoring or warming that slot's cache and forwarding the request,
//! to the release of the slot.
//!
//! [`Completion::step`] decides; its caller performs the action it is told to
//! perform and reports the outcome as the next event.
use crate::json::{Json, JsonView};
use crate::scheduler::{
    Admission, AdmitEvent, AdmitStep, HintView, Scheduler, SchedulerError, SchedulerView,
    SlotHint,
};
use crate::text::endpoint;
use tokio::sync::oneshot;
use vstd::prelude::*;

verus! {

/// What a saved prefix is filed under.
#[derive(Debug)]
pub struct CacheKey {
    pub backend_id: String,
    pub model_id: String,
    pub build_hash: String,
    pub prefix_hash: String,
}

/// What is filed with a saved prefix.
#[derive(Debug, Clone, Copy, PartialEq, Eq, Structural)]
pub struct CacheMeta {
    pub size_bytes: u64,
    pub token_count: u64,
}

/// An answer of the broker's own.
#[derive(Debug)]
pub struct Reply {
    pub status: u16,
    pub body: Option<Json>,
}

/// How far a completion has come, and which slot it holds.
#[derive(Debug, Clone, Copy, PartialEq, Eq, Structural)]
pub enum Phase {
    /// It has no slot yet.
    Waiting,
    /// The saved prefix is being restored into the slot.
    Restoring(u32),
    /// The prefix is being computed on the slot.
    Warming(u32),
    /// The computed prefix is being saved.
    Saving(u32),
    /// The request is on its way to `llama-server`.
    Forwarding(u32),
    /// A successful answer is being streamed to the client.
    Streaming(u32),
    /// Another answer is being read as a whole.
    Reading(u32),
    /// It has ended, and holds nothing.
    Ended,
}

/// What happened.
#[derive(Debug)]
pub enum Event {
    /// The request arrived, or was woken. The sender is what it can be woken
    /// through, should it have to wait.
    Attempt(oneshot::Sender<()>),
    /// The time to wait for a slot is over.
    Expired,
    /// Whether the store had the prefix; `None` if the store failed.
    Restored(Option<bool>),
    /// The warm-up request was answered with success, or what went wrong.
    WarmedUp(Result<(), String>),
    /// Whether the prefix was saved.
    Saved(bool),
    /// The status of `llama-server`'s answer, or what went wrong.
    Answered(Result<u16, String>),
    /// The answer was read to its end, or what went wrong.
    BodyRead(Result<(), String>),
    /// The stream was drained, or the client went away.
    Closed,
}

/// What to do next.
#[derive(Debug)]
pub enum Action {
    /// Wait for the wake signal or the deadline.
    Wait,
    /// Restore the saved prefix into the slot.
    Restore { key: CacheKey, slot_id: u32 },
    /// Send this request and wait for its answer.
    WarmUp { url: String, body: Json },
    /// Save the slot's content.
    Save { key: CacheKey, slot_id: u32, meta: CacheMeta },
    /// Send this request on the client's behalf.
    Forward { url: String, body: Json },
    /// Hand status, headers and body on as they come.
    Stream,
    /// Read the whole body.
    ReadBody,
    /// Hand on status, headers and the body that was read.
    Relay,
    /// Answer this.
    Reply(Reply),
    /// There is nothing left to do.
    Finish,
    /// The event does not belong to this phase and changed nothing.
    Ignore,
}

/// The next action, and everyone whose wait has to be ended before it.
#[derive(Debug)]
pub struct Outcome {
    pub action: Action,
    pub woken: Vec<oneshot::Sender<()>>,
}

/// One chat completion.
#[derive(Debug)]
pub struct Completion {
    base_url: String,
    body: Json,
    hint: Option<SlotHint>,
    phase: Phase,
}

// ---------------------------------------------------------------------------
// Model
// ---------------------------------------------------------------------------

pub ghost struct CacheKeyView {
    pub backend_id: Seq<char>,
    pub model_id: Seq<char>,
    pub build_hash: Seq<char>,
    pub prefix_hash: Seq<char>,
}

pub ghost struct ReplyView {
    pub status: u16,
    pub body: Option<JsonView>,
}

pub ghost enum ActionView {
    Wait,
    Restore { key: CacheKeyView, slot_id: u32 },
    WarmUp { url: Seq<char>, body: JsonView },
    Save { key: CacheKeyView, slot_id: u32, meta: CacheMeta },
    Forward { url: Seq<char>, body: JsonView },
    Stream,
    ReadBody,
    Relay,
    Reply(ReplyView),
    Finish,
    Ignore,
}

/// A completion as plain data.
pub ghost struct CompletionView {
    pub base_url: Seq<char>,
    pub body: JsonView,
    pub hint: Option<HintView>,
    pub phase: Phase,
}

/// Everything a step leaves behind.
pub ghost struct StepView {
    pub completion: CompletionView,
    pub scheduler: SchedulerView,
    pub action: ActionView,
    pub woken: Seq<oneshot::Sender<()>>,
}

impl View for CacheKey {
    type V = CacheKeyView;

    open spec fn view(&self) -> CacheKeyView {
        CacheKeyView {
            backend_id: self.backend_id@,
            model_id: self.model_id@,
            build_hash: self.build_hash@,
            prefix_hash: self.prefix_hash@,
        }
    }
}

impl View for Reply {
    type V = ReplyView;

    open spec fn view(&self) -> ReplyView {
        ReplyView {
            status: self.status,
            body: match self.body {
                Some(body) => Some(body@),
                None => None,
            },
        }
    }
}

impl View for Action {
    type V = ActionView;

    open spec fn view(&self) -> ActionView {
        match self {
            Action::Wait => ActionView::Wait,
            Action::Restore { key, slot_id } => ActionView::Restore {
                key: key@,
                slot_id: *slot_id,
            },
            Action::WarmUp { url, body } => ActionView::WarmUp { url: url@, body: body@ },
            Action::Save { key, slot_id, meta } => ActionView::Save {
                key: key@,
                slot_id: *slot_id,
                meta: *meta,
            },
            Action::Forward { url, body } => ActionView::Forward { url: url@, body: body@ },
            Action::Stream => ActionView::Stream,
            Action::ReadBody => ActionView::ReadBody,
            Action::Relay => ActionView::Relay,
            Action::Reply(reply) => ActionView::Reply(reply@),
            Action::Finish => ActionView::Finish,
            Action::Ignore => ActionView::Ignore,
        }
    }
}

impl View for Completion {
    type V = CompletionView;

    closed spec fn view(&self) -> CompletionView {
        CompletionView {
            base_url: self.base_url@,
            body: self.body@,
            hint: crate::scheduler::hint_model(self.hint),
            phase: self.phase,
        }
    }
}

impl Phase {
    /// The slot that a completion in this phase holds.
    pub open spec fn slot(self) -> Option<u32> {
        match self {
            Phase::Waiting => None,
            Phase::Restoring(slot_id) => Some(slot_id),
            Phase::Warming(slot_id) => Some(slot_id),
            Phase::Saving(slot_id) => Some(slot_id),
            Phase::Forwarding(slot_id) => Some(slot_id),
            Phase::Streaming(slot_id) => Some(slot_id),
            Phase::Reading(slot_id) => Some(slot_id),
            Phase::Ended => None,
        }
    }
}

impl SchedulerView {
    /// Slot `slot_id`, if there is one, on record as holding `prefix`.
    pub open spec fn recorded(self, slot_id: u32, prefix: Option<Seq<char>>) -> SchedulerView {
        if self.has_slot(slot_id) {
            self.with_resident(slot_id as int, prefix)
        } else {
            self
        }
    }

    /// Slot `slot_id`, if there is one, free, and nobody waiting for it.
    pub open spec fn released(self, slot_id: u32) -> SchedulerView {
        if self.has_slot(slot_id) {
            self.freed(slot_id as int)
        } else {
            self
        }
    }

    /// Everyone who is woken by the release of `slot_id`.
    pub open spec fn woken_by(self, slot_id: u32) -> Seq<oneshot::Sender<()>> {
        if self.has_slot(slot_id) {
            self.woken(slot_id as int)
        } else {
            Seq::empty()
        }
    }
}

/// `{"error": message}` with the given status.
pub open spec fn error_reply(status: u16, message: Seq<char>) -> ReplyView {
    ReplyView {
        status,
        body: Some(JsonView::Object(map!["error"@ => JsonView::Text(message)])),
    }
}

/// What the prefix of this hash is filed under.
pub open spec fn cache_key_of(prefix_hash: Seq<char>) -> CacheKeyView {
    CacheKeyView {
        backend_id: "aivyx-broker"@,
        model_id: "aivyx-broker"@,
        build_hash: "aivyx-broker"@,
        prefix_hash,
    }
}

/// A chat message.
pub open spec fn message_of(role: Seq<char>, content: Seq<char>) -> JsonView {
    JsonView::Object(
        map!["role"@ => JsonView::Text(role), "content"@ => JsonView::Text(content)],
    )
}

/// The first message with the role `system`.
pub open spec fn first_system_message(messages: Seq<JsonView>) -> Option<JsonView>
    decreases messages.len(),
{
    if messages.len() == 0 {
        None
    } else if messages[0].get("role"@) == Some(JsonView::Text("system"@)) {
        Some(messages[0])
    } else {
        first_system_message(messages.drop_first())
    }
}

/// The request's system message, or an empty one if it has none.
pub open spec fn system_message_of(body: JsonView) -> JsonView {
    let found = match body.get("messages"@) {
        Some(JsonView::Array(messages)) => first_system_message(messages),
        _ => None,
    };
    match found {
        Some(message) => message,
        None => message_of("system"@, ""@),
    }
}

/// The request that computes the stable prefix of `body` on a slot: its system
/// message and its tools, an empty question, and a single token of answer.
pub open spec fn warm_up_of(body: JsonView, slot_id: u32) -> JsonView {
    let plain = JsonView::Object(
        map![
            "messages"@ => JsonView::Array(
                seq![system_message_of(body), message_of("user"@, ""@)],
            ),
            "max_tokens"@ => JsonView::Unsigned(1),
            "id_slot"@ => JsonView::Unsigned(slot_id as u64),
        ],
    );
    match body.get("tools"@) {
        Some(tools) => plain.with("tools"@, tools),
        None => plain,
    }
}

impl CompletionView {
    pub open spec fn at(self, phase: Phase) -> CompletionView {
        CompletionView { phase, ..self }
    }

    pub open spec fn completions_url(self) -> Seq<char> {
        crate::text::endpoint_of(self.base_url, "/v1/chat/completions"@)
    }

    /// Goes on with `action`, waking nobody.
    pub open spec fn going_on(
        self,
        scheduler: SchedulerView,
        phase: Phase,
        action: ActionView,
    ) -> StepView {
        StepView { completion: self.at(phase), scheduler, action, woken: Seq::empty() }
    }

    /// Gives up the slot and ends with `action`.
    pub open spec fn ending(
        self,
        scheduler: SchedulerView,
        slot_id: u32,
        action: ActionView,
    ) -> StepView {
        StepView {
            completion: self.at(Phase::Ended),
            scheduler: scheduler.released(slot_id),
            action,
            woken: scheduler.woken_by(slot_id),
        }
    }

    /// Gives up the slot and answers that the gateway failed.
    pub open spec fn failing(
        self,
        scheduler: SchedulerView,
        slot_id: u32,
        message: Seq<char>,
    ) -> StepView {
        self.ending(scheduler, slot_id, ActionView::Reply(error_reply(502, message)))
    }

    /// Sends the request, pinned to the slot, and keeps it no longer.
    pub open spec fn forwarding(self, scheduler: SchedulerView, slot_id: u32) -> StepView {
        let request = self.body.with("id_slot"@, JsonView::Unsigned(slot_id as u64));
        CompletionView { body: JsonView::Null, ..self }.going_on(
            scheduler,
            Phase::Forwarding(slot_id),
            ActionView::Forward { url: self.completions_url(), body: request },
        )
    }

    /// Notes what the slot now holds, and sends the request.
    pub open spec fn prepared(self, scheduler: SchedulerView, slot_id: u32) -> StepView {
        match self.hint {
            Some(h) => self.forwarding(
                scheduler.recorded(slot_id, Some(h.prefix_hash)),
                slot_id,
            ),
            None => self.forwarding(scheduler, slot_id),
        }
    }

    /// What follows the admission to a slot.
    pub open spec fn admitted(
        self,
        scheduler: SchedulerView,
        slot_id: u32,
        cache_ready: bool,
    ) -> StepView {
        match self.hint {
            Some(h) => if cache_ready {
                self.forwarding(scheduler, slot_id)
            } else {
                self.going_on(
                    scheduler,
                    Phase::Restoring(slot_id),
                    ActionView::Restore { key: cache_key_of(h.prefix_hash), slot_id },
                )
            },
            None => self.forwarding(scheduler.recorded(slot_id, None), slot_id),
        }
    }

    /// The whole of a step: next state, effect on the slots, and action.
    pub open spec fn stepped(self, scheduler: SchedulerView, event: Event) -> StepView {
        match (self.phase, event) {
            (Phase::Waiting, Event::Attempt(waiter)) => if scheduler.admittable(self.hint) {
                let i = scheduler.choice(self.hint);
                self.admitted(
                    scheduler.claim(i),
                    i as u32,
                    scheduler.slots[i].holds(self.hint),
                )
            } else {
                self.going_on(
                    scheduler.enqueue(self.hint, waiter),
                    Phase::Waiting,
                    ActionView::Wait,
                )
            },
            (Phase::Waiting, Event::Expired) => self.going_on(
                scheduler,
                Phase::Ended,
                ActionView::Reply(error_reply(503, "timed out waiting for a free slot"@)),
            ),
            (Phase::Restoring(slot_id), Event::Restored(found)) => if found == Some(true) {
                self.prepared(scheduler, slot_id)
            } else {
                self.going_on(
                    scheduler,
                    Phase::Warming(slot_id),
                    ActionView::WarmUp {
                        url: self.completions_url(),
                        body: warm_up_of(self.body, slot_id),
                    },
                )
            },
            (Phase::Warming(slot_id), Event::WarmedUp(Ok(_))) => match self.hint {
                Some(h) => self.going_on(
                    scheduler,
                    Phase::Saving(slot_id),
                    ActionView::Save {
                        key: cache_key_of(h.prefix_hash),
                        slot_id,
                        meta: CacheMeta { size_bytes: 1, token_count: 1 },
                    },
                ),
                None => self.prepared(scheduler, slot_id),
            },
            (Phase::Warming(slot_id), Event::WarmedUp(Err(message))) => self.failing(
                scheduler,
                slot_id,
                message@,
            ),
            (Phase::Saving(slot_id), Event::Saved(_)) => self.prepared(scheduler, slot_id),
            (Phase::Forwarding(slot_id), Event::Answered(Ok(status))) => if 200 <= status < 300 {
                self.going_on(scheduler, Phase::Streaming(slot_id), ActionView::Stream)
            } else {
                self.going_on(scheduler, Phase::Reading(slot_id), ActionView::ReadBody)
            },
            (Phase::Forwarding(slot_id), Event::Answered(Err(message))) => self.failing(
                scheduler,
                slot_id,
                message@,
            ),
            (Phase::Reading(slot_id), Event::BodyRead(Ok(_))) => self.ending(
                scheduler,
                slot_id,
                ActionView::Relay,
            ),
            (Phase::Reading(slot_id), Event::BodyRead(Err(message))) => self.failing(
                scheduler,
                slot_id,
                message@,
            ),
            (phase, Event::Closed) => match phase.slot() {
                Some(slot_id) => self.ending(scheduler, slot_id, ActionView::Finish),
                None => self.going_on(scheduler, Phase::Ended, ActionView::Finish),
            },
            (phase, _) => self.going_on(scheduler, phase, ActionView::Ignore),
        }
    }
}

// ---------------------------------------------------------------------------
// Requests and replies
// ---------------------------------------------------------------------------

impl Reply {
    /// `{"error": message}` with the given status.
    pub fn error(status: u16, message: String) -> (r: Self)
        ensures
            r@ == error_reply(status, message@),
    {
        let mut body = Json::object();
        body.insert("error", Json::Text(message));
        assert(body@ == JsonView::Object(map!["error"@ => JsonView::Text(message@)]));
        Reply { status, body: Some(body) }
    }
}

/// What the prefix of this hash is filed under.
fn cache_key(prefix_hash: &String) -> (r: CacheKey)
    ensures
        r@ == cache_key_of(prefix_hash@),
{
    CacheKey {
        backend_id: String::from_str("aivyx-broker"),
        model_id: String::from_str("aivyx-broker"),
        build_hash: String::from_str("aivyx-broker"),
        prefix_hash: prefix_hash.clone(),
    }
}

/// A chat message.
fn message(role: &str, content: &str) -> (r: Json)
    ensures
        r@ == message_of(role@, content@),
{
    let mut message = Json::object();
    message.insert("role", Json::text(role));
    message.insert("content", Json::text(content));
    assert(message@->Object_0 =~= message_of(role@, content@)->Object_0);
    message
}

/// A copy of the request's system message, or an empty one if it has none.
pub fn system_message(body: &Json) -> (r: Json)
    ensures
        r@ == system_message_of(body@),
{
    if let Some(list) = body.get("messages") {
        if let Some(messages) = list.as_array() {
            let ghost model = crate::json::items_model(messages@);
            proof {
                crate::json::lemma_items_model(messages@);
                assert(model.skip(0) =~= model);
            }
            let mut i: usize = 0;
            while i < messages.len()
                invariant
                    i <= messages@.len(),
                    model.len() == messages@.len(),
                    forall|j: int| 0 <= j < model.len() ==> #[trigger] model[j] == messages@[j]@,
                    body@.get("messages"@) == Some(JsonView::Array(model)),
                    first_system_message(model) == first_system_message(model.skip(i as int)),
                decreases messages@.len() - i,
            {
                assert(model.skip(i as int)[0] == messages@[i as int]@);
                assert(model.skip(i as int).drop_first() =~= model.skip(i + 1));
                if let Some(role) = messages[i].get("role") {
                    if role.is_text("system") {
                        return messages[i].clone();
                    }
                }
                i = i + 1;
            }
        }
    }
    message("system", "")
}

/// The request that computes the stable prefix of `body` on a slot.
///
/// The prefix is system message and tools together: a warm-up without the
/// tools would compute something that no real request matches.
pub fn warm_up(body: &Json, slot_id: u32) -> (r: Json)
    ensures
        r@ == warm_up_of(body@, slot_id),
{
    let mut messages: Vec<Json> = Vec::new();
    messages.push(system_message(body));
    messages.push(message("user", ""));
    let ghost model = crate::json::items_model(messages@);
    proof {
        crate::json::lemma_items_model(messages@);
        assert(model =~= seq![system_message_of(body@), message_of("user"@, ""@)]);
    }
    let mut request = Json::object();
    request.insert("messages", Json::Array(messages));
    request.insert("max_tokens", Json::Unsigned(1));
    request.insert("id_slot", Json::Unsigned(slot_id as u64));
    assert(request@->Object_0 =~= map![
        "messages"@ => JsonView::Array(model),
        "max_tokens"@ => JsonView::Unsigned(1),
        "id_slot"@ => JsonView::Unsigned(slot_id as u64),
    ]);
    if let Some(tools) = body.get("tools") {
        request.insert("tools", tools.clone());
    }
    request
}

/// Takes the broker's own hint out of a request body, so that it is never
/// forwarded.
pub fn take_hint(body: &mut Json) -> (r: Option<Json>)
    ensures
        final(body)@ == old(body)@.without("aivyx_slot_hint"@),
        match r {
            Some(hint) => old(body)@.get("aivyx_slot_hint"@) == Some(hint@),
            None => old(body)@.get("aivyx_slot_hint"@) is None,
        },
{
    body.remove("aivyx_slot_hint")
}

// ---------------------------------------------------------------------------
// Steps
// ---------------------------------------------------------------------------

impl Outcome {
    pub open spec fn is(self, step: StepView) -> bool {
        self.action@ == step.action && self.woken@ == step.woken
    }

    /// An action that wakes nobody.
    fn quiet(action: Action) -> (r: Self)
        ensures
            r.action == action,
            r.woken@ == Seq::<oneshot::Sender<()>>::empty(),
    {
        Outcome { action, woken: Vec::new() }
    }
}

impl Phase {
    /// The slot that a completion in this phase holds.
    pub fn held_slot(&self) -> (r: Option<u32>)
        ensures
            r == self.slot(),
    {
        match self {
            Phase::Waiting => None,
            Phase::Restoring(slot_id) => Some(*slot_id),
            Phase::Warming(slot_id) => Some(*slot_id),
            Phase::Saving(slot_id) => Some(*slot_id),
            Phase::Forwarding(slot_id) => Some(*slot_id),
            Phase::Streaming(slot_id) => Some(*slot_id),
            Phase::Reading(slot_id) => Some(*slot_id),
            Phase::Ended => None,
        }
    }
}

impl Completion {
    /// A request that just arrived, its hint already taken out of the body,
    /// for the `llama-server` at `base_url`.
    pub fn new(base_url: String, body: Json, hint: Option<SlotHint>) -> (r: Self)
        ensures
            r@ == (CompletionView {
                base_url: base_url@,
                body: body@,
                hint: crate::scheduler::hint_model(hint),
                phase: Phase::Waiting,
            }),
    {
        Completion { base_url, body, hint, phase: Phase::Waiting }
    }

    pub fn phase(&self) -> (r: Phase)
        ensures
            r == self@.phase,
    {
        self.phase
    }

    /// Sends the request, pinned to the slot.
    fn forward(&mut self, Ghost(scheduler): Ghost<SchedulerView>, slot_id: u32) -> (r: Outcome)
        ensures
            r.is(old(self)@.forwarding(scheduler, slot_id)),
            final(self)@ == old(self)@.forwarding(scheduler, slot_id).completion,
    {
        self.phase = Phase::Forwarding(slot_id);
        let mut body = Json::Null;
        std::mem::swap(&mut body, &mut self.body);
        body.insert("id_slot", Json::Unsigned(slot_id as u64));
        let url = endpoint(self.base_url.as_str(), "/v1/chat/completions");
        Outcome::quiet(Action::Forward { url, body })
    }

    /// Notes what the slot now holds, and sends the request.
    fn forward_prepared(&mut self, scheduler: &mut Scheduler, slot_id: u32) -> (r: Outcome)
        requires
            old(scheduler).wf(),
        ensures
            final(scheduler).wf(),
            r.is(old(self)@.prepared(old(scheduler)@, slot_id)),
            final(self)@ == old(self)@.prepared(old(scheduler)@, slot_id).completion,
            final(scheduler)@ == old(self)@.prepared(old(scheduler)@, slot_id).scheduler,
    {
        if let Some(hint) = &self.hint {
            scheduler.mark_resident(slot_id, hint.prefix_hash.clone());
        }
        self.forward(Ghost(scheduler@), slot_id)
    }

    /// Gives up the slot and ends with `action`.
    fn end(&mut self, scheduler: &mut Scheduler, slot_id: u32, action: Action) -> (r: Outcome)
        requires
            old(scheduler).wf(),
        ensures
            final(scheduler).wf(),
            r.is(old(self)@.ending(old(scheduler)@, slot_id, action@)),
            final(self)@ == old(self)@.ending(old(scheduler)@, slot_id, action@).completion,
            final(scheduler)@ == old(self)@.ending(old(scheduler)@, slot_id, action@).scheduler,
    {
        self.phase = Phase::Ended;
        let woken = scheduler.release(slot_id);
        assert(woken@ =~= old(scheduler)@.woken_by(slot_id));
        Outcome { action, woken }
    }

    /// What follows the admission to a slot: a hinted prefix that the slot
    /// does not hold has to be brought there first. Without a hint the slot's
    /// content is about to be overwritten by something unknown, so the record
    /// of it is dropped.
    fn handle_admitted(&mut self, scheduler: &mut Scheduler, admission: Admission) -> (r: Outcome)
        requires
            old(scheduler).wf(),
        ensures
            final(scheduler).wf(),
            ({
                let step = old(self)@.admitted(
                    old(scheduler)@,
                    admission.slot_id,
                    admission.cache_ready,
                );
                &&& r.is(step)
                &&& final(self)@ == step.completion
                &&& final(scheduler)@ == step.scheduler
            }),
    {
        let slot_id: u32 = admission.slot_id;
        match &self.hint {
            Some(hint) => {
                if !admission.cache_ready {
                    let key = cache_key(&hint.prefix_hash);
                    self.phase = Phase::Restoring(slot_id);
                    return Outcome::quiet(Action::Restore { key, slot_id });
                }
            },
            None => {
                scheduler.clear_resident(slot_id);
            },
        }
        self.forward(Ghost(scheduler@), slot_id)
    }

    /// What follows the attempt to restore: a prefix that the store does not
    /// have, or could not restore, is computed on the slot instead.
    fn warm_or_restore(
        &mut self,
        scheduler: &mut Scheduler,
        slot_id: u32,
        found: Option<bool>,
    ) -> (r: Outcome)
        requires
            old(scheduler).wf(),
            old(self)@.phase == Phase::Restoring(slot_id),
        ensures
            final(scheduler).wf(),
            ({
                let step = old(self)@.stepped(old(scheduler)@, Event::Restored(found));
                &&& r.is(step)
                &&& final(self)@ == step.completion
                &&& final(scheduler)@ == step.scheduler
            }),
    {
        if let Some(true) = found {
            return self.forward_prepared(scheduler, slot_id);
        }
        self.phase = Phase::Warming(slot_id);
        let url = endpoint(self.base_url.as_str(), "/v1/chat/completions");
        let body = warm_up(&self.body, slot_id);
        Outcome::quiet(Action::WarmUp { url, body })
    }

    /// Decides what `event` leads to.
    ///
    /// Each failure of the store is made up for: a prefix that cannot be
    /// restored is computed, and one that cannot be saved is used all the
    /// same. A failure of `llama-server` ends the completion, and a prefix
    /// whose warm-up failed is not recorded.
    pub fn step(&mut self, scheduler: &mut Scheduler, event: Event) -> (r: Outcome)
        requires
            old(scheduler).wf(),
            event is Attempt ==> old(scheduler)@.clock < u64::MAX,
        ensures
            final(scheduler).wf(),
            ({
                let step = old(self)@.stepped(old(scheduler)@, event);
                &&& r.is(step)
                &&& final(self)@ == step.completion
                &&& final(scheduler)@ == step.scheduler
            }),
    {
        match (self.phase, event) {
            (Phase::Waiting, Event::Attempt(waiter)) => {
                let ghost hint = crate::scheduler::hint_model(self.hint);
                proof {
                    crate::scheduler_laws::law_the_choice_is_determined(scheduler@, hint);
                }
                match scheduler.admit_request(&self.hint, AdmitEvent::Attempt(waiter)) {
                    AdmitStep::Admitted(admission) => {
                        assert(admission.slot_id == old(scheduler)@.choice(hint));
                        self.handle_admitted(scheduler, admission)
                    },
                    _ => Outcome::quiet(Action::Wait),
                }
            },
            (Phase::Waiting, Event::Expired) => {
                self.phase = Phase::Ended;
                Outcome::quiet(
                    Action::Reply(
                        Reply::error(503, SchedulerError::Timeout.message()),
                    ),
                )
            },
            (Phase::Restoring(slot_id), Event::Restored(found)) => {
                self.warm_or_restore(scheduler, slot_id, found)
            },
            (Phase::Warming(slot_id), Event::WarmedUp(Ok(_))) => match &self.hint {
                Some(hint) => {
                    let key = cache_key(&hint.prefix_hash);
                    self.phase = Phase::Saving(slot_id);
                    let meta = CacheMeta { size_bytes: 1, token_count: 1 };
                    Outcome::quiet(Action::Save { key, slot_id, meta })
                },
                None => self.forward_prepared(scheduler, slot_id),
            },
            (Phase::Warming(slot_id), Event::WarmedUp(Err(message))) => {
                self.end(scheduler, slot_id, Action::Reply(Reply::error(502, message)))
            },
            (Phase::Saving(slot_id), Event::Saved(_)) => self.forward_prepared(scheduler, slot_id),
            (Phase::Forwarding(slot_id), Event::Answered(Ok(status))) => {
                if 200 <= status && status < 300 {
                    self.phase = Phase::Streaming(slot_id);
                    Outcome::quiet(Action::Stream)
                } else {
                    self.phase = Phase::Reading(slot_id);
                    Outcome::quiet(Action::ReadBody)
                }
            },
            (Phase::Forwarding(slot_id), Event::Answered(Err(message))) => {
                self.end(scheduler, slot_id, Action::Reply(Reply::error(502, message)))
            },
            (Phase::Reading(slot_id), Event::BodyRead(Ok(_))) => {
                self.end(scheduler, slot_id, Action::Relay)
            },
            (Phase::Reading(slot_id), Event::BodyRead(Err(message))) => {
                self.end(scheduler, slot_id, Action::Reply(Reply::error(502, message)))
            },
            (phase, Event::Closed) => match phase.held_slot() {
                Some(slot_id) => self.end(scheduler, slot_id, Action::Finish),
                None => {
                    self.phase = Phase::Ended;
                    Outcome::quiet(Action::Finish)
                },
            },
            (_, _) => Outcome::quiet(Action::Ignore),
        }
    }
}

} // verus!
