//! What holds of chat completions as a whole.
use crate::completion::{
    Action, ActionView, CacheKey, CompletionView, Event, Phase, Reply,
};
use crate::json::JsonView;
use crate::scheduler::{HintView, SchedulerView};
use crate::scheduler_laws::Change;
use tokio::sync::oneshot;
use vstd::prelude::*;

verus! {

/// The slot of a completion, if it has one, exists and is busy on its behalf.
pub open spec fn holds_its_slot(c: CompletionView, s: SchedulerView) -> bool {
    c.phase.slot() matches Some(slot_id) ==> {
        &&& s.has_slot(slot_id)
        &&& s.slots[slot_id as int].busy
        &&& !s.slots[slot_id as int].seeded_unowned
        &&& s.slots[slot_id as int].last_used > 0
    }
}

/// Completions that run side by side: each holds its slot, and no two hold the
/// same.
pub open spec fn side_by_side(all: Seq<CompletionView>, s: SchedulerView) -> bool {
    &&& forall|k: int| 0 <= k < all.len() ==> holds_its_slot(#[trigger] all[k], s)
    &&& forall|k: int, l: int|
        0 <= k < l < all.len() && (#[trigger] all[k]).phase.slot() is Some ==> (
        #[trigger] all[l]).phase.slot() != all[k].phase.slot()
}

/// How many steps a completion that has a slot can still make.
pub open spec fn remaining_steps(phase: Phase) -> nat {
    match phase {
        Phase::Waiting => 6,
        Phase::Restoring(_) => 5,
        Phase::Warming(_) => 4,
        Phase::Saving(_) => 3,
        Phase::Forwarding(_) => 2,
        Phase::Streaming(_) => 1,
        Phase::Reading(_) => 1,
        Phase::Ended => 0,
    }
}

/// Two completions never share a slot, whatever happens to either of them: a
/// slot is busy from the admission of a completion until that completion ends,
/// and nobody else is admitted to it meanwhile.
pub proof fn law_no_two_completions_share_a_slot(
    all: Seq<CompletionView>,
    s: SchedulerView,
    k: int,
    event: Event,
)
    requires
        s.valid(),
        event is Attempt ==> s.clock < u64::MAX,
        side_by_side(all, s),
        0 <= k < all.len(),
    ensures
        ({
            let step = all[k].stepped(s, event);
            &&& step.scheduler.valid()
            &&& side_by_side(all.update(k, step.completion), step.scheduler)
        }),
{
    let c = all[k];
    let step = c.stepped(s, event);
    let t = step.scheduler;
    crate::scheduler_laws::law_the_choice_is_determined(s, c.hint);
    assert(holds_its_slot(c, s));
    assert(step.completion.phase.slot() is Some ==> step.completion.phase.slot()
        == c.phase.slot() || c.phase is Waiting);
    assert forall|l: int| 0 <= l < all.len() && l != k implies holds_its_slot(all[l], t)
        && (all[l].phase.slot() is Some ==> all[l].phase.slot()
        != step.completion.phase.slot()) by {
        assert(holds_its_slot(all[l], s));
        if l < k {
            assert(all[l].phase.slot() is Some ==> all[k].phase.slot() != all[l].phase.slot());
        } else {
            assert(all[k].phase.slot() is Some ==> all[l].phase.slot() != all[k].phase.slot());
        }
    }
    assert(holds_its_slot(step.completion, t));
    match (c.phase, event) {
        (Phase::Waiting, Event::Attempt(waiter)) => if s.admittable(c.hint) {
            let i = s.choice(c.hint);
            crate::scheduler_laws::law_every_change_keeps_the_invariant(s, Change::Claim(i));
            crate::scheduler_laws::law_every_change_keeps_the_invariant(s.claim(i), Change::Resident(i, None));
        } else {
            crate::scheduler_laws::law_every_change_keeps_the_invariant(s, Change::Enqueue(c.hint, waiter));
        },
        _ => if let Some(slot_id) = c.phase.slot() {
            crate::scheduler_laws::law_every_change_keeps_the_invariant(s, Change::Release(slot_id as int));
            if let Some(h) = c.hint {
                let resident = Change::Resident(slot_id as int, Some(h.prefix_hash));
                crate::scheduler_laws::law_every_change_keeps_the_invariant(s, resident);
            }
        },
    }
}

/// Neither a seeding nor a report that a slot is idle ever takes a slot from a
/// running completion: what is freed by a report is held by none of them, also
/// after a seeding.
pub proof fn law_no_report_frees_a_held_slot(
    all: Seq<CompletionView>,
    s: SchedulerView,
    i: int,
)
    requires
        side_by_side(all, s),
        0 <= i < s.slots.len(),
    ensures
        side_by_side(all, Change::Reconcile(i).apply(s)),
        side_by_side(all, Change::Seed(i).apply(s)),
{
    let t = Change::Reconcile(i).apply(s);
    let u = Change::Seed(i).apply(s);
    assert forall|k: int| 0 <= k < all.len() implies holds_its_slot(#[trigger] all[k], t)
        && holds_its_slot(all[k], u) by {
        assert(holds_its_slot(all[k], s));
    }
}

/// A slot is given up exactly once, when its completion ends: until then every
/// step keeps the same slot, the last one frees it and wakes everyone who
/// waits for it, and after that the completion touches nothing any more.
pub proof fn law_a_slot_is_given_up_exactly_once(c: CompletionView, s: SchedulerView, event: Event)
    ensures
        ({
            let step = c.stepped(s, event);
            &&& c.phase.slot() matches Some(slot_id) ==> if step.completion.phase is Ended {
                &&& step.scheduler == s.released(slot_id)
                &&& step.woken == s.woken_by(slot_id)
            } else {
                &&& step.completion.phase.slot() == Some(slot_id)
                &&& step.woken.len() == 0
            }
            &&& c.phase is Ended ==> {
                &&& step.completion == c
                &&& step.scheduler == s
                &&& step.woken.len() == 0
            }
        }),
{
}

/// A stream holds its slot: as long as it is neither drained nor dropped, no
/// event makes its completion give the slot up.
pub proof fn law_a_stream_holds_its_slot(
    c: CompletionView,
    s: SchedulerView,
    slot_id: u32,
    event: Event,
)
    requires
        c.phase == Phase::Streaming(slot_id),
        !(event is Closed),
    ensures
        c.stepped(s, event).completion == c,
        c.stepped(s, event).scheduler == s,
{
}

/// Whatever phase a completion is in, it ends when its client goes away.
pub proof fn law_a_client_that_goes_away_ends_its_completion(c: CompletionView, s: SchedulerView)
    ensures
        c.stepped(s, Event::Closed).completion.phase is Ended,
        c.stepped(s, Event::Closed).action == ActionView::Finish,
        c.phase.slot() matches Some(slot_id) ==> c.stepped(s, Event::Closed).scheduler
            == s.released(slot_id),
        c.phase.slot() is None ==> c.stepped(s, Event::Closed).scheduler == s,
{
}

/// A completion comes to an end: every event that is not ignored brings one
/// that no longer waits closer to it.
pub proof fn law_every_step_comes_closer_to_the_end(
    c: CompletionView,
    s: SchedulerView,
    event: Event,
)
    ensures
        ({
            let step = c.stepped(s, event);
            ||| step.action is Ignore && step.completion == c && step.scheduler == s
            ||| step.action is Wait && step.completion == c
            ||| remaining_steps(step.completion.phase) < remaining_steps(c.phase)
            ||| step.action is Finish && c.phase is Ended
        }),
{
}

/// A request that could not get a slot in time is answered with status 503 and
/// changes nothing.
pub proof fn law_a_refused_request_is_answered(c: CompletionView, s: SchedulerView)
    requires
        c.phase is Waiting,
    ensures
        ({
            let step = c.stepped(s, Event::Expired);
            &&& step.action == ActionView::Reply(
                crate::completion::error_reply(503, "timed out waiting for a free slot"@),
            )
            &&& step.completion.phase is Ended
            &&& step.scheduler == s
            &&& step.woken.len() == 0
        }),
{
}

/// Neither the request nor the warm-up that is sent to `llama-server` holds
/// the broker's own hint, once the hint is taken out of the body, and no step
/// brings it back.
pub proof fn law_the_hint_is_never_forwarded(c: CompletionView, s: SchedulerView, event: Event)
    requires
        c.body.get("aivyx_slot_hint"@) is None,
    ensures
        ({
            let step = c.stepped(s, event);
            &&& step.completion.body.get("aivyx_slot_hint"@) is None
            &&& step.action matches ActionView::Forward { body, .. } ==> body.get(
                "aivyx_slot_hint"@,
            ) is None
            &&& step.action matches ActionView::WarmUp { body, .. } ==> body.get(
                "aivyx_slot_hint"@,
            ) is None
        }),
{
    lemma_keys_differ();
}

/// The hint taken out of a body is gone, and everything else is still there.
pub proof fn law_only_the_hint_is_taken_out(body: JsonView, key: Seq<char>)
    ensures
        body.without("aivyx_slot_hint"@).get("aivyx_slot_hint"@) is None,
        key != "aivyx_slot_hint"@ ==> body.without("aivyx_slot_hint"@).get(key) == body.get(key),
        !(body is Object) ==> body.without("aivyx_slot_hint"@) == body,
{
}

/// What is forwarded is the client's request, pinned to the slot it got and
/// otherwise untouched.
pub proof fn law_a_request_is_forwarded_as_it_came(
    c: CompletionView,
    s: SchedulerView,
    event: Event,
    key: Seq<char>,
)
    ensures
        ({
            let step = c.stepped(s, event);
            step.action matches ActionView::Forward { url, body } ==> {
                &&& url == c.completions_url()
                &&& step.completion.phase matches Phase::Forwarding(slot_id)
                &&& c.body is Object ==> body.get("id_slot"@) == Some(
                    JsonView::Unsigned(slot_id as u64),
                )
                &&& key != "id_slot"@ ==> body.get(key) == c.body.get(key)
                &&& !(c.body is Object) ==> body == c.body
            }
        }),
{
}

/// A warm-up computes what the request itself would: it carries the request's
/// tools and its first system message, goes to the request's slot, and asks
/// for a single token.
pub proof fn law_a_warm_up_matches_its_request(body: JsonView, slot_id: u32)
    ensures
        ({
            let w = crate::completion::warm_up_of(body, slot_id);
            &&& w.get("tools"@) == body.get("tools"@)
            &&& w.get("id_slot"@) == Some(JsonView::Unsigned(slot_id as u64))
            &&& w.get("max_tokens"@) == Some(JsonView::Unsigned(1))
            &&& w.get("messages"@) == Some(
                JsonView::Array(
                    seq![
                        crate::completion::system_message_of(body),
                        crate::completion::message_of("user"@, ""@),
                    ],
                ),
            )
        }),
{
    lemma_keys_differ();
}

/// The system message that a warm-up carries is the client's first, wherever
/// in the list it stands.
pub proof fn law_the_first_system_message_counts(messages: Seq<JsonView>, i: int)
    requires
        0 <= i < messages.len(),
        messages[i].get("role"@) == Some(JsonView::Text("system"@)),
        forall|j: int|
            0 <= j < i ==> (#[trigger] messages[j]).get("role"@) != Some(
                JsonView::Text("system"@),
            ),
    ensures
        crate::completion::first_system_message(messages) == Some(messages[i]),
    decreases i,
{
    if i > 0 {
        let rest = messages.drop_first();
        assert(messages[0].get("role"@) != Some(JsonView::Text("system"@)));
        assert forall|j: int| 0 <= j < i - 1 implies (#[trigger] rest[j]).get("role"@) != Some(
            JsonView::Text("system"@),
        ) by {
            assert(rest[j] == messages[j + 1]);
        }
        law_the_first_system_message_counts(rest, i - 1);
    }
}

/// A request without a hint leaves nothing on record for the slot it gets, so
/// that nobody takes the slot for still holding an earlier prefix.
pub proof fn law_a_hintless_request_clears_the_record(
    c: CompletionView,
    s: SchedulerView,
    waiter: oneshot::Sender<()>,
    hint: Option<HintView>,
)
    requires
        c.phase is Waiting,
        c.hint is None,
        s.valid(),
        s.admittable(None),
    ensures
        ({
            let step = c.stepped(s, Event::Attempt(waiter));
            &&& step.action is Forward
            &&& step.completion.phase matches Phase::Forwarding(slot_id)
            &&& s.chosen(None, slot_id as int)
            &&& step.scheduler.slots[slot_id as int].resident_prefix is None
            &&& !step.scheduler.slots[slot_id as int].holds(hint)
        }),
{
    crate::scheduler_laws::law_the_choice_is_determined(s, None);
}

/// A slot that already holds the hinted prefix is used at once, with nothing
/// restored and nothing warmed; any other slot is prepared first.
pub proof fn law_only_a_cold_slot_is_prepared(
    c: CompletionView,
    s: SchedulerView,
    waiter: oneshot::Sender<()>,
    hint: HintView,
)
    requires
        c.phase is Waiting,
        c.hint == Some(hint),
        s.valid(),
        s.admittable(c.hint),
    ensures
        ({
            let step = c.stepped(s, Event::Attempt(waiter));
            let i = s.choice(c.hint);
            &&& s.chosen(c.hint, i)
            &&& if s.slots[i].resident_prefix == Some(hint.prefix_hash) {
                step.action is Forward
            } else {
                step.action == ActionView::Restore {
                    key: crate::completion::cache_key_of(hint.prefix_hash),
                    slot_id: i as u32,
                }
            }
        }),
{
    crate::scheduler_laws::law_the_choice_is_determined(s, c.hint);
}

/// A failing store never fails a request: a prefix that could not be restored
/// is treated as one that was never saved, and one that could not be saved as
/// one that was.
pub proof fn law_a_failing_store_fails_no_request(c: CompletionView, s: SchedulerView)
    ensures
        c.stepped(s, Event::Restored(None)) == c.stepped(s, Event::Restored(Some(false))),
        c.stepped(s, Event::Saved(false)) == c.stepped(s, Event::Saved(true)),
        c.phase is Restoring ==> c.stepped(s, Event::Restored(None)).action is WarmUp,
        c.phase is Saving ==> c.stepped(s, Event::Saved(false)).action is Forward,
{
}

/// A warm-up that failed is reported to the client, and leaves no slot on
/// record as holding anything it did not hold before.
pub proof fn law_a_failed_warm_up_records_nothing(
    c: CompletionView,
    s: SchedulerView,
    message: String,
    i: int,
)
    requires
        c.phase is Warming,
        0 <= i < s.slots.len(),
    ensures
        ({
            let step = c.stepped(s, Event::WarmedUp(Err(message)));
            &&& step.action == ActionView::Reply(crate::completion::error_reply(502, message@))
            &&& step.completion.phase is Ended
            &&& step.scheduler.slots[i].resident_prefix == s.slots[i].resident_prefix
        }),
{
}

/// A prefix that one request prepared, by restoring or by warming, serves the
/// next: once the first has ended, whatever the answer it got, a request for
/// the same prefix is forwarded at once, with nothing restored and nothing
/// warmed.
pub proof fn law_a_prepared_prefix_serves_the_next_request(
    first: CompletionView,
    s: SchedulerView,
    event: Event,
    status: u16,
    second: CompletionView,
    hint: HintView,
    waiter: oneshot::Sender<()>,
)
    requires
        s.valid(),
        holds_its_slot(first, s),
        first.phase is Restoring && event == Event::Restored(Some(true)) || first.phase is Saving
            && event is Saved,
        first.hint == Some(hint),
        second.phase is Waiting,
        second.hint == Some((HintView { preferred_slot: None, ..hint })),
    ensures
        ({
            let prepared = first.stepped(s, event);
            let answered = prepared.completion.stepped(
                prepared.scheduler,
                Event::Answered(Ok(status)),
            );
            let ended = answered.completion.stepped(answered.scheduler, Event::Closed);
            &&& prepared.action is Forward
            &&& ended.completion.phase is Ended
            &&& second.stepped(ended.scheduler, Event::Attempt(waiter)).action is Forward
        }),
{
    let slot_id = first.phase.slot()->0;
    let prepared = first.stepped(s, event);
    let answered = prepared.completion.stepped(prepared.scheduler, Event::Answered(Ok(status)));
    let ended = answered.completion.stepped(answered.scheduler, Event::Closed);
    let t = ended.scheduler;
    assert(t == s.with_resident(slot_id as int, Some(hint.prefix_hash)).freed(slot_id as int));
    assert(t.idle(slot_id as int));
    crate::scheduler_laws::law_the_choice_is_determined(t, second.hint);
    let j = t.choice(second.hint);
    assert(t.chosen(second.hint, j));
    crate::scheduler_laws::law_a_resident_prefix_is_found_again(
        s,
        slot_id as int,
        second.hint->0,
        j,
    );
}

/// Every answer of `llama-server` reaches the client: a successful one as a
/// stream, any other as a whole.
pub proof fn law_every_answer_is_relayed(c: CompletionView, s: SchedulerView, status: u16)
    requires
        c.phase is Forwarding,
    ensures
        ({
            let answered = c.stepped(s, Event::Answered(Ok(status)));
            &&& answered.scheduler == s
            &&& if 200 <= status < 300 {
                answered.action is Stream && answered.completion.phase is Streaming
            } else {
                &&& answered.action is ReadBody
                &&& answered.completion.stepped(s, Event::BodyRead(Ok(()))).action is Relay
            }
        }),
{
}

/// The keys that the broker reads and writes are different from each other.
proof fn lemma_keys_differ()
    ensures
        "aivyx_slot_hint"@ != "id_slot"@,
        "aivyx_slot_hint"@ != "messages"@,
        "aivyx_slot_hint"@ != "max_tokens"@,
        "aivyx_slot_hint"@ != "tools"@,
        "id_slot"@ != "messages"@,
        "id_slot"@ != "max_tokens"@,
        "id_slot"@ != "tools"@,
        "messages"@ != "max_tokens"@,
        "messages"@ != "tools"@,
        "max_tokens"@ != "tools"@,
{
    reveal_strlit("aivyx_slot_hint");
    reveal_strlit("id_slot");
    reveal_strlit("messages");
    reveal_strlit("max_tokens");
    reveal_strlit("tools");
    assert("aivyx_slot_hint"@.len() == 15);
    assert("id_slot"@.len() == 7);
    assert("messages"@.len() == 8);
    assert("max_tokens"@.len() == 10);
    assert("tools"@.len() == 5);
}

// ---------------------------------------------------------------------------
// What each step does, and what it leaves alone
// ---------------------------------------------------------------------------

/// The event is one that a completion in this phase waits for.
pub open spec fn belongs(phase: Phase, event: Event) -> bool {
    match event {
        Event::Attempt(_) => phase is Waiting,
        Event::Expired => phase is Waiting,
        Event::Restored(_) => phase is Restoring,
        Event::WarmedUp(_) => phase is Warming,
        Event::Saved(_) => phase is Saving,
        Event::Answered(_) => phase is Forwarding,
        Event::BodyRead(_) => phase is Reading,
        Event::Closed => true,
    }
}

/// An object with a single member.
pub open spec fn holds_only(document: JsonView, key: Seq<char>, value: JsonView) -> bool {
    &&& document is Object
    &&& document.get(key) == Some(value)
    &&& forall|other: Seq<char>| other != key ==> document.get(other) is None
}

/// An event out of turn is ignored, and only such an event is.
pub proof fn law_an_event_out_of_turn_is_ignored(c: CompletionView, s: SchedulerView, event: Event)
    ensures
        ({
            let step = c.stepped(s, event);
            &&& belongs(c.phase, event) <==> !(step.action is Ignore)
            &&& !belongs(c.phase, event) ==> step.completion == c && step.scheduler == s
                && step.woken.len() == 0
        }),
{
}

/// Every phase with a slot is about that slot.
pub proof fn law_a_phase_names_its_slot(slot_id: u32)
    ensures
        Phase::Restoring(slot_id).slot() == Some(slot_id),
        Phase::Warming(slot_id).slot() == Some(slot_id),
        Phase::Saving(slot_id).slot() == Some(slot_id),
        Phase::Forwarding(slot_id).slot() == Some(slot_id),
        Phase::Streaming(slot_id).slot() == Some(slot_id),
        Phase::Reading(slot_id).slot() == Some(slot_id),
        Phase::Waiting.slot() is None,
        Phase::Ended.slot() is None,
{
}

/// No step changes where the request goes, what its hint says, or its body,
/// until the body is sent.
pub proof fn law_a_step_keeps_the_request(c: CompletionView, s: SchedulerView, event: Event)
    ensures
        ({
            let step = c.stepped(s, event);
            &&& step.completion.base_url == c.base_url
            &&& step.completion.hint == c.hint
            &&& !(step.action is Forward) ==> step.completion.body == c.body
        }),
{
}

/// What is sent to `llama-server` goes to its completions, below its base
/// address, and no other route is ever used.
pub proof fn law_completions_have_their_address(
    c: CompletionView,
    s: SchedulerView,
    event: Event,
    base: Seq<char>,
    slashes: nat,
)
    requires
        base.len() > 0 ==> base.last() != '/',
        c.base_url == base + Seq::new(slashes, |i: int| '/'),
    ensures
        ({
            let step = c.stepped(s, event);
            &&& step.action matches ActionView::Forward { url, .. } ==> url == base
                + "/v1/chat/completions"@
            &&& step.action matches ActionView::WarmUp { url, .. } ==> url == base
                + "/v1/chat/completions"@
        }),
{
    crate::text::law_an_address_has_no_doubled_slash(base, "/v1/chat/completions"@, slashes);
}

/// What becomes of an attempt:
/// - without an admission the request waits, queued;
/// - admitted without a hint, it is sent, and the slot's record is dropped;
/// - admitted to a slot that is ready for it, it is sent, and the slot's record
///   stays as it was;
/// - admitted to any other slot, the saved prefix of its own hash is asked for
///   first, and the slot's record stays as it was.
/// In each case the slot is the one that admission chose.
pub proof fn law_what_becomes_of_an_attempt(
    c: CompletionView,
    s: SchedulerView,
    waiter: oneshot::Sender<()>,
)
    requires
        c.phase is Waiting,
        s.valid(),
    ensures
        ({
            let step = c.stepped(s, Event::Attempt(waiter));
            let admission = s.admission(c.hint);
            let slot_id = admission->0.slot_id;
            let i = slot_id as int;
            &&& step.woken.len() == 0
            &&& admission is None ==> {
                &&& step.completion == c
                &&& step.action is Wait
                &&& step.scheduler == s.enqueue(c.hint, waiter)
            }
            &&& admission is Some && c.hint is None ==> {
                &&& step.completion.phase == Phase::Forwarding(slot_id)
                &&& step.action is Forward
                &&& step.scheduler == s.claim(i).with_resident(i, None)
            }
            &&& admission is Some && c.hint is Some && admission->0.cache_ready ==> {
                &&& step.completion.phase == Phase::Forwarding(slot_id)
                &&& step.action is Forward
                &&& step.scheduler == s.claim(i)
                &&& step.scheduler.slots[i].resident_prefix == Some(c.hint->0.prefix_hash)
            }
            &&& admission is Some && c.hint is Some && !admission->0.cache_ready ==> {
                &&& step.completion.phase == Phase::Restoring(slot_id)
                &&& step.action matches ActionView::Restore { key, slot_id: restored }
                &&& restored == slot_id
                &&& key.prefix_hash == c.hint->0.prefix_hash
                &&& key.backend_id == "aivyx-broker"@
                &&& key.model_id == "aivyx-broker"@
                &&& key.build_hash == "aivyx-broker"@
                &&& step.scheduler == s.claim(i)
            }
        }),
{
    crate::scheduler_laws::law_the_choice_is_determined(s, c.hint);
    if s.admittable(c.hint) {
        assert(s.chosen(c.hint, s.choice(c.hint)));
    }
}

/// What becomes of a request on a cold slot. A restored prefix is recorded for
/// the slot and the request is sent; one that could not be restored is warmed
/// on the same slot; once warm it is saved from that slot under its own hash;
/// and whatever came of the save, it is recorded and the request is sent. The
/// record is the only thing that all this changes of any slot.
pub proof fn law_what_becomes_of_a_cold_slot(
    c: CompletionView,
    s: SchedulerView,
    hint: HintView,
    found: Option<bool>,
    saved: bool,
)
    requires
        c.hint == Some(hint),
        holds_its_slot(c, s),
    ensures
        ({
            let slot_id = c.phase.slot()->0;
            let recorded = s.with_resident(slot_id as int, Some(hint.prefix_hash));
            &&& c.phase is Restoring ==> {
                let step = c.stepped(s, Event::Restored(found));
                if found == Some(true) {
                    &&& step.completion.phase == Phase::Forwarding(slot_id)
                    &&& step.action is Forward
                    &&& step.scheduler == recorded
                    &&& step.woken.len() == 0
                } else {
                    &&& step.completion.phase == Phase::Warming(slot_id)
                    &&& step.action is WarmUp
                    &&& step.scheduler == s
                    &&& step.woken.len() == 0
                }
            }
            &&& c.phase is Warming ==> {
                let step = c.stepped(s, Event::WarmedUp(Ok(())));
                &&& step.completion.phase == Phase::Saving(slot_id)
                &&& step.action matches ActionView::Save { key, slot_id: saved_from, meta }
                &&& saved_from == slot_id
                &&& key.prefix_hash == hint.prefix_hash
                &&& key.backend_id == "aivyx-broker"@
                &&& key.model_id == "aivyx-broker"@
                &&& key.build_hash == "aivyx-broker"@
                &&& meta.size_bytes == 1 && meta.token_count == 1
                &&& step.scheduler == s
                &&& step.woken.len() == 0
            }
            &&& c.phase is Saving ==> {
                let step = c.stepped(s, Event::Saved(saved));
                &&& step.completion.phase == Phase::Forwarding(slot_id)
                &&& step.action is Forward
                &&& step.scheduler == recorded
                &&& step.woken.len() == 0
            }
        }),
{
}

/// A prefix is restored and saved under one and the same key, and two requests
/// use the same key only for the same prefix.
pub proof fn law_a_prefix_has_its_own_key(a: Seq<char>, b: Seq<char>)
    ensures
        crate::completion::cache_key_of(a) == crate::completion::cache_key_of(b) <==> a == b,
        crate::completion::cache_key_of(a).prefix_hash == a,
{
}

/// Whatever goes wrong with `llama-server`, the client is told: status 502, and
/// what went wrong as the only member of the answer. The slot is free again,
/// everyone who waits for it is woken, and no record has changed.
pub proof fn law_a_failure_of_llama_server_is_reported(
    c: CompletionView,
    s: SchedulerView,
    message: String,
)
    requires
        holds_its_slot(c, s),
        c.phase is Warming || c.phase is Forwarding || c.phase is Reading,
    ensures
        ({
            let event = if c.phase is Warming {
                Event::WarmedUp(Err(message))
            } else if c.phase is Forwarding {
                Event::Answered(Err(message))
            } else {
                Event::BodyRead(Err(message))
            };
            let step = c.stepped(s, event);
            let i = c.phase.slot()->0 as int;
            &&& step.completion.phase is Ended
            &&& step.scheduler == s.freed(i)
            &&& step.woken == s.queues[i] + s.global_queue
            &&& step.action matches ActionView::Reply(reply)
            &&& reply.status == 502
            &&& reply.body is Some
            &&& holds_only(reply.body->0, "error"@, JsonView::Text(message@))
        }),
{
}

/// The answer to a request that found no slot in time: status 503, and the
/// reason as its only member.
pub proof fn law_what_a_refused_request_is_told(c: CompletionView, s: SchedulerView)
    requires
        c.phase is Waiting,
    ensures
        ({
            let step = c.stepped(s, Event::Expired);
            &&& step.completion.phase is Ended
            &&& step.scheduler == s
            &&& step.action matches ActionView::Reply(reply)
            &&& reply.status == 503
            &&& reply.body is Some
            &&& holds_only(
                reply.body->0,
                "error"@,
                JsonView::Text("timed out waiting for a free slot"@),
            )
        }),
{
}

/// A completion that ends gives its own slot up and wakes everyone who waits
/// for it: once the client has been told of a failure, once an answer was read
/// and handed on, or once the client is gone.
pub proof fn law_an_ending_frees_the_slot(c: CompletionView, s: SchedulerView)
    requires
        holds_its_slot(c, s),
        c.phase.slot() is Some,
    ensures
        ({
            let i = c.phase.slot()->0 as int;
            let closed = c.stepped(s, Event::Closed);
            let read = c.stepped(s, Event::BodyRead(Ok(())));
            &&& closed.completion.phase is Ended
            &&& closed.action is Finish
            &&& closed.scheduler == s.freed(i)
            &&& closed.woken == s.queues[i] + s.global_queue
            &&& c.phase is Reading ==> {
                &&& read.completion.phase is Ended
                &&& read.action is Relay
                &&& read.scheduler == s.freed(i)
                &&& read.woken == s.queues[i] + s.global_queue
            }
        }),
{
}

/// An answer keeps the slot busy: it is streamed or read on the slot that it
/// came from, and nothing changes for anyone else.
pub proof fn law_an_answer_keeps_its_slot(
    c: CompletionView,
    s: SchedulerView,
    slot_id: u32,
    status: u16,
)
    requires
        c.phase == Phase::Forwarding(slot_id),
    ensures
        ({
            let step = c.stepped(s, Event::Answered(Ok(status)));
            &&& step.scheduler == s
            &&& step.woken.len() == 0
            &&& 200 <= status <= 299 ==> step.completion.phase == Phase::Streaming(slot_id)
                && step.action is Stream
            &&& status < 200 || status > 299 ==> step.completion.phase == Phase::Reading(slot_id)
                && step.action is ReadBody
        }),
{
}

/// The first message of a warm-up, in terms of the request's own messages and
/// whatever else the request holds: if message `i` is the first whose role is
/// `system`, it is exactly that message; if no message has that role, or there
/// is no list of messages, it is an empty system message. The second message is
/// always an empty one of the user.
pub proof fn law_a_warm_up_starts_with_the_system_message(
    body: JsonView,
    messages: Seq<JsonView>,
    i: int,
    slot_id: u32,
)
    ensures
        ({
            let sent = crate::completion::warm_up_of(body, slot_id).get("messages"@);
            let system = Some(JsonView::Text("system"@));
            let empty = |message: JsonView, role: Seq<char>|
                {
                    &&& message is Object
                    &&& message.get("role"@) == Some(JsonView::Text(role))
                    &&& message.get("content"@) == Some(JsonView::Text(""@))
                    &&& forall|key: Seq<char>|
                        key != "role"@ && key != "content"@ ==> message.get(key) is None
                };
            &&& sent is Some
            &&& sent->0 is Array
            &&& sent->0->Array_0.len() == 2
            &&& empty(sent->0->Array_0[1], "user"@)
            &&& body.get("messages"@) == Some(JsonView::Array(messages)) && 0 <= i < messages.len()
                && messages[i].get("role"@) == system && (forall|j: int|
                0 <= j < i ==> (#[trigger] messages[j]).get("role"@) != system)
                ==> sent->0->Array_0[0] == messages[i]
            &&& body.get("messages"@) == Some(JsonView::Array(messages)) && (forall|j: int|
                0 <= j < messages.len() ==> (#[trigger] messages[j]).get("role"@) != system)
                ==> empty(sent->0->Array_0[0], "system"@)
            &&& (body.get("messages"@) is None || !(body.get("messages"@)->0 is Array)) ==> empty(
                sent->0->Array_0[0],
                "system"@,
            )
        }),
{
    lemma_keys_differ();
    reveal_strlit("role");
    reveal_strlit("content");
    assert("role"@.len() == 4 && "content"@.len() == 7);
    let system = Some(JsonView::Text("system"@));
    if body.get("messages"@) == Some(JsonView::Array(messages)) {
        if 0 <= i < messages.len() && messages[i].get("role"@) == system && (forall|j: int|
            0 <= j < i ==> (#[trigger] messages[j]).get("role"@) != system) {
            law_the_first_system_message_counts(messages, i);
        }
        if forall|j: int|
            0 <= j < messages.len() ==> (#[trigger] messages[j]).get("role"@) != system {
            lemma_no_system_message(messages);
        }
    }
}

proof fn lemma_no_system_message(messages: Seq<JsonView>)
    requires
        forall|j: int|
            0 <= j < messages.len() ==> (#[trigger] messages[j]).get("role"@) != Some(
                JsonView::Text("system"@),
            ),
    ensures
        crate::completion::first_system_message(messages) is None,
    decreases messages.len(),
{
    if messages.len() > 0 {
        let rest = messages.drop_first();
        assert(messages[0].get("role"@) != Some(JsonView::Text("system"@)));
        assert forall|j: int| 0 <= j < rest.len() implies (#[trigger] rest[j]).get("role"@)
            != Some(JsonView::Text("system"@)) by {
            assert(rest[j] == messages[j + 1]);
        }
        lemma_no_system_message(rest);
    }
}

/// A warm-up has its messages, its slot, a limit of one token, the request's
/// tools if it has any, and nothing else.
pub proof fn law_a_warm_up_holds_nothing_else(body: JsonView, slot_id: u32, key: Seq<char>)
    ensures
        ({
            let w = crate::completion::warm_up_of(body, slot_id);
            &&& w is Object
            &&& w.get("id_slot"@) == Some(JsonView::Unsigned(slot_id as u64))
            &&& w.get("max_tokens"@) == Some(JsonView::Unsigned(1))
            &&& w.get("tools"@) == body.get("tools"@)
            &&& key != "messages"@ && key != "id_slot"@ && key != "max_tokens"@ && key != "tools"@
                ==> w.get(key) is None
        }),
{
    lemma_keys_differ();
}

/// The request that a completion warms up for is its own, on its own slot.
pub proof fn law_a_completion_warms_up_for_itself(
    c: CompletionView,
    s: SchedulerView,
    slot_id: u32,
    found: Option<bool>,
)
    requires
        c.phase == Phase::Restoring(slot_id),
        found != Some(true),
    ensures
        c.stepped(s, Event::Restored(found)).action matches ActionView::WarmUp { body, .. }
            && body == crate::completion::warm_up_of(c.body, slot_id),
{
}

/// The scheduler after one request that is admitted, answered and closed.
pub open spec fn served(
    c: CompletionView,
    s: SchedulerView,
    waiter: oneshot::Sender<()>,
    status: u16,
) -> SchedulerView {
    let admitted = c.stepped(s, Event::Attempt(waiter));
    let answered = admitted.completion.stepped(
        admitted.scheduler,
        Event::Answered(Ok(status)),
    );
    answered.completion.stepped(answered.scheduler, Event::Closed).scheduler
}

/// A slot that is ready stays ready: a request for the prefix that an idle slot
/// holds is sent at once, and when it has ended, an idle slot still holds the
/// prefix.
pub proof fn law_a_ready_slot_stays_ready(
    c: CompletionView,
    s: SchedulerView,
    prefix: Seq<char>,
    i: int,
    waiter: oneshot::Sender<()>,
    status: u16,
) -> (j: int)
    requires
        s.valid(),
        s.clock < u64::MAX,
        0 <= i < s.slots.len(),
        !s.slots[i].busy,
        s.slots[i].resident_prefix == Some(prefix),
        c.phase is Waiting,
        c.hint == Some((HintView { prefix_hash: prefix, preferred_slot: None })),
    ensures
        c.stepped(s, Event::Attempt(waiter)).action is Forward,
        served(c, s, waiter, status).valid(),
        served(c, s, waiter, status).clock == s.clock + 1,
        served(c, s, waiter, status).slots.len() == s.slots.len(),
        0 <= j < s.slots.len(),
        !served(c, s, waiter, status).slots[j].busy,
        served(c, s, waiter, status).slots[j].resident_prefix == Some(prefix),
        s.admission(c.hint) matches Some(admission) && admission.slot_id == j
            && admission.cache_ready,
{
    crate::scheduler_laws::law_which_slot_a_request_gets(s, prefix, None, i);
    let j = s.admission(c.hint)->0.slot_id as int;
    law_what_becomes_of_an_attempt(c, s, waiter);
    crate::scheduler_laws::law_an_admission_keeps_what_the_slot_holds(s, j);
    crate::scheduler_laws::law_every_change_keeps_the_invariant(s, Change::Claim(j));
    crate::scheduler_laws::law_a_release_keeps_what_the_slot_holds(s.claim(j), j);
    crate::scheduler_laws::law_every_change_keeps_the_invariant(s.claim(j), Change::Release(j));
    j
}

/// A prefix that an idle slot holds serves any number of requests in turn: each
/// of them is sent at once, with nothing restored and nothing warmed.
pub proof fn law_a_resident_prefix_serves_any_number_of_requests(
    requests: Seq<CompletionView>,
    states: Seq<SchedulerView>,
    waiters: Seq<oneshot::Sender<()>>,
    statuses: Seq<u16>,
    prefix: Seq<char>,
    i: int,
    n: int,
) -> (j: int)
    requires
        0 <= n <= requests.len(),
        states.len() == requests.len() + 1,
        waiters.len() == requests.len(),
        statuses.len() == requests.len(),
        states[0].valid(),
        states[0].clock + requests.len() <= u64::MAX,
        0 <= i < states[0].slots.len(),
        !states[0].slots[i].busy,
        states[0].slots[i].resident_prefix == Some(prefix),
        forall|k: int|
            0 <= k < requests.len() ==> {
                &&& (#[trigger] requests[k]).phase is Waiting
                &&& requests[k].hint == Some(
                    (HintView { prefix_hash: prefix, preferred_slot: None }),
                )
                &&& states[k + 1] == served(requests[k], states[k], waiters[k], statuses[k])
            },
    ensures
        states[n].valid(),
        states[n].clock == states[0].clock + n,
        states[n].slots.len() == states[0].slots.len(),
        0 <= j < states[0].slots.len(),
        !states[n].slots[j].busy,
        states[n].slots[j].resident_prefix == Some(prefix),
        forall|k: int|
            0 <= k < n ==> (#[trigger] requests[k]).stepped(
                states[k],
                Event::Attempt(waiters[k]),
            ).action is Forward,
    decreases n,
{
    if n == 0 {
        i
    } else {
        let before = law_a_resident_prefix_serves_any_number_of_requests(
            requests,
            states,
            waiters,
            statuses,
            prefix,
            i,
            n - 1,
        );
        law_a_ready_slot_stays_ready(
            requests[n - 1],
            states[n - 1],
            prefix,
            before,
            waiters[n - 1],
            statuses[n - 1],
        )
    }
}

/// Actions and replies say what they hold, no more and no less.
pub proof fn law_actions_say_what_they_hold(action: Action, key: CacheKey, reply: Reply)
    ensures
        match action {
            Action::Wait => action@ is Wait,
            Action::Restore { key: k, slot_id } => {
                &&& action@ matches ActionView::Restore { key: v, slot_id: id }
                &&& v == k@ && id == slot_id
            },
            Action::WarmUp { url, body } => {
                &&& action@ matches ActionView::WarmUp { url: u, body: b }
                &&& u == url@ && b == body@
            },
            Action::Save { key: k, slot_id, meta } => {
                &&& action@ matches ActionView::Save { key: v, slot_id: id, meta: m }
                &&& v == k@ && id == slot_id && m == meta
            },
            Action::Forward { url, body } => {
                &&& action@ matches ActionView::Forward { url: u, body: b }
                &&& u == url@ && b == body@
            },
            Action::Stream => action@ is Stream,
            Action::ReadBody => action@ is ReadBody,
            Action::Relay => action@ is Relay,
            Action::Reply(answer) => action@ == ActionView::Reply(answer@),
            Action::Finish => action@ is Finish,
            Action::Ignore => action@ is Ignore,
        },
        key@.backend_id == key.backend_id@,
        key@.model_id == key.model_id@,
        key@.build_hash == key.build_hash@,
        key@.prefix_hash == key.prefix_hash@,
        reply@.status == reply.status,
        reply@.body is Some <==> reply.body is Some,
        reply.body matches Some(body) ==> reply@.body == Some(body@),
{
}

/// A request that was sent is kept no longer: what is left of the completion is
/// where it belongs and which slot it holds.
pub proof fn law_a_sent_request_is_kept_no_longer(c: CompletionView, s: SchedulerView, slot_id: u32)
    ensures
        c.forwarding(s, slot_id).completion.body is Null,
        c.forwarding(s, slot_id).completion.hint == c.hint,
        c.forwarding(s, slot_id).completion.base_url == c.base_url,
        c.forwarding(s, slot_id).completion.phase == Phase::Forwarding(slot_id),
        c.forwarding(s, slot_id).scheduler == s,
{
}

} // verus!
