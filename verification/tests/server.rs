//! The broker's own answers, and the life of a chat completion.
use aivyx_broker::completion::{
    Action, Completion, Event, Outcome, Phase, Reply, system_message, take_hint, warm_up,
};
use aivyx_broker::gpu::Vram;
use aivyx_broker::gpu_lock::AcquireEvent;
use aivyx_broker::json::{Json, Member};
use aivyx_broker::llama_client::read_models;
use aivyx_broker::server::{gpu_lock_acquire, gpu_lock_release, residency, slots, status};
use aivyx_broker::wake::wake_all;
use aivyx_broker::{GpuLock, Scheduler, SlotHint};
use serde_json::Value;
use tokio::sync::oneshot;

const COMPLETIONS: &str = "http://127.0.0.1:8080/v1/chat/completions";

fn parse(text: &str) -> Value {
    serde_json::from_str(text).unwrap()
}

fn to_json(value: &Value) -> Json {
    match value {
        Value::Null => Json::Null,
        Value::Bool(b) => Json::Bool(*b),
        Value::Number(n) => match (n.as_u64(), n.as_i64()) {
            (Some(u), _) => Json::Unsigned(u),
            (None, Some(i)) => Json::Negative(i),
            (None, None) => Json::Float(n.as_f64().unwrap().to_bits()),
        },
        Value::String(s) => Json::Text(s.clone()),
        Value::Array(items) => Json::Array(items.iter().map(to_json).collect()),
        Value::Object(members) => Json::Object(
            members
                .iter()
                .map(|(key, value)| Member { key: key.clone(), value: to_json(value) })
                .collect(),
        ),
    }
}

fn to_value(json: &Json) -> Value {
    match json {
        Json::Null => Value::Null,
        Json::Bool(b) => Value::from(*b),
        Json::Unsigned(u) => Value::from(*u),
        Json::Negative(i) => Value::from(*i),
        Json::Float(bits) => Value::from(f64::from_bits(*bits)),
        Json::Text(s) => Value::from(s.clone()),
        Json::Array(items) => Value::Array(items.iter().map(to_value).collect()),
        Json::Object(members) => {
            Value::Object(members.iter().map(|m| (m.key.clone(), to_value(&m.value))).collect())
        }
    }
}

fn hint(prefix_hash: &str) -> Option<SlotHint> {
    Some(SlotHint { prefix_hash: prefix_hash.to_string(), preferred_slot: None })
}

fn request(body: &str, hint: Option<SlotHint>) -> Completion {
    let mut body = to_json(&parse(body));
    take_hint(&mut body);
    Completion::new("http://127.0.0.1:8080/".to_string(), body, hint)
}

fn arrive(c: &mut Completion, s: &mut Scheduler) -> Action {
    let (tx, _rx) = oneshot::channel();
    quiet(c.step(s, Event::Attempt(tx)))
}

/// The action of an outcome that wakes nobody.
fn quiet(outcome: Outcome) -> Action {
    assert_eq!(outcome.woken.len(), 0);
    outcome.action
}

fn forwarded(action: Action) -> Value {
    match action {
        Action::Forward { url, body } => {
            assert_eq!(url, COMPLETIONS);
            to_value(&body)
        }
        other => panic!("expected a forward, got {other:?}"),
    }
}

fn warmed(action: Action) -> Value {
    match action {
        Action::WarmUp { url, body } => {
            assert_eq!(url, COMPLETIONS);
            to_value(&body)
        }
        other => panic!("expected a warm-up, got {other:?}"),
    }
}

fn replied(action: Action) -> (u16, Value) {
    match action {
        Action::Reply(reply) => answer(&reply),
        other => panic!("expected a reply, got {other:?}"),
    }
}

fn answer(reply: &Reply) -> (u16, Value) {
    (reply.status, reply.body.as_ref().map_or(Value::Null, to_value))
}

const HINTED: &str = r#"{
    "messages": [
        {"role": "system", "content": "You are helpful."},
        {"role": "user", "content": "hi"}
    ],
    "aivyx_slot_hint": {"prefix_hash": "abc123", "preferred_slot": null}
}"#;

// --- residency, status and slots -------------------------------------------

#[test]
fn residency_matches_the_shared_contract() {
    let models = read_models(Some(to_json(&parse(
        r#"{"data": [
            {"id": "qwen3-8b", "status": {"value": "loaded"}},
            {"id": "gemma-3-4b", "status": {"value": "unloaded"}}
        ]}"#,
    ))));
    let vram = Some(Vram { total_bytes: 25_769_803_776, used_bytes: 9_663_676_416 });
    let mut s = Scheduler::new(2);
    s.try_admit(&None).unwrap();
    let want = parse(
        r#"{
            "models": [
                {"id": "qwen3-8b", "loaded": true},
                {"id": "gemma-3-4b", "loaded": false}
            ],
            "vram": {"total_bytes": 25769803776, "used_bytes": 9663676416},
            "slots": {"busy": 1, "total": 2}
        }"#,
    );
    assert_eq!(to_value(&residency(&models, vram, &s)), want);
}

#[test]
fn residency_without_upstream_or_gpu_still_answers() {
    let got = residency(&read_models(None), None, &Scheduler::new(2));
    assert_eq!(
        to_value(&got),
        parse(r#"{"models": [], "vram": null, "slots": {"busy": 0, "total": 2}}"#)
    );
}

#[test]
fn status_reports_llama_server_url() {
    assert_eq!(
        to_value(&status("http://127.0.0.1:1")),
        parse(r#"{"llama_server_url": "http://127.0.0.1:1", "queue_depth": 0}"#)
    );
}

#[test]
fn slots_reports_scheduler_snapshot() {
    let mut s = Scheduler::new(2);
    assert_eq!(to_value(&slots(&s)).as_array().unwrap().len(), 2);
    s.seed_busy(1);
    s.mark_resident(0, "p".to_string());
    assert_eq!(
        to_value(&slots(&s)),
        parse(
            r#"[
                {"slot_id": 0, "busy": false, "resident_prefix": "p"},
                {"slot_id": 1, "busy": true, "resident_prefix": null}
            ]"#
        )
    );
}

// --- chat completions --------------------------------------------------------

#[test]
fn cold_request_warms_slot_then_forwards_and_saves() {
    let mut s = Scheduler::new(2);
    let mut c = request(HINTED, hint("abc123"));
    match arrive(&mut c, &mut s) {
        Action::Restore { key, slot_id } => {
            assert_eq!(key.backend_id, "aivyx-broker");
            assert_eq!(key.model_id, "aivyx-broker");
            assert_eq!(key.build_hash, "aivyx-broker");
            assert_eq!(key.prefix_hash, "abc123");
            assert_eq!(slot_id, 0);
        }
        other => panic!("expected a restore, got {other:?}"),
    }
    assert_eq!(
        warmed(quiet(c.step(&mut s, Event::Restored(Some(false))))),
        parse(
            r#"{
                "messages": [
                    {"role": "system", "content": "You are helpful."},
                    {"role": "user", "content": ""}
                ],
                "max_tokens": 1,
                "id_slot": 0
            }"#
        )
    );
    match quiet(c.step(&mut s, Event::WarmedUp(Ok(())))) {
        Action::Save { key, slot_id, meta } => {
            assert_eq!(key.prefix_hash, "abc123");
            assert_eq!(slot_id, 0);
            assert_eq!((meta.size_bytes, meta.token_count), (1, 1));
        }
        other => panic!("expected a save, got {other:?}"),
    }
    assert_eq!(
        forwarded(quiet(c.step(&mut s, Event::Saved(true)))),
        parse(
            r#"{
                "messages": [
                    {"role": "system", "content": "You are helpful."},
                    {"role": "user", "content": "hi"}
                ],
                "id_slot": 0
            }"#
        )
    );
    assert_eq!(s.snapshot()[0].resident_prefix.as_deref(), Some("abc123"));
    assert!(matches!(quiet(c.step(&mut s, Event::Answered(Ok(200)))), Action::Stream));
    assert!(s.snapshot()[0].busy);
    assert!(matches!(quiet(c.step(&mut s, Event::Closed)), Action::Finish));
    assert!(!s.snapshot()[0].busy);
    assert_eq!(c.phase(), Phase::Ended);
}

#[test]
fn an_answer_without_success_is_read_as_a_whole_and_relayed() {
    let mut s = Scheduler::new(2);
    let mut c = request(r#"{"messages": [{"role": "user", "content": "hi"}]}"#, None);
    forwarded(arrive(&mut c, &mut s));
    assert!(matches!(quiet(c.step(&mut s, Event::Answered(Ok(429)))), Action::ReadBody));
    assert!(s.snapshot()[0].busy);
    assert!(matches!(quiet(c.step(&mut s, Event::BodyRead(Ok(())))), Action::Relay));
    assert!(!s.snapshot()[0].busy);
}

#[test]
fn a_request_without_a_hint_is_forwarded_and_its_answer_streamed() {
    let mut s = Scheduler::new(2);
    let mut c = request(r#"{"messages": [{"role": "user", "content": "hi"}]}"#, None);
    assert_eq!(
        forwarded(arrive(&mut c, &mut s)),
        parse(r#"{"messages": [{"role": "user", "content": "hi"}], "id_slot": 0}"#)
    );
    assert!(matches!(quiet(c.step(&mut s, Event::Answered(Ok(200)))), Action::Stream));
}

#[test]
fn only_success_is_streamed() {
    for (status, streamed) in [(199, false), (200, true), (299, true), (300, false)] {
        let mut s = Scheduler::new(1);
        let mut c = request("{}", None);
        forwarded(arrive(&mut c, &mut s));
        let action = quiet(c.step(&mut s, Event::Answered(Ok(status))));
        assert_eq!(matches!(action, Action::Stream), streamed);
    }
}

#[test]
fn warm_up_request_includes_tools_from_the_real_client_request() {
    let tools = r#"[{"type": "function", "function": {"name": "get_weather", "parameters": {}}}]"#;
    let body = format!(
        r#"{{
            "messages": [
                {{"role": "system", "content": "You are helpful."}},
                {{"role": "user", "content": "hi"}}
            ],
            "tools": {tools},
            "aivyx_slot_hint": {{"prefix_hash": "abc123", "preferred_slot": null}}
        }}"#
    );
    let mut s = Scheduler::new(2);
    let mut c = request(&body, hint("abc123"));
    arrive(&mut c, &mut s);
    let warm_up = warmed(quiet(c.step(&mut s, Event::Restored(Some(false)))));
    assert_eq!(warm_up.get("max_tokens"), Some(&Value::from(1)));
    assert_eq!(warm_up.get("tools"), Some(&parse(tools)));
}

#[test]
fn queue_timeout_returns_503_not_a_hang() {
    let mut s = Scheduler::new(1);
    s.try_admit(&None).unwrap();
    let mut c = request(r#"{"messages": []}"#, None);
    assert!(matches!(arrive(&mut c, &mut s), Action::Wait));
    assert_eq!(
        replied(quiet(c.step(&mut s, Event::Expired))),
        (503, parse(r#"{"error": "timed out waiting for a free slot"}"#))
    );
    assert_eq!(c.phase(), Phase::Ended);
}

#[test]
fn hint_less_admission_clears_stale_resident_prefix_on_the_slot_it_lands_on() {
    let mut s = Scheduler::new(1);
    let mut c = request(HINTED, hint("abc123"));
    arrive(&mut c, &mut s);
    quiet(c.step(&mut s, Event::Restored(Some(false))));
    quiet(c.step(&mut s, Event::WarmedUp(Ok(()))));
    quiet(c.step(&mut s, Event::Saved(true)));
    quiet(c.step(&mut s, Event::Answered(Ok(200))));
    quiet(c.step(&mut s, Event::Closed));
    assert_eq!(s.snapshot()[0].resident_prefix.as_deref(), Some("abc123"));

    let mut c = request(r#"{"messages": [{"role": "user", "content": "hi again"}]}"#, None);
    forwarded(arrive(&mut c, &mut s));
    quiet(c.step(&mut s, Event::Answered(Ok(200))));
    quiet(c.step(&mut s, Event::Closed));
    assert_eq!(
        s.snapshot()[0].resident_prefix, None,
        "stale resident prefix must be cleared once a hint-less request overwrites the slot"
    );
}

#[test]
fn a_restored_prefix_needs_no_warm_up() {
    let mut s = Scheduler::new(2);
    let mut c = request(HINTED, hint("abc123"));
    arrive(&mut c, &mut s);
    forwarded(quiet(c.step(&mut s, Event::Restored(Some(true)))));
    assert_eq!(s.snapshot()[0].resident_prefix.as_deref(), Some("abc123"));
    quiet(c.step(&mut s, Event::Answered(Ok(200))));
    quiet(c.step(&mut s, Event::Closed));

    // The next request for it is forwarded at once.
    let mut c = request(HINTED, hint("abc123"));
    assert_eq!(forwarded(arrive(&mut c, &mut s)).get("id_slot"), Some(&Value::from(0)));
}

#[test]
fn a_failing_store_is_made_up_for() {
    let mut s = Scheduler::new(1);
    let mut c = request(HINTED, hint("abc123"));
    arrive(&mut c, &mut s);
    warmed(quiet(c.step(&mut s, Event::Restored(None))));
    quiet(c.step(&mut s, Event::WarmedUp(Ok(()))));
    forwarded(quiet(c.step(&mut s, Event::Saved(false))));
    assert_eq!(s.snapshot()[0].resident_prefix.as_deref(), Some("abc123"));
}

#[test]
fn a_failed_warm_up_is_a_502_and_frees_the_slot() {
    let mut s = Scheduler::new(1);
    let mut c = request(HINTED, hint("abc123"));
    arrive(&mut c, &mut s);
    warmed(quiet(c.step(&mut s, Event::Restored(Some(false)))));
    let (tx, mut rx) = oneshot::channel();
    let mut waiting = request("{}", None);
    assert!(matches!(quiet(waiting.step(&mut s, Event::Attempt(tx))), Action::Wait));

    let outcome = c.step(&mut s, Event::WarmedUp(Err("no route".to_string())));
    assert_eq!(replied(outcome.action), (502, parse(r#"{"error": "no route"}"#)));
    assert_eq!(wake_all(outcome.woken), vec![true]);
    assert_eq!(rx.try_recv(), Ok(()));
    assert_eq!(s.snapshot()[0].resident_prefix, None);
    assert_eq!(forwarded(arrive(&mut waiting, &mut s)), parse(r#"{"id_slot": 0}"#));
}

#[test]
fn a_failed_forward_is_a_502() {
    let mut s = Scheduler::new(1);
    let mut c = request("{}", None);
    arrive(&mut c, &mut s);
    let outcome = c.step(&mut s, Event::Answered(Err("connection reset".to_string())));
    assert_eq!(replied(outcome.action), (502, parse(r#"{"error": "connection reset"}"#)));
    assert!(!s.snapshot()[0].busy);

    let mut c = request("{}", None);
    arrive(&mut c, &mut s);
    quiet(c.step(&mut s, Event::Answered(Ok(500))));
    let outcome = c.step(&mut s, Event::BodyRead(Err("cut off".to_string())));
    assert_eq!(replied(outcome.action), (502, parse(r#"{"error": "cut off"}"#)));
    assert!(!s.snapshot()[0].busy);
}

#[test]
fn a_client_that_goes_away_gives_up_its_slot() {
    let mut s = Scheduler::new(1);
    let mut c = request(HINTED, hint("abc123"));
    arrive(&mut c, &mut s);
    assert_eq!(c.phase().held_slot(), Some(0));
    assert!(matches!(quiet(c.step(&mut s, Event::Closed)), Action::Finish));
    assert!(!s.snapshot()[0].busy);
    // Only once: the slot is someone else's by now.
    s.try_admit(&None).unwrap();
    assert!(matches!(quiet(c.step(&mut s, Event::Closed)), Action::Finish));
    assert!(s.snapshot()[0].busy);

    let mut c = request("{}", None);
    assert!(matches!(arrive(&mut c, &mut s), Action::Wait));
    assert!(matches!(quiet(c.step(&mut s, Event::Closed)), Action::Finish));
    assert_eq!(c.phase(), Phase::Ended);
}

#[test]
fn completions_side_by_side_never_share_a_slot() {
    let mut s = Scheduler::new(2);
    let (mut a, mut b, mut c) = (request("{}", None), request("{}", None), request("{}", None));
    forwarded(arrive(&mut a, &mut s));
    forwarded(arrive(&mut b, &mut s));
    assert!(matches!(arrive(&mut c, &mut s), Action::Wait));
    assert_eq!(a.phase().held_slot(), Some(0));
    assert_eq!(b.phase().held_slot(), Some(1));
    assert_eq!(s.reconcile_seeded_idle(0).len(), 0);
    let pressure = to_value(&residency(&vec![], None, &s));
    assert_eq!(pressure["slots"], parse(r#"{"busy": 2, "total": 2}"#));

    quiet(b.step(&mut s, Event::Answered(Ok(200))));
    let outcome = b.step(&mut s, Event::Closed);
    assert_eq!(outcome.woken.len(), 1);
    let pressure = to_value(&residency(&vec![], None, &s));
    assert_eq!(pressure["slots"], parse(r#"{"busy": 1, "total": 2}"#));
    forwarded(arrive(&mut c, &mut s));
    assert_eq!(c.phase().held_slot(), Some(1));
    assert_eq!(a.phase().held_slot(), Some(0));
}

#[test]
fn an_event_out_of_turn_changes_nothing() {
    let mut s = Scheduler::new(1);
    let mut c = request("{}", None);
    for event in [
        Event::Restored(Some(true)),
        Event::WarmedUp(Ok(())),
        Event::Saved(true),
        Event::Answered(Ok(200)),
        Event::BodyRead(Ok(())),
    ] {
        assert!(matches!(quiet(c.step(&mut s, event)), Action::Ignore));
        assert_eq!(c.phase(), Phase::Waiting);
    }
    forwarded(arrive(&mut c, &mut s));
    quiet(c.step(&mut s, Event::Answered(Ok(200))));
    assert!(matches!(quiet(c.step(&mut s, Event::Expired)), Action::Ignore));
    assert_eq!(c.phase(), Phase::Streaming(0));
}

#[test]
fn the_hint_is_taken_out_of_the_body() {
    let mut body = to_json(&parse(HINTED));
    let taken = take_hint(&mut body).unwrap();
    assert_eq!(to_value(&taken), parse(r#"{"prefix_hash": "abc123", "preferred_slot": null}"#));
    assert_eq!(to_value(&body).as_object().unwrap().len(), 1);
    assert!(take_hint(&mut body).is_none());
    let mut list = to_json(&parse(r#"["aivyx_slot_hint"]"#));
    assert!(take_hint(&mut list).is_none());
    assert_eq!(to_value(&list), parse(r#"["aivyx_slot_hint"]"#));
}

#[test]
fn a_body_that_is_no_object_is_forwarded_as_it_is() {
    let mut s = Scheduler::new(1);
    let mut c = request(r#"[1, -2, 0.5]"#, None);
    assert_eq!(forwarded(arrive(&mut c, &mut s)), parse(r#"[1, -2, 0.5]"#));
}

#[test]
fn the_first_system_message_is_found_wherever_it_stands() {
    let found = |text: &str| to_value(&system_message(&to_json(&parse(text))));
    let empty = parse(r#"{"role": "system", "content": ""}"#);
    assert_eq!(
        found(
            r#"{"messages": [
                {"role": "user", "content": "u"},
                {"role": "system", "content": "a", "name": "n"},
                {"role": "system", "content": "b"}
            ]}"#
        ),
        parse(r#"{"role": "system", "content": "a", "name": "n"}"#)
    );
    assert_eq!(found(r#"{"messages": [{"role": "user", "content": "u"}, 7]}"#), empty);
    assert_eq!(found(r#"{"messages": "system"}"#), empty);
    assert_eq!(found("{}"), empty);
    assert_eq!(found("null"), empty);
    let null_tools = warm_up(&to_json(&parse(r#"{"tools": null}"#)), 3);
    assert_eq!(to_value(&null_tools).get("tools"), Some(&Value::Null));
    assert_eq!(to_value(&null_tools).get("id_slot"), Some(&Value::from(3)));
}

// --- the GPU lock --------------------------------------------------------------

fn acquire(lock: &mut GpuLock) -> Option<(u16, Value)> {
    let (waiter, _rx) = oneshot::channel();
    gpu_lock_acquire(lock, AcquireEvent::Attempt { waiter, now: 0 }).as_ref().map(answer)
}

#[test]
fn gpu_lock_acquire_then_release_round_trips_over_http() {
    let mut lock = GpuLock::new(600_000_000_000);
    let (status, body) = acquire(&mut lock).unwrap();
    assert_eq!(status, 200);
    let lease_id = body["lease_id"].as_str().expect("lease_id must be present").to_string();

    let (waiter, mut rx) = oneshot::channel();
    assert!(gpu_lock_acquire(&mut lock, AcquireEvent::Attempt { waiter, now: 1 }).is_none());
    let released = gpu_lock_release(&mut lock, &lease_id);
    assert_eq!(answer(&released.reply), (200, Value::Null));
    assert!(released.reply.body.is_none());
    assert_eq!(wake_all(released.woken), vec![true]);
    assert_eq!(rx.try_recv(), Ok(()));
    assert!(!lock.is_held());
}

#[test]
fn gpu_lock_acquire_times_out_with_503_when_already_held() {
    let mut lock = GpuLock::new(600_000_000_000);
    acquire(&mut lock).unwrap();
    assert!(acquire(&mut lock).is_none());
    let reply = gpu_lock_acquire(&mut lock, AcquireEvent::Expired).unwrap();
    assert_eq!(
        answer(&reply),
        (503, parse(r#"{"error": "timed out waiting for the GPU lock"}"#))
    );
}

#[test]
fn gpu_lock_release_with_an_unknown_lease_id_is_a_clear_error_not_a_panic() {
    let mut lock = GpuLock::new(600_000_000_000);
    let unknown = uuid::Uuid::new_v4().to_string();
    let want = (404, parse(r#"{"error": "lease not found, already released, or expired"}"#));
    assert_eq!(answer(&gpu_lock_release(&mut lock, &unknown).reply), want);
    acquire(&mut lock).unwrap();
    let refused = gpu_lock_release(&mut lock, &unknown);
    assert_eq!(answer(&refused.reply), want);
    assert_eq!(refused.woken.len(), 0);
    assert!(lock.is_held());
}

#[test]
fn gpu_lock_release_with_a_malformed_lease_id_is_a_clear_400_not_a_panic() {
    let mut lock = GpuLock::new(600_000_000_000);
    acquire(&mut lock).unwrap();
    let answered = gpu_lock_release(&mut lock, "not-a-uuid");
    assert_eq!(
        answer(&answered.reply),
        (400, parse(r#"{"error": "lease_id is not a valid UUID"}"#))
    );
    assert!(lock.is_held());
}
