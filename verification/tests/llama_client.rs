//! What is learned from `llama-server`.
use aivyx_broker::Scheduler;
use aivyx_broker::json::{Json, Member};
use aivyx_broker::llama_client::{
    LlamaClientError, LlamaSlot, Model, parse_models, parse_slots, read_models, read_slots,
    reconcile_seeded_slots, scheduler_for, seed_scheduler_from_llama_server,
};
use aivyx_broker::text::endpoint;
use aivyx_broker::wake::wake_all;
use aivyx_broker::scheduler::{AdmitEvent, AdmitStep};
use tokio::sync::oneshot;

fn object(members: Vec<(&str, Json)>) -> Json {
    Json::Object(
        members
            .into_iter()
            .map(|(key, value)| Member { key: key.to_string(), value })
            .collect(),
    )
}

fn slot(id: u64, is_processing: bool) -> Json {
    object(vec![("id", Json::Unsigned(id)), ("is_processing", Json::Bool(is_processing))])
}

fn model(id: &str, status: Option<&str>) -> Json {
    let mut members = vec![("id", Json::text(id))];
    if let Some(value) = status {
        members.push(("status", object(vec![("value", Json::text(value))])));
    }
    object(members)
}

#[test]
fn parses_real_slots_response_shape() {
    let body = Json::Array(vec![
        object(vec![
            ("id", Json::Unsigned(0)),
            ("id_task", Json::Unsigned(135)),
            ("is_processing", Json::Bool(true)),
            ("n_ctx", Json::Unsigned(65536)),
        ]),
        object(vec![
            ("id", Json::Unsigned(1)),
            ("id_task", Json::Negative(-1)),
            ("is_processing", Json::Bool(false)),
            ("n_ctx", Json::Unsigned(65536)),
        ]),
    ]);
    let slots = parse_slots(&body).expect("must parse a real llama-server /slots body");
    assert_eq!(slots.len(), 2);
    assert_eq!(slots[0], LlamaSlot { id: 0, is_processing: true });
    assert_eq!(slots[1], LlamaSlot { id: 1, is_processing: false });
}

#[test]
fn the_slot_report_has_its_address_and_is_read() {
    assert_eq!(endpoint("http://127.0.0.1:8080", "/slots"), "http://127.0.0.1:8080/slots");
    assert_eq!(endpoint("http://127.0.0.1:8080///", "/slots"), "http://127.0.0.1:8080/slots");
    let slots = read_slots(Ok(Json::Array(vec![slot(0, false)]))).unwrap();
    assert_eq!(slots, vec![LlamaSlot { id: 0, is_processing: false }]);
}

#[test]
fn seed_scheduler_marks_processing_slots_busy() {
    let report = read_slots(Ok(Json::Array(vec![slot(0, true), slot(1, false)]))).unwrap();
    let mut s = Scheduler::new(2);
    assert_eq!(seed_scheduler_from_llama_server(&mut s, &report), 2);
    assert_eq!(s.try_admit(&None).unwrap().slot_id, 1);
    assert!(s.try_admit(&None).is_none());
}

#[test]
fn a_report_that_is_no_list_of_slots_is_refused() {
    for body in [
        Json::Null,
        object(vec![]),
        Json::Array(vec![slot(0, true), Json::Null]),
        Json::Array(vec![object(vec![("id", Json::Unsigned(0))])]),
        Json::Array(vec![object(vec![
            ("id", Json::Negative(-1)),
            ("is_processing", Json::Bool(true)),
        ])]),
        Json::Array(vec![object(vec![
            ("id", Json::Unsigned(1)),
            ("is_processing", Json::Unsigned(1)),
        ])]),
    ] {
        assert!(parse_slots(&body).is_none());
        let error = read_slots(Ok(body)).unwrap_err();
        assert!(matches!(error, LlamaClientError::Parse));
        assert_eq!(error.message(), "failed to parse llama-server /slots response");
    }
    assert_eq!(parse_slots(&Json::Array(vec![])), Some(vec![]));
    let error = read_slots(Err("refused".to_string())).unwrap_err();
    assert!(matches!(error, LlamaClientError::Request(_)));
    assert_eq!(error.message(), "request to llama-server failed: refused");
}

#[test]
fn the_low_bits_of_an_id_count() {
    let slots = parse_slots(&Json::Array(vec![slot(0x1_0000_0003, true)])).unwrap();
    assert_eq!(slots[0].id, 3);
}

#[test]
fn a_restart_recovers_every_slot() {
    let busy = LlamaSlot { id: 1, is_processing: true };
    let idle = LlamaSlot { id: 0, is_processing: false };
    let mut s = scheduler_for(&vec![idle, busy]);
    assert_eq!(s.snapshot().len(), 2);
    assert!(s.snapshot()[1].busy);
    assert_eq!(s.try_admit(&None).unwrap().slot_id, 0);
    let (tx, mut rx) = oneshot::channel();
    assert_eq!(s.admit_request(&None, AdmitEvent::Attempt(tx)), AdmitStep::Queued);

    // Still generating: nothing changes, and what was admitted is left alone.
    assert_eq!(reconcile_seeded_slots(&mut s, &vec![idle, busy]).len(), 0);
    assert!(s.snapshot().iter().all(|row| row.busy));

    let done = LlamaSlot { id: 1, is_processing: false };
    assert_eq!(wake_all(reconcile_seeded_slots(&mut s, &vec![idle, done])), vec![true]);
    assert_eq!(rx.try_recv(), Ok(()));
    assert!(s.snapshot()[0].busy);
    assert!(!s.snapshot()[1].busy);
}

#[test]
fn a_later_report_takes_no_slot_from_the_broker() {
    let busy = LlamaSlot { id: 0, is_processing: true };
    let idle = LlamaSlot { id: 0, is_processing: false };
    let mut s = scheduler_for(&vec![idle]);
    assert_eq!(s.try_admit(&None).unwrap().slot_id, 0);
    assert_eq!(seed_scheduler_from_llama_server(&mut s, &vec![busy]), 1);
    assert_eq!(reconcile_seeded_slots(&mut s, &vec![idle]).len(), 0);
    assert!(s.snapshot()[0].busy);
}

#[test]
fn models_are_loaded_or_not() {
    let list = object(vec![(
        "data",
        Json::Array(vec![
            model("a", Some("loaded")),
            model("b", Some("loading")),
            model("c", Some("unloaded")),
            model("d", Some("sleeping")),
            model("e", None),
        ]),
    )]);
    let want: Vec<Model> = [("a", true), ("b", true), ("c", false), ("d", false), ("e", true)]
        .into_iter()
        .map(|(id, loaded)| Model { id: id.to_string(), loaded })
        .collect();
    assert_eq!(parse_models(&list), Some(want.clone()));
    assert_eq!(read_models(Some(list)), want);
}

#[test]
fn a_model_list_that_makes_no_sense_is_empty() {
    for list in [
        Json::Null,
        object(vec![]),
        object(vec![("data", Json::text("a"))]),
        object(vec![("data", Json::Array(vec![model("a", None), object(vec![])]))]),
    ] {
        assert!(parse_models(&list).is_none());
        assert_eq!(read_models(Some(list)), vec![]);
    }
    assert_eq!(read_models(None), vec![]);
    let odd = object(vec![("id", Json::text("a")), ("status", Json::Null)]);
    let models = read_models(Some(object(vec![("data", Json::Array(vec![odd]))])));
    assert_eq!(models, vec![Model { id: "a".to_string(), loaded: false }]);
}
