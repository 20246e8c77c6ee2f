use shisha::consumer::{Consumer, Pulled, StepOutcome};
use shisha::event::EventType;
use shisha::store::{EventStore, StoreError};
use shisha::messages::ShishaMessage;

fn payload(offset: u64, bytes: &[u8]) -> Pulled {
    Pulled::Payload { offset, bytes: bytes.to_vec() }
}

#[test]
fn valid_message_is_persisted_and_cursor_advances() {
    let mut store = EventStore::new();
    let mut consumer = Consumer::new();
    let o = consumer.step(&mut store, payload(7, br#"{"user":"A","type":"buy","amount":5}"#), 100);
    assert_eq!(o, StepOutcome::Persisted);
    assert_eq!(consumer.cursor, Some(7));
    assert_eq!(store.len(), 1);
    let ev = s_first(&store);
    assert_eq!(ev.0, "A");
    assert_eq!(ev.1, EventType::BUY);
}

#[test]
fn unknown_type_is_persisted_as_upload_not_dropped() {
    let mut store = EventStore::new();
    let mut consumer = Consumer::new();
    let o = consumer.step(&mut store, payload(3, br#"{"user":"A","type":"dance"}"#), 100);
    assert_eq!(o, StepOutcome::Persisted);
    assert_eq!(consumer.cursor, Some(3));
    assert_eq!(store.len(), 1);
    assert_eq!(s_first(&store).1, EventType::UPLOAD);
}

#[test]
fn malformed_payload_is_dropped_and_the_loop_goes_on() {
    let mut store = EventStore::new();
    let mut consumer = Consumer::new();
    let o = consumer.step(&mut store, payload(1, b"not json at all"), 100);
    assert_eq!(o, StepOutcome::Dropped);
    assert_eq!(consumer.cursor, None);
    assert_eq!(store.len(), 0);

    let o = consumer.step(&mut store, payload(2, br#"{"type":"buy"}"#), 101);
    assert_eq!(o, StepOutcome::Dropped);
    assert_eq!(store.len(), 0);

    // The next, well-formed message is still processed.
    let o = consumer.step(&mut store, payload(3, br#"{"user":"B","type":"upload"}"#), 102);
    assert_eq!(o, StepOutcome::Persisted);
    assert_eq!(consumer.cursor, Some(3));
    assert_eq!(store.len(), 1);
}

#[test]
fn empty_payload_is_skipped_without_cursor_advance() {
    let mut store = EventStore::new();
    let mut consumer = Consumer::new();
    let o = consumer.step(&mut store, Pulled::NoPayload { offset: 9 }, 100);
    assert_eq!(o, StepOutcome::Skipped);
    assert_eq!(consumer.cursor, None);
    assert_eq!(store.len(), 0);
}

#[test]
fn infrastructure_errors_only_retry() {
    let mut store = EventStore::new();
    let mut consumer = Consumer::new();
    let o = consumer.step(&mut store, Pulled::InfraError, 100);
    assert_eq!(o, StepOutcome::Retried);
    assert_eq!(consumer.cursor, None);
    assert_eq!(store.len(), 0);
}

#[test]
fn store_failure_keeps_cursor_so_the_message_is_redelivered() {
    // A store that can assign no id refuses every write.
    let mut store = EventStore::with_next_id(i64::MAX);
    let mut consumer = Consumer::new();
    let bytes = br#"{"user":"A","type":"buy","amount":25}"#;

    let o = consumer.step(&mut store, payload(4, bytes), 100);
    assert_eq!(o, StepOutcome::StoreFailed);
    assert_eq!(consumer.cursor, None);
    assert_eq!(store.len(), 0);
    assert!(matches!(store.insert_message_at(
        ShishaMessage {
            user: "A".to_string(),
            kind: "buy".to_string(),
            image_uuid: None,
            target: None,
            amount: Some(25),
        },
        100,
    ), Err(StoreError::IdsExhausted)));

    // After a restart the uncommitted message comes again; with the store
    // recovered it is persisted and only then committed.
    let mut recovered = EventStore::new();
    let mut restarted = Consumer::new();
    let o = restarted.step(&mut recovered, payload(4, bytes), 200);
    assert_eq!(o, StepOutcome::Persisted);
    assert_eq!(restarted.cursor, Some(4));
    assert_eq!(recovered.len(), 1);
}

#[test]
fn end_to_end_ingest_then_aggregate() {
    let mut store = EventStore::new();
    let mut consumer = Consumer::new();

    // The upload is given the later ingestion instant, so it is the newest.
    let o = consumer.step(&mut store, payload(0, br#"{"user":"TEST","type":"upload"}"#), 2_000);
    assert_eq!(o, StepOutcome::Persisted);
    let o = consumer.step(
        &mut store,
        payload(1, br#"{"user":"TEST","type":"buy","amount":25,"image_uuid":"123"}"#),
        1_000,
    );
    assert_eq!(o, StepOutcome::Persisted);
    assert_eq!(consumer.cursor, Some(1));

    let events = store.recent(10);
    assert_eq!(events.len(), 2);
    assert_eq!(events[0].actor, "TEST");
    assert_eq!(events[0].event_type, EventType::UPLOAD);
    assert_eq!(store.sum_amount_by_type(EventType::BUY), 25);
    assert_eq!(store.count_money(), 25);
}

#[test]
fn can_write_message_to_db() {
    let mut store = EventStore::new();
    let mut consumer = Consumer::new();

    // The upload arrives first and is stamped the later ingestion instant,
    // so the activity pane shows it first.
    let o = consumer.step(&mut store, payload(0, br#"{"user":"TEST","type":"upload"}"#), 20);
    assert_eq!(o, StepOutcome::Persisted);
    let o = consumer.step(
        &mut store,
        payload(
            1,
            br#"{"user":"TEST","type":"buy","amount":25,"image_uuid":"123-345465353432-34234234"}"#,
        ),
        10,
    );
    assert_eq!(o, StepOutcome::Persisted);

    let ev = store.last_10_events();
    let m = ev.first().expect("both events were persisted");
    assert_eq!(m.actor, "TEST");
    assert_eq!(m.event_type, EventType::UPLOAD);
    let sum = store.count_money();
    assert_eq!(sum, 25)
}

fn s_first(store: &EventStore) -> (String, EventType) {
    let events = store.recent(1);
    (events[0].actor.clone(), events[0].event_type)
}
