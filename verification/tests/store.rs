use shisha::event::EventType;
use shisha::store::EventStore;
use shisha::messages::ShishaMessage;

fn msg(user: &str, kind: &str, amount: Option<i64>) -> ShishaMessage {
    ShishaMessage {
        user: user.to_string(),
        kind: kind.to_string(),
        image_uuid: None,
        target: None,
        amount,
    }
}

#[test]
fn insert_assigns_increasing_ids_from_one() {
    let mut s = EventStore::new();
    let a = s.insert_message_at(msg("a", "upload", None), 10).unwrap();
    let b = s.insert_message_at(msg("b", "buy", Some(1)), 20).unwrap();
    let c = s.insert_message_at(msg("c", "transfer", None), 30).unwrap();
    assert_eq!((a, b, c), (1, 2, 3));
    assert_eq!(s.len(), 3);
}

#[test]
fn recent_orders_newest_first_with_id_tiebreak() {
    let mut s = EventStore::new();
    s.insert_message_at(msg("a", "upload", None), 5).unwrap();
    s.insert_message_at(msg("b", "upload", None), 1).unwrap();
    s.insert_message_at(msg("c", "upload", None), 9).unwrap();
    s.insert_message_at(msg("d", "upload", None), 9).unwrap();

    let all = s.recent(10);
    let order: Vec<i64> = all.iter().map(|e| e.id).collect();
    assert_eq!(order, vec![4, 3, 1, 2]);
    assert!(all.windows(2).all(|w| w[0].event_date >= w[1].event_date));

    let top2 = s.recent(2);
    assert_eq!(top2.len(), 2);
    assert_eq!(top2[0].actor, "d");
    assert_eq!(top2[1].actor, "c");

    assert_eq!(s.recent(0).len(), 0);
}

#[test]
fn last_10_events_caps_at_ten() {
    let mut s = EventStore::new();
    for i in 0..12 {
        s.insert_message_at(msg("a", "upload", None), i).unwrap();
    }
    let last = s.last_10_events();
    assert_eq!(last.len(), 10);
    assert_eq!(last[0].event_date, 11);
    assert_eq!(last[9].event_date, 2);
}

#[test]
fn sum_over_zero_buy_events_is_zero() {
    let mut s = EventStore::new();
    assert_eq!(s.sum_amount_by_type(EventType::BUY), 0);
    assert_eq!(s.count_money(), 0);
    s.insert_message_at(msg("a", "upload", None), 1).unwrap();
    s.insert_message_at(msg("b", "transfer", None), 2).unwrap();
    assert_eq!(s.sum_amount_by_type(EventType::BUY), 0);
    assert_eq!(s.count_money(), 0);
}

#[test]
fn sum_skips_missing_amounts_and_keeps_signs() {
    let mut s = EventStore::new();
    s.insert_message_at(msg("a", "buy", Some(25)), 1).unwrap();
    s.insert_message_at(msg("a", "buy", None), 2).unwrap();
    s.insert_message_at(msg("b", "buy", Some(-10)), 3).unwrap();
    s.insert_message_at(msg("b", "upload", Some(1000)), 4).unwrap();
    assert_eq!(s.sum_amount_by_type(EventType::BUY), 15);
    assert_eq!(s.count_money(), 15);
}

#[test]
fn counts_are_per_type() {
    let mut s = EventStore::new();
    s.insert_message_at(msg("a", "upload", None), 1).unwrap();
    s.insert_message_at(msg("b", "upload", None), 2).unwrap();
    s.insert_message_at(msg("a", "buy", Some(5)), 3).unwrap();
    assert_eq!(s.count_by_type(EventType::UPLOAD), 2);
    assert_eq!(s.count_by_type(EventType::BUY), 1);
    assert_eq!(s.count_by_type(EventType::TRANSFER), 0);
    assert_eq!(s.count_uploads(), 2);
}

#[test]
fn top_uploader_wins_by_count() {
    let mut s = EventStore::new();
    for i in 0..3 {
        s.insert_message_at(msg("A", "upload", None), i).unwrap();
    }
    for i in 3..8 {
        s.insert_message_at(msg("B", "upload", None), i).unwrap();
    }
    let top = s.top_actor_by_type(EventType::UPLOAD, 1);
    assert_eq!(top.len(), 1);
    assert_eq!(top[0].0, "B");
    assert_eq!(top[0].1, 5);
    assert_eq!(s.top_uploader(), Some("B".to_string()));

    let top2 = s.top_actor_by_type(EventType::UPLOAD, 2);
    assert_eq!(top2.len(), 2);
    assert_eq!(top2[0].0, "B");
    assert_eq!(top2[1].0, "A");
    assert_eq!(top2[1].1, 3);

    let top9 = s.top_actor_by_type(EventType::UPLOAD, 9);
    assert_eq!(top9.len(), 2);
}

#[test]
fn top_buyer_is_absent_without_buys() {
    let mut s = EventStore::new();
    assert_eq!(s.top_buyer_name(), None);
    s.insert_message_at(msg("a", "upload", None), 1).unwrap();
    assert_eq!(s.top_buyer_name(), None);
    s.insert_message_at(msg("z", "buy", Some(2)), 2).unwrap();
    assert_eq!(s.top_buyer_name(), Some("z".to_string()));
}

#[test]
fn analytics_snapshot_combines_the_queries() {
    let mut s = EventStore::new();
    s.insert_message_at(msg("A", "upload", None), 1).unwrap();
    s.insert_message_at(msg("A", "upload", None), 2).unwrap();
    s.insert_message_at(msg("B", "buy", Some(30)), 3).unwrap();
    s.insert_message_at(msg("B", "buy", Some(12)), 4).unwrap();

    let a = s.analytics();
    assert_eq!(a.top_buyer, Some("B".to_string()));
    assert_eq!(a.top_uploader, Some("A".to_string()));
    assert_eq!(a.money_earned, 42);
    assert_eq!(a.shisha_uploads, 2);
    assert_eq!(a.last_10_events.len(), 4);
    assert_eq!(a.last_10_events[0].actor, "B");
}

#[test]
fn insert_message_uses_the_clock_not_the_payload() {
    let mut s = EventStore::new();
    let id = s.insert_message(msg("a", "buy", Some(3))).unwrap();
    assert_eq!(id, 1);
    let events = s.recent(1);
    assert_eq!(events.len(), 1);
    assert_eq!(events[0].actor, "a");
    assert_eq!(events[0].event_type, EventType::BUY);
    // The clock stamped it: the date is a real recent instant, far past 2000-01-01.
    assert!(events[0].event_date > 946_684_800_000_000);
}
