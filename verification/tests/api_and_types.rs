use notifyhub::api::{enqueue, get_messages, health_check, HISTORY_LIMIT};
use notifyhub::message::{DbMessage, Message, MessageStatus};
use notifyhub::store::MessageStore;
use notifyhub::time::Timestamp;

fn at(secs: i64) -> Timestamp {
    Timestamp::from_micros(secs * 1_000_000)
}

#[test]
fn health_check_says_ok() {
    assert_eq!(health_check(), "OK");
}

#[test]
fn enqueue_stores_a_pending_message() {
    let mut store = MessageStore::new();
    let msg = Message {
        provider: "email".to_string(),
        text: "welcome".to_string(),
        scheduled_at: Some(at(60)),
    };
    assert_eq!(enqueue(&mut store, msg, at(1)), Ok(1));
    assert_eq!(
        store.find(1).unwrap(),
        DbMessage {
            id: 1,
            provider: "email".to_string(),
            text: "welcome".to_string(),
            status: MessageStatus::Pending,
            retry_count: 0,
            next_retry_at: Some(at(60)),
        }
    );
    let listed = get_messages(&store);
    assert_eq!(listed.len(), 1);
    assert_eq!(listed[0].created_at, at(1));
}

#[test]
fn history_shows_the_fifty_newest() {
    let mut store = MessageStore::new();
    for k in 1..=60 {
        let msg = Message { provider: "X".to_string(), text: format!("m{}", k), scheduled_at: None };
        enqueue(&mut store, msg, at(k)).unwrap();
    }
    let listed = get_messages(&store);
    assert_eq!(HISTORY_LIMIT, 50);
    assert_eq!(listed.len(), 50);
    let order: Vec<i32> = listed.iter().map(|r| r.id).collect();
    assert_eq!(order, (11..=60).rev().collect::<Vec<i32>>());
    assert_eq!(listed[0].text, "m60");
    assert_eq!(listed[49].text, "m11");
}

#[test]
fn status_names_round_trip() {
    let all = [
        (MessageStatus::Pending, "pending"),
        (MessageStatus::Retrying, "retrying"),
        (MessageStatus::Done, "done"),
        (MessageStatus::Failed, "failed"),
    ];
    for (status, name) in all {
        assert_eq!(status.as_str(), name);
        assert_eq!(MessageStatus::parse(name), Some(status));
    }
    assert_eq!(MessageStatus::parse("Pending"), None);
    assert_eq!(MessageStatus::parse(""), None);
    assert_eq!(MessageStatus::parse("done "), None);
}

#[test]
fn only_done_and_failed_are_terminal() {
    assert!(!MessageStatus::Pending.is_terminal());
    assert!(!MessageStatus::Retrying.is_terminal());
    assert!(MessageStatus::Done.is_terminal());
    assert!(MessageStatus::Failed.is_terminal());
}

#[test]
fn claimed_message_becomes_the_delivery_request() {
    let msg = DbMessage {
        id: 4,
        provider: "push".to_string(),
        text: "ping".to_string(),
        status: MessageStatus::Retrying,
        retry_count: 2,
        next_retry_at: Some(at(9)),
    };
    assert_eq!(
        msg.to_request(),
        Message { provider: "push".to_string(), text: "ping".to_string(), scheduled_at: Some(at(9)) }
    );
    assert_eq!(msg.clone(), msg);
}

#[test]
fn timestamp_arithmetic_and_order() {
    let t = Timestamp::from_micros(1_500_000);
    assert_eq!(t.micros, 1_500_000);
    assert_eq!(t.checked_add_seconds(2), Some(Timestamp::from_micros(3_500_000)));
    assert_eq!(t.checked_add_seconds(-2), Some(Timestamp::from_micros(-500_000)));
    assert_eq!(t.checked_add_seconds(i64::MAX), None);
    assert_eq!(Timestamp::from_micros(i64::MAX).checked_add_seconds(1), None);
    assert_eq!(Timestamp::from_micros(i64::MIN).checked_add_seconds(-1), None);
    assert_eq!(
        Timestamp::from_micros(-1_000_000).checked_add_seconds(9_223_372_036_854),
        Some(Timestamp::from_micros(9_223_372_036_853_000_000))
    );
    assert!(t.is_due(t));
    assert!(t.is_due(Timestamp::from_micros(1_500_001)));
    assert!(!t.is_due(Timestamp::from_micros(1_499_999)));
    assert!(t.is_before(Timestamp::from_micros(1_500_001)));
    assert!(!t.is_before(t));
}

#[test]
fn clock_reads_a_time_of_this_century() {
    let first = Timestamp::now();
    let second = Timestamp::now();
    assert!(first.micros > 1_600_000_000_000_000);
    assert!(first.micros < 4_102_444_800_000_000);
    assert!(second.micros >= first.micros - 5_000_000);
}
