use notifyhub::api::enqueue;
use notifyhub::message::{Message, MessageStatus};
use notifyhub::retry::{SendOutcome, MAX_RETRIES};
use notifyhub::store::MessageStore;
use notifyhub::time::Timestamp;
use notifyhub::worker::attempt;

fn at(secs: i64) -> Timestamp {
    Timestamp::from_micros(secs * 1_000_000)
}

fn request(provider: &str, text: &str) -> Message {
    Message { provider: provider.to_string(), text: text.to_string(), scheduled_at: None }
}

#[test]
fn fails_three_times_then_succeeds() {
    let mut store = MessageStore::new();
    let id = enqueue(&mut store, request("X", "hi"), at(0)).unwrap();
    let fresh = store.find(id).unwrap();
    assert_eq!(fresh.status, MessageStatus::Pending);
    assert_eq!(fresh.retry_count, 0);

    let mut now = at(100);
    let mut lines: Vec<String> = Vec::new();
    let outcomes = [
        SendOutcome::Failure,
        SendOutcome::Failure,
        SendOutcome::Failure,
        SendOutcome::Success,
    ];
    let mut observed: Vec<(MessageStatus, i32, Option<i64>)> = Vec::new();
    for outcome in outcomes {
        let batch = store.claim_batch(20, now);
        assert_eq!(batch.len(), 1);
        let delivery = attempt(&mut store, &batch[0], outcome, 5, now);
        let settlement = delivery.settlement.unwrap();
        observed.push((
            settlement.decision.status,
            settlement.decision.retry_count,
            settlement.decision.delay_secs,
        ));
        lines.push(settlement.line);
        let stored = store.find(id).unwrap();
        assert_eq!(stored.status, settlement.decision.status);
        assert_eq!(stored.retry_count, settlement.decision.retry_count);
        if let Some(delay) = settlement.decision.delay_secs {
            let due = Timestamp::from_micros(now.micros + delay * 1_000_000);
            assert_eq!(settlement.decision.next_retry_at, Some(due));
            assert_eq!(stored.next_retry_at, Some(due));
            let early = Timestamp::from_micros(due.micros - 1);
            assert!(store.claim_batch(20, early).is_empty());
            now = due;
        }
    }
    assert_eq!(
        observed,
        vec![
            (MessageStatus::Retrying, 1, Some(2)),
            (MessageStatus::Retrying, 2, Some(4)),
            (MessageStatus::Retrying, 3, Some(8)),
            (MessageStatus::Done, 3, None),
        ]
    );
    assert_eq!(
        lines,
        vec![
            "Message 1 will retry after 2 seconds (attempt 1)".to_string(),
            "Message 1 will retry after 4 seconds (attempt 2)".to_string(),
            "Message 1 will retry after 8 seconds (attempt 3)".to_string(),
            "Message 1 sent successfully".to_string(),
        ]
    );
    assert!(store.claim_batch(20, at(1_000_000)).is_empty());
}

#[test]
fn always_failing_message_is_given_up_after_five_attempts() {
    let mut store = MessageStore::new();
    let id = enqueue(&mut store, request("X", "doomed"), at(0)).unwrap();
    let mut now = at(0);
    let mut attempts = 0;
    loop {
        let batch = store.claim_batch(20, now);
        if batch.is_empty() {
            break;
        }
        attempts += 1;
        assert!(attempts <= 5);
        let delivery = attempt(&mut store, &batch[0], SendOutcome::Failure, MAX_RETRIES, now);
        let settlement = delivery.settlement.unwrap();
        assert_eq!(settlement.decision.retry_count, attempts);
        assert!(!settlement.completed);
        now = at(now.micros / 1_000_000 + 1_000);
    }
    assert_eq!(attempts, 5);
    let last = store.find(id).unwrap();
    assert_eq!(last.status, MessageStatus::Failed);
    assert_eq!(last.retry_count, 5);
    for later in [at(10_000), at(1_000_000), Timestamp::from_micros(i64::MAX)] {
        assert!(store.claim_batch(20, later).is_empty());
    }
}

#[test]
fn retry_count_grows_by_one_per_failure_with_doubling_delay() {
    let mut store = MessageStore::new();
    enqueue(&mut store, request("X", "t"), at(0)).unwrap();
    let mut now = at(7);
    for k in 1..=20 {
        let batch = store.claim_batch(1, now);
        assert_eq!(batch.len(), 1);
        assert_eq!(batch[0].retry_count, k - 1);
        let delivery = attempt(&mut store, &batch[0], SendOutcome::Failure, 1_000, now);
        let decision = delivery.settlement.unwrap().decision;
        assert_eq!(decision.retry_count, k);
        assert_eq!(decision.status, MessageStatus::Retrying);
        assert_eq!(decision.delay_secs, Some(1i64 << k));
        assert_eq!(
            decision.next_retry_at,
            Some(Timestamp::from_micros(now.micros + (1i64 << k) * 1_000_000))
        );
        now = decision.next_retry_at.unwrap();
    }
}

#[test]
fn success_after_any_number_of_retries_is_done() {
    for prior in 0..5 {
        let mut store = MessageStore::new();
        enqueue(&mut store, request("X", "t"), at(0)).unwrap();
        let mut now = at(0);
        for _ in 0..prior {
            let batch = store.claim_batch(1, now);
            attempt(&mut store, &batch[0], SendOutcome::Failure, 5, now);
            now = at(now.micros / 1_000_000 + 100);
        }
        let batch = store.claim_batch(1, now);
        let delivery = attempt(&mut store, &batch[0], SendOutcome::Success, 5, now);
        let settlement = delivery.settlement.unwrap();
        assert!(settlement.completed);
        assert_eq!(settlement.decision.status, MessageStatus::Done);
        assert_eq!(settlement.decision.retry_count, prior);
        assert_eq!(store.find(1).unwrap().status, MessageStatus::Done);
    }
}

#[test]
fn attempt_that_cannot_be_decided_releases_the_claim() {
    let mut store = MessageStore::new();
    enqueue(&mut store, request("X", "t"), at(0)).unwrap();
    let end_of_time = Timestamp::from_micros(i64::MAX);
    let batch = store.claim_batch(1, end_of_time);
    assert_eq!(batch.len(), 1);
    let delivery = attempt(&mut store, &batch[0], SendOutcome::Failure, 5, end_of_time);
    assert!(delivery.settlement.is_none());
    assert_eq!(delivery.id, 1);
    assert_eq!(delivery.outcome, SendOutcome::Failure);
    assert_eq!(delivery.at, end_of_time);
    let stored = store.find(1).unwrap();
    assert_eq!(stored.status, MessageStatus::Pending);
    assert_eq!(stored.retry_count, 0);
    assert_eq!(store.claim_batch(1, end_of_time).len(), 1);
}

#[test]
fn attempt_on_a_finished_message_changes_nothing() {
    let mut store = MessageStore::new();
    enqueue(&mut store, request("X", "t"), at(0)).unwrap();
    let batch = store.claim_batch(1, at(1));
    let first = attempt(&mut store, &batch[0], SendOutcome::Success, 5, at(1));
    assert!(first.settlement.is_some());
    let again = attempt(&mut store, &batch[0], SendOutcome::Failure, 5, at(2));
    assert!(again.settlement.is_none());
    let stored = store.find(1).unwrap();
    assert_eq!(stored.status, MessageStatus::Done);
    assert_eq!(stored.retry_count, 0);
}

#[test]
fn performance_test() {
    let concurrent_requests = 10;
    let total_requests = 50;
    let mut store = MessageStore::new();
    let mut accepted = 0;
    for _ in 0..concurrent_requests {
        for _ in 0..(total_requests / concurrent_requests) {
            let res = enqueue(&mut store, request("MTC", "it`s just test message"), at(0));
            match res {
                Ok(id) => {
                    accepted += 1;
                    assert_eq!(id, accepted);
                }
                Err(e) => panic!("Request failed: {:?}", e),
            }
        }
    }
    assert_eq!(store.len(), 50);
}
