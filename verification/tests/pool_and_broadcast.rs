use notifyhub::api::enqueue;
use notifyhub::broadcast::{publish, reached};
use notifyhub::message::{DbMessage, Message, MessageStatus};
use notifyhub::pool::dynamic_worker_pool;
use notifyhub::retry::{SendOutcome, MAX_RETRIES};
use notifyhub::store::MessageStore;
use notifyhub::time::Timestamp;
use notifyhub::worker::{deliver, try_settle, MockProvider, Provider, BATCH_LIMIT};
use std::cell::RefCell;
use tokio::sync::broadcast;
use tokio::sync::broadcast::error::TryRecvError;

struct Scripted {
    failures_left: RefCell<u32>,
    seen: RefCell<Vec<Message>>,
}

impl Scripted {
    fn failing(times: u32) -> Scripted {
        Scripted { failures_left: RefCell::new(times), seen: RefCell::new(Vec::new()) }
    }
}

impl Provider for Scripted {
    fn send(&self, msg: &Message) -> Result<(), String> {
        self.seen.borrow_mut().push(msg.clone());
        let mut left = self.failures_left.borrow_mut();
        if *left > 0 {
            *left -= 1;
            Err("Simulated failure".to_string())
        } else {
            Ok(())
        }
    }
}

struct OddIdsFail;

impl Provider for OddIdsFail {
    fn send(&self, msg: &Message) -> Result<(), String> {
        if msg.text.ends_with('1') || msg.text.ends_with('3') || msg.text.ends_with('5') {
            Err("odd".to_string())
        } else {
            Ok(())
        }
    }
}

fn request(provider: &str, text: &str) -> Message {
    Message { provider: provider.to_string(), text: text.to_string(), scheduled_at: None }
}

fn long_ago() -> Timestamp {
    Timestamp::from_micros(0)
}

#[test]
fn mock_provider_always_succeeds() {
    let provider = MockProvider;
    assert_eq!(provider.send(&request("sms", "hello")), Ok(()));
    assert_eq!(
        MockProvider::describe(&request("sms", "hello")),
        "Mock send: provider=sms text=hello"
    );
}

#[test]
fn publish_reaches_every_subscriber() {
    let (tx, mut first) = broadcast::channel::<String>(100);
    let mut second = tx.subscribe();
    assert_eq!(publish(&tx, "Message 1 sent successfully".to_string()), 2);
    assert_eq!(first.try_recv().unwrap(), "Message 1 sent successfully");
    assert_eq!(second.try_recv().unwrap(), "Message 1 sent successfully");
    assert!(matches!(first.try_recv(), Err(TryRecvError::Empty)));
}

#[test]
fn publish_without_subscribers_drops_the_line() {
    let (tx, rx) = broadcast::channel::<String>(4);
    drop(rx);
    assert_eq!(publish(&tx, "lost".to_string()), 0);
    let mut late = tx.subscribe();
    assert_eq!(publish(&tx, "kept".to_string()), 1);
    assert_eq!(late.try_recv().unwrap(), "kept");
}

#[test]
fn reached_counts_subscribers() {
    assert_eq!(reached(Some(3)), 3);
    assert_eq!(reached(Some(1)), 1);
    assert_eq!(reached(None), 0);
}

#[test]
fn stalled_subscriber_does_not_hold_up_publishing() {
    let (tx, mut stalled) = broadcast::channel::<String>(2);
    let mut reader = tx.subscribe();
    let mut read: Vec<String> = Vec::new();
    for k in 0..10 {
        assert_eq!(publish(&tx, format!("line {}", k)), 2);
        read.push(reader.try_recv().unwrap());
    }
    assert_eq!(read.len(), 10);
    assert_eq!(read[9], "line 9");
    match stalled.try_recv() {
        Err(TryRecvError::Lagged(skipped)) => assert_eq!(skipped, 8),
        other => panic!("unexpected {:?}", other),
    }
    assert_eq!(stalled.try_recv().unwrap(), "line 8");
    drop(stalled);
    assert_eq!(publish(&tx, "after".to_string()), 1);
    assert_eq!(reader.try_recv().unwrap(), "after");
}

#[test]
fn try_settle_gives_decision_line_and_completion() {
    let msg = DbMessage {
        id: 12,
        provider: "X".to_string(),
        text: "t".to_string(),
        status: MessageStatus::Retrying,
        retry_count: 1,
        next_retry_at: None,
    };
    let now = Timestamp::from_micros(5_000_000);
    let ok = try_settle(&msg, SendOutcome::Success, 5, now).unwrap();
    assert_eq!(ok.id, 12);
    assert!(ok.completed);
    assert_eq!(ok.decision.status, MessageStatus::Done);
    assert_eq!(ok.line, "Message 12 sent successfully");
    let retry = try_settle(&msg, SendOutcome::Failure, 5, now).unwrap();
    assert!(!retry.completed);
    assert_eq!(retry.decision.status, MessageStatus::Retrying);
    assert_eq!(retry.decision.retry_count, 2);
    assert_eq!(retry.decision.next_retry_at, Some(Timestamp::from_micros(9_000_000)));
    assert_eq!(retry.line, "Message 12 will retry after 4 seconds (attempt 2)");
    let gone = try_settle(&msg, SendOutcome::Failure, 2, now).unwrap();
    assert_eq!(gone.decision.status, MessageStatus::Failed);
    assert_eq!(gone.line, "Message 12 failed permanently");
    let unfit = DbMessage { retry_count: i32::MAX, ..msg.clone() };
    assert!(try_settle(&unfit, SendOutcome::Failure, 5, now).is_none());
}

#[test]
fn deliver_sends_settles_and_publishes() {
    let (tx, mut rx) = broadcast::channel::<String>(100);
    let mut store = MessageStore::new();
    enqueue(&mut store, request("sms", "hello"), long_ago()).unwrap();
    let provider = Scripted::failing(1);

    let before = Timestamp::now();
    let batch = store.claim_batch(BATCH_LIMIT, before);
    assert_eq!(batch.len(), 1);
    let first = deliver(&provider, &mut store, &tx, &batch[0], MAX_RETRIES);
    let after = Timestamp::now();
    assert_eq!(first.id, 1);
    assert_eq!(first.outcome, SendOutcome::Failure);
    assert!(before.micros <= first.at.micros && first.at.micros <= after.micros);
    let settlement = first.settlement.unwrap();
    assert_eq!(settlement.decision.status, MessageStatus::Retrying);
    assert_eq!(
        settlement.decision.next_retry_at,
        Some(Timestamp::from_micros(first.at.micros + 2_000_000))
    );
    assert_eq!(rx.try_recv().unwrap(), "Message 1 will retry after 2 seconds (attempt 1)");
    assert_eq!(
        provider.seen.borrow()[0],
        Message { provider: "sms".to_string(), text: "hello".to_string(), scheduled_at: None }
    );

    let due = settlement.decision.next_retry_at.unwrap();
    let batch = store.claim_batch(BATCH_LIMIT, due);
    assert_eq!(batch.len(), 1);
    let second = deliver(&provider, &mut store, &tx, &batch[0], MAX_RETRIES);
    assert_eq!(second.outcome, SendOutcome::Success);
    assert!(second.settlement.unwrap().completed);
    assert_eq!(rx.try_recv().unwrap(), "Message 1 sent successfully");
    assert_eq!(provider.seen.borrow()[1].scheduled_at, Some(due));
    let stored = store.find(1).unwrap();
    assert_eq!(stored.status, MessageStatus::Done);
    assert_eq!(stored.retry_count, 1);
}

#[test]
fn pool_round_delivers_a_batch_and_counts_per_worker() {
    let (tx, mut rx) = broadcast::channel::<String>(100);
    let mut store = MessageStore::new();
    for k in 1..=6 {
        enqueue(&mut store, request("X", &format!("m{}", k)), long_ago()).unwrap();
    }
    let report = dynamic_worker_pool(&mut store, &OddIdsFail, 4, &tx);
    assert_eq!(report.deliveries.len(), 6);
    let order: Vec<i32> = report.deliveries.iter().map(|d| d.id).collect();
    assert_eq!(order, vec![1, 2, 3, 4, 5, 6]);
    assert_eq!(report.completed, vec![0, 2, 0, 1]);
    for k in 1..=6 {
        let stored = store.find(k).unwrap();
        if k % 2 == 1 {
            assert_eq!(stored.status, MessageStatus::Retrying);
            assert_eq!(stored.retry_count, 1);
            assert_eq!(
                rx.try_recv().unwrap(),
                format!("Message {} will retry after 2 seconds (attempt 1)", k)
            );
        } else {
            assert_eq!(stored.status, MessageStatus::Done);
            assert_eq!(stored.retry_count, 0);
            assert_eq!(rx.try_recv().unwrap(), format!("Message {} sent successfully", k));
        }
    }
    assert!(matches!(rx.try_recv(), Err(TryRecvError::Empty)));
    let again = dynamic_worker_pool(&mut store, &OddIdsFail, 4, &tx);
    assert!(again.deliveries.is_empty());
    assert_eq!(again.completed, vec![0, 0, 0, 0]);
}

#[test]
fn pool_round_claims_at_most_twenty() {
    let (tx, _rx) = broadcast::channel::<String>(100);
    let mut store = MessageStore::new();
    for k in 1..=25 {
        enqueue(&mut store, request("X", &format!("m{}", k)), long_ago()).unwrap();
    }
    let report = dynamic_worker_pool(&mut store, &MockProvider, 3, &tx);
    assert_eq!(report.deliveries.len(), 20);
    assert_eq!(report.completed, vec![7, 7, 6]);
    assert_eq!(store.find(20).unwrap().status, MessageStatus::Done);
    assert_eq!(store.find(21).unwrap().status, MessageStatus::Pending);
    let rest = dynamic_worker_pool(&mut store, &MockProvider, 3, &tx);
    assert_eq!(rest.deliveries.len(), 5);
    assert_eq!(rest.completed, vec![2, 2, 1]);
}

#[test]
fn pool_without_workers_does_nothing() {
    let (tx, mut rx) = broadcast::channel::<String>(100);
    let mut store = MessageStore::new();
    enqueue(&mut store, request("X", "t"), long_ago()).unwrap();
    let report = dynamic_worker_pool(&mut store, &MockProvider, 0, &tx);
    assert!(report.deliveries.is_empty());
    assert!(report.completed.is_empty());
    assert!(matches!(rx.try_recv(), Err(TryRecvError::Empty)));
    assert_eq!(store.find(1).unwrap().status, MessageStatus::Pending);
    assert_eq!(store.claim_batch(5, Timestamp::now()).len(), 1);
}

#[test]
fn pool_round_skips_messages_scheduled_for_later() {
    let (tx, _rx) = broadcast::channel::<String>(100);
    let mut store = MessageStore::new();
    let far = Timestamp::from_micros(Timestamp::now().micros + 3_600_000_000);
    let later = Message {
        provider: "X".to_string(),
        text: "later".to_string(),
        scheduled_at: Some(far),
    };
    enqueue(&mut store, later, long_ago()).unwrap();
    enqueue(&mut store, request("X", "now"), long_ago()).unwrap();
    let report = dynamic_worker_pool(&mut store, &MockProvider, 2, &tx);
    assert_eq!(report.deliveries.len(), 1);
    assert_eq!(report.deliveries[0].id, 2);
    assert_eq!(store.find(1).unwrap().status, MessageStatus::Pending);
}
