use notifyhub::message::{DbMessage, MessageStatus};
use notifyhub::scheduler::{start, step, SchedulerAction, SchedulerEvent, SchedulerState};

fn msg(id: i32) -> DbMessage {
    DbMessage {
        id,
        provider: "X".to_string(),
        text: format!("m{}", id),
        status: MessageStatus::Pending,
        retry_count: 0,
        next_retry_at: None,
    }
}

#[test]
fn scheduler_starts_with_a_claim_of_twenty() {
    let (state, action) = start();
    assert!(matches!(state, SchedulerState::Claiming));
    assert!(matches!(action, SchedulerAction::Claim { limit: 20 }));
}

#[test]
fn scheduler_pushes_a_batch_in_order_then_sleeps() {
    let (state, _) = start();
    let (mut state, mut action) = step(state, SchedulerEvent::Claimed(vec![msg(3), msg(5), msg(8)]));
    let mut pushed: Vec<i32> = Vec::new();
    loop {
        match action {
            SchedulerAction::Push(m) => {
                assert_eq!(m, msg(m.id));
                pushed.push(m.id);
            }
            SchedulerAction::Sleep => break,
            other => panic!("unexpected action {:?}", other),
        }
        let next = step(state, SchedulerEvent::Pushed);
        state = next.0;
        action = next.1;
    }
    assert_eq!(pushed, vec![3, 5, 8]);
    assert!(matches!(state, SchedulerState::Idle));
    let (state, action) = step(state, SchedulerEvent::Tick);
    assert!(matches!(state, SchedulerState::Claiming));
    assert!(matches!(action, SchedulerAction::Claim { limit: 20 }));
}

#[test]
fn scheduler_sleeps_on_empty_batch_and_on_store_failure() {
    let (state, action) = step(SchedulerState::Claiming, SchedulerEvent::Claimed(Vec::new()));
    assert!(matches!(state, SchedulerState::Idle));
    assert!(matches!(action, SchedulerAction::Sleep));
    let (state, action) = step(SchedulerState::Claiming, SchedulerEvent::ClaimFailed);
    assert!(matches!(state, SchedulerState::Idle));
    assert!(matches!(action, SchedulerAction::Sleep));
    let (state, action) = step(state, SchedulerEvent::Tick);
    assert!(matches!(state, SchedulerState::Claiming));
    assert!(matches!(action, SchedulerAction::Claim { limit: 20 }));
}

#[test]
fn scheduler_stops_when_the_channel_closes_and_stays_stopped() {
    let (state, _) = step(SchedulerState::Claiming, SchedulerEvent::Claimed(vec![msg(1), msg(2)]));
    let (state, action) = step(state, SchedulerEvent::ChannelClosed);
    assert!(matches!(state, SchedulerState::Stopped));
    assert!(matches!(action, SchedulerAction::Stop));
    let mut state = state;
    let events = vec![
        SchedulerEvent::Tick,
        SchedulerEvent::Pushed,
        SchedulerEvent::Claimed(vec![msg(9)]),
        SchedulerEvent::ClaimFailed,
        SchedulerEvent::ChannelClosed,
    ];
    for event in events {
        let next = step(state, event);
        assert!(matches!(next.0, SchedulerState::Stopped));
        assert!(matches!(next.1, SchedulerAction::Stop));
        state = next.0;
    }
    for from in [SchedulerState::Idle, SchedulerState::Claiming] {
        let (state, action) = step(from, SchedulerEvent::ChannelClosed);
        assert!(matches!(state, SchedulerState::Stopped));
        assert!(matches!(action, SchedulerAction::Stop));
    }
}

#[test]
fn scheduler_repeats_its_action_on_an_unexpected_event() {
    let (state, action) = step(SchedulerState::Idle, SchedulerEvent::Pushed);
    assert!(matches!(state, SchedulerState::Idle));
    assert!(matches!(action, SchedulerAction::Sleep));
    let (state, action) = step(SchedulerState::Claiming, SchedulerEvent::Tick);
    assert!(matches!(state, SchedulerState::Claiming));
    assert!(matches!(action, SchedulerAction::Claim { limit: 20 }));
    let dispatching = SchedulerState::Dispatching { batch: vec![msg(1), msg(2)], next: 1 };
    let (state, action) = step(dispatching, SchedulerEvent::Tick);
    match (state, action) {
        (SchedulerState::Dispatching { batch, next }, SchedulerAction::Push(m)) => {
            assert_eq!(batch.len(), 2);
            assert_eq!(next, 1);
            assert_eq!(m.id, 2);
        }
        other => panic!("unexpected {:?}", other),
    }
    let stale = SchedulerState::Dispatching { batch: vec![msg(1)], next: 4 };
    let (state, action) = step(stale, SchedulerEvent::Pushed);
    assert!(matches!(state, SchedulerState::Idle));
    assert!(matches!(action, SchedulerAction::Sleep));
}
