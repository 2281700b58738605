//! The scheduler: the decisions of the loop that polls the store and feeds
//! the work channel. The loop itself belongs to the application, which
//! performs each action and reports back what happened.

use crate::message::{message_views, DbMessage, DbMessageView};
use crate::worker::BATCH_LIMIT;
use vstd::prelude::*;

verus! {

/// Where the scheduler stands.
#[derive(Debug)]
pub enum SchedulerState {
    /// Waiting for the poll interval to pass.
    Idle,
    /// Waiting for the store to answer a claim.
    Claiming,
    /// Pushing the messages of a batch onto the work channel; `next` is the
    /// index of the message that is being pushed.
    Dispatching { batch: Vec<DbMessage>, next: usize },
    /// The work channel is closed; the scheduler has ended.
    Stopped,
}

/// What happened since the last action.
#[derive(Debug)]
pub enum SchedulerEvent {
    /// The poll interval has passed.
    Tick,
    /// The store answered the claim with these messages.
    Claimed(Vec<DbMessage>),
    /// The store could not be asked.
    ClaimFailed,
    /// The work channel took the message.
    Pushed,
    /// The work channel is closed.
    ChannelClosed,
}

/// What the application is to do next.
#[derive(Debug)]
pub enum SchedulerAction {
    /// Claim up to `limit` ready messages from the store.
    Claim { limit: usize },
    /// Push this message onto the work channel.
    Push(DbMessage),
    /// Wait for one poll interval.
    Sleep,
    /// End the loop.
    Stop,
}

/// The mathematical content of a [`SchedulerState`].
pub enum StateView {
    Idle,
    Claiming,
    Dispatching { batch: Seq<DbMessageView>, next: int },
    Stopped,
}

/// The mathematical content of a [`SchedulerEvent`].
pub enum EventView {
    Tick,
    Claimed(Seq<DbMessageView>),
    ClaimFailed,
    Pushed,
    ChannelClosed,
}

/// The mathematical content of a [`SchedulerAction`].
pub enum ActionView {
    Claim { limit: int },
    Push(DbMessageView),
    Sleep,
    Stop,
}

impl View for SchedulerState {
    type V = StateView;

    open spec fn view(&self) -> StateView {
        match self {
            SchedulerState::Idle => StateView::Idle,
            SchedulerState::Claiming => StateView::Claiming,
            SchedulerState::Dispatching { batch, next } => StateView::Dispatching {
                batch: message_views(batch@),
                next: *next as int,
            },
            SchedulerState::Stopped => StateView::Stopped,
        }
    }
}

impl View for SchedulerEvent {
    type V = EventView;

    open spec fn view(&self) -> EventView {
        match self {
            SchedulerEvent::Tick => EventView::Tick,
            SchedulerEvent::Claimed(batch) => EventView::Claimed(message_views(batch@)),
            SchedulerEvent::ClaimFailed => EventView::ClaimFailed,
            SchedulerEvent::Pushed => EventView::Pushed,
            SchedulerEvent::ChannelClosed => EventView::ChannelClosed,
        }
    }
}

impl View for SchedulerAction {
    type V = ActionView;

    open spec fn view(&self) -> ActionView {
        match self {
            SchedulerAction::Claim { limit } => ActionView::Claim { limit: *limit as int },
            SchedulerAction::Push(msg) => ActionView::Push(msg@),
            SchedulerAction::Sleep => ActionView::Sleep,
            SchedulerAction::Stop => ActionView::Stop,
        }
    }
}

/// The state in which the message at `next` of `batch` is pushed, or the
/// idle state where the batch has no such message.
pub open spec fn dispatch(batch: Seq<DbMessageView>, next: int) -> (StateView, ActionView) {
    if 0 <= next < batch.len() {
        (StateView::Dispatching { batch, next }, ActionView::Push(batch[next]))
    } else {
        (StateView::Idle, ActionView::Sleep)
    }
}

/// The scheduler's transition: the state after `event` and the action to
/// perform then.
///
/// A closed work channel ends the scheduler for good. Otherwise a tick
/// starts a claim; the batch that the store answers with is pushed message
/// by message, in order, and then the scheduler sleeps; a claim that failed
/// is tried again after the same sleep. An event that the state does not
/// wait for changes nothing: the action of the state is asked for again.
pub open spec fn next_step(state: StateView, event: EventView) -> (StateView, ActionView) {
    if state is Stopped || event is ChannelClosed {
        (StateView::Stopped, ActionView::Stop)
    } else {
        match state {
            StateView::Idle => if event is Tick {
                (StateView::Claiming, ActionView::Claim { limit: BATCH_LIMIT as int })
            } else {
                (StateView::Idle, ActionView::Sleep)
            },
            StateView::Claiming => match event {
                EventView::Claimed(batch) => dispatch(batch, 0),
                EventView::ClaimFailed => (StateView::Idle, ActionView::Sleep),
                _ => (StateView::Claiming, ActionView::Claim { limit: BATCH_LIMIT as int }),
            },
            StateView::Dispatching { batch, next } => if event is Pushed {
                dispatch(batch, next + 1)
            } else {
                dispatch(batch, next)
            },
            StateView::Stopped => (StateView::Stopped, ActionView::Stop),
        }
    }
}

/// How the scheduler begins: with a claim, before any sleep.
pub fn start() -> (r: (SchedulerState, SchedulerAction))
    ensures
        r.0@ == StateView::Claiming,
        r.1@ == (ActionView::Claim { limit: BATCH_LIMIT as int }),
{
    (SchedulerState::Claiming, SchedulerAction::Claim { limit: BATCH_LIMIT })
}

fn dispatch_from(batch: Vec<DbMessage>, next: usize) -> (r: (SchedulerState, SchedulerAction))
    ensures
        (r.0@, r.1@) == dispatch(message_views(batch@), next as int),
{
    if next < batch.len() {
        let msg = batch[next].clone();
        (SchedulerState::Dispatching { batch, next }, SchedulerAction::Push(msg))
    } else {
        (SchedulerState::Idle, SchedulerAction::Sleep)
    }
}

/// Takes one step of the scheduler.
pub fn step(state: SchedulerState, event: SchedulerEvent) -> (r: (SchedulerState, SchedulerAction))
    ensures
        (r.0@, r.1@) == next_step(state@, event@),
{
    match (state, event) {
        (SchedulerState::Stopped, _) => (SchedulerState::Stopped, SchedulerAction::Stop),
        (_, SchedulerEvent::ChannelClosed) => (SchedulerState::Stopped, SchedulerAction::Stop),
        (SchedulerState::Idle, SchedulerEvent::Tick) => (
            SchedulerState::Claiming,
            SchedulerAction::Claim { limit: BATCH_LIMIT },
        ),
        (SchedulerState::Idle, _) => (SchedulerState::Idle, SchedulerAction::Sleep),
        (SchedulerState::Claiming, SchedulerEvent::Claimed(batch)) => dispatch_from(batch, 0),
        (SchedulerState::Claiming, SchedulerEvent::ClaimFailed) => (
            SchedulerState::Idle,
            SchedulerAction::Sleep,
        ),
        (SchedulerState::Claiming, _) => (
            SchedulerState::Claiming,
            SchedulerAction::Claim { limit: BATCH_LIMIT },
        ),
        (SchedulerState::Dispatching { batch, next }, SchedulerEvent::Pushed) => {
            if next < batch.len() {
                dispatch_from(batch, next + 1)
            } else {
                (SchedulerState::Idle, SchedulerAction::Sleep)
            }
        },
        (SchedulerState::Dispatching { batch, next }, _) => dispatch_from(batch, next),
    }
}

/// The state and action after the store answered a claim with `batch` and
/// the work channel then took `pushed` messages.
pub open spec fn after_pushes(batch: Seq<DbMessageView>, pushed: nat) -> (StateView, ActionView)
    decreases pushed,
{
    if pushed == 0 {
        next_step(StateView::Claiming, EventView::Claimed(batch))
    } else {
        next_step(after_pushes(batch, (pushed - 1) as nat).0, EventView::Pushed)
    }
}

/// Every claimed message is handed to the workers once and in the order of
/// the batch: after `pushed` messages were taken by the work channel the
/// scheduler pushes the message number `pushed`, and when the whole batch is
/// taken it sleeps until the next poll.
pub proof fn law_dispatch_in_order(batch: Seq<DbMessageView>, pushed: nat)
    requires
        pushed <= batch.len(),
    ensures
        after_pushes(batch, pushed) == dispatch(batch, pushed as int),
        pushed < batch.len() ==> after_pushes(batch, pushed).1 == ActionView::Push(
            batch[pushed as int],
        ),
        pushed == batch.len() ==> after_pushes(batch, pushed) == (
            StateView::Idle,
            ActionView::Sleep,
        ),
    decreases pushed,
{
    if pushed > 0 {
        law_dispatch_in_order(batch, (pushed - 1) as nat);
    }
}

/// Shutdown is final: once the work channel is closed the scheduler asks
/// for nothing but to stop, whatever happens afterwards.
pub proof fn law_stop_is_final(state: StateView, events: Seq<EventView>, n: nat)
    requires
        n < events.len(),
        events[0] is ChannelClosed,
    ensures
        after_events(state, events, n) == (StateView::Stopped, ActionView::Stop),
    decreases n,
{
    if n > 0 {
        law_stop_is_final(state, events, (n - 1) as nat);
    }
}

/// The state and action after the events `events[0]`, ..., `events[n]`,
/// starting in `state`.
pub open spec fn after_events(state: StateView, events: Seq<EventView>, n: nat) -> (
    StateView,
    ActionView,
)
    decreases n,
{
    if n == 0 {
        next_step(state, events[0])
    } else {
        next_step(after_events(state, events, (n - 1) as nat).0, events[n as int])
    }
}

} // verus!
