//! Delivery: the provider interface and what a worker does with a claimed
//! message.

use crate::broadcast::publish;
use crate::events::{event_line, event_text};
use crate::message::{DbMessage, DbMessageView, Message, MessageStatus};
use crate::retry::{
    backoff_secs, decidable, decide_spec, exhausts, lemma_backoff_fits, try_decide, Decision,
    SendOutcome,
};
use crate::store::{
    after_release, after_update, claimable, update_error, well_formed, MessageStore, StoreView,
};
use crate::time::Timestamp;
use vstd::prelude::*;
use vstd::string::StringExecFns;

verus! {

/// The number of messages that one scheduling round claims at most.
pub const BATCH_LIMIT: usize = 20;

/// A transport that delivers one message at a time. Implementations are
/// supplied by the application; whether a delivery succeeds is theirs to
/// say, and the queue works with either answer.
pub trait Provider {
    fn send(&self, msg: &Message) -> Result<(), String>;
}

/// A provider that delivers nothing and reports every message as sent.
#[derive(Clone, Copy, Debug)]
pub struct MockProvider;

impl MockProvider {
    /// The line that describes a mock delivery of `msg`.
    pub fn describe(msg: &Message) -> (line: String)
        ensures
            line@ == "Mock send: provider="@ + msg@.provider + " text="@ + msg@.text,
    {
        let mut line = String::from_str("Mock send: provider=");
        line.append(msg.provider.as_str());
        line.append(" text=");
        line.append(msg.text.as_str());
        line
    }
}

impl Provider for MockProvider {
    fn send(&self, msg: &Message) -> (r: Result<(), String>)
        ensures
            r is Ok,
    {
        Ok(())
    }
}

/// What a worker persists and publishes after one attempt on a message.
#[derive(Debug)]
pub struct Settlement {
    pub id: i32,
    pub decision: Decision,
    /// The outcome line for the observers.
    pub line: String,
    /// True when the message was delivered: the attempt counts as completed.
    pub completed: bool,
}

/// True when `s` settles an attempt on `msg` that ended in `outcome` at
/// `now`: the decision is the retry engine's, the line reports it, and the
/// attempt counts as completed exactly when it succeeded.
pub open spec fn settles(
    s: Settlement,
    msg: DbMessageView,
    outcome: SendOutcome,
    max_retries: int,
    now: Timestamp,
) -> bool {
    &&& s.id == msg.id
    &&& s.decision@ == decide_spec(outcome, msg.retry_count, max_retries, now@)
    &&& s.line@ == event_text(msg.id, s.decision@)
    &&& s.completed == (outcome == SendOutcome::Success)
}

/// Settles one attempt on a claimed message, where the decision can be
/// computed in machine integers; `None` where it cannot.
pub fn try_settle(msg: &DbMessage, outcome: SendOutcome, max_retries: i32, now: Timestamp) -> (r:
    Option<Settlement>)
    ensures
        match r {
            Some(s) => decidable(outcome, msg@.retry_count, max_retries as int, now) && settles(
                s,
                msg@,
                outcome,
                max_retries as int,
                now,
            ),
            None => !decidable(outcome, msg@.retry_count, max_retries as int, now),
        },
{
    match try_decide(outcome, msg.retry_count, max_retries, now) {
        Some(decision) => {
            let line = event_line(msg.id, &decision);
            let completed = match outcome {
                SendOutcome::Success => true,
                SendOutcome::Failure => false,
            };
            Some(Settlement { id: msg.id, decision, line, completed })
        },
        None => None,
    }
}

/// One attempt on a message, as the worker reports it.
#[derive(Debug)]
pub struct Delivery {
    pub id: i32,
    pub outcome: SendOutcome,
    /// The instant at which the outcome was decided.
    pub at: Timestamp,
    /// What was written to the store and published; `None` where nothing
    /// was written and the claim on the message was released instead.
    pub settlement: Option<Settlement>,
}

/// True when the outcome of an attempt on `msg` can be written to the store
/// `s`: the decision can be computed and the store accepts it.
pub open spec fn persists(
    s: StoreView,
    msg: DbMessageView,
    outcome: SendOutcome,
    max_retries: int,
    at: Timestamp,
) -> bool {
    &&& decidable(outcome, msg.retry_count, max_retries, at)
    &&& update_error(
        s,
        msg.id,
        decide_spec(outcome, msg.retry_count, max_retries, at@).retry_count,
    ) is None
}

/// The store after an attempt on the claimed message `msg` ended in
/// `outcome` at `at`. Where the outcome can be written, the message has the
/// status, retry count and not-before instant that the retry engine decided.
/// Where it cannot, the message is as it was and only the claim on it has
/// ended, so that a later claim takes it again.
pub open spec fn after_attempt(
    s: StoreView,
    msg: DbMessageView,
    outcome: SendOutcome,
    max_retries: int,
    at: Timestamp,
) -> StoreView {
    if persists(s, msg, outcome, max_retries, at) {
        let d = decide_spec(outcome, msg.retry_count, max_retries, at@);
        after_update(
            s,
            msg.id,
            d.status,
            d.retry_count,
            match d.next_retry_at {
                Some(due) => Some(Timestamp { micros: due as i64 }),
                None => None,
            },
        )
    } else {
        after_release(s, msg.id)
    }
}

/// True when `delivery` reports an attempt on `msg`, made against the
/// store `s`, that ended in `delivery.outcome` at `delivery.at`.
pub open spec fn reports(
    delivery: Delivery,
    s: StoreView,
    msg: DbMessageView,
    max_retries: int,
) -> bool {
    &&& delivery.id == msg.id
    &&& match delivery.settlement {
        Some(settlement) => {
            &&& persists(s, msg, delivery.outcome, max_retries, delivery.at)
            &&& settles(settlement, msg, delivery.outcome, max_retries, delivery.at)
        },
        None => !persists(s, msg, delivery.outcome, max_retries, delivery.at),
    }
}

/// Applies the outcome of one attempt on the claimed message `msg`: decides
/// its next state, writes that to the store and ends the claim.
pub fn attempt(
    store: &mut MessageStore,
    msg: &DbMessage,
    outcome: SendOutcome,
    max_retries: i32,
    now: Timestamp,
) -> (delivery: Delivery)
    requires
        old(store).wf(),
    ensures
        final(store).wf(),
        delivery.outcome == outcome,
        delivery.at == now,
        reports(delivery, old(store)@, msg@, max_retries as int),
        final(store)@ == after_attempt(old(store)@, msg@, outcome, max_retries as int, now),
{
    let settled = match try_settle(msg, outcome, max_retries, now) {
        Some(settlement) => {
            match store.update_outcome(
                msg.id,
                settlement.decision.status,
                settlement.decision.retry_count,
                settlement.decision.next_retry_at,
            ) {
                Ok(()) => Some(settlement),
                Err(_) => None,
            }
        },
        None => None,
    };
    if settled.is_none() {
        store.release(msg.id);
    }
    Delivery { id: msg.id, outcome, at: now, settlement: settled }
}

/// Delivers one claimed message: sends it through the provider, reads the
/// clock, applies the outcome as [`attempt`] does, and publishes the outcome
/// line. The report names the outcome and the instant that were used.
pub fn deliver<P: Provider>(
    provider: &P,
    store: &mut MessageStore,
    tx: &tokio::sync::broadcast::Sender<String>,
    msg: &DbMessage,
    max_retries: i32,
) -> (delivery: Delivery)
    requires
        old(store).wf(),
    ensures
        final(store).wf(),
        reports(delivery, old(store)@, msg@, max_retries as int),
        final(store)@ == after_attempt(
            old(store)@,
            msg@,
            delivery.outcome,
            max_retries as int,
            delivery.at,
        ),
{
    let request = msg.to_request();
    let outcome = match provider.send(&request) {
        Ok(_) => SendOutcome::Success,
        Err(_) => SendOutcome::Failure,
    };
    let now = Timestamp::now();
    let delivery = attempt(store, msg, outcome, max_retries, now);
    match &delivery.settlement {
        Some(settlement) => {
            publish(tx, settlement.line.clone());
        },
        None => {},
    }
    delivery
}

/// A failed attempt below the retry cap puts the message back into the
/// queue: it is `Retrying` with one more retry counted, no claim holds it,
/// and a claim can take it again exactly from the instant `2^k` seconds
/// after the attempt, where `k` is the new retry count.
pub proof fn law_retry_reenters_queue(
    s: StoreView,
    i: int,
    max_retries: int,
    at: Timestamp,
    later: int,
)
    requires
        well_formed(s),
        0 <= i < s.rows.len(),
        !exhausts(s.rows[i].msg.retry_count, max_retries),
        persists(s, s.rows[i].msg, SendOutcome::Failure, max_retries, at),
    ensures
        ({
            let after = after_attempt(s, s.rows[i].msg, SendOutcome::Failure, max_retries, at);
            let attempt = s.rows[i].msg.retry_count + 1;
            &&& after.rows[i].msg.status == MessageStatus::Retrying
            &&& after.rows[i].msg.retry_count == attempt
            &&& claimable(after.rows[i], later) <==> later >= at@ + backoff_secs(attempt as nat)
                * 1_000_000
        }),
{
    lemma_backoff_fits((s.rows[i].msg.retry_count + 1) as nat);
}

/// An attempt that ends a message, by success or by the last failure that
/// the retry budget allows, takes it out of the queue: no claim at any
/// instant can take it.
pub proof fn law_final_attempt_leaves_queue(
    s: StoreView,
    i: int,
    outcome: SendOutcome,
    max_retries: int,
    at: Timestamp,
    later: int,
)
    requires
        well_formed(s),
        0 <= i < s.rows.len(),
        outcome == SendOutcome::Success || exhausts(s.rows[i].msg.retry_count, max_retries),
        persists(s, s.rows[i].msg, outcome, max_retries, at),
    ensures
        ({
            let after = after_attempt(s, s.rows[i].msg, outcome, max_retries, at);
            &&& after.rows[i].msg.status == if outcome == SendOutcome::Success {
                MessageStatus::Done
            } else {
                MessageStatus::Failed
            }
            &&& !claimable(after.rows[i], later)
        }),
{
}

} // verus!
