//! The worker pool: one scheduling round from claim to published outcomes.

use crate::message::{message_views, DbMessageView};
use crate::retry::{SendOutcome, MAX_RETRIES};
use crate::store::{after_claim, claimed_batch, MessageStore, StoreView};
use crate::time::Timestamp;
use crate::worker::{after_attempt, deliver, reports, Delivery, Provider, BATCH_LIMIT};
use vstd::prelude::*;

verus! {

/// What one scheduling round did.
#[derive(Debug)]
pub struct PoolReport {
    /// The instant at which the batch was claimed.
    pub claimed_at: Timestamp,
    /// One report for each message of the batch, in the order of the batch.
    pub deliveries: Vec<Delivery>,
    /// For each worker, the number of messages that it delivered.
    pub completed: Vec<usize>,
}

/// The store after the attempts `deliveries` were made, one after the
/// other, on the first messages of `batch`.
pub open spec fn after_deliveries(
    s: StoreView,
    batch: Seq<DbMessageView>,
    deliveries: Seq<Delivery>,
) -> StoreView
    decreases deliveries.len(),
{
    if deliveries.len() == 0 {
        s
    } else {
        after_attempt(
            after_deliveries(s, batch, deliveries.drop_last()),
            batch[deliveries.len() - 1],
            deliveries.last().outcome,
            MAX_RETRIES as int,
            deliveries.last().at,
        )
    }
}

/// The worker that handles the message number `k` of a batch, in a pool of
/// `workers` workers: the messages are dealt out in turn.
pub open spec fn worker_of(k: int, workers: int) -> int {
    k % workers
}

/// The number of messages among `deliveries` that the worker `worker`
/// delivered.
pub open spec fn completed_by(deliveries: Seq<Delivery>, workers: int, worker: int) -> nat
    decreases deliveries.len(),
{
    if deliveries.len() == 0 {
        0
    } else {
        let earlier = completed_by(deliveries.drop_last(), workers, worker);
        if worker_of(deliveries.len() - 1, workers) == worker && deliveries.last().outcome
            == SendOutcome::Success {
            earlier + 1
        } else {
            earlier
        }
    }
}

/// True when `report` tells of one round of a pool of `workers` workers
/// that led from the store `before` to the store `after`: a batch of up to
/// [`BATCH_LIMIT`] messages was claimed at `report.claimed_at`, each of its
/// messages was attempted once, in order, with up to [`MAX_RETRIES`] retries
/// allowed, and each worker counted what it delivered.
pub open spec fn is_round(
    before: StoreView,
    after: StoreView,
    report: PoolReport,
    workers: int,
) -> bool {
    let batch = claimed_batch(before, BATCH_LIMIT as nat, report.claimed_at@);
    let claimed = after_claim(before, BATCH_LIMIT as nat, report.claimed_at@);
    &&& report.deliveries@.len() == batch.len()
    &&& forall|k: int|
        0 <= k < batch.len() ==> reports(
            #[trigger] report.deliveries@[k],
            after_deliveries(claimed, batch, report.deliveries@.take(k)),
            batch[k],
            MAX_RETRIES as int,
        )
    &&& after == after_deliveries(claimed, batch, report.deliveries@)
    &&& report.completed@.len() == workers
    &&& forall|w: int|
        0 <= w < workers ==> #[trigger] report.completed@[w] == completed_by(
            report.deliveries@,
            workers,
            w,
        )
}

fn zeros(n: usize) -> (v: Vec<usize>)
    ensures
        v@.len() == n,
        forall|i: int| 0 <= i < n ==> v@[i] == 0,
{
    let mut v: Vec<usize> = Vec::new();
    while v.len() < n
        invariant
            v@.len() <= n,
            forall|i: int| 0 <= i < v@.len() ==> v@[i] == 0,
        decreases n - v@.len(),
    {
        v.push(0);
    }
    v
}

/// Runs one round of a pool of `max_workers` workers on the store: claims
/// the messages that are ready now, up to [`BATCH_LIMIT`], deals them out to
/// the workers in turn, and has each delivered through `provider`, settled
/// in the store and published on `tx`. A pool without workers claims
/// nothing and leaves the store as it is.
pub fn dynamic_worker_pool<P: Provider>(
    store: &mut MessageStore,
    provider: &P,
    max_workers: usize,
    tx: &tokio::sync::broadcast::Sender<String>,
) -> (report: PoolReport)
    requires
        old(store).wf(),
    ensures
        final(store).wf(),
        max_workers == 0 ==> final(store)@ == old(store)@ && report.deliveries@.len() == 0
            && report.completed@.len() == 0,
        max_workers > 0 ==> is_round(old(store)@, final(store)@, report, max_workers as int),
{
    let claimed_at = Timestamp::now();
    if max_workers == 0 {
        return PoolReport { claimed_at, deliveries: Vec::new(), completed: Vec::new() };
    }
    let ghost before = store@;
    let batch = store.claim_batch(BATCH_LIMIT, claimed_at);
    let ghost claimed = store@;
    let ghost wanted = message_views(batch@);
    let mut completed = zeros(max_workers);
    let mut deliveries: Vec<Delivery> = Vec::new();
    let mut k: usize = 0;
    while k < batch.len()
        invariant
            k <= batch@.len(),
            max_workers > 0,
            store.wf(),
            wanted == message_views(batch@),
            deliveries@.len() == k,
            store@ == after_deliveries(claimed, wanted, deliveries@),
            forall|j: int|
                0 <= j < k ==> reports(
                    #[trigger] deliveries@[j],
                    after_deliveries(claimed, wanted, deliveries@.take(j)),
                    wanted[j],
                    MAX_RETRIES as int,
                ),
            completed@.len() == max_workers,
            forall|w: int|
                0 <= w < max_workers ==> #[trigger] completed@[w] == completed_by(
                    deliveries@,
                    max_workers as int,
                    w,
                ) && completed@[w] <= k,
        decreases batch@.len() - k,
    {
        let ghost earlier = deliveries@;
        let delivery = deliver(provider, store, tx, &batch[k], MAX_RETRIES);
        let worker = k % max_workers;
        match delivery.outcome {
            SendOutcome::Success => {
                let count = completed[worker];
                completed.set(worker, count + 1);
            },
            SendOutcome::Failure => {},
        }
        deliveries.push(delivery);
        proof {
            assert(deliveries@.drop_last() =~= earlier);
            assert(deliveries@.take(k as int) =~= earlier);
            assert forall|j: int| 0 <= j < k + 1 implies reports(
                #[trigger] deliveries@[j],
                after_deliveries(claimed, wanted, deliveries@.take(j)),
                wanted[j],
                MAX_RETRIES as int,
            ) by {
                if j < k {
                    assert(deliveries@.take(j) =~= earlier.take(j));
                    assert(deliveries@[j] == earlier[j]);
                }
            }
        }
        k = k + 1;
    }
    proof {
        assert(deliveries@.take(deliveries@.len() as int) =~= deliveries@);
    }
    PoolReport { claimed_at, deliveries, completed }
}

} // verus!
