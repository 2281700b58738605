//! What the claim protocol guarantees, whatever the order of operations.

use crate::message::{DbMessageView, MessageRecordView, MessageStatus};
use crate::store::{
    after_claim, after_insert, after_release, after_update, all_newer, claimable, claimable_at,
    claimable_before, claimed_batch, claimed_rows, eligible, first_n, holds_terminal,
    is_recent_listing, newer, picked, record_of, stored, update_error, well_formed, Row,
    StoreView,
};
use crate::time::Timestamp;
use vstd::prelude::*;

verus! {

/// One claim: up to `limit` messages that are ready at `now`.
pub struct ClaimRequest {
    pub limit: nat,
    pub now: int,
}

/// One operation on a store.
pub enum StoreOp {
    Insert {
        provider: Seq<char>,
        text: Seq<char>,
        scheduled_at: Option<Timestamp>,
        created_at: Timestamp,
    },
    Claim { limit: nat, now: int },
    Update { id: int, status: MessageStatus, retry_count: int, next_retry_at: Option<Timestamp> },
    Release { id: int },
}

/// The store after one operation. An operation that the store refuses
/// leaves it as it is.
pub open spec fn apply(s: StoreView, op: StoreOp) -> StoreView {
    match op {
        StoreOp::Insert { provider, text, scheduled_at, created_at } => if s.next_id < i32::MAX {
            after_insert(s, provider, text, scheduled_at, created_at)
        } else {
            s
        },
        StoreOp::Claim { limit, now } => after_claim(s, limit, now),
        StoreOp::Update { id, status, retry_count, next_retry_at } => if update_error(
            s,
            id,
            retry_count,
        ) is None {
            after_update(s, id, status, retry_count, next_retry_at)
        } else {
            s
        },
        StoreOp::Release { id } => after_release(s, id),
    }
}

/// The store after the first `n` of the operations `ops`.
pub open spec fn after_ops(s: StoreView, ops: Seq<StoreOp>, n: nat) -> StoreView
    decreases n,
{
    if n == 0 {
        s
    } else {
        apply(after_ops(s, ops, (n - 1) as nat), ops[n - 1])
    }
}

/// The store after the first `n` of the claims `requests`, with nothing
/// else done to it in between.
pub open spec fn after_claims(s: StoreView, requests: Seq<ClaimRequest>, n: nat) -> StoreView
    decreases n,
{
    if n == 0 {
        s
    } else {
        after_claim(
            after_claims(s, requests, (n - 1) as nat),
            requests[n - 1].limit,
            requests[n - 1].now,
        )
    }
}

/// The batch that the claim number `k` (from zero) of such a run returns.
pub open spec fn batch_of_claim(s: StoreView, requests: Seq<ClaimRequest>, k: nat) -> Seq<
    DbMessageView,
> {
    claimed_batch(after_claims(s, requests, k), requests[k as int].limit, requests[k as int].now)
}

/// The item number `k` among the rows that satisfy `pred` is a row of the
/// sequence, with exactly `k` such rows before it.
proof fn lemma_filter_index(rows: Seq<Row>, pred: spec_fn(Row) -> bool, k: int) -> (i: int)
    requires
        0 <= k < rows.filter(pred).len(),
    ensures
        0 <= i < rows.len(),
        pred(rows[i]),
        rows.take(i).filter(pred).len() == k,
        rows.filter(pred)[k] == rows[i],
    decreases rows.len(),
{
    reveal(Seq::filter);
    let front = rows.drop_last();
    if k < front.filter(pred).len() {
        let i = lemma_filter_index(front, pred, k);
        assert(front.take(i) =~= rows.take(i));
        i
    } else {
        let i = rows.len() - 1;
        assert(rows.take(i) =~= front);
        i
    }
}

/// Each message of a batch is the message of a row that the claim picked,
/// and it stands in the batch at the number of claimable rows before it.
proof fn lemma_batch_item(s: StoreView, limit: nat, now: int, k: int) -> (i: int)
    requires
        0 <= k < claimed_batch(s, limit, now).len(),
    ensures
        picked(s, limit, now, i),
        claimable_before(s, now, i) == k,
        claimed_batch(s, limit, now)[k] == s.rows[i].msg,
{
    let ready = s.rows.filter(claimable_at(now));
    assert(claimed_rows(s, limit, now).len() == claimed_batch(s, limit, now).len());
    assert(first_n(ready, limit)[k] == ready[k]);
    lemma_filter_index(s.rows, claimable_at(now), k)
}

/// The number of claimable rows before an index does not shrink as the
/// index grows.
proof fn lemma_claimable_before_monotone(s: StoreView, now: int, i: int, j: int)
    requires
        0 <= i <= j <= s.rows.len(),
    ensures
        claimable_before(s, now, i) <= claimable_before(s, now, j),
{
    assert(s.rows.take(j).take(i) =~= s.rows.take(i));
    s.rows.take(j).lemma_filter_take_len(claimable_at(now), i);
}

/// True when `b` is the row `a` at a later time: identifier, provider,
/// text and instant of creation are the same.
pub open spec fn same_message(a: Row, b: Row) -> bool {
    &&& a.msg.id == b.msg.id
    &&& a.msg.provider == b.msg.provider
    &&& a.msg.text == b.msg.text
    &&& a.created_at == b.created_at
}

/// Any operation keeps a well-formed store well formed, keeps the rows it
/// had at their places with what identifies them, and changes nothing of a
/// terminal message.
proof fn lemma_apply(s: StoreView, op: StoreOp)
    requires
        well_formed(s),
    ensures
        well_formed(apply(s, op)),
        apply(s, op).rows.len() >= s.rows.len(),
        forall|i: int|
            0 <= i < s.rows.len() ==> same_message(s.rows[i], #[trigger] apply(s, op).rows[i]),
        forall|i: int|
            0 <= i < s.rows.len() && s.rows[i].msg.status.terminal() ==> (#[trigger] apply(
                s,
                op,
            ).rows[i]).msg == s.rows[i].msg,
{
    match op {
        StoreOp::Update { id, status, retry_count, next_retry_at } => {
            if update_error(s, id, retry_count) is None {
                assert forall|i: int|
                    0 <= i < s.rows.len() && s.rows[i].msg.status.terminal() implies (
                #[trigger] apply(s, op).rows[i]).msg == s.rows[i].msg by {
                    if s.rows[i].msg.id == id {
                        assert(holds_terminal(s, id));
                    }
                }
            }
        },
        _ => {},
    }
}

/// A run of claims keeps the rows at their places with their messages, and
/// never lifts a claim.
proof fn lemma_after_claims(s: StoreView, requests: Seq<ClaimRequest>, a: nat, b: nat)
    requires
        a <= b <= requests.len(),
    ensures
        after_claims(s, requests, b).rows.len() == s.rows.len(),
        after_claims(s, requests, a).rows.len() == s.rows.len(),
        forall|i: int|
            0 <= i < s.rows.len() ==> (#[trigger] after_claims(s, requests, b).rows[i]).msg
                == s.rows[i].msg,
        forall|i: int|
            0 <= i < s.rows.len() && after_claims(s, requests, a).rows[i].claimed ==> (
            #[trigger] after_claims(s, requests, b).rows[i]).claimed,
    decreases b,
{
    if b == 0 {
    } else if a == b {
        lemma_after_claims(s, requests, (b - 1) as nat, (b - 1) as nat);
    } else {
        lemma_after_claims(s, requests, a, (b - 1) as nat);
    }
}

/// No double claim: in a run of claims on one store, with no outcome written
/// and no claim released in between, no message is returned twice, neither
/// by two of the claims nor twice by one. Requests may overlap in any way in
/// what they ask for. The messages of one batch come in the order of their
/// identifiers.
pub proof fn law_no_double_claim(
    s: StoreView,
    requests: Seq<ClaimRequest>,
    a: nat,
    b: nat,
    i: int,
    j: int,
)
    requires
        well_formed(s),
        a <= b < requests.len(),
        0 <= i < batch_of_claim(s, requests, a).len(),
        0 <= j < batch_of_claim(s, requests, b).len(),
        a < b || i < j,
    ensures
        batch_of_claim(s, requests, a)[i].id != batch_of_claim(s, requests, b)[j].id,
        a == b ==> batch_of_claim(s, requests, a)[i].id < batch_of_claim(s, requests, b)[j].id,
{
    let sa = after_claims(s, requests, a);
    let sb = after_claims(s, requests, b);
    lemma_after_claims(s, requests, a, b);
    lemma_after_claims(s, requests, a, a);
    let p = lemma_batch_item(sa, requests[a as int].limit, requests[a as int].now, i);
    let q = lemma_batch_item(sb, requests[b as int].limit, requests[b as int].now, j);
    assert(sa.rows[p].msg == s.rows[p].msg);
    assert(sb.rows[q].msg == s.rows[q].msg);
    if a < b {
        lemma_after_claims(s, requests, a + 1, b);
        assert(after_claims(s, requests, a + 1).rows[p].claimed);
        assert(sb.rows[p].claimed);
        assert(p != q);
    } else {
        if q <= p {
            lemma_claimable_before_monotone(sa, requests[a as int].now, q, p);
        }
        assert(p < q);
    }
}

/// What a claim returns was eligible when it was claimed, and held by no
/// other claim.
pub proof fn law_claim_returns_ready(s: StoreView, limit: nat, now: int, k: int)
    requires
        0 <= k < claimed_batch(s, limit, now).len(),
    ensures
        claimed_batch(s, limit, now).len() <= limit,
        eligible(claimed_batch(s, limit, now)[k], now),
        exists|i: int|
            0 <= i < s.rows.len() && !(#[trigger] s.rows[i]).claimed && s.rows[i].msg
                == claimed_batch(s, limit, now)[k],
{
    let i = lemma_batch_item(s, limit, now, k);
    assert(claimed_rows(s, limit, now).len() == claimed_batch(s, limit, now).len());
}

/// Records persist: whatever is done to a store, it stays well formed, and
/// every message stays where it is, with its identifier, provider, text and
/// instant of creation. Nothing is ever deleted.
pub proof fn law_records_persist(s: StoreView, ops: Seq<StoreOp>, n: nat, i: int)
    requires
        well_formed(s),
        n <= ops.len(),
        0 <= i < s.rows.len(),
    ensures
        well_formed(after_ops(s, ops, n)),
        i < after_ops(s, ops, n).rows.len(),
        same_message(s.rows[i], after_ops(s, ops, n).rows[i]),
    decreases n,
{
    if n > 0 {
        law_records_persist(s, ops, (n - 1) as nat, i);
        lemma_apply(after_ops(s, ops, (n - 1) as nat), ops[n - 1]);
    }
}

/// Terminality: once a message is `Done` or `Failed`, nothing that is done
/// to the store changes its status, its retry count or anything else of it,
/// and no claim returns it again.
pub proof fn law_terminal_is_final(
    s: StoreView,
    ops: Seq<StoreOp>,
    n: nat,
    i: int,
    limit: nat,
    now: int,
    k: int,
)
    requires
        well_formed(s),
        n <= ops.len(),
        0 <= i < s.rows.len(),
        s.rows[i].msg.status.terminal(),
    ensures
        well_formed(after_ops(s, ops, n)),
        i < after_ops(s, ops, n).rows.len(),
        after_ops(s, ops, n).rows[i].msg == s.rows[i].msg,
        0 <= k < claimed_batch(after_ops(s, ops, n), limit, now).len() ==> claimed_batch(
            after_ops(s, ops, n),
            limit,
            now,
        )[k].id != s.rows[i].msg.id,
    decreases n,
{
    if n > 0 {
        law_terminal_is_final(s, ops, (n - 1) as nat, i, limit, now, k);
        lemma_apply(after_ops(s, ops, (n - 1) as nat), ops[n - 1]);
    }
    let t = after_ops(s, ops, n);
    if 0 <= k < claimed_batch(t, limit, now).len() {
        let q = lemma_batch_item(t, limit, now, k);
        assert(q != i);
    }
}

/// Two listings of one store with one limit agree up to the item `k`.
proof fn lemma_same_item(
    s: StoreView,
    limit: nat,
    x: Seq<MessageRecordView>,
    y: Seq<MessageRecordView>,
    k: int,
)
    requires
        well_formed(s),
        is_recent_listing(s, limit, x),
        is_recent_listing(s, limit, y),
        0 <= k < x.len(),
    ensures
        x[k] == y[k],
    decreases k,
{
    assert forall|m: int| 0 <= m < k implies x[m] == y[m] by {
        lemma_same_item(s, limit, x, y, m);
    }
    assert(stored(s, x[k]));
    assert(stored(s, y[k]));
    let i = choose|i: int| 0 <= i < s.rows.len() && record_of(#[trigger] s.rows[i]) == x[k];
    let j = choose|j: int| 0 <= j < s.rows.len() && record_of(#[trigger] s.rows[j]) == y[k];
    if i != j {
        assert(s.rows[i].msg.id != s.rows[j].msg.id);
        if newer(x[k], y[k]) {
            if y.contains(record_of(s.rows[i])) {
                let m = choose|m: int| 0 <= m < y.len() && y[m] == record_of(s.rows[i]);
                if m < k {
                    assert(newer(x[m], x[k]));
                } else if m > k {
                    assert(newer(y[k], y[m]));
                }
            } else {
                assert(all_newer(y, record_of(s.rows[i])));
                assert(newer(y[k], x[k]));
            }
        } else {
            assert(newer(y[k], x[k]));
            if x.contains(record_of(s.rows[j])) {
                let m = choose|m: int| 0 <= m < x.len() && x[m] == record_of(s.rows[j]);
                if m < k {
                    assert(newer(y[m], y[k]));
                } else if m > k {
                    assert(newer(x[k], x[m]));
                }
            } else {
                assert(all_newer(x, record_of(s.rows[j])));
                assert(newer(x[k], y[k]));
            }
        }
    }
}

/// The history is determined by the store and the limit: there is one
/// listing of the most recent messages and no other.
pub proof fn law_listing_is_unique(
    s: StoreView,
    limit: nat,
    x: Seq<MessageRecordView>,
    y: Seq<MessageRecordView>,
)
    requires
        well_formed(s),
        is_recent_listing(s, limit, x),
        is_recent_listing(s, limit, y),
    ensures
        x == y,
{
    assert forall|k: int| 0 <= k < x.len() implies x[k] == y[k] by {
        lemma_same_item(s, limit, x, y, k);
    }
    assert(x =~= y);
}

} // verus!
