//! The message store and its claim protocol.
//!
//! The store is the single source of truth of the queue. It hands out ready
//! messages in batches under a lock-and-skip discipline: a message that one
//! claim returned carries a claim mark and is skipped by every later claim
//! until its outcome is written or the mark is released.

use crate::message::{
    message_views, record_views, DbMessage, DbMessageView, MessageRecord, MessageRecordView,
    MessageStatus,
};
use crate::time::Timestamp;
use vstd::prelude::*;
use vstd::set_lib::{lemma_int_range, lemma_len_subset, set_int_range};

verus! {

/// Why the store refused an operation.
#[derive(Clone, Copy, Debug, PartialEq, Eq, Structural)]
pub enum StoreError {
    /// No identifier is left for a new message.
    IdsExhausted,
    /// No message has the given identifier.
    NotFound,
    /// The message is `Done` or `Failed` and is never changed again.
    Terminal,
    /// A retry count below zero was given.
    InvalidRetryCount,
}

/// One stored message, as contracts speak of it.
pub struct Row {
    pub msg: DbMessageView,
    pub created_at: Timestamp,
    /// Set while a claim holds the message.
    pub claimed: bool,
}

/// The content of a store: its rows in the order of their identifiers, and
/// the identifier that the next insert assigns.
pub struct StoreView {
    pub rows: Seq<Row>,
    pub next_id: int,
}

/// The invariant of a store: identifiers are positive, strictly increasing
/// along the rows and below `next_id`, and no retry count is negative.
pub open spec fn well_formed(s: StoreView) -> bool {
    &&& 1 <= s.next_id <= i32::MAX
    &&& forall|i: int| 0 <= i < s.rows.len() ==> 1 <= (#[trigger] s.rows[i]).msg.id < s.next_id
    &&& forall|i: int, j: int|
        0 <= i < j < s.rows.len() ==> (#[trigger] s.rows[i]).msg.id < (#[trigger] s.rows[j]).msg.id
    &&& forall|i: int| 0 <= i < s.rows.len() ==> (#[trigger] s.rows[i]).msg.retry_count >= 0
}

/// The selection predicate of the claim protocol: the message is `Pending`
/// or `Retrying`, and its not-before instant, if it has one, has passed.
pub open spec fn eligible(msg: DbMessageView, now: int) -> bool {
    &&& !msg.status.terminal()
    &&& match msg.next_retry_at {
        Some(at) => at@ <= now,
        None => true,
    }
}

/// A row that a claim at `now` may take: eligible and held by no claim.
pub open spec fn claimable(row: Row, now: int) -> bool {
    !row.claimed && eligible(row.msg, now)
}

/// [`claimable`] at a fixed instant, as a predicate on rows.
pub open spec fn claimable_at(now: int) -> spec_fn(Row) -> bool {
    |row: Row| claimable(row, now)
}

/// The first `n` items of `s`, or all of them where there are fewer.
pub open spec fn first_n<A>(s: Seq<A>, n: nat) -> Seq<A> {
    if s.len() <= n {
        s
    } else {
        s.take(n as int)
    }
}

/// The number of rows before index `i` that a claim at `now` may take.
pub open spec fn claimable_before(s: StoreView, now: int, i: int) -> nat {
    s.rows.take(i).filter(claimable_at(now)).len()
}

/// True when a claim of up to `limit` messages at `now` takes the row at
/// index `i`: the row is claimable and fewer than `limit` claimable rows
/// precede it.
pub open spec fn picked(s: StoreView, limit: nat, now: int, i: int) -> bool {
    &&& 0 <= i < s.rows.len()
    &&& claimable(s.rows[i], now)
    &&& claimable_before(s, now, i) < limit
}

/// The rows that a claim of up to `limit` messages at `now` takes: the
/// first `limit` claimable rows, in the order of their identifiers.
pub open spec fn claimed_rows(s: StoreView, limit: nat, now: int) -> Seq<Row> {
    first_n(s.rows.filter(claimable_at(now)), limit)
}

/// The messages that the rows hold, row by row.
pub open spec fn row_messages(rows: Seq<Row>) -> Seq<DbMessageView> {
    Seq::new(rows.len(), |i: int| rows[i].msg)
}

/// The messages that such a claim returns.
pub open spec fn claimed_batch(s: StoreView, limit: nat, now: int) -> Seq<DbMessageView> {
    row_messages(claimed_rows(s, limit, now))
}

/// The store after such a claim: the rows taken carry the claim mark, and
/// nothing else has changed.
pub open spec fn after_claim(s: StoreView, limit: nat, now: int) -> StoreView {
    StoreView {
        rows: Seq::new(
            s.rows.len(),
            |i: int|
                if picked(s, limit, now, i) {
                    Row { claimed: true, ..s.rows[i] }
                } else {
                    s.rows[i]
                },
        ),
        next_id: s.next_id,
    }
}

/// The store after a message was inserted at `now`: a new last row with the
/// next identifier, `Pending`, never retried, not before `scheduled_at`.
pub open spec fn after_insert(
    s: StoreView,
    provider: Seq<char>,
    text: Seq<char>,
    scheduled_at: Option<Timestamp>,
    now: Timestamp,
) -> StoreView {
    StoreView {
        rows: s.rows.push(
            Row {
                msg: DbMessageView {
                    id: s.next_id,
                    provider,
                    text,
                    status: MessageStatus::Pending,
                    retry_count: 0,
                    next_retry_at: scheduled_at,
                },
                created_at: now,
                claimed: false,
            },
        ),
        next_id: s.next_id + 1,
    }
}

/// True when the store holds a message with identifier `id`.
pub open spec fn holds(s: StoreView, id: int) -> bool {
    exists|i: int| 0 <= i < s.rows.len() && (#[trigger] s.rows[i]).msg.id == id
}

/// True when the store holds a message with identifier `id` that is `Done`
/// or `Failed`.
pub open spec fn holds_terminal(s: StoreView, id: int) -> bool {
    exists|i: int|
        0 <= i < s.rows.len() && (#[trigger] s.rows[i]).msg.id == id
            && s.rows[i].msg.status.terminal()
}

/// True when a claim holds the message with identifier `id`.
pub open spec fn holds_claimed(s: StoreView, id: int) -> bool {
    exists|i: int|
        0 <= i < s.rows.len() && (#[trigger] s.rows[i]).msg.id == id && s.rows[i].claimed
}

/// Why an outcome for the message `id` is refused, if it is: the message is
/// unknown, or it is terminal, or the retry count is negative, in this order.
pub open spec fn update_error(s: StoreView, id: int, retry_count: int) -> Option<StoreError> {
    if !holds(s, id) {
        Some(StoreError::NotFound)
    } else if holds_terminal(s, id) {
        Some(StoreError::Terminal)
    } else if retry_count < 0 {
        Some(StoreError::InvalidRetryCount)
    } else {
        None
    }
}

/// A row after an outcome was written to it: status and retry count are
/// replaced, the not-before instant is replaced where a new one is given,
/// and the claim on the row has ended.
pub open spec fn row_with_outcome(
    row: Row,
    status: MessageStatus,
    retry_count: int,
    next_retry_at: Option<Timestamp>,
) -> Row {
    Row {
        msg: DbMessageView {
            status,
            retry_count,
            next_retry_at: match next_retry_at {
                Some(at) => Some(at),
                None => row.msg.next_retry_at,
            },
            ..row.msg
        },
        claimed: false,
        ..row
    }
}

/// The store after an outcome was written to the message `id`.
pub open spec fn after_update(
    s: StoreView,
    id: int,
    status: MessageStatus,
    retry_count: int,
    next_retry_at: Option<Timestamp>,
) -> StoreView {
    StoreView {
        rows: Seq::new(
            s.rows.len(),
            |i: int|
                if s.rows[i].msg.id == id {
                    row_with_outcome(s.rows[i], status, retry_count, next_retry_at)
                } else {
                    s.rows[i]
                },
        ),
        next_id: s.next_id,
    }
}

/// The store after the claim on the message `id` was released.
pub open spec fn after_release(s: StoreView, id: int) -> StoreView {
    StoreView {
        rows: Seq::new(
            s.rows.len(),
            |i: int|
                if s.rows[i].msg.id == id {
                    Row { claimed: false, ..s.rows[i] }
                } else {
                    s.rows[i]
                },
        ),
        next_id: s.next_id,
    }
}

/// The history record of a row.
pub open spec fn record_of(row: Row) -> MessageRecordView {
    MessageRecordView {
        id: row.msg.id,
        provider: row.msg.provider,
        text: row.msg.text,
        status: row.msg.status,
        retry_count: row.msg.retry_count,
        created_at: row.created_at,
    }
}

/// The order of the history: `a` is newer than `b` when it was created
/// later, or at the same instant with the larger identifier.
pub open spec fn newer(a: MessageRecordView, b: MessageRecordView) -> bool {
    a.created_at@ > b.created_at@ || (a.created_at@ == b.created_at@ && a.id > b.id)
}

/// True when `record` is the history record of a stored message.
pub open spec fn stored(s: StoreView, record: MessageRecordView) -> bool {
    exists|i: int| 0 <= i < s.rows.len() && record_of(#[trigger] s.rows[i]) == record
}

/// True when every item of `records` is newer than `record`.
pub open spec fn all_newer(records: Seq<MessageRecordView>, record: MessageRecordView) -> bool {
    forall|k: int| 0 <= k < records.len() ==> newer(#[trigger] records[k], record)
}

/// True when `records` lists the `limit` most recent messages of the store,
/// newest first, or all of them where there are fewer: every item is the
/// record of a stored message, each item is newer than the next, and every
/// stored message that is not listed is older than all that are.
pub open spec fn is_recent_listing(
    s: StoreView,
    limit: nat,
    records: Seq<MessageRecordView>,
) -> bool {
    &&& records.len() == if limit <= s.rows.len() {
        limit
    } else {
        s.rows.len()
    }
    &&& forall|k: int| 0 <= k < records.len() ==> stored(s, #[trigger] records[k])
    &&& forall|a: int, b: int|
        0 <= a < b < records.len() ==> newer(#[trigger] records[a], #[trigger] records[b])
    &&& forall|i: int|
        0 <= i < s.rows.len() ==> records.contains(record_of(#[trigger] s.rows[i])) || all_newer(
            records,
            record_of(s.rows[i]),
        )
}

/// True when the row at `a` is newer than the row at `b`.
spec fn row_newer(s: StoreView, a: int, b: int) -> bool {
    newer(record_of(s.rows[a]), record_of(s.rows[b]))
}

/// True when the row at `j` is older than the row at `below`; of every row
/// where `below` is `None`.
spec fn is_below(s: StoreView, below: Option<usize>, j: int) -> bool {
    match below {
        Some(b) => row_newer(s, b as int, j),
        None => true,
    }
}

/// True when the rows at `picks` are the newest of the store, newest first,
/// and `listed` holds their records.
spec fn is_selection(s: StoreView, picks: Seq<int>, listed: Seq<MessageRecordView>) -> bool {
    &&& listed.len() == picks.len()
    &&& forall|k: int|
        0 <= k < picks.len() ==> 0 <= #[trigger] picks[k] < s.rows.len() && listed[k] == record_of(
            s.rows[picks[k]],
        )
    &&& forall|a: int, b: int| 0 <= a < b < picks.len() ==> #[trigger] row_newer(s, picks[a], picks[b])
    &&& forall|i: int, k: int|
        0 <= i < s.rows.len() && !picks.contains(i) && 0 <= k < picks.len() ==> #[trigger] row_newer(
            s,
            picks[k],
            i,
        )
}

/// Tells whether a claim at `now` may select `msg`, by the selection
/// predicate alone.
pub fn is_eligible(msg: &DbMessage, now: Timestamp) -> (e: bool)
    ensures
        e == eligible(msg@, now@),
{
    if msg.status.is_terminal() {
        false
    } else {
        match msg.next_retry_at {
            Some(at) => at.is_due(now),
            None => true,
        }
    }
}

/// Taking one more row into view extends the claimable rows by that row,
/// or not at all.
proof fn lemma_claimable_step(s: StoreView, now: int, i: int)
    requires
        0 <= i < s.rows.len(),
    ensures
        s.rows.take(i + 1).filter(claimable_at(now)) == if claimable(s.rows[i], now) {
            s.rows.take(i).filter(claimable_at(now)).push(s.rows[i])
        } else {
            s.rows.take(i).filter(claimable_at(now))
        },
{
    assert(s.rows.take(i + 1) =~= s.rows.take(i).push(s.rows[i]));
    s.rows.take(i).lemma_filter_push(s.rows[i], claimable_at(now));
}

struct StoredMessage {
    msg: DbMessage,
    created_at: Timestamp,
    claimed: bool,
}

impl StoredMessage {
    fn is_newer_than(&self, other: &StoredMessage) -> (r: bool)
        ensures
            r == newer(record_of(self@), record_of(other@)),
    {
        other.created_at.is_before(self.created_at) || (self.created_at.micros
            == other.created_at.micros && self.msg.id > other.msg.id)
    }

    fn to_record(&self) -> (record: MessageRecord)
        ensures
            record@ == record_of(self@),
    {
        MessageRecord {
            id: self.msg.id,
            provider: self.msg.provider.clone(),
            text: self.msg.text.clone(),
            status: self.msg.status,
            retry_count: self.msg.retry_count,
            created_at: self.created_at,
        }
    }
}

impl View for StoredMessage {
    type V = Row;

    closed spec fn view(&self) -> Row {
        Row { msg: self.msg@, created_at: self.created_at, claimed: self.claimed }
    }
}

/// An in-memory message store.
pub struct MessageStore {
    rows: Vec<StoredMessage>,
    next_id: i32,
}

impl View for MessageStore {
    type V = StoreView;

    closed spec fn view(&self) -> StoreView {
        StoreView {
            rows: Seq::new(self.rows@.len(), |i: int| self.rows@[i]@),
            next_id: self.next_id as int,
        }
    }
}

impl MessageStore {
    /// The invariant that every operation keeps.
    pub open spec fn wf(&self) -> bool {
        well_formed(self@)
    }

    /// An empty store; the first message gets the identifier 1.
    pub fn new() -> (store: MessageStore)
        ensures
            store.wf(),
            store@ == (StoreView { rows: Seq::empty(), next_id: 1 }),
    {
        let store = MessageStore { rows: Vec::new(), next_id: 1 };
        assert(store@.rows =~= Seq::empty());
        store
    }

    /// An empty store whose first message gets the identifier `first_id`;
    /// `None` where that is not positive.
    pub fn starting_at(first_id: i32) -> (r: Option<MessageStore>)
        ensures
            match r {
                Some(store) => {
                    &&& first_id >= 1
                    &&& store.wf()
                    &&& store@ == (StoreView { rows: Seq::empty(), next_id: first_id as int })
                },
                None => first_id < 1,
            },
    {
        if first_id < 1 {
            None
        } else {
            let store = MessageStore { rows: Vec::new(), next_id: first_id };
            assert(store@.rows =~= Seq::empty());
            Some(store)
        }
    }

    /// The number of messages in the store.
    pub fn len(&self) -> (n: usize)
        ensures
            n == self@.rows.len(),
    {
        self.rows.len()
    }

    /// Inserts a message as `Pending` and returns its identifier. Fails, and
    /// leaves the store as it is, only when the identifiers are used up.
    pub fn insert(
        &mut self,
        provider: String,
        text: String,
        scheduled_at: Option<Timestamp>,
        now: Timestamp,
    ) -> (r: Result<i32, StoreError>)
        requires
            old(self).wf(),
        ensures
            final(self).wf(),
            match r {
                Ok(id) => {
                    &&& old(self)@.next_id < i32::MAX
                    &&& id == old(self)@.next_id
                    &&& final(self)@ == after_insert(
                        old(self)@,
                        provider@,
                        text@,
                        scheduled_at,
                        now,
                    )
                },
                Err(e) => {
                    &&& e == StoreError::IdsExhausted
                    &&& old(self)@.next_id == i32::MAX
                    &&& final(self)@ == old(self)@
                },
            },
    {
        if self.next_id == i32::MAX {
            return Err(StoreError::IdsExhausted);
        }
        let id = self.next_id;
        let stored = StoredMessage {
            msg: DbMessage {
                id,
                provider,
                text,
                status: MessageStatus::Pending,
                retry_count: 0,
                next_retry_at: scheduled_at,
            },
            created_at: now,
            claimed: false,
        };
        self.rows.push(stored);
        self.next_id = id + 1;
        assert(self@.rows =~= after_insert(old(self)@, provider@, text@, scheduled_at, now).rows);
        Ok(id)
    }

    /// Claims up to `limit` messages that are ready at `now`: the first
    /// `limit` rows, by identifier, that are eligible and held by no claim.
    /// Each message returned is held by this claim from now on, so that no
    /// later claim returns it before its outcome is written or the claim is
    /// released. Statuses do not change.
    pub fn claim_batch(&mut self, limit: usize, now: Timestamp) -> (batch: Vec<DbMessage>)
        requires
            old(self).wf(),
        ensures
            final(self).wf(),
            message_views(batch@) == claimed_batch(old(self)@, limit as nat, now@),
            final(self)@ == after_claim(old(self)@, limit as nat, now@),
    {
        let ghost before = self@;
        let ghost ready = claimable_at(now@);
        let mut batch: Vec<DbMessage> = Vec::new();
        let n = self.rows.len();
        let mut i: usize = 0;
        assert(before.rows.take(0) =~= Seq::empty());
        assert(before.rows.take(0).filter(ready) =~= Seq::empty()) by {
            reveal(Seq::filter);
        }
        while i < n
            invariant
                i <= n,
                n == self.rows.len(),
                n == before.rows.len(),
                ready == claimable_at(now@),
                self.next_id == before.next_id,
                forall|j: int|
                    0 <= j < i ==> (#[trigger] self.rows@[j])@ == after_claim(
                        before,
                        limit as nat,
                        now@,
                    ).rows[j],
                forall|j: int| i <= j < n ==> (#[trigger] self.rows@[j])@ == before.rows[j],
                message_views(batch@) == row_messages(
                    first_n(before.rows.take(i as int).filter(ready), limit as nat),
                ),
            decreases n - i,
        {
            proof {
                lemma_claimable_step(before, now@, i as int);
            }
            let ghost seen = before.rows.take(i as int).filter(ready);
            assert(batch@.len() == first_n(seen, limit as nat).len()) by {
                assert(message_views(batch@).len() == batch@.len());
                assert(row_messages(first_n(seen, limit as nat)).len() == first_n(
                    seen,
                    limit as nat,
                ).len());
            }
            let take = batch.len() < limit && !self.rows[i].claimed && is_eligible(
                &self.rows[i].msg,
                now,
            );
            if take {
                let ghost earlier = batch@;
                let copy = self.rows[i].msg.clone();
                assert(copy@ == before.rows[i as int].msg);
                batch.push(copy);
                self.rows[i].claimed = true;
                assert(picked(before, limit as nat, now@, i as int));
                assert(first_n(seen, limit as nat) == seen);
                assert forall|k: int| 0 <= k < batch@.len() implies message_views(batch@)[k]
                    == seen.push(before.rows[i as int])[k].msg by {
                    if k < earlier.len() {
                        assert(message_views(earlier)[k] == row_messages(seen)[k]);
                    }
                }
                assert(message_views(batch@) =~= row_messages(
                    first_n(seen.push(before.rows[i as int]), limit as nat),
                ));
            } else {
                assert(!picked(before, limit as nat, now@, i as int));
                assert(first_n(before.rows.take(i + 1).filter(ready), limit as nat) =~= first_n(
                    seen,
                    limit as nat,
                ));
            }
            i = i + 1;
        }
        assert(before.rows.take(n as int) =~= before.rows);
        assert(self@.rows =~= after_claim(before, limit as nat, now@).rows);
        batch
    }

    /// The index of the newest row that is older than the row at `below`,
    /// or of the newest row of all where `below` is `None`.
    fn newest_below(&self, below: Option<usize>) -> (r: Option<usize>)
        requires
            self.wf(),
            below matches Some(b) ==> b < self@.rows.len(),
        ensures
            match r {
                Some(best) => {
                    &&& best < self@.rows.len()
                    &&& is_below(self@, below, best as int)
                    &&& forall|j: int|
                        0 <= j < self@.rows.len() && j != best && is_below(self@, below, j)
                            ==> row_newer(self@, best as int, j)
                },
                None => forall|j: int| 0 <= j < self@.rows.len() ==> !is_below(self@, below, j),
            },
    {
        let n = self.rows.len();
        let mut best: Option<usize> = None;
        let mut i: usize = 0;
        while i < n
            invariant
                i <= n,
                n == self.rows.len(),
                self.wf(),
                below matches Some(b) ==> b < n,
                match best {
                    Some(best) => {
                        &&& best < i
                        &&& is_below(self@, below, best as int)
                        &&& forall|j: int|
                            0 <= j < i && j != best && is_below(self@, below, j) ==> row_newer(
                                self@,
                                best as int,
                                j,
                            )
                    },
                    None => forall|j: int| 0 <= j < i ==> !is_below(self@, below, j),
                },
            decreases n - i,
        {
            let candidate = match below {
                Some(b) => self.rows[b].is_newer_than(&self.rows[i]),
                None => true,
            };
            if candidate {
                match best {
                    Some(so_far) => {
                        assert(self@.rows[so_far as int].msg.id != self@.rows[i as int].msg.id);
                        if self.rows[i].is_newer_than(&self.rows[so_far]) {
                            best = Some(i);
                        }
                    },
                    None => {
                        best = Some(i);
                    },
                }
            }
            i = i + 1;
        }
        best
    }

    /// The `limit` most recent messages, newest first.
    pub fn list_recent(&self, limit: usize) -> (records: Vec<MessageRecord>)
        requires
            self.wf(),
        ensures
            is_recent_listing(self@, limit as nat, record_views(records@)),
    {
        let n = self.rows.len();
        let mut records: Vec<MessageRecord> = Vec::new();
        let mut last: Option<usize> = None;
        let ghost mut picks: Seq<int> = Seq::empty();
        let ghost mut chosen: Set<int> = Set::empty();
        proof {
            lemma_int_range(0, n as int);
        }
        while records.len() < limit
            invariant
                n == self.rows.len(),
                self.wf(),
                set_int_range(0, n as int).finite(),
                set_int_range(0, n as int).len() == n,
                records@.len() <= limit,
                records@.len() <= n,
                chosen.finite(),
                chosen.len() == picks.len(),
                forall|x: int| chosen.contains(x) <==> picks.contains(x),
                last == if picks.len() == 0 {
                    None
                } else {
                    Some(picks.last() as usize)
                },
                is_selection(self@, picks, record_views(records@)),
            ensures
                records@.len() == if limit <= n {
                    limit
                } else {
                    n
                },
                is_selection(self@, picks, record_views(records@)),
            decreases limit - records.len(),
        {
            let ghost before = picks;
            let ghost listed = record_views(records@);
            match self.newest_below(last) {
                None => {
                    proof {
                        assert forall|x: int| 0 <= x < n implies chosen.contains(x) by {
                            if !before.contains(x) {
                                if before.len() > 0 {
                                    assert(row_newer(self@, before[before.len() - 1], x));
                                }
                                assert(is_below(self@, last, x));
                            }
                        }
                        assert forall|x: int| chosen.contains(x) implies 0 <= x < n by {
                            let k = choose|k: int| 0 <= k < before.len() && before[k] == x;
                            assert(0 <= before[k] < n);
                        }
                        assert(chosen =~= set_int_range(0, n as int));
                    }
                    break ;
                },
                Some(best) => {
                    records.push(self.rows[best].to_record());
                    last = Some(best);
                    proof {
                        assert(!before.contains(best as int)) by {
                            if before.contains(best as int) {
                                let k = choose|k: int|
                                    0 <= k < before.len() && before[k] == best as int;
                                if k < before.len() - 1 {
                                    assert(row_newer(self@, before[k], before[before.len() - 1]));
                                }
                            }
                        }
                        picks = before.push(best as int);
                        chosen = chosen.insert(best as int);
                        assert forall|x: int| chosen.contains(x) <==> picks.contains(x) by {
                            if before.contains(x) {
                                let k = choose|k: int| 0 <= k < before.len() && before[k] == x;
                                assert(picks[k] == x);
                            }
                            assert(picks[picks.len() - 1] == best);
                        }
                        assert forall|x: int| chosen.contains(x) implies set_int_range(
                            0,
                            n as int,
                        ).contains(x) by {
                            let k = choose|k: int| 0 <= k < picks.len() && picks[k] == x;
                            if k < before.len() {
                                assert(0 <= before[k] < n);
                            }
                        }
                        lemma_len_subset(chosen, set_int_range(0, n as int));
                        assert forall|k: int| 0 <= k < picks.len() implies 0 <= #[trigger] picks[k]
                            < n && record_views(records@)[k] == record_of(self@.rows[picks[k]]) by {
                            if k < before.len() {
                                assert(0 <= before[k] < n);
                                assert(listed[k] == record_of(self@.rows[before[k]]));
                            }
                        }
                        assert forall|a: int, b: int|
                            0 <= a < b < picks.len() implies #[trigger] row_newer(
                            self@,
                            picks[a],
                            picks[b],
                        ) by {
                            if b == picks.len() - 1 {
                                assert(row_newer(self@, before[a], best as int));
                            } else {
                                assert(row_newer(self@, before[a], before[b]));
                            }
                        }
                        assert forall|i: int, k: int|
                            0 <= i < n && !picks.contains(i) && 0 <= k
                                < picks.len() implies #[trigger] row_newer(self@, picks[k], i) by {
                            assert(!before.contains(i)) by {
                                if before.contains(i) {
                                    let m = choose|m: int| 0 <= m < before.len() && before[m] == i;
                                    assert(picks[m] == i);
                                }
                            }
                            assert(i != best) by {
                                assert(picks[picks.len() - 1] == best);
                            }
                            if k < before.len() {
                                assert(row_newer(self@, before[k], i));
                            } else if before.len() > 0 {
                                assert(row_newer(self@, before[before.len() - 1], i));
                            }
                        }
                    }
                },
            }
        }
        proof {
            let listed = record_views(records@);
            assert forall|k: int| 0 <= k < listed.len() implies stored(
                self@,
                #[trigger] listed[k],
            ) by {
                assert(record_of(self@.rows[picks[k]]) == listed[k]);
            }
            assert forall|a: int, b: int| 0 <= a < b < listed.len() implies newer(
                #[trigger] listed[a],
                #[trigger] listed[b],
            ) by {
                assert(row_newer(self@, picks[a], picks[b]));
            }
            assert forall|i: int| 0 <= i < self@.rows.len() implies listed.contains(
                record_of(#[trigger] self@.rows[i]),
            ) || all_newer(listed, record_of(self@.rows[i])) by {
                if picks.contains(i) {
                    let k = choose|k: int| 0 <= k < picks.len() && picks[k] == i;
                    assert(listed[k] == record_of(self@.rows[i]));
                } else {
                    assert forall|k: int| 0 <= k < listed.len() implies newer(
                        #[trigger] listed[k],
                        record_of(self@.rows[i]),
                    ) by {
                        assert(row_newer(self@, picks[k], i));
                    }
                }
            }
        }
        records
    }

    /// The index of the row with identifier `id`.
    fn index_of(&self, id: i32) -> (r: Option<usize>)
        ensures
            match r {
                Some(i) => i < self@.rows.len() && self@.rows[i as int].msg.id == id,
                None => !holds(self@, id as int),
            },
    {
        let n = self.rows.len();
        let mut i: usize = 0;
        while i < n
            invariant
                i <= n,
                n == self.rows.len(),
                forall|j: int| 0 <= j < i ==> (#[trigger] self@.rows[j]).msg.id != id,
            decreases n - i,
        {
            if self.rows[i].msg.id == id {
                return Some(i);
            }
            i = i + 1;
        }
        None
    }

    /// The message with identifier `id` as it stands now, if the store
    /// holds it.
    pub fn find(&self, id: i32) -> (r: Option<DbMessage>)
        ensures
            match r {
                Some(msg) => msg@.id == id && exists|i: int|
                    0 <= i < self@.rows.len() && (#[trigger] self@.rows[i]).msg == msg@,
                None => !holds(self@, id as int),
            },
    {
        match self.index_of(id) {
            Some(i) => {
                let msg = self.rows[i].msg.clone();
                assert(self@.rows[i as int].msg == msg@);
                Some(msg)
            },
            None => None,
        }
    }

    /// Writes the outcome of a delivery attempt to the message `id` and ends
    /// the claim on it. This is the only way in which status, retry count
    /// and not-before instant of a stored message change. A refused outcome
    /// leaves the store as it is.
    pub fn update_outcome(
        &mut self,
        id: i32,
        new_status: MessageStatus,
        retry_count: i32,
        next_retry_at: Option<Timestamp>,
    ) -> (r: Result<(), StoreError>)
        requires
            old(self).wf(),
        ensures
            final(self).wf(),
            match r {
                Ok(()) => {
                    &&& update_error(old(self)@, id as int, retry_count as int) is None
                    &&& final(self)@ == after_update(
                        old(self)@,
                        id as int,
                        new_status,
                        retry_count as int,
                        next_retry_at,
                    )
                },
                Err(e) => {
                    &&& update_error(old(self)@, id as int, retry_count as int) == Some(e)
                    &&& final(self)@ == old(self)@
                },
            },
    {
        let ghost before = self@;
        match self.index_of(id) {
            None => Err(StoreError::NotFound),
            Some(i) => {
                assert(holds(before, id as int));
                if self.rows[i].msg.status.is_terminal() {
                    assert(holds_terminal(before, id as int));
                    Err(StoreError::Terminal)
                } else {
                    assert(!holds_terminal(before, id as int)) by {
                        assert forall|j: int|
                            0 <= j < before.rows.len() && (#[trigger] before.rows[j]).msg.id
                                == id implies j == i by {}
                    }
                    if retry_count < 0 {
                        Err(StoreError::InvalidRetryCount)
                    } else {
                        self.rows[i].msg.status = new_status;
                        self.rows[i].msg.retry_count = retry_count;
                        match next_retry_at {
                            Some(at) => {
                                self.rows[i].msg.next_retry_at = Some(at);
                            },
                            None => {},
                        }
                        self.rows[i].claimed = false;
                        assert(self@.rows =~= after_update(
                            before,
                            id as int,
                            new_status,
                            retry_count as int,
                            next_retry_at,
                        ).rows);
                        Ok(())
                    }
                }
            },
        }
    }

    /// Ends the claim on the message `id` without writing an outcome, as
    /// when the worker that held it is gone: the message keeps its status and
    /// can be claimed again. Tells whether there was a claim to end.
    pub fn release(&mut self, id: i32) -> (released: bool)
        requires
            old(self).wf(),
        ensures
            final(self).wf(),
            released == holds_claimed(old(self)@, id as int),
            final(self)@ == after_release(old(self)@, id as int),
    {
        let ghost before = self@;
        match self.index_of(id) {
            None => {
                assert(self@.rows =~= after_release(before, id as int).rows);
                false
            },
            Some(i) => {
                assert forall|j: int|
                    0 <= j < before.rows.len() && (#[trigger] before.rows[j]).msg.id
                        == id implies j == i by {}
                let was = self.rows[i].claimed;
                self.rows[i].claimed = false;
                assert(self@.rows =~= after_release(before, id as int).rows);
                was
            },
        }
    }
}

} // verus!
