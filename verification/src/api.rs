//! The operations that the surrounding service offers to its clients.

use crate::message::{record_views, Message, MessageRecord};
use crate::store::{after_insert, is_recent_listing, MessageStore, StoreError};
use crate::time::Timestamp;
use vstd::prelude::*;

verus! {

/// The number of records that the history shows.
pub const HISTORY_LIMIT: usize = 50;

/// Accepts a message for delivery: it is stored as `Pending`, never
/// retried, created at `now`, and not delivered before `scheduled_at` where
/// that is set. Returns the identifier that the message got. Delivery is not
/// awaited.
pub fn enqueue(store: &mut MessageStore, msg: Message, now: Timestamp) -> (r: Result<
    i32,
    StoreError,
>)
    requires
        old(store).wf(),
    ensures
        final(store).wf(),
        match r {
            Ok(id) => {
                &&& old(store)@.next_id < i32::MAX
                &&& id == old(store)@.next_id
                &&& final(store)@ == after_insert(
                    old(store)@,
                    msg@.provider,
                    msg@.text,
                    msg@.scheduled_at,
                    now,
                )
            },
            Err(e) => {
                &&& e == StoreError::IdsExhausted
                &&& old(store)@.next_id == i32::MAX
                &&& final(store)@ == old(store)@
            },
        },
{
    store.insert(msg.provider, msg.text, msg.scheduled_at, now)
}

/// The history: the most recent messages, newest first, at most
/// [`HISTORY_LIMIT`] of them.
pub fn get_messages(store: &MessageStore) -> (records: Vec<MessageRecord>)
    requires
        store.wf(),
    ensures
        is_recent_listing(store@, HISTORY_LIMIT as nat, record_views(records@)),
{
    store.list_recent(HISTORY_LIMIT)
}

/// The answer to a liveness probe. It depends on nothing.
pub fn health_check() -> (body: &'static str)
    ensures
        body@ == "OK"@,
{
    "OK"
}

} // verus!
