//! The outcome broadcaster: a multicast channel on which every published
//! line goes to each subscriber that is attached at the time. A subscriber
//! that falls behind loses its oldest events; publishers never wait for it.

use vstd::prelude::*;

verus! {

/// The sending half of a `tokio` broadcast channel.
#[verifier::external_type_specification]
#[verifier::external_body]
#[verifier::reject_recursive_types(T)]
pub struct ExSender<T>(tokio::sync::broadcast::Sender<T>);

/// Hands `line` to `tokio::sync::broadcast::Sender::send`, which stores it
/// for the receivers attached now and returns at once. `Some(n)` is the
/// number of those receivers, which is at least one; `None` means that none
/// is attached and the line is dropped.
#[verifier::external_body]
fn send_line(tx: &tokio::sync::broadcast::Sender<String>, line: String) -> (r: Option<usize>)
    ensures
        r matches Some(n) ==> n >= 1,
{
    tx.send(line).ok()
}

/// The number of subscribers that a published line went to, from what the
/// channel answered: none where it had no subscriber.
pub fn reached(answer: Option<usize>) -> (receivers: usize)
    ensures
        receivers == match answer {
            Some(n) => n,
            None => 0,
        },
{
    match answer {
        Some(n) => n,
        None => 0,
    }
}

/// Publishes one outcome line to all current subscribers and returns how
/// many there are. Publishing cannot fail, and it waits for no subscriber:
/// with none attached the line is dropped and the answer is zero.
pub fn publish(tx: &tokio::sync::broadcast::Sender<String>, line: String) -> usize {
    reached(send_line(tx, line))
}

} // verus!
