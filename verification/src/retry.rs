//! The retry engine: what becomes of a message after one delivery attempt.

use crate::message::MessageStatus;
use crate::time::{plus_seconds, Timestamp};
use vstd::arithmetic::power2::{
    lemma2_to64, lemma2_to64_rest, lemma_pow2_strictly_increases, lemma_pow2_unfold, pow2,
};
use vstd::prelude::*;

verus! {

/// The number of failed attempts after which a message is given up.
pub const MAX_RETRIES: i32 = 5;

/// The largest attempt number whose backoff delay fits in an `i64`.
pub const MAX_BACKOFF_ATTEMPT: i32 = 62;

/// How one delivery attempt ended.
#[derive(Clone, Copy, Debug, PartialEq, Eq, Structural)]
pub enum SendOutcome {
    Success,
    Failure,
}

/// The next state of a message after one delivery attempt.
#[derive(Clone, Copy, Debug, PartialEq, Eq, Structural)]
pub struct Decision {
    pub status: MessageStatus,
    pub retry_count: i32,
    /// The backoff delay in seconds; set exactly when the message will be
    /// retried.
    pub delay_secs: Option<i64>,
    /// The instant before which the message is not retried; set exactly when
    /// `delay_secs` is.
    pub next_retry_at: Option<Timestamp>,
}

/// The mathematical content of a [`Decision`]: counts and instants as
/// unbounded integers, instants in microseconds.
pub struct DecisionView {
    pub status: MessageStatus,
    pub retry_count: int,
    pub delay_secs: Option<int>,
    pub next_retry_at: Option<int>,
}

impl View for Decision {
    type V = DecisionView;

    open spec fn view(&self) -> DecisionView {
        DecisionView {
            status: self.status,
            retry_count: self.retry_count as int,
            delay_secs: match self.delay_secs {
                Some(secs) => Some(secs as int),
                None => None,
            },
            next_retry_at: match self.next_retry_at {
                Some(at) => Some(at@),
                None => None,
            },
        }
    }
}

/// Seconds to wait before attempt number `attempt` is retried: two to the
/// power of `attempt`.
pub open spec fn backoff_secs(attempt: nat) -> nat {
    pow2(attempt)
}

/// True when a failure at `retry_count` exhausts the retry budget.
pub open spec fn exhausts(retry_count: int, max_retries: int) -> bool {
    retry_count + 1 >= max_retries
}

/// True when the decision for these inputs can be computed in machine
/// integers: the new retry count fits, and where the message is retried the
/// delay and the instant of the retry fit too.
pub open spec fn decidable(
    outcome: SendOutcome,
    retry_count: int,
    max_retries: int,
    now: Timestamp,
) -> bool {
    match outcome {
        SendOutcome::Success => true,
        SendOutcome::Failure => {
            &&& retry_count < i32::MAX
            &&& !exhausts(retry_count, max_retries) ==> {
                &&& 0 <= retry_count < MAX_BACKOFF_ATTEMPT
                &&& plus_seconds(now, backoff_secs((retry_count + 1) as nat) as int) <= i64::MAX
            }
        },
    }
}

/// The decision of the retry engine, `now` in microseconds.
///
/// Success ends the message as `Done` and leaves its retry count alone. A
/// failure counts one more retry; when that reaches `max_retries` the message
/// ends as `Failed`, otherwise it is `Retrying` and due again
/// `2^(retry_count + 1)` seconds after `now`.
pub open spec fn decide_spec(
    outcome: SendOutcome,
    retry_count: int,
    max_retries: int,
    now: int,
) -> DecisionView {
    match outcome {
        SendOutcome::Success => DecisionView {
            status: MessageStatus::Done,
            retry_count,
            delay_secs: None,
            next_retry_at: None,
        },
        SendOutcome::Failure => if exhausts(retry_count, max_retries) {
            DecisionView {
                status: MessageStatus::Failed,
                retry_count: retry_count + 1,
                delay_secs: None,
                next_retry_at: None,
            }
        } else {
            DecisionView {
                status: MessageStatus::Retrying,
                retry_count: retry_count + 1,
                delay_secs: Some(backoff_secs((retry_count + 1) as nat) as int),
                next_retry_at: Some(now + backoff_secs((retry_count + 1) as nat) * 1_000_000),
            }
        },
    }
}

/// Every backoff delay up to the largest attempt fits in an `i64`.
pub proof fn lemma_backoff_fits(attempt: nat)
    requires
        attempt <= MAX_BACKOFF_ATTEMPT,
    ensures
        1 <= backoff_secs(attempt) <= 0x4000_0000_0000_0000,
{
    lemma2_to64();
    lemma2_to64_rest();
    if attempt < 62 {
        lemma_pow2_strictly_increases(attempt, 62);
    }
    if attempt > 0 {
        lemma_pow2_strictly_increases(0, attempt);
    }
}

/// The backoff delay before attempt number `attempt` is retried.
pub fn backoff_delay_secs(attempt: i32) -> (delay: i64)
    requires
        0 <= attempt <= MAX_BACKOFF_ATTEMPT,
    ensures
        delay == backoff_secs(attempt as nat),
{
    let mut delay: i64 = 1;
    let mut done: i32 = 0;
    proof {
        lemma2_to64();
    }
    while done < attempt
        invariant
            0 <= done <= attempt <= MAX_BACKOFF_ATTEMPT,
            delay == backoff_secs(done as nat),
        decreases attempt - done,
    {
        proof {
            lemma_pow2_unfold((done + 1) as nat);
            lemma_backoff_fits((done + 1) as nat);
        }
        delay = delay * 2;
        done = done + 1;
    }
    delay
}

/// Decides the next state of a message whose delivery ended in `outcome`
/// after `retry_count` earlier failures.
pub fn decide(outcome: SendOutcome, retry_count: i32, max_retries: i32, now: Timestamp) -> (d:
    Decision)
    requires
        decidable(outcome, retry_count as int, max_retries as int, now),
    ensures
        d@ == decide_spec(outcome, retry_count as int, max_retries as int, now@),
{
    match outcome {
        SendOutcome::Success => Decision {
            status: MessageStatus::Done,
            retry_count,
            delay_secs: None,
            next_retry_at: None,
        },
        SendOutcome::Failure => {
            let new_retry_count: i32 = retry_count + 1;
            if new_retry_count >= max_retries {
                Decision {
                    status: MessageStatus::Failed,
                    retry_count: new_retry_count,
                    delay_secs: None,
                    next_retry_at: None,
                }
            } else {
                let delay: i64 = backoff_delay_secs(new_retry_count);
                proof {
                    lemma_backoff_fits(new_retry_count as nat);
                }
                let due: i128 = now.micros as i128 + (delay as i128) * 1_000_000;
                Decision {
                    status: MessageStatus::Retrying,
                    retry_count: new_retry_count,
                    delay_secs: Some(delay),
                    next_retry_at: Some(Timestamp { micros: due as i64 }),
                }
            }
        },
    }
}

/// As [`decide`], for any input: `None` where the decision cannot be
/// computed in machine integers.
pub fn try_decide(outcome: SendOutcome, retry_count: i32, max_retries: i32, now: Timestamp) -> (r:
    Option<Decision>)
    ensures
        decidable(outcome, retry_count as int, max_retries as int, now) ==> r is Some
            && r->0@ == decide_spec(outcome, retry_count as int, max_retries as int, now@),
        !decidable(outcome, retry_count as int, max_retries as int, now) ==> r is None,
{
    match outcome {
        SendOutcome::Success => Some(decide(outcome, retry_count, max_retries, now)),
        SendOutcome::Failure => {
            if retry_count == i32::MAX {
                None
            } else if retry_count + 1 >= max_retries {
                Some(decide(outcome, retry_count, max_retries, now))
            } else if retry_count < 0 || retry_count >= MAX_BACKOFF_ATTEMPT {
                None
            } else {
                let delay: i64 = backoff_delay_secs(retry_count + 1);
                match now.checked_add_seconds(delay) {
                    Some(_) => Some(decide(outcome, retry_count, max_retries, now)),
                    None => {
                        proof {
                            lemma_backoff_fits((retry_count + 1) as nat);
                        }
                        None
                    },
                }
            }
        },
    }
}

/// The retry count of a message that started at `retry_count` and then
/// failed `n` times, at the instants `times[0]`, ..., `times[n - 1]`: each
/// failure is decided from the count that the one before it left.
pub open spec fn count_after_failures(
    retry_count: int,
    max_retries: int,
    times: Seq<int>,
    n: nat,
) -> int
    decreases n,
{
    if n == 0 {
        retry_count
    } else {
        decide_spec(
            SendOutcome::Failure,
            count_after_failures(retry_count, max_retries, times, (n - 1) as nat),
            max_retries,
            times[n - 1],
        ).retry_count
    }
}

/// The decision taken at the failure number `i` (from zero) of such a run.
pub open spec fn decision_at_failure(
    retry_count: int,
    max_retries: int,
    times: Seq<int>,
    i: nat,
) -> DecisionView {
    decide_spec(
        SendOutcome::Failure,
        count_after_failures(retry_count, max_retries, times, i),
        max_retries,
        times[i as int],
    )
}

/// Retries are counted one by one, and each retry waits twice as long as the
/// one before: in any run of failures, the failure number `i` leaves the
/// retry count at `retry_count + i + 1`, and while the budget lasts the
/// message is due again `2^k` seconds after the instant of that failure,
/// where `k` is the new retry count.
pub proof fn law_retry_monotonic(retry_count: int, max_retries: int, times: Seq<int>, i: nat)
    requires
        i < times.len(),
    ensures
        count_after_failures(retry_count, max_retries, times, i) == retry_count + i,
        decision_at_failure(retry_count, max_retries, times, i).retry_count == retry_count + i + 1,
        retry_count + i + 1 < max_retries ==> {
            let d = decision_at_failure(retry_count, max_retries, times, i);
            &&& d.status == MessageStatus::Retrying
            &&& d.delay_secs == Some(backoff_secs((retry_count + i + 1) as nat) as int)
            &&& d.next_retry_at == Some(
                times[i as int] + backoff_secs((retry_count + i + 1) as nat) * 1_000_000,
            )
        },
    decreases i,
{
    if i > 0 {
        law_retry_monotonic(retry_count, max_retries, times, (i - 1) as nat);
    }
}

/// The retry budget is a hard cap: a fresh message that keeps failing is
/// retried after each of its first `max_retries - 1` failures and is `Failed`
/// at failure number `max_retries`, with exactly that retry count. A success
/// ends a message as `Done` whatever its retry count, and leaves the count.
pub proof fn law_backoff_cap(max_retries: int, times: Seq<int>, i: nat, retry_count: int, now: int)
    requires
        1 <= max_retries <= times.len(),
    ensures
        i < max_retries - 1 ==> decision_at_failure(0, max_retries, times, i).status
            == MessageStatus::Retrying,
        decision_at_failure(0, max_retries, times, (max_retries - 1) as nat).status
            == MessageStatus::Failed,
        decision_at_failure(0, max_retries, times, (max_retries - 1) as nat).retry_count
            == max_retries,
        decide_spec(SendOutcome::Success, retry_count, max_retries, now).status
            == MessageStatus::Done,
        decide_spec(SendOutcome::Success, retry_count, max_retries, now).retry_count
            == retry_count,
{
    if i < max_retries - 1 {
        law_retry_monotonic(0, max_retries, times, i);
    }
    law_retry_monotonic(0, max_retries, times, (max_retries - 1) as nat);
}

} // verus!
