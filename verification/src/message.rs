//! The message record and the requests and listings derived from it.

use crate::time::Timestamp;
use vstd::prelude::*;
use vstd::string::StringExecFns;

verus! {

/// Where a message stands in its lifecycle. `Pending` and `Retrying` messages
/// wait to be claimed; `Done` and `Failed` are final.
#[derive(Clone, Copy, Debug, PartialEq, Eq, Structural)]
pub enum MessageStatus {
    Pending,
    Retrying,
    Done,
    Failed,
}

impl MessageStatus {
    /// A terminal status is never left again.
    pub open spec fn terminal(self) -> bool {
        self == MessageStatus::Done || self == MessageStatus::Failed
    }

    /// The name under which the status is persisted.
    pub open spec fn name(self) -> Seq<char> {
        match self {
            MessageStatus::Pending => "pending"@,
            MessageStatus::Retrying => "retrying"@,
            MessageStatus::Done => "done"@,
            MessageStatus::Failed => "failed"@,
        }
    }

    pub fn is_terminal(&self) -> (t: bool)
        ensures
            t == self.terminal(),
    {
        match self {
            MessageStatus::Done | MessageStatus::Failed => true,
            MessageStatus::Pending | MessageStatus::Retrying => false,
        }
    }

    pub fn as_str(&self) -> (s: &'static str)
        ensures
            s@ == self.name(),
    {
        match self {
            MessageStatus::Pending => "pending",
            MessageStatus::Retrying => "retrying",
            MessageStatus::Done => "done",
            MessageStatus::Failed => "failed",
        }
    }

    /// Reads a persisted status name; any other text is no status.
    pub fn parse(text: &str) -> (r: Option<MessageStatus>)
        ensures
            match r {
                Some(status) => status.name() == text@,
                None => forall|status: MessageStatus| status.name() != text@,
            },
    {
        let given = String::from_str(text);
        if given == String::from_str("pending") {
            Some(MessageStatus::Pending)
        } else if given == String::from_str("retrying") {
            Some(MessageStatus::Retrying)
        } else if given == String::from_str("done") {
            Some(MessageStatus::Done)
        } else if given == String::from_str("failed") {
            Some(MessageStatus::Failed)
        } else {
            None
        }
    }
}

/// A request to enqueue one message.
#[derive(Debug, PartialEq, Eq)]
pub struct Message {
    pub provider: String,
    pub text: String,
    /// When set, the message is not delivered before this instant.
    pub scheduled_at: Option<Timestamp>,
}

/// What a claimed message carries to the worker that delivers it.
#[derive(Debug, PartialEq, Eq)]
pub struct DbMessage {
    pub id: i32,
    pub provider: String,
    pub text: String,
    pub status: MessageStatus,
    pub retry_count: i32,
    pub next_retry_at: Option<Timestamp>,
}

/// One line of the delivery history.
#[derive(Debug, PartialEq, Eq)]
pub struct MessageRecord {
    pub id: i32,
    pub provider: String,
    pub text: String,
    pub status: MessageStatus,
    pub retry_count: i32,
    pub created_at: Timestamp,
}

/// The mathematical content of a [`Message`].
pub struct MessageView {
    pub provider: Seq<char>,
    pub text: Seq<char>,
    pub scheduled_at: Option<Timestamp>,
}

/// The mathematical content of a [`DbMessage`].
pub struct DbMessageView {
    pub id: int,
    pub provider: Seq<char>,
    pub text: Seq<char>,
    pub status: MessageStatus,
    pub retry_count: int,
    pub next_retry_at: Option<Timestamp>,
}

/// The mathematical content of a [`MessageRecord`].
pub struct MessageRecordView {
    pub id: int,
    pub provider: Seq<char>,
    pub text: Seq<char>,
    pub status: MessageStatus,
    pub retry_count: int,
    pub created_at: Timestamp,
}

impl View for Message {
    type V = MessageView;

    open spec fn view(&self) -> MessageView {
        MessageView {
            provider: self.provider@,
            text: self.text@,
            scheduled_at: self.scheduled_at,
        }
    }
}

impl View for DbMessage {
    type V = DbMessageView;

    open spec fn view(&self) -> DbMessageView {
        DbMessageView {
            id: self.id as int,
            provider: self.provider@,
            text: self.text@,
            status: self.status,
            retry_count: self.retry_count as int,
            next_retry_at: self.next_retry_at,
        }
    }
}

impl View for MessageRecord {
    type V = MessageRecordView;

    open spec fn view(&self) -> MessageRecordView {
        MessageRecordView {
            id: self.id as int,
            provider: self.provider@,
            text: self.text@,
            status: self.status,
            retry_count: self.retry_count as int,
            created_at: self.created_at,
        }
    }
}

/// The contents of a sequence of claimed messages, item by item.
pub open spec fn message_views(messages: Seq<DbMessage>) -> Seq<DbMessageView> {
    Seq::new(messages.len(), |i: int| messages[i]@)
}

/// The contents of a sequence of history records, item by item.
pub open spec fn record_views(records: Seq<MessageRecord>) -> Seq<MessageRecordView> {
    Seq::new(records.len(), |i: int| records[i]@)
}

impl Clone for Message {
    fn clone(&self) -> (copy: Message)
        ensures
            copy@ == self@,
    {
        Message {
            provider: self.provider.clone(),
            text: self.text.clone(),
            scheduled_at: self.scheduled_at,
        }
    }
}

impl Clone for DbMessage {
    fn clone(&self) -> (copy: DbMessage)
        ensures
            copy@ == self@,
    {
        DbMessage {
            id: self.id,
            provider: self.provider.clone(),
            text: self.text.clone(),
            status: self.status,
            retry_count: self.retry_count,
            next_retry_at: self.next_retry_at,
        }
    }
}

impl Clone for MessageRecord {
    fn clone(&self) -> (copy: MessageRecord)
        ensures
            copy@ == self@,
    {
        MessageRecord {
            id: self.id,
            provider: self.provider.clone(),
            text: self.text.clone(),
            status: self.status,
            retry_count: self.retry_count,
            created_at: self.created_at,
        }
    }
}

impl DbMessage {
    /// The delivery request that a provider receives for this message.
    pub fn to_request(&self) -> (request: Message)
        ensures
            request@ == (MessageView {
                provider: self@.provider,
                text: self@.text,
                scheduled_at: self@.next_retry_at,
            }),
    {
        Message {
            provider: self.provider.clone(),
            text: self.text.clone(),
            scheduled_at: self.next_retry_at,
        }
    }
}

} // verus!
