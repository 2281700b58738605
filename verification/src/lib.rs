//! A durable, at-least-once notification dispatch queue.
//!
//! Clients enqueue messages, workers claim and deliver them through a
//! pluggable [`worker::Provider`], failures are retried with exponential
//! backoff, and every outcome is published as a text line to live observers.

pub mod api;
pub mod broadcast;
pub mod events;
pub mod message;
pub mod pool;
pub mod protocol;
pub mod retry;
pub mod scheduler;
pub mod store;
pub mod time;
pub mod worker;
