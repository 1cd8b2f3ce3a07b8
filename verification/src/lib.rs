//! A chat backend's message pipeline: a durable log of submitted messages, a
//! time-ordered work queue of pending deliveries, and a per-chat history cache
//! that a delivery worker keeps in step with the queue.
//!
//! The store is an in-memory value; it is the single source of truth for what
//! is queued and what was delivered, but it does not outlive the process.
//! Whoever embeds the library owns persistence of the store.
use vstd::prelude::*;

pub mod accounts;
pub mod encryption;
pub mod pipeline;
pub mod store;

verus! {

/// How an operation on the store can fail.
#[derive(Clone, Copy, PartialEq, Eq, Structural, Debug)]
pub enum ChatError {
    /// A chat or user identifier did not resolve to an existing entity.
    NotFound,
    /// A unique name (username, chat name) is already taken.
    Conflict,
    /// A retryable storage failure.
    Transient,
    /// A queue entry references a message that no longer resolves; fatal.
    ConsistencyViolation,
}

} // verus!
