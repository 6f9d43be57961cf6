//! Actor/mailbox concurrency core together with the submessage element
//! types it carries for an RTPS-style protocol stack.
//!
//! The heart of the crate is `common::actor`: a single-use request/response
//! channel, a mailbox that turns enqueued requests into a strictly FIFO
//! sequence of pending items, and the state transitions behind an actor's
//! driving loop. All of it is written as a pure state machine over plain
//! values; an embedding runtime supplies the shared storage, the scheduler
//! and the resumption handles, and fires the handles this crate returns.

pub mod common;
pub mod messages;
pub mod structure;
