//! A single-thread asynchronous mutex: the verified core.
//!
//! The resource cell, its FIFO queue of one-shot handoff senders, the
//! release (handoff) step and every state transition that an acquire future
//! makes are verified here. Driving futures is left to the caller, which
//! hands each step's outside result (a received resource, the outcome of a
//! continuation) to the functions of this crate.

pub mod cell;
pub mod error;
pub mod laws;
pub mod messages;
pub mod model;
pub mod oneshot;
