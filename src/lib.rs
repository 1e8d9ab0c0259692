//! A single-threaded cooperative executor for a host that offers readiness
//! polling, with the decisions of its body adapters written as verified
//! state machines.
//!
//! The host handles themselves (streams, bodies, pollables) never enter this
//! crate: each adapter is driven by a loop that performs the host operation,
//! hands the outcome to a machine here, and carries out the action it returns.
use vstd::prelude::*;

pub mod finalize;
pub mod registry;
pub mod dispatch;
pub mod outgoing;
pub mod incoming;
pub mod executor;
