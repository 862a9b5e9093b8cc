//! A Byzantine-fault-tolerant multi-phase agreement engine.
//!
//! `n` replicas, connected pairwise by ordered channels, each run this local
//! state machine.  A replica advances through monotonically increasing views,
//! collects quorums for the phases Echo, Key1, Key2, Key3, Lock and Done, and
//! finally decides a single value, emitting exactly one execution intent for
//! the external system.  All message transport and persistence is left to the
//! host: the engine consumes plain message values and returns the packets and
//! intents the host must deliver.

pub mod abort;
pub mod contract;
pub mod crypto;
pub mod laws;
pub mod msg;
pub mod queue_handler;
pub mod replica;
pub mod state;
pub mod utils;
pub mod view_change;

use vstd::prelude::*;

verus! {

/// Errors surfaced by the consensus engine.
#[derive(Debug, Clone, PartialEq, Eq)]
pub enum ContractError {
    /// A required state entry (replica record or per-replica map slot) is missing.
    StateNotFound,
    /// An operation was requested in a state that forbids it (abort before the
    /// deadline, abort after the decision, a not-yet-supported request).
    InvalidTransition { msg: String },
    /// A catch-all error with a descriptive message.
    CustomError { val: String },
    /// An internal processing error with a descriptive message.
    GenericErr { msg: String },
}

} // verus!
