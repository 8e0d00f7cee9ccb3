//! What can go wrong in a publish round.

use vstd::prelude::*;
use crate::types::DhtOpType;

verus! {

/// Why a query on the operation store failed. Each variant names where the
/// failure arose and carries its description.
#[derive(Clone, Debug, PartialEq, Eq)]
pub enum StateQueryError {
    Sql(String),
    DatabaseError(String),
    SerializedBytesError(String),
    DhtOpError(String),
    UnexpectedOp(DhtOpType),
    UnexpectedAction(String),
    WrongActionError(String),
    ActionError(String),
    SyncScratchError(String),
    Other(String),
}

pub type StateQueryResult<T> = Result<T, StateQueryError>;

/// Why the network did not take a broadcast.
#[derive(Clone, Copy, Debug, PartialEq, Eq, Structural)]
pub enum BroadcastFailure {
    /// The overlay that routes to the basis has not started yet. Worth
    /// trying again soon.
    RoutingNotReady,
    /// Anything else. The operations stay due and go out again in a later
    /// round.
    Other,
}

/// Why a publish round was given up.
#[derive(Clone, Debug, PartialEq, Eq)]
pub enum WorkflowError {
    /// The store could not be read, so the work set is unknown.
    Selection(StateQueryError),
    /// The store could not be written, so the round cannot claim success.
    /// Running the round again is safe: receivers tolerate duplicates.
    Commit(StateQueryError),
}

pub type WorkflowResult<T> = Result<T, WorkflowError>;

} // verus!
