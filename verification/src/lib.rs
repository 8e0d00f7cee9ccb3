//! Outbound replication scheduling for a content-addressed, peer-to-peer ledger.
//!
//! An agent authors operation records that have to reach the peers responsible
//! for storing them. This crate decides which authored operations are due for
//! (re-)publishing, what of each may leave the machine, how they are batched
//! by routing basis, and how one publish round reacts to the answers of the
//! store, the network and the clock. All of it is verified; the surrounding
//! program performs the input and output.

pub mod bytes;
pub mod error;
pub mod grouping;
pub mod laws;
pub mod publish_query;
pub mod redaction;
pub mod round;
pub mod store;
pub mod types;
pub mod workflow;

pub use error::{BroadcastFailure, StateQueryError, StateQueryResult, WorkflowError, WorkflowResult};
pub use grouping::{publish_dht_ops_workflow_inner, BasisGroup, BasisGroupView};
pub use publish_query::{get_ops_to_publish, num_still_needing_publish};

pub use types::{
    AuthoredOp, AuthoredOpView, DhtOp, DhtOpType, DhtOpView, EntryVisibility, PublishConfig,
    PublishItem, PublishItemView, ValidationStatus, DEFAULT_RECEIPT_BUNDLE_SIZE,
    MIN_PUBLISH_INTERVAL,
};
pub use store::{commit_publish_times, set_last_publish_time};
pub use workflow::{
    begin_publish, publish_dht_ops_workflow, LoopCommand, PublishAction, PublishEvent,
    PublishRequest, PublishState, WorkComplete,
};
