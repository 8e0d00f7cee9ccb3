//! The data the scheduler works on: authored operation records as the store
//! holds them, and the form in which an operation leaves the machine.

use vstd::prelude::*;

verus! {

/// Number of validation receipts after which an operation counts as
/// sufficiently replicated, unless configured otherwise.
pub const DEFAULT_RECEIPT_BUNDLE_SIZE: u8 = 5;

/// Seconds that must pass between two publish attempts of one operation,
/// unless configured otherwise. The scheduler may be triggered as often as
/// anyone likes without flooding the network.
pub const MIN_PUBLISH_INTERVAL: u64 = 300;

/// The kind of an operation record. The kind decides whether the operation
/// carries the body of the entry it refers to.
#[derive(Clone, Copy, Debug, PartialEq, Eq, Hash, Structural)]
pub enum DhtOpType {
    StoreRecord,
    StoreEntry,
    RegisterAgentActivity,
    RegisterUpdatedContent,
    RegisterUpdatedRecord,
    RegisterAddLink,
    RegisterRemoveLink,
}

/// Whether the entry an operation refers to may be seen by others.
#[derive(Clone, Copy, Debug, PartialEq, Eq, Hash, Structural)]
pub enum EntryVisibility {
    Public,
    Private,
}

/// The verdict of validation on an operation. It is assigned elsewhere.
#[derive(Clone, Copy, Debug, PartialEq, Eq, Hash, Structural)]
pub enum ValidationStatus {
    Valid,
    Invalid,
    Pending,
}

/// The two numbers that bound publishing.
#[derive(Clone, Copy, Debug, PartialEq, Eq, Structural)]
pub struct PublishConfig {
    /// Receipts an operation needs before it is left alone for good.
    pub redundancy_factor: u8,
    /// Seconds to wait before the same operation is published again.
    pub min_publish_interval: u64,
}

impl Default for PublishConfig {
    fn default() -> (config: Self)
        ensures
            config.redundancy_factor == DEFAULT_RECEIPT_BUNDLE_SIZE,
            config.min_publish_interval == MIN_PUBLISH_INTERVAL,
    {
        PublishConfig {
            redundancy_factor: DEFAULT_RECEIPT_BUNDLE_SIZE,
            min_publish_interval: MIN_PUBLISH_INTERVAL,
        }
    }
}

/// An authored operation as the store holds it.
#[derive(Clone, Debug, PartialEq, Eq)]
pub struct AuthoredOp {
    /// Content address of the operation.
    pub hash: Vec<u8>,
    pub kind: DhtOpType,
    /// Routing address: the peers near it must receive the operation.
    pub basis: Vec<u8>,
    /// The agent that authored the underlying data.
    pub author: Vec<u8>,
    /// The signed action: chain and graph metadata.
    pub action: Vec<u8>,
    /// The body of the entry the action refers to, where the store has one.
    pub entry: Option<Vec<u8>>,
    /// Visibility of that entry, where the action refers to one.
    pub entry_visibility: Option<EntryVisibility>,
    pub validity_status: ValidationStatus,
    /// Validation receipts collected so far.
    pub receipt_count: u32,
    /// Unix time in seconds of the last successful broadcast, if any.
    pub last_publish_time: Option<u64>,
}

/// What an [`AuthoredOp`] is, mathematically.
pub struct AuthoredOpView {
    pub hash: Seq<u8>,
    pub kind: DhtOpType,
    pub basis: Seq<u8>,
    pub author: Seq<u8>,
    pub action: Seq<u8>,
    pub entry: Option<Seq<u8>>,
    pub entry_visibility: Option<EntryVisibility>,
    pub validity_status: ValidationStatus,
    pub receipt_count: u32,
    pub last_publish_time: Option<u64>,
}

/// The view of an optional byte string.
pub open spec fn option_bytes_view(o: Option<Vec<u8>>) -> Option<Seq<u8>> {
    match o {
        Some(b) => Some(b@),
        None => None,
    }
}

impl View for AuthoredOp {
    type V = AuthoredOpView;

    open spec fn view(&self) -> AuthoredOpView {
        AuthoredOpView {
            hash: self.hash@,
            kind: self.kind,
            basis: self.basis@,
            author: self.author@,
            action: self.action@,
            entry: option_bytes_view(self.entry),
            entry_visibility: self.entry_visibility,
            validity_status: self.validity_status,
            receipt_count: self.receipt_count,
            last_publish_time: self.last_publish_time,
        }
    }
}

/// An operation in the form that is handed to the network: the action, and
/// the entry body only where it may be shown. `entry` is `None` where the
/// body is absent.
#[derive(Clone, Debug, PartialEq, Eq)]
pub struct DhtOp {
    pub kind: DhtOpType,
    pub action: Vec<u8>,
    pub entry: Option<Vec<u8>>,
}

/// What a [`DhtOp`] is, mathematically.
pub struct DhtOpView {
    pub kind: DhtOpType,
    pub action: Seq<u8>,
    pub entry: Option<Seq<u8>>,
}

impl View for DhtOp {
    type V = DhtOpView;

    open spec fn view(&self) -> DhtOpView {
        DhtOpView { kind: self.kind, action: self.action@, entry: option_bytes_view(self.entry) }
    }
}

/// One operation that is due for publishing, with where it goes.
#[derive(Clone, Debug, PartialEq, Eq)]
pub struct PublishItem {
    pub basis: Vec<u8>,
    pub op_hash: Vec<u8>,
    pub op: DhtOp,
}

/// What a [`PublishItem`] is, mathematically.
pub struct PublishItemView {
    pub basis: Seq<u8>,
    pub op_hash: Seq<u8>,
    pub op: DhtOpView,
}

impl View for PublishItem {
    type V = PublishItemView;

    open spec fn view(&self) -> PublishItemView {
        PublishItemView { basis: self.basis@, op_hash: self.op_hash@, op: self.op@ }
    }
}

} // verus!
