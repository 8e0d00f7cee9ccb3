//! One publish round, as a machine that is driven from outside.
//!
//! The round reads the store, broadcasts each group, writes back what was
//! acknowledged and tells the loop that triggers it to go on or to rest. The
//! reading, sending and writing are done by the caller: the machine says what
//! to do next, the caller does it and reports what came of it.

use std::collections::VecDeque;
use vstd::prelude::*;
use crate::bytes::{copy_byte_strings, copy_bytes, views};
use crate::error::{BroadcastFailure, StateQueryError, WorkflowError};
use crate::grouping::{group_by_basis, publish_dht_ops_workflow_inner, BasisGroup, BasisGroupView};
use crate::publish_query::ops_to_publish;
use crate::types::{AuthoredOp, AuthoredOpView, DhtOp, DhtOpView, PublishConfig};

verus! {

/// How a round ended for the one who started it.
#[derive(Clone, Copy, Debug, PartialEq, Eq, Structural)]
pub enum WorkComplete {
    /// Everything that could be done was done.
    Complete,
    /// Call again soon: conditions may have changed.
    Incomplete,
}

/// What the round tells the loop that triggers it.
#[derive(Clone, Copy, Debug, PartialEq, Eq, Structural)]
pub enum LoopCommand {
    /// Run again promptly, without waiting for a trigger.
    Resume,
    /// Wait until something triggers the loop, such as a newly authored
    /// operation.
    Pause,
}

/// One broadcast, as the network sender takes it.
#[derive(Clone, Debug, PartialEq, Eq)]
pub struct PublishRequest {
    pub is_full_announce: bool,
    pub require_receipt: bool,
    pub basis: Vec<u8>,
    pub author: Vec<u8>,
    pub op_hash_list: Vec<Vec<u8>>,
    pub timeout: Option<u64>,
    pub op_data_list: Option<Vec<DhtOp>>,
}

/// What a [`PublishRequest`] is, mathematically.
pub struct PublishRequestView {
    pub is_full_announce: bool,
    pub require_receipt: bool,
    pub basis: Seq<u8>,
    pub author: Seq<u8>,
    pub op_hash_list: Seq<Seq<u8>>,
    pub timeout: Option<u64>,
    pub op_data_list: Option<Seq<DhtOpView>>,
}

impl View for PublishRequest {
    type V = PublishRequestView;

    open spec fn view(&self) -> PublishRequestView {
        PublishRequestView {
            is_full_announce: self.is_full_announce,
            require_receipt: self.require_receipt,
            basis: self.basis@,
            author: self.author@,
            op_hash_list: views(self.op_hash_list@),
            timeout: self.timeout,
            op_data_list: match self.op_data_list {
                Some(list) => Some(views(list@)),
                None => None,
            },
        }
    }
}

/// Where a round stands.
#[derive(Clone, Debug, PartialEq, Eq)]
pub enum PublishState {
    /// Waiting for the store's records.
    Selecting { agent: Vec<u8>, config: PublishConfig },
    /// Waiting for the network's answer on the group whose hashes are
    /// `in_flight`. `queued` holds the groups still to be sent, `succeeded`
    /// the hashes that were acknowledged so far.
    Broadcasting {
        agent: Vec<u8>,
        in_flight: Vec<Vec<u8>>,
        queued: VecDeque<BasisGroup>,
        succeeded: Vec<Vec<u8>>,
        complete: WorkComplete,
    },
    /// Waiting for the store to confirm the timestamps.
    Committing { complete: WorkComplete },
    /// The round is over.
    Finished,
}

/// What a [`PublishState`] is, mathematically.
pub enum PublishStateView {
    Selecting { agent: Seq<u8>, config: PublishConfig },
    Broadcasting {
        agent: Seq<u8>,
        in_flight: Seq<Seq<u8>>,
        queued: Seq<BasisGroupView>,
        succeeded: Seq<Seq<u8>>,
        complete: WorkComplete,
    },
    Committing { complete: WorkComplete },
    Finished,
}

impl View for PublishState {
    type V = PublishStateView;

    open spec fn view(&self) -> PublishStateView {
        match self {
            PublishState::Selecting { agent, config } => PublishStateView::Selecting {
                agent: agent@,
                config: *config,
            },
            PublishState::Broadcasting { agent, in_flight, queued, succeeded, complete } => {
                PublishStateView::Broadcasting {
                    agent: agent@,
                    in_flight: views(in_flight@),
                    queued: views(queued@),
                    succeeded: views(succeeded@),
                    complete: *complete,
                }
            },
            PublishState::Committing { complete } => PublishStateView::Committing {
                complete: *complete,
            },
            PublishState::Finished => PublishStateView::Finished,
        }
    }
}

/// What the caller reports back to the round.
#[derive(Clone, Debug, PartialEq, Eq)]
pub enum PublishEvent {
    /// The store was read: its records, and the time of reading in seconds.
    OpsLoaded { store: Vec<AuthoredOp>, now: u64 },
    /// The store could not be read.
    LoadFailed(StateQueryError),
    /// The network took the broadcast.
    Published,
    /// The network did not take the broadcast.
    PublishFailed(BroadcastFailure),
    /// The timestamps were written. In the same transaction the store counted
    /// the agent's operations that still need publishing.
    Committed { still_needing_publish: usize },
    /// The timestamps could not be written.
    CommitFailed(StateQueryError),
}

/// What a [`PublishEvent`] is, mathematically.
pub enum PublishEventView {
    OpsLoaded { store: Seq<AuthoredOpView>, now: u64 },
    LoadFailed(StateQueryError),
    Published,
    PublishFailed(BroadcastFailure),
    Committed { still_needing_publish: usize },
    CommitFailed(StateQueryError),
}

impl View for PublishEvent {
    type V = PublishEventView;

    open spec fn view(&self) -> PublishEventView {
        match self {
            PublishEvent::OpsLoaded { store, now } => PublishEventView::OpsLoaded {
                store: views(store@),
                now: *now,
            },
            PublishEvent::LoadFailed(e) => PublishEventView::LoadFailed(*e),
            PublishEvent::Published => PublishEventView::Published,
            PublishEvent::PublishFailed(f) => PublishEventView::PublishFailed(*f),
            PublishEvent::Committed { still_needing_publish } => PublishEventView::Committed {
                still_needing_publish: *still_needing_publish,
            },
            PublishEvent::CommitFailed(e) => PublishEventView::CommitFailed(*e),
        }
    }
}

/// What the round asks the caller to do next.
#[derive(Clone, Debug, PartialEq, Eq)]
pub enum PublishAction {
    /// Read the agent's operation records from the store, and the clock.
    LoadOps { agent: Vec<u8> },
    /// Hand this broadcast to the network sender.
    Publish(PublishRequest),
    /// In one transaction: set the time of last publishing of each of these
    /// operations to now, then count the agent's operations that still need
    /// publishing.
    Commit { agent: Vec<u8>, op_hashes: Vec<Vec<u8>> },
    /// The round is over: pass the command on to the loop and return the
    /// signal.
    Finish { command: LoopCommand, complete: WorkComplete },
    /// The round is given up: return the error. The loop is told nothing.
    Fail(WorkflowError),
    /// The event was not expected where the round stands. Nothing changed.
    Nothing,
}

/// What a [`PublishAction`] is, mathematically.
pub enum PublishActionView {
    LoadOps { agent: Seq<u8> },
    Publish(PublishRequestView),
    Commit { agent: Seq<u8>, op_hashes: Seq<Seq<u8>> },
    Finish { command: LoopCommand, complete: WorkComplete },
    Fail(WorkflowError),
    Nothing,
}

impl View for PublishAction {
    type V = PublishActionView;

    open spec fn view(&self) -> PublishActionView {
        match self {
            PublishAction::LoadOps { agent } => PublishActionView::LoadOps { agent: agent@ },
            PublishAction::Publish(request) => PublishActionView::Publish(request@),
            PublishAction::Commit { agent, op_hashes } => PublishActionView::Commit {
                agent: agent@,
                op_hashes: views(op_hashes@),
            },
            PublishAction::Finish { command, complete } => PublishActionView::Finish {
                command: *command,
                complete: *complete,
            },
            PublishAction::Fail(e) => PublishActionView::Fail(*e),
            PublishAction::Nothing => PublishActionView::Nothing,
        }
    }
}

/// The broadcast of one group: a full announce that asks for no receipt,
/// with the agent as author, no timeout of its own, and the published forms
/// beside the hashes.
pub open spec fn request_for(agent: Seq<u8>, group: BasisGroupView) -> PublishRequestView {
    PublishRequestView {
        is_full_announce: true,
        require_receipt: false,
        basis: group.basis,
        author: agent,
        op_hash_list: group.op_hash_list,
        timeout: None,
        op_data_list: Some(group.op_data_list),
    }
}

/// What follows once a group is settled: the next group in the queue is
/// sent, or, with none left, the acknowledged hashes are committed.
pub open spec fn send_next(
    agent: Seq<u8>,
    queued: Seq<BasisGroupView>,
    succeeded: Seq<Seq<u8>>,
    complete: WorkComplete,
) -> (PublishStateView, PublishActionView) {
    if queued.len() == 0 {
        (
            PublishStateView::Committing { complete },
            PublishActionView::Commit { agent, op_hashes: succeeded },
        )
    } else {
        (
            PublishStateView::Broadcasting {
                agent,
                in_flight: queued[0].op_hash_list,
                queued: queued.subrange(1, queued.len() as int),
                succeeded,
                complete,
            },
            PublishActionView::Publish(request_for(agent, queued[0])),
        )
    }
}

/// The signal of the round after one more broadcast failed.
pub open spec fn after_failure(complete: WorkComplete, failure: BroadcastFailure) -> WorkComplete {
    match failure {
        BroadcastFailure::RoutingNotReady => WorkComplete::Incomplete,
        BroadcastFailure::Other => complete,
    }
}

/// The command for the loop, given how many operations still need
/// publishing.
pub open spec fn cadence(still_needing_publish: nat) -> LoopCommand {
    if still_needing_publish > 0 {
        LoopCommand::Resume
    } else {
        LoopCommand::Pause
    }
}

/// The round's rule: where it goes from a state on an event, and what it
/// asks for.
///
/// - The store's records arrive: the due operations are selected and
///   batched, and the first group is sent. A store that cannot be read ends
///   the round with the error, and nothing was changed.
/// - A broadcast is acknowledged: its hashes count as succeeded. It fails:
///   they do not, and if routing was not ready the round will end as
///   incomplete. Either way the next group is sent.
/// - The store confirms the commit: the loop is resumed if operations still
///   need publishing and paused if not, and the round ends with its signal.
///   A commit that fails ends the round with the error.
/// - Any other event leaves the round where it is.
pub open spec fn step(state: PublishStateView, event: PublishEventView) -> (
    PublishStateView,
    PublishActionView,
) {
    match state {
        PublishStateView::Selecting { agent, config } => match event {
            PublishEventView::OpsLoaded { store, now } => send_next(
                agent,
                group_by_basis(ops_to_publish(store, agent, now, config)),
                Seq::empty(),
                WorkComplete::Complete,
            ),
            PublishEventView::LoadFailed(e) => (
                PublishStateView::Finished,
                PublishActionView::Fail(WorkflowError::Selection(e)),
            ),
            _ => (state, PublishActionView::Nothing),
        },
        PublishStateView::Broadcasting { agent, in_flight, queued, succeeded, complete } => match event {
            PublishEventView::Published => send_next(agent, queued, succeeded + in_flight, complete),
            PublishEventView::PublishFailed(failure) => send_next(
                agent,
                queued,
                succeeded,
                after_failure(complete, failure),
            ),
            _ => (state, PublishActionView::Nothing),
        },
        PublishStateView::Committing { complete } => match event {
            PublishEventView::Committed { still_needing_publish } => (
                PublishStateView::Finished,
                PublishActionView::Finish {
                    command: cadence(still_needing_publish as nat),
                    complete,
                },
            ),
            PublishEventView::CommitFailed(e) => (
                PublishStateView::Finished,
                PublishActionView::Fail(WorkflowError::Commit(e)),
            ),
            _ => (state, PublishActionView::Nothing),
        },
        PublishStateView::Finished => (state, PublishActionView::Nothing),
    }
}

/// Where a round starts, and its first request.
pub open spec fn start(agent: Seq<u8>, config: PublishConfig) -> (PublishStateView, PublishActionView) {
    (PublishStateView::Selecting { agent, config }, PublishActionView::LoadOps { agent })
}

/// Starts a round for the agent: the caller is to read the store.
pub fn begin_publish(agent: Vec<u8>, config: PublishConfig) -> (first: (PublishState, PublishAction))
    ensures
        (first.0@, first.1@) == start(agent@, config),
{
    let asked = copy_bytes(&agent);
    (PublishState::Selecting { agent, config }, PublishAction::LoadOps { agent: asked })
}

/// Decides whether the loop is to go on, from the count of operations that
/// still need publishing.
pub fn loop_command(still_needing_publish: usize) -> (command: LoopCommand)
    ensures
        command == cadence(still_needing_publish as nat),
{
    if still_needing_publish > 0 {
        LoopCommand::Resume
    } else {
        LoopCommand::Pause
    }
}

/// Lines the groups up for sending, first group first.
fn into_queue(groups: Vec<BasisGroup>) -> (queued: VecDeque<BasisGroup>)
    ensures
        queued@ == groups@,
{
    let mut queued: VecDeque<BasisGroup> = VecDeque::new();
    let ghost all = groups@;
    for group in it: groups.into_iter()
        invariant
            it.seq() == all,
            queued@ == all.take(it.index() as int),
    {
        queued.push_back(group);
        assert(all.take(it.index() + 1) =~= all.take(it.index() as int).push(group));
    }
    assert(all.take(all.len() as int) =~= all);
    queued
}

/// Sends the next group in the queue or, with none left, asks for the
/// commit.
fn dispatch(
    agent: Vec<u8>,
    queued: VecDeque<BasisGroup>,
    succeeded: Vec<Vec<u8>>,
    complete: WorkComplete,
) -> (next: (PublishState, PublishAction))
    ensures
        (next.0@, next.1@) == send_next(agent@, views(queued@), views(succeeded@), complete),
{
    let mut queued = queued;
    let ghost before = queued@;
    match queued.pop_front() {
        Some(group) => {
            let request = PublishRequest {
                is_full_announce: true,
                require_receipt: false,
                basis: group.basis,
                author: copy_bytes(&agent),
                op_hash_list: copy_byte_strings(&group.op_hash_list),
                timeout: None,
                op_data_list: Some(group.op_data_list),
            };
            proof {
                assert(views(queued@) =~= views(before).subrange(1, before.len() as int));
                assert(views(before)[0] == group@);
            }
            (
                PublishState::Broadcasting {
                    agent,
                    in_flight: group.op_hash_list,
                    queued,
                    succeeded,
                    complete,
                },
                PublishAction::Publish(request),
            )
        },
        None => {
            assert(views(before).len() == 0);
            (PublishState::Committing { complete }, PublishAction::Commit { agent, op_hashes: succeeded })
        },
    }
}

/// Advances a publish round by one event and says what to do next. The
/// result is exactly what [`step`] gives on the views of state and event.
pub fn publish_dht_ops_workflow(state: PublishState, event: PublishEvent) -> (next: (
    PublishState,
    PublishAction,
))
    ensures
        (next.0@, next.1@) == step(state@, event@),
{
    match state {
        PublishState::Selecting { agent, config } => match event {
            PublishEvent::OpsLoaded { store, now } => {
                let to_publish = publish_dht_ops_workflow_inner(&agent, &store, now, &config);
                let queued = into_queue(to_publish);
                let succeeded: Vec<Vec<u8>> = Vec::new();
                assert(views(succeeded@) =~= Seq::<Seq<u8>>::empty());
                dispatch(agent, queued, succeeded, WorkComplete::Complete)
            },
            PublishEvent::LoadFailed(e) => (
                PublishState::Finished,
                PublishAction::Fail(WorkflowError::Selection(e)),
            ),
            _ => (PublishState::Selecting { agent, config }, PublishAction::Nothing),
        },
        PublishState::Broadcasting { agent, in_flight, queued, succeeded, complete } => match event {
            PublishEvent::Published => {
                let mut succeeded = succeeded;
                let mut in_flight = in_flight;
                let ghost sent = views(in_flight@);
                let ghost had = views(succeeded@);
                succeeded.append(&mut in_flight);
                assert(views(succeeded@) =~= had + sent);
                dispatch(agent, queued, succeeded, complete)
            },
            PublishEvent::PublishFailed(failure) => {
                let complete = match failure {
                    BroadcastFailure::RoutingNotReady => WorkComplete::Incomplete,
                    BroadcastFailure::Other => complete,
                };
                dispatch(agent, queued, succeeded, complete)
            },
            _ => (
                PublishState::Broadcasting { agent, in_flight, queued, succeeded, complete },
                PublishAction::Nothing,
            ),
        },
        PublishState::Committing { complete } => match event {
            PublishEvent::Committed { still_needing_publish } => (
                PublishState::Finished,
                PublishAction::Finish { command: loop_command(still_needing_publish), complete },
            ),
            PublishEvent::CommitFailed(e) => (
                PublishState::Finished,
                PublishAction::Fail(WorkflowError::Commit(e)),
            ),
            _ => (PublishState::Committing { complete }, PublishAction::Nothing),
        },
        PublishState::Finished => (PublishState::Finished, PublishAction::Nothing),
    }
}

} // verus!
