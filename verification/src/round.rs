//! A whole round, seen from above: what is sent, what is committed and how
//! the round ends, given the store and the network's answers.

use vstd::prelude::*;
use crate::error::BroadcastFailure;
use crate::grouping::{group_by_basis, BasisGroupView};
use crate::publish_query::{backlog_len, ops_to_publish};
use crate::store::store_after_commit;
use crate::types::{AuthoredOpView, PublishConfig};
use crate::workflow::{
    after_failure, cadence, request_for, send_next, step, LoopCommand, PublishActionView,
    PublishEventView, PublishRequestView, PublishStateView, WorkComplete,
};

verus! {

/// The event that reports the network's answer to a broadcast.
pub open spec fn outcome_event(outcome: Result<(), BroadcastFailure>) -> PublishEventView {
    match outcome {
        Ok(_) => PublishEventView::Published,
        Err(failure) => PublishEventView::PublishFailed(failure),
    }
}

/// The request that sends a group.
pub open spec fn publish_action(agent: Seq<u8>, group: BasisGroupView) -> PublishActionView {
    PublishActionView::Publish(request_for(agent, group))
}

/// Feeds a sequence of events to the round, one after the other: the state
/// reached, and the actions asked for on the way.
pub open spec fn run(state: PublishStateView, events: Seq<PublishEventView>) -> (
    PublishStateView,
    Seq<PublishActionView>,
)
    decreases events.len(),
{
    if events.len() == 0 {
        (state, Seq::empty())
    } else {
        let before = run(state, events.drop_last());
        let last = step(before.0, events.last());
        (last.0, before.1.push(last.1))
    }
}

/// The hashes of the groups whose broadcast was acknowledged, group after
/// group. `outcomes[k]` is the network's answer on `groups[k]`.
pub open spec fn acknowledged(
    groups: Seq<BasisGroupView>,
    outcomes: Seq<Result<(), BroadcastFailure>>,
) -> Seq<Seq<u8>>
    decreases outcomes.len(),
{
    if outcomes.len() == 0 {
        Seq::empty()
    } else {
        let before = acknowledged(groups, outcomes.drop_last());
        if outcomes.last() is Ok && outcomes.len() <= groups.len() {
            before + groups[outcomes.len() - 1].op_hash_list
        } else {
            before
        }
    }
}

/// The signal of a round with these answers: incomplete as soon as one
/// broadcast found routing not ready.
pub open spec fn signal_after(outcomes: Seq<Result<(), BroadcastFailure>>) -> WorkComplete
    decreases outcomes.len(),
{
    if outcomes.len() == 0 {
        WorkComplete::Complete
    } else {
        match outcomes.last() {
            Ok(_) => signal_after(outcomes.drop_last()),
            Err(failure) => after_failure(signal_after(outcomes.drop_last()), failure),
        }
    }
}

/// What a round comes to.
pub struct RoundView {
    /// The broadcasts handed to the network, in order.
    pub requests: Seq<PublishRequestView>,
    /// The hashes whose time of last publishing was set.
    pub committed: Seq<Seq<u8>>,
    /// The store after the commit.
    pub store: Seq<AuthoredOpView>,
    /// What the loop was told.
    pub command: LoopCommand,
    /// What the caller was told.
    pub complete: WorkComplete,
}

/// The round on `store` for `agent`: the store is read at `now`, the network
/// answers the broadcast of the k-th group with `outcomes[k]`, and the commit
/// happens at `commit_time`.
pub open spec fn round(
    store: Seq<AuthoredOpView>,
    agent: Seq<u8>,
    now: u64,
    commit_time: u64,
    config: PublishConfig,
    outcomes: Seq<Result<(), BroadcastFailure>>,
) -> RoundView {
    let groups = group_by_basis(ops_to_publish(store, agent, now, config));
    let committed = acknowledged(groups, outcomes);
    let after = store_after_commit(store, committed, commit_time);
    RoundView {
        requests: groups.map_values(|group: BasisGroupView| request_for(agent, group)),
        committed,
        store: after,
        command: cadence(backlog_len(after, agent, config)),
        complete: signal_after(outcomes),
    }
}

/// The events of that round, as the caller reports them.
pub open spec fn round_events(
    store: Seq<AuthoredOpView>,
    now: u64,
    outcomes: Seq<Result<(), BroadcastFailure>>,
    still_needing_publish: usize,
) -> Seq<PublishEventView> {
    seq![PublishEventView::OpsLoaded { store, now }] + outcomes.map_values(
        |outcome: Result<(), BroadcastFailure>| outcome_event(outcome),
    ) + seq![PublishEventView::Committed { still_needing_publish }]
}

/// The actions of that round, as the caller is asked for them.
pub open spec fn round_actions(agent: Seq<u8>, summary: RoundView) -> Seq<PublishActionView> {
    summary.requests.map_values(|request: PublishRequestView| PublishActionView::Publish(request))
        + seq![
        PublishActionView::Commit { agent, op_hashes: summary.committed },
        PublishActionView::Finish { command: summary.command, complete: summary.complete },
    ]
}

/// Running one more event.
pub proof fn lemma_run_push(
    state: PublishStateView,
    events: Seq<PublishEventView>,
    event: PublishEventView,
)
    ensures
        run(state, events.push(event)) == (
            step(run(state, events).0, event).0,
            run(state, events).1.push(step(run(state, events).0, event).1),
        ),
{
    assert(events.push(event).drop_last() =~= events);
}

/// Where the round stands once the store was read and the first `k`
/// broadcasts were answered: the groups up to the k-th were sent, and either
/// the k-th is in flight or, with none left, the commit was asked for.
proof fn lemma_broadcast_phase(
    store: Seq<AuthoredOpView>,
    agent: Seq<u8>,
    now: u64,
    config: PublishConfig,
    outcomes: Seq<Result<(), BroadcastFailure>>,
    k: int,
)
    requires
        0 <= k <= outcomes.len(),
        outcomes.len() == group_by_basis(ops_to_publish(store, agent, now, config)).len(),
    ensures
        ({
            let groups = group_by_basis(ops_to_publish(store, agent, now, config));
            let events = seq![PublishEventView::OpsLoaded { store, now }] + outcomes.take(
                k,
            ).map_values(|outcome: Result<(), BroadcastFailure>| outcome_event(outcome));
            let ahead = send_next(
                agent,
                groups.subrange(k, groups.len() as int),
                acknowledged(groups, outcomes.take(k)),
                signal_after(outcomes.take(k)),
            );
            run(PublishStateView::Selecting { agent, config }, events) == (
                ahead.0,
                groups.take(k).map_values(|group: BasisGroupView| publish_action(agent, group)).push(
                    ahead.1,
                ),
            )
        }),
    decreases k,
{
    let groups = group_by_basis(ops_to_publish(store, agent, now, config));
    let n = groups.len() as int;
    let first = PublishStateView::Selecting { agent, config };
    let loaded = PublishEventView::OpsLoaded { store, now };
    let to_event = |outcome: Result<(), BroadcastFailure>| outcome_event(outcome);
    let to_action = |group: BasisGroupView| publish_action(agent, group);
    let events = seq![loaded] + outcomes.take(k).map_values(to_event);
    let ahead = send_next(
        agent,
        groups.subrange(k, n),
        acknowledged(groups, outcomes.take(k)),
        signal_after(outcomes.take(k)),
    );
    if k == 0 {
        assert(events =~= Seq::<PublishEventView>::empty().push(loaded));
        lemma_run_push(first, Seq::empty(), loaded);
        assert(groups.subrange(0, n) =~= groups);
        assert(groups.take(0).map_values(to_action).push(ahead.1) =~= Seq::<
            PublishActionView,
        >::empty().push(ahead.1));
    } else {
        let j = k - 1;
        lemma_broadcast_phase(store, agent, now, config, outcomes, j);
        let earlier = seq![loaded] + outcomes.take(j).map_values(to_event);
        let behind = send_next(
            agent,
            groups.subrange(j, n),
            acknowledged(groups, outcomes.take(j)),
            signal_after(outcomes.take(j)),
        );
        let event = outcome_event(outcomes[j]);
        assert(events =~= earlier.push(event));
        lemma_run_push(first, earlier, event);
        assert(outcomes.take(k).drop_last() =~= outcomes.take(j));
        assert(outcomes.take(k).last() == outcomes[j]);
        assert(groups.subrange(j, n)[0] == groups[j]);
        assert(groups.subrange(j, n).subrange(1, n - j) =~= groups.subrange(k, n));
        assert(step(behind.0, event) == ahead);
        assert(behind.1 == publish_action(agent, groups[j]));
        assert(groups.take(j).map_values(to_action).push(behind.1) =~= groups.take(k).map_values(
            to_action,
        ));
    }
}

/// A round runs as [`round`] says. Driven with the events of a round, the
/// machine asks for the broadcast of each group once, in order, whatever the
/// network answers; then for the commit of exactly the acknowledged hashes;
/// then it finishes with the command and the signal of the round.
pub proof fn law_round_trace(
    store: Seq<AuthoredOpView>,
    agent: Seq<u8>,
    now: u64,
    commit_time: u64,
    config: PublishConfig,
    outcomes: Seq<Result<(), BroadcastFailure>>,
    still_needing_publish: usize,
)
    requires
        outcomes.len() == group_by_basis(ops_to_publish(store, agent, now, config)).len(),
        still_needing_publish == backlog_len(
            round(store, agent, now, commit_time, config, outcomes).store,
            agent,
            config,
        ),
    ensures
        run(
            PublishStateView::Selecting { agent, config },
            round_events(store, now, outcomes, still_needing_publish),
        ) == (
            PublishStateView::Finished,
            round_actions(agent, round(store, agent, now, commit_time, config, outcomes)),
        ),
{
    let groups = group_by_basis(ops_to_publish(store, agent, now, config));
    let n = groups.len() as int;
    let summary = round(store, agent, now, commit_time, config, outcomes);
    let first = PublishStateView::Selecting { agent, config };
    let loaded = PublishEventView::OpsLoaded { store, now };
    let to_event = |outcome: Result<(), BroadcastFailure>| outcome_event(outcome);
    let to_action = |group: BasisGroupView| publish_action(agent, group);
    let committed = PublishEventView::Committed { still_needing_publish };
    lemma_broadcast_phase(store, agent, now, config, outcomes, n);
    assert(outcomes.take(n) =~= outcomes);
    assert(groups.take(n) =~= groups);
    assert(groups.subrange(n, n) =~= Seq::<BasisGroupView>::empty());
    let sent = seq![loaded] + outcomes.map_values(to_event);
    assert(round_events(store, now, outcomes, still_needing_publish) =~= sent.push(committed));
    lemma_run_push(first, sent, committed);
    let commit = PublishActionView::Commit { agent, op_hashes: summary.committed };
    let finish = PublishActionView::Finish { command: summary.command, complete: summary.complete };
    assert(round_actions(agent, summary) =~= groups.map_values(to_action).push(commit).push(finish));
}

} // verus!
