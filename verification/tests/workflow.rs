use std::collections::VecDeque;

use publish_dht_ops::workflow::loop_command;
use publish_dht_ops::{
    begin_publish, commit_publish_times, get_ops_to_publish, publish_dht_ops_workflow,
    set_last_publish_time, AuthoredOp, BroadcastFailure, DhtOp, DhtOpType, EntryVisibility,
    LoopCommand, PublishAction, PublishConfig, PublishEvent, PublishRequest, PublishState,
    StateQueryError, ValidationStatus, WorkComplete, WorkflowError,
};

const AGENT: [u8; 4] = [0xA9, 1, 2, 3];
const NOW: u64 = 1_700_000_000;

fn record(id: u8, kind: DhtOpType, basis: u8) -> AuthoredOp {
    AuthoredOp {
        hash: vec![0xD0, id],
        kind,
        basis: vec![0xB0, basis],
        author: AGENT.to_vec(),
        action: vec![0xA0, id],
        entry: None,
        entry_visibility: None,
        validity_status: ValidationStatus::Valid,
        receipt_count: 0,
        last_publish_time: None,
    }
}

fn link(id: u8, basis: u8) -> AuthoredOp {
    record(id, DhtOpType::RegisterAddLink, basis)
}

fn private(id: u8, kind: DhtOpType, basis: u8) -> AuthoredOp {
    let mut op = record(id, kind, basis);
    op.entry = Some(vec![0xE0, id, 0x5E, 0xC2, 0xE7]);
    op.entry_visibility = Some(EntryVisibility::Private);
    op
}

fn hash(id: u8) -> Vec<u8> {
    vec![0xD0, id]
}

fn basis(b: u8) -> Vec<u8> {
    vec![0xB0, b]
}

/// What a round did, as its caller saw it.
struct Report {
    requests: Vec<PublishRequest>,
    committed: Option<Vec<Vec<u8>>>,
    command: Option<LoopCommand>,
    outcome: Result<WorkComplete, WorkflowError>,
}

/// Drives one round against a store in memory and a network that answers
/// each broadcast through `network`.
fn run_round(
    store: &mut Vec<AuthoredOp>,
    config: PublishConfig,
    now: u64,
    commit_time: u64,
    mut network: impl FnMut(&PublishRequest) -> Result<(), BroadcastFailure>,
) -> Report {
    let mut report =
        Report { requests: Vec::new(), committed: None, command: None, outcome: Ok(WorkComplete::Complete) };
    let (mut state, mut action) = begin_publish(AGENT.to_vec(), config);
    loop {
        let event = match action {
            PublishAction::LoadOps { agent } => {
                assert_eq!(agent, AGENT.to_vec());
                PublishEvent::OpsLoaded { store: store.clone(), now }
            }
            PublishAction::Publish(request) => {
                let answer = network(&request);
                report.requests.push(request);
                match answer {
                    Ok(()) => PublishEvent::Published,
                    Err(failure) => PublishEvent::PublishFailed(failure),
                }
            }
            PublishAction::Commit { agent, op_hashes } => {
                assert!(report.committed.is_none());
                let still = commit_publish_times(store, &op_hashes, &agent, commit_time, &config);
                report.committed = Some(op_hashes);
                PublishEvent::Committed { still_needing_publish: still }
            }
            PublishAction::Finish { command, complete } => {
                assert_eq!(state, PublishState::Finished);
                report.command = Some(command);
                report.outcome = Ok(complete);
                return report;
            }
            PublishAction::Fail(error) => {
                assert_eq!(state, PublishState::Finished);
                report.outcome = Err(error);
                return report;
            }
            PublishAction::Nothing => panic!("the round ignored an event it had asked for"),
        };
        let next = publish_dht_ops_workflow(state, event);
        state = next.0;
        action = next.1;
    }
}

fn all_query_errors() -> Vec<StateQueryError> {
    vec![
        StateQueryError::Sql("no such table: DhtOp".to_string()),
        StateQueryError::DatabaseError("database is locked".to_string()),
        StateQueryError::SerializedBytesError("invalid type".to_string()),
        StateQueryError::DhtOpError("action without entry".to_string()),
        StateQueryError::UnexpectedOp(DhtOpType::StoreEntry),
        StateQueryError::UnexpectedAction("Dna".to_string()),
        StateQueryError::WrongActionError("expected Create".to_string()),
        StateQueryError::ActionError("rebase".to_string()),
        StateQueryError::SyncScratchError("poisoned".to_string()),
        StateQueryError::Other("anything".to_string()),
    ]
}

#[test]
fn a_round_starts_by_asking_for_the_store() {
    let (state, action) = begin_publish(AGENT.to_vec(), PublishConfig::default());
    assert_eq!(
        state,
        PublishState::Selecting { agent: AGENT.to_vec(), config: PublishConfig::default() }
    );
    assert_eq!(action, PublishAction::LoadOps { agent: AGENT.to_vec() });
}

#[test]
fn each_group_is_broadcast_as_a_full_announce_without_receipt() {
    let mut store = vec![link(1, 1), link(2, 2), link(3, 1)];
    let report = run_round(&mut store, PublishConfig::default(), NOW, NOW + 1, |_| Ok(()));
    let data = |id: u8| DhtOp { kind: DhtOpType::RegisterAddLink, action: vec![0xA0, id], entry: None };
    assert_eq!(
        report.requests,
        vec![
            PublishRequest {
                is_full_announce: true,
                require_receipt: false,
                basis: basis(1),
                author: AGENT.to_vec(),
                op_hash_list: vec![hash(1), hash(3)],
                timeout: None,
                op_data_list: Some(vec![data(1), data(3)]),
            },
            PublishRequest {
                is_full_announce: true,
                require_receipt: false,
                basis: basis(2),
                author: AGENT.to_vec(),
                op_hash_list: vec![hash(2)],
                timeout: None,
                op_data_list: Some(vec![data(2)]),
            },
        ]
    );
    assert_eq!(report.committed, Some(vec![hash(1), hash(3), hash(2)]));
    assert_eq!(report.outcome, Ok(WorkComplete::Complete));
}

#[test]
fn acknowledged_operations_get_the_commit_time() {
    let mut store = vec![link(1, 1), link(2, 2)];
    let report = run_round(&mut store, PublishConfig::default(), NOW, NOW + 7, |_| Ok(()));
    assert_eq!(report.outcome, Ok(WorkComplete::Complete));
    assert_eq!(store[0].last_publish_time, Some(NOW + 7));
    assert_eq!(store[1].last_publish_time, Some(NOW + 7));
    let mut expected = vec![link(1, 1), link(2, 2)];
    expected[0].last_publish_time = Some(NOW + 7);
    expected[1].last_publish_time = Some(NOW + 7);
    assert_eq!(store, expected);
}

#[test]
fn routing_not_ready_on_one_basis_leaves_the_others_alone() {
    let mut store = vec![link(1, 1), link(2, 2), link(3, 1), link(4, 3)];
    let report = run_round(&mut store, PublishConfig::default(), NOW, NOW + 1, |request| {
        if request.basis == basis(1) {
            Err(BroadcastFailure::RoutingNotReady)
        } else {
            Ok(())
        }
    });
    assert_eq!(report.requests.len(), 3);
    assert_eq!(report.committed, Some(vec![hash(2), hash(4)]));
    assert_eq!(report.outcome, Ok(WorkComplete::Incomplete));
    assert_eq!(store[0].last_publish_time, None);
    assert_eq!(store[2].last_publish_time, None);
    assert_eq!(store[1].last_publish_time, Some(NOW + 1));
    assert_eq!(store[3].last_publish_time, Some(NOW + 1));
    assert_eq!(report.command, Some(LoopCommand::Resume));
}

#[test]
fn routing_not_ready_on_the_last_basis_still_commits_the_first() {
    let mut store = vec![link(1, 1), link(2, 2)];
    let report = run_round(&mut store, PublishConfig::default(), NOW, NOW + 1, |request| {
        if request.basis == basis(2) {
            Err(BroadcastFailure::RoutingNotReady)
        } else {
            Ok(())
        }
    });
    assert_eq!(report.committed, Some(vec![hash(1)]));
    assert_eq!(report.outcome, Ok(WorkComplete::Incomplete));
    assert_eq!(store[0].last_publish_time, Some(NOW + 1));
    assert_eq!(store[1].last_publish_time, None);
}

#[test]
fn a_failed_operation_keeps_its_old_publish_time() {
    let mut old = link(1, 1);
    old.last_publish_time = Some(NOW - 1000);
    let mut store = vec![old, link(2, 2)];
    let report = run_round(&mut store, PublishConfig::default(), NOW, NOW + 1, |request| {
        if request.basis == basis(1) {
            Err(BroadcastFailure::RoutingNotReady)
        } else {
            Ok(())
        }
    });
    assert_eq!(report.outcome, Ok(WorkComplete::Incomplete));
    assert_eq!(store[0].last_publish_time, Some(NOW - 1000));
    assert_eq!(store[1].last_publish_time, Some(NOW + 1));
}

#[test]
fn another_failure_drops_the_group_and_the_round_is_complete() {
    let mut store = vec![link(1, 1), link(2, 2)];
    let report = run_round(&mut store, PublishConfig::default(), NOW, NOW + 1, |request| {
        if request.basis == basis(1) {
            Err(BroadcastFailure::Other)
        } else {
            Ok(())
        }
    });
    assert_eq!(report.requests.len(), 2);
    assert_eq!(report.committed, Some(vec![hash(2)]));
    assert_eq!(report.outcome, Ok(WorkComplete::Complete));
    assert_eq!(store[0].last_publish_time, None);
    assert_eq!(store[1].last_publish_time, Some(NOW + 1));
    let again = run_round(&mut store, PublishConfig::default(), NOW + 2, NOW + 3, |_| Ok(()));
    assert_eq!(again.requests.len(), 1);
    assert_eq!(again.requests[0].op_hash_list, vec![hash(1)]);
}

#[test]
fn a_later_success_does_not_undo_routing_not_ready() {
    let mut store = vec![link(1, 1), link(2, 2), link(3, 3)];
    let mut answers = VecDeque::from(vec![
        Err(BroadcastFailure::RoutingNotReady),
        Err(BroadcastFailure::Other),
        Ok(()),
    ]);
    let report = run_round(&mut store, PublishConfig::default(), NOW, NOW + 1, |_| {
        answers.pop_front().unwrap()
    });
    assert_eq!(report.committed, Some(vec![hash(3)]));
    assert_eq!(report.outcome, Ok(WorkComplete::Incomplete));
}

#[test]
fn every_broadcast_failing_commits_nothing() {
    let mut store = vec![link(1, 1), link(2, 2)];
    let before = store.clone();
    let report = run_round(&mut store, PublishConfig::default(), NOW, NOW + 1, |_| {
        Err(BroadcastFailure::Other)
    });
    assert_eq!(report.requests.len(), 2);
    assert_eq!(report.committed, Some(Vec::new()));
    assert_eq!(report.outcome, Ok(WorkComplete::Complete));
    assert_eq!(report.command, Some(LoopCommand::Resume));
    assert_eq!(store, before);
}

#[test]
fn second_round_within_the_interval_broadcasts_nothing() {
    let mut store = vec![link(1, 1), link(2, 2), link(3, 1)];
    let first = run_round(&mut store, PublishConfig::default(), NOW, NOW + 1, |_| Ok(()));
    assert_eq!(first.requests.len(), 2);
    let after_first = store.clone();
    for later in [NOW + 1, NOW + 2, NOW + 150, NOW + 300] {
        let second = run_round(&mut store, PublishConfig::default(), later, later + 1, |_| {
            panic!("published, when expecting not to")
        });
        assert_eq!(second.requests.len(), 0);
        assert_eq!(second.committed, Some(Vec::new()));
        assert_eq!(second.outcome, Ok(WorkComplete::Complete));
        assert_eq!(store, after_first);
    }
}

#[test]
fn after_the_interval_unreceipted_operations_go_out_again() {
    let mut store = vec![link(1, 1), link(2, 2)];
    run_round(&mut store, PublishConfig::default(), NOW, NOW + 1, |_| Ok(()));
    store[1].receipt_count = 5;
    let again = run_round(&mut store, PublishConfig::default(), NOW + 301, NOW + 302, |_| Ok(()));
    assert_eq!(again.requests.len(), 1);
    assert_eq!(again.requests[0].op_hash_list, vec![hash(1)]);
    assert_eq!(store[0].last_publish_time, Some(NOW + 302));
    assert_eq!(store[1].last_publish_time, Some(NOW + 1));
}

#[test]
fn backlog_resumes_the_loop_and_none_pauses_it() {
    assert_eq!(loop_command(0), LoopCommand::Pause);
    assert_eq!(loop_command(1), LoopCommand::Resume);
    assert_eq!(loop_command(usize::MAX), LoopCommand::Resume);
    for (count, command) in [(0usize, LoopCommand::Pause), (1, LoopCommand::Resume), (17, LoopCommand::Resume)] {
        for complete in [WorkComplete::Complete, WorkComplete::Incomplete] {
            let (state, action) = publish_dht_ops_workflow(
                PublishState::Committing { complete },
                PublishEvent::Committed { still_needing_publish: count },
            );
            assert_eq!(state, PublishState::Finished);
            assert_eq!(action, PublishAction::Finish { command, complete });
        }
    }
}

#[test]
fn a_round_with_receipts_outstanding_resumes_the_loop() {
    let mut store = vec![link(1, 1)];
    let report = run_round(&mut store, PublishConfig::default(), NOW, NOW + 1, |_| Ok(()));
    assert_eq!(report.command, Some(LoopCommand::Resume));
}

#[test]
fn a_round_with_nothing_left_to_publish_pauses_the_loop() {
    let mut done = link(1, 1);
    done.receipt_count = 5;
    let mut theirs = link(2, 1);
    theirs.author = vec![9];
    let mut store = vec![done, theirs, private(3, DhtOpType::StoreEntry, 1)];
    let report = run_round(&mut store, PublishConfig::default(), NOW, NOW + 1, |_| {
        panic!("published, when expecting not to")
    });
    assert_eq!(report.requests.len(), 0);
    assert_eq!(report.command, Some(LoopCommand::Pause));
    assert_eq!(report.outcome, Ok(WorkComplete::Complete));
    let mut empty = Vec::new();
    let report = run_round(&mut empty, PublishConfig::default(), NOW, NOW + 1, |_| Ok(()));
    assert_eq!(report.command, Some(LoopCommand::Pause));
}

#[test]
fn a_store_that_cannot_be_read_ends_the_round_untouched() {
    for error in all_query_errors() {
        let (state, _) = begin_publish(AGENT.to_vec(), PublishConfig::default());
        let (state, action) = publish_dht_ops_workflow(state, PublishEvent::LoadFailed(error.clone()));
        assert_eq!(state, PublishState::Finished);
        assert_eq!(action, PublishAction::Fail(WorkflowError::Selection(error)));
    }
}

#[test]
fn a_commit_that_fails_ends_the_round_with_the_error() {
    for error in all_query_errors() {
        for complete in [WorkComplete::Complete, WorkComplete::Incomplete] {
            let (state, action) = publish_dht_ops_workflow(
                PublishState::Committing { complete },
                PublishEvent::CommitFailed(error.clone()),
            );
            assert_eq!(state, PublishState::Finished);
            assert_eq!(action, PublishAction::Fail(WorkflowError::Commit(error.clone())));
        }
    }
}

#[test]
fn a_failed_commit_after_broadcasts_can_be_run_again() {
    let store = vec![link(1, 1)];
    let (state, _) = begin_publish(AGENT.to_vec(), PublishConfig::default());
    let (state, action) =
        publish_dht_ops_workflow(state, PublishEvent::OpsLoaded { store: store.clone(), now: NOW });
    assert!(matches!(action, PublishAction::Publish(_)));
    let (state, action) = publish_dht_ops_workflow(state, PublishEvent::Published);
    assert_eq!(action, PublishAction::Commit { agent: AGENT.to_vec(), op_hashes: vec![hash(1)] });
    let error = StateQueryError::DatabaseError("disk full".to_string());
    let (state, action) = publish_dht_ops_workflow(state, PublishEvent::CommitFailed(error.clone()));
    assert_eq!(state, PublishState::Finished);
    assert_eq!(action, PublishAction::Fail(WorkflowError::Commit(error)));
    let mut store = store;
    let report = run_round(&mut store, PublishConfig::default(), NOW + 1, NOW + 2, |_| Ok(()));
    assert_eq!(report.requests.len(), 1);
    assert_eq!(report.committed, Some(vec![hash(1)]));
}

#[test]
fn events_out_of_turn_change_nothing() {
    let selecting = PublishState::Selecting { agent: AGENT.to_vec(), config: PublishConfig::default() };
    let broadcasting = PublishState::Broadcasting {
        agent: AGENT.to_vec(),
        in_flight: vec![hash(1)],
        queued: VecDeque::new(),
        succeeded: vec![hash(2)],
        complete: WorkComplete::Incomplete,
    };
    let committing = PublishState::Committing { complete: WorkComplete::Complete };
    let loaded = PublishEvent::OpsLoaded { store: vec![link(5, 5)], now: NOW };
    let load_failed = PublishEvent::LoadFailed(StateQueryError::Other("x".to_string()));
    let failed = PublishEvent::PublishFailed(BroadcastFailure::RoutingNotReady);
    let committed = PublishEvent::Committed { still_needing_publish: 3 };
    let commit_failed = PublishEvent::CommitFailed(StateQueryError::Other("y".to_string()));
    let out_of_turn = vec![
        (selecting.clone(), PublishEvent::Published),
        (selecting.clone(), failed.clone()),
        (selecting.clone(), committed.clone()),
        (selecting.clone(), commit_failed.clone()),
        (broadcasting.clone(), loaded.clone()),
        (broadcasting.clone(), load_failed.clone()),
        (broadcasting.clone(), committed.clone()),
        (broadcasting.clone(), commit_failed.clone()),
        (committing.clone(), loaded.clone()),
        (committing.clone(), load_failed.clone()),
        (committing.clone(), PublishEvent::Published),
        (committing.clone(), failed.clone()),
        (PublishState::Finished, loaded),
        (PublishState::Finished, load_failed),
        (PublishState::Finished, PublishEvent::Published),
        (PublishState::Finished, failed),
        (PublishState::Finished, committed),
        (PublishState::Finished, commit_failed),
    ];
    for (state, event) in out_of_turn {
        let (next, action) = publish_dht_ops_workflow(state.clone(), event);
        assert_eq!(next, state);
        assert_eq!(action, PublishAction::Nothing);
    }
}

#[test]
fn the_machine_moves_through_its_states_in_order() {
    let store = vec![link(1, 1), link(2, 2)];
    let (state, _) = begin_publish(AGENT.to_vec(), PublishConfig::default());
    let (state, action) = publish_dht_ops_workflow(state, PublishEvent::OpsLoaded { store, now: NOW });
    match &state {
        PublishState::Broadcasting { agent, in_flight, queued, succeeded, complete } => {
            assert_eq!(agent, &AGENT.to_vec());
            assert_eq!(in_flight, &vec![hash(1)]);
            assert_eq!(queued.len(), 1);
            assert_eq!(queued[0].basis, basis(2));
            assert!(succeeded.is_empty());
            assert_eq!(*complete, WorkComplete::Complete);
        }
        other => panic!("unexpected state {:?}", other),
    }
    match &action {
        PublishAction::Publish(request) => assert_eq!(request.basis, basis(1)),
        other => panic!("unexpected action {:?}", other),
    }
    let (state, action) = publish_dht_ops_workflow(
        state,
        PublishEvent::PublishFailed(BroadcastFailure::RoutingNotReady),
    );
    match &state {
        PublishState::Broadcasting { in_flight, queued, succeeded, complete, .. } => {
            assert_eq!(in_flight, &vec![hash(2)]);
            assert!(queued.is_empty());
            assert!(succeeded.is_empty());
            assert_eq!(*complete, WorkComplete::Incomplete);
        }
        other => panic!("unexpected state {:?}", other),
    }
    match &action {
        PublishAction::Publish(request) => assert_eq!(request.basis, basis(2)),
        other => panic!("unexpected action {:?}", other),
    }
    let (state, action) = publish_dht_ops_workflow(state, PublishEvent::Published);
    assert_eq!(state, PublishState::Committing { complete: WorkComplete::Incomplete });
    assert_eq!(action, PublishAction::Commit { agent: AGENT.to_vec(), op_hashes: vec![hash(2)] });
    let (state, action) =
        publish_dht_ops_workflow(state, PublishEvent::Committed { still_needing_publish: 2 });
    assert_eq!(state, PublishState::Finished);
    assert_eq!(
        action,
        PublishAction::Finish { command: LoopCommand::Resume, complete: WorkComplete::Incomplete }
    );
}

#[test]
fn set_last_publish_time_touches_only_the_named_operation() {
    let mut store = vec![link(1, 1), link(2, 1), link(3, 2)];
    set_last_publish_time(&mut store, &hash(2), 42);
    let mut expected = vec![link(1, 1), link(2, 1), link(3, 2)];
    expected[1].last_publish_time = Some(42);
    assert_eq!(store, expected);
    set_last_publish_time(&mut store, &hash(9), 43);
    assert_eq!(store, expected);
    set_last_publish_time(&mut store, &hash(2), 50);
    expected[1].last_publish_time = Some(50);
    assert_eq!(store, expected);
}

#[test]
fn commit_stamps_the_hashes_and_counts_the_backlog() {
    let config = PublishConfig::default();
    let mut done = link(4, 2);
    done.receipt_count = 9;
    let mut store = vec![link(1, 1), link(2, 1), link(3, 2), done];
    let still =
        commit_publish_times(&mut store, &vec![hash(3), hash(1), hash(4), hash(8)], &AGENT.to_vec(), 77, &config);
    assert_eq!(still, 3);
    assert_eq!(store[0].last_publish_time, Some(77));
    assert_eq!(store[1].last_publish_time, None);
    assert_eq!(store[2].last_publish_time, Some(77));
    assert_eq!(store[3].last_publish_time, Some(77));
    assert_eq!(get_ops_to_publish(&AGENT.to_vec(), &store, 78, &config).len(), 1);
    let still = commit_publish_times(&mut store, &Vec::new(), &AGENT.to_vec(), 99, &config);
    assert_eq!(still, 3);
    assert_eq!(store[0].last_publish_time, Some(77));
}

/// A network in which every peer is responsible for every basis: each
/// broadcast reaches every peer that joined, the author among them.
struct FullSyncNetwork {
    received: Vec<Vec<(Vec<u8>, DhtOp)>>,
}

impl FullSyncNetwork {
    fn with_peers(peers: usize) -> Self {
        FullSyncNetwork { received: vec![Vec::new(); peers] }
    }

    fn publish(&mut self, request: &PublishRequest) -> Result<(), BroadcastFailure> {
        assert!(request.is_full_announce);
        assert!(!request.require_receipt);
        assert_eq!(request.author, AGENT.to_vec());
        assert_eq!(request.timeout, None);
        let ops = request.op_data_list.as_ref().unwrap();
        assert_eq!(ops.len(), request.op_hash_list.len());
        for inbox in self.received.iter_mut() {
            for (op_hash, op) in request.op_hash_list.iter().zip(ops.iter()) {
                inbox.push((op_hash.clone(), op.clone()));
            }
        }
        Ok(())
    }
}

fn fan_out(num_agents: usize) {
    let mut store = vec![link(1, 1)];
    let mut network = FullSyncNetwork::with_peers(num_agents);
    let report = run_round(&mut store, PublishConfig::default(), NOW, NOW + 1, |request| {
        network.publish(request)
    });
    assert_eq!(report.outcome, Ok(WorkComplete::Complete));
    assert_eq!(report.requests.len(), 1);
    assert_eq!(network.received.len(), num_agents);
    for inbox in &network.received {
        assert_eq!(inbox.len(), 1);
        assert_eq!(inbox[0].0, hash(1));
        assert_eq!(inbox[0].1.kind, DhtOpType::RegisterAddLink);
    }
    assert!(store.iter().all(|op| op.last_publish_time.is_some()));
}

#[test]
fn one_link_reaches_one_peer_once() {
    fan_out(1);
}

#[test]
fn one_link_reaches_each_of_ten_peers_once() {
    fan_out(10);
}

#[test]
fn one_link_reaches_each_of_a_hundred_peers_once() {
    fan_out(100);
}

fn private_entries(num_agents: usize) {
    // Authoring a private create gives three operations, a private update
    // five. The store holds all eight.
    let mut store = vec![
        private(1, DhtOpType::StoreRecord, 1),
        private(2, DhtOpType::StoreEntry, 2),
        private(3, DhtOpType::RegisterAgentActivity, 3),
        private(4, DhtOpType::StoreRecord, 4),
        private(5, DhtOpType::StoreEntry, 5),
        private(6, DhtOpType::RegisterAgentActivity, 3),
        private(7, DhtOpType::RegisterUpdatedContent, 2),
        private(8, DhtOpType::RegisterUpdatedRecord, 1),
    ];
    // The peers that joined, and the author.
    let mut network = FullSyncNetwork::with_peers(num_agents + 1);
    let report = run_round(&mut store, PublishConfig::default(), NOW, NOW + 1, |request| {
        network.publish(request)
    });
    assert_eq!(report.outcome, Ok(WorkComplete::Complete));
    for inbox in &network.received {
        let count = |kind: DhtOpType| inbox.iter().filter(|(_, op)| op.kind == kind).count();
        assert_eq!(count(DhtOpType::RegisterUpdatedContent), 1);
        assert_eq!(count(DhtOpType::RegisterUpdatedRecord), 1);
        assert_eq!(count(DhtOpType::StoreRecord), 2);
        assert_eq!(count(DhtOpType::RegisterAgentActivity), 2);
        assert_eq!(count(DhtOpType::StoreEntry), 0);
        assert_eq!(inbox.len(), 6);
        for (op_hash, op) in inbox {
            assert_eq!(op.entry, None);
            assert_eq!(inbox.iter().filter(|(other, _)| other == op_hash).count(), 1);
            let source = store.iter().find(|r| &r.hash == op_hash).unwrap();
            assert_eq!(op.action, source.action);
            assert_eq!(op.kind, source.kind);
        }
    }
    assert_eq!(store[1].last_publish_time, None);
    assert_eq!(store[4].last_publish_time, None);
    assert_eq!(store.iter().filter(|op| op.last_publish_time == Some(NOW + 1)).count(), 6);
    assert_eq!(report.command, Some(LoopCommand::Resume));
}

#[test]
fn private_entries_are_redacted_for_one_peer() {
    private_entries(1);
}

#[test]
fn private_entries_are_redacted_for_ten_peers() {
    private_entries(10);
}

#[test]
fn private_entries_are_redacted_for_a_hundred_peers() {
    private_entries(100);
}
