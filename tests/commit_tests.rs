use consensus_commit::commit::{AuthorityPerEpochStore, CommitError, CommitInfo, CommitOutput, EpochConfig};
use consensus_commit::ordering::{reorder, ConsensusTransactionOrdering};
use consensus_commit::work::WorkItem;
use consensus_commit::deferral::DeferralKey;
use consensus_commit::end_of_publish::{process_end_of_publish_transactions_and_reconfig, EndOfPublishAggregator};
use consensus_commit::messages::{
    classify_transactions, verify_consensus_transaction, ConsensusTransactionKind, SequencedConsensusTransaction,
};
use consensus_commit::policy::{CancelConsensusCertificateReason, CongestionCostModel};
use consensus_commit::randomness::{
    calculate_pending_checkpoint_height, decide_randomness_round, should_write_random_checkpoint, DkgStatus,
};
use consensus_commit::reconfig::ReconfigState;
use consensus_commit::stats::{ConsensusStats, ConsensusStatsAPI, ExecutionIndices, ExecutionIndicesWithStats};
use consensus_commit::types::{CancellationList, ExecutableTransaction, Schedulable, SharedObjectRef, TransactionKey};
use consensus_commit::versions::{StoredObject, CANCELLED_VERSION, MAX_VERSION};

fn obj(id: u64) -> SharedObjectRef {
    SharedObjectRef { id, initial_shared_version: 1 }
}

fn config(randomness_enabled: bool) -> EpochConfig {
    EpochConfig {
        epoch: 1,
        randomness_enabled,
        fastpath_enabled: true,
        accumulators_enabled: false,
        cost_model: CongestionCostModel::TotalGasBudget,
        max_deferral_rounds: 2,
        per_object_budget: 100,
        clock_object: obj(6),
        randomness_state_object: obj(8),
        accumulator_root_object: obj(0xacc),
        ordering: ConsensusTransactionOrdering::ByGasPrice,
    }
}

fn tx(digest: u64, uses_randomness: bool, gas_budget: u64, objects: &[u64]) -> ExecutableTransaction {
    ExecutableTransaction {
        digest,
        epoch: 1,
        uses_randomness,
        gas_budget,
        gas_price: 1,
        shared_objects: objects.iter().map(|id| obj(*id)).collect(),
    }
}

fn certified(author: u64, key: u64, t: ExecutableTransaction) -> SequencedConsensusTransaction {
    SequencedConsensusTransaction { author, key, kind: ConsensusTransactionKind::CertifiedTransaction(t) }
}

fn end_of_publish(author: u64, key: u64) -> SequencedConsensusTransaction {
    SequencedConsensusTransaction { author, key, kind: ConsensusTransactionKind::EndOfPublish(author) }
}

fn run(
    store: &mut AuthorityPerEpochStore,
    txs: Vec<SequencedConsensusTransaction>,
    round: u64,
    dkg: DkgStatus,
    randomness_round: Option<u64>,
) -> Result<CommitOutput, CommitError> {
    store.process_consensus_transactions_and_commit_boundary(
        txs,
        &CommitInfo { round, timestamp_ms: 1000 + round },
        dkg,
        randomness_round,
        &vec![],
        &vec![],
        ExecutionIndicesWithStats::default(),
    )
}

fn keys(out: &CommitOutput) -> Vec<TransactionKey> {
    out.schedulables.iter().map(|s| s.key()).collect()
}

#[test]
fn end_of_publish_quorum_closes_certs_in_same_commit() {
    let mut agg = EndOfPublishAggregator::new(vec![1, 1, 1, 1]);
    let mut state = ReconfigState::RejectUserCerts;
    let (changed, final_round) = process_end_of_publish_transactions_and_reconfig(&mut state, &mut agg, &vec![0, 1], true, false);
    assert!(!changed && !final_round);
    assert_eq!(state, ReconfigState::RejectUserCerts);
    let (changed, final_round) = process_end_of_publish_transactions_and_reconfig(&mut state, &mut agg, &vec![1, 2], false, false);
    assert!(changed);
    assert!(!final_round);
    assert_eq!(state, ReconfigState::RejectAllCerts);
    assert!(agg.is_quorum_reached());
}

#[test]
fn end_of_publish_quorum_through_commit() {
    let cfg = config(false);
    let mut store = AuthorityPerEpochStore::new(cfg, vec![1, 1, 1, 1]);
    store.reconfig.close_user_certs();
    let out = run(&mut store, vec![end_of_publish(0, 100), end_of_publish(0, 101), end_of_publish(1, 102)], 3, DkgStatus::Pending, None).unwrap();
    assert_eq!(store.reconfig, ReconfigState::RejectUserCerts);
    assert!(!out.reconfig_changed);
    let out = run(&mut store, vec![end_of_publish(2, 103), end_of_publish(3, 104)], 4, DkgStatus::Pending, None).unwrap();
    assert!(out.reconfig_changed);
    // No deferred work anywhere: the same commit ends the epoch.
    assert!(out.final_round);
    assert_eq!(store.reconfig, ReconfigState::RejectAllTx);
    assert_eq!(out.checkpoints.len(), 1);
    assert!(out.checkpoints[0].last_of_epoch);
}

#[test]
fn byzantine_end_of_publish_is_dropped() {
    let forged = SequencedConsensusTransaction { author: 1, key: 5, kind: ConsensusTransactionKind::EndOfPublish(2) };
    assert!(!verify_consensus_transaction(&forged, &vec![]));
    assert!(verify_consensus_transaction(&end_of_publish(2, 6), &vec![]));
    assert!(!verify_consensus_transaction(&end_of_publish(2, 6), &vec![6]));
    let c = classify_transactions(
        vec![forged, end_of_publish(2, 6), certified(0, 7, tx(1, true, 1, &[])), certified(0, 8, tx(2, false, 1, &[]))],
        &vec![],
        true,
    );
    assert_eq!(c.end_of_publish.len(), 1);
    assert_eq!(c.randomness.len(), 1);
    assert_eq!(c.other.len(), 1);
}

#[test]
fn terminal_round_waits_for_deferred_work() {
    let cfg = config(false);
    let mut store = AuthorityPerEpochStore::new(cfg, vec![1, 1, 1, 1]);
    // Object 5 is congested: a debt equal to the whole budget.
    store.object_debts = vec![(5, 100)];
    let out = run(&mut store, vec![certified(0, 10, tx(42, false, 10, &[5]))], 10, DkgStatus::Pending, None).unwrap();
    assert_eq!(store.deferred.len(), 1);
    assert!(!out.final_round);
    // The debt is carried on; close certificates by quorum.
    store.reconfig.close_user_certs();
    store.object_debts = vec![(5, 100)];
    let out = run(&mut store, vec![end_of_publish(0, 1), end_of_publish(1, 2), end_of_publish(2, 3)], 11, DkgStatus::Pending, None);
    let out = out.unwrap();
    // The reloaded transaction is deferred again, so the epoch does not end.
    assert_eq!(store.reconfig, ReconfigState::RejectAllCerts);
    assert!(!out.final_round);
    assert_eq!(store.deferred.len(), 1);
    // Congestion clears: the entry is drained with no new deferral.
    store.object_debts = vec![];
    let out = run(&mut store, vec![], 12, DkgStatus::Pending, None).unwrap();
    assert!(out.final_round);
    assert_eq!(store.reconfig, ReconfigState::RejectAllTx);
    assert!(store.deferred_transactions_empty());
    assert!(keys(&out).contains(&TransactionKey::Digest(42)));
}

#[test]
fn terminal_round_blocked_by_entry_not_yet_due() {
    let cfg = config(false);
    let mut store = AuthorityPerEpochStore::new(cfg, vec![1]);
    store.reconfig.close_user_certs();
    store.reconfig.close_all_certs();
    store.deferred.insert(DeferralKey::ConsensusRound { future_round: 9, deferred_from_round: 7 }, vec![tx(3, false, 1, &[])]);
    let out = run(&mut store, vec![], 8, DkgStatus::Pending, None).unwrap();
    assert!(!out.final_round);
    assert_eq!(store.reconfig, ReconfigState::RejectAllCerts);
    let out = run(&mut store, vec![], 9, DkgStatus::Pending, None).unwrap();
    assert!(out.final_round);
}

#[test]
fn checkpoint_height_split_with_randomness() {
    let cfg = config(true);
    let mut store = AuthorityPerEpochStore::new(cfg, vec![1, 1, 1, 1]);
    let decision = decide_randomness_round(true, DkgStatus::Successful, &store.reconfig);
    assert!(decision.reserve_round && !decision.dkg_failed);
    let out = run(&mut store, vec![certified(0, 1, tx(5, true, 1, &[4])), certified(0, 2, tx(6, false, 1, &[4]))], 7, DkgStatus::Successful, Some(3)).unwrap();
    assert_eq!(out.checkpoints.len(), 2);
    assert_eq!(out.checkpoints[0].checkpoint_height, 14);
    assert_eq!(out.checkpoints[1].checkpoint_height, 15);
    assert!(out.checkpoints[1].roots.contains(&TransactionKey::Digest(5)));
    assert!(out.checkpoints[1].roots.contains(&TransactionKey::RandomnessRound(1, 3)));
    assert!(out.checkpoints[0].roots.contains(&TransactionKey::Digest(6)));
    assert_eq!(out.checkpoints[0].roots[0], TransactionKey::ConsensusCommitPrologue(1, 7));
    assert_eq!(calculate_pending_checkpoint_height(7, true), 14);
    assert_eq!(calculate_pending_checkpoint_height(7, false), 7);
}

#[test]
fn randomness_transaction_waits_until_round_reserved() {
    let cfg = config(true);
    let mut store = AuthorityPerEpochStore::new(cfg, vec![1]);
    let out = run(&mut store, vec![certified(0, 1, tx(5, true, 1, &[]))], 3, DkgStatus::Pending, None).unwrap();
    assert_eq!(store.deferred.len(), 1);
    assert_eq!(out.checkpoints.len(), 1);
    let out = run(&mut store, vec![], 4, DkgStatus::Successful, Some(1)).unwrap();
    assert!(store.deferred_transactions_empty());
    assert!(keys(&out).contains(&TransactionKey::Digest(5)));
    assert!(keys(&out).contains(&TransactionKey::RandomnessRound(1, 1)));
}

#[test]
fn dkg_failure_cancels_deferred_randomness_transaction() {
    let cfg = config(true);
    let mut store = AuthorityPerEpochStore::new(cfg, vec![1]);
    run(&mut store, vec![certified(0, 1, tx(5, true, 1, &[9]))], 3, DkgStatus::Pending, None).unwrap();
    assert_eq!(store.deferred.len(), 1);
    let out = run(&mut store, vec![], 4, DkgStatus::Failed, None).unwrap();
    assert!(store.deferred_transactions_empty());
    assert_eq!(out.cancelled.len(), 1);
    assert_eq!(out.cancelled[0].0, 5);
    assert!(matches!(out.cancelled[0].1, CancelConsensusCertificateReason::DkgFailed));
    // Its object gets the sentinel, and a randomness checkpoint carries its root.
    let idx = out.assigned_versions.iter().position(|a| a.key == TransactionKey::Digest(5)).unwrap();
    assert_eq!(out.assigned_versions[idx].versions, vec![(obj(9), CANCELLED_VERSION)]);
    assert_eq!(out.checkpoints.len(), 2);
    assert_eq!(out.checkpoints[1].checkpoint_height, 9);
    assert!(should_write_random_checkpoint(None, true, 1));
    assert!(!should_write_random_checkpoint(None, true, 0));
}

#[test]
fn commit_processing_is_deterministic() {
    let cfg = config(true);
    let inputs = || {
        vec![
            certified(0, 1, tx(5, true, 30, &[4, 2])),
            certified(1, 2, tx(6, false, 80, &[4])),
            certified(1, 3, tx(7, false, 80, &[4])),
            end_of_publish(2, 4),
        ]
    };
    let mut a = AuthorityPerEpochStore::new(cfg, vec![1, 1, 1]);
    let mut b = AuthorityPerEpochStore::new(cfg, vec![1, 1, 1]);
    let oa = run(&mut a, inputs(), 5, DkgStatus::Successful, Some(2)).unwrap();
    let ob = run(&mut b, inputs(), 5, DkgStatus::Successful, Some(2)).unwrap();
    assert_eq!(keys(&oa), keys(&ob));
    let va: Vec<_> = oa.assigned_versions.iter().map(|x| (x.key, x.versions.clone())).collect();
    let vb: Vec<_> = ob.assigned_versions.iter().map(|x| (x.key, x.versions.clone())).collect();
    assert_eq!(va, vb);
    let ra: Vec<_> = oa.checkpoints.iter().map(|c| (c.checkpoint_height, c.roots.clone())).collect();
    let rb: Vec<_> = ob.checkpoints.iter().map(|c| (c.checkpoint_height, c.roots.clone())).collect();
    assert_eq!(ra, rb);
    assert_eq!(a.deferred.len(), b.deferred.len());
}

#[test]
fn prologue_opens_every_commit() {
    let cfg = config(false);
    let mut store = AuthorityPerEpochStore::new(cfg, vec![1]);
    let out = run(&mut store, vec![], 2, DkgStatus::Pending, None).unwrap();
    match &out.schedulables[0] {
        Schedulable::ConsensusCommitPrologue { round, timestamp_ms, .. } => {
            assert_eq!(*round, 2);
            assert_eq!(*timestamp_ms, 1002);
        }
        _ => panic!("expected the prologue first"),
    }
    assert_eq!(out.regular_count, 1);
}

#[test]
fn version_limit_is_an_error() {
    let cfg = config(false);
    let mut store = AuthorityPerEpochStore::new(cfg, vec![1]);
    let objects = vec![StoredObject { id: 4, initial_shared_version: Some(1), version: MAX_VERSION }];
    let r = store.process_consensus_transactions_and_commit_boundary(
        vec![certified(0, 1, tx(5, false, 1, &[4]))],
        &CommitInfo { round: 1, timestamp_ms: 0 },
        DkgStatus::Pending,
        None,
        &objects,
        &vec![],
        ExecutionIndicesWithStats::default(),
    );
    assert!(matches!(r, Err(CommitError::VersionLimitExceeded)));
}

#[test]
fn system_transaction_ignored_at_epoch_end() {
    let cfg = config(false);
    let mut store = AuthorityPerEpochStore::new(cfg, vec![1]);
    store.reconfig.close_all_tx();
    let sys = SequencedConsensusTransaction { author: 0, key: 3, kind: ConsensusTransactionKind::System(tx(77, false, 1, &[])) };
    let out = run(&mut store, vec![sys], 2, DkgStatus::Pending, None).unwrap();
    assert!(!keys(&out).contains(&TransactionKey::Digest(77)));
    assert_eq!(out.checkpoints.len(), 0);
}

fn price_tx(digest: u64, price: u64) -> ExecutableTransaction {
    let mut t = tx(digest, false, 1, &[]);
    t.gas_price = price;
    t
}

fn item_digest(w: &WorkItem) -> u64 {
    match w {
        WorkItem::Message(m) => match &m.kind {
            ConsensusTransactionKind::CertifiedTransaction(t) => t.digest,
            _ => 0,
        },
        WorkItem::Deferred(t, _) => t.digest,
    }
}

#[test]
fn reorder_by_gas_price_is_stable() {
    let items = vec![
        WorkItem::Deferred(price_tx(1, 5), DeferralKey::ConsensusRound { future_round: 3, deferred_from_round: 2 }),
        WorkItem::Message(certified(0, 10, price_tx(2, 9))),
        WorkItem::Message(certified(0, 11, price_tx(3, 5))),
        WorkItem::Message(end_of_publish(0, 12)),
        WorkItem::Message(certified(0, 13, price_tx(4, 7))),
    ];
    let sorted = reorder(items, ConsensusTransactionOrdering::ByGasPrice);
    let order: Vec<u64> = sorted.iter().map(item_digest).collect();
    assert_eq!(order, vec![0, 2, 4, 1, 3]);
    let same = reorder(
        vec![WorkItem::Message(certified(0, 10, price_tx(2, 1))), WorkItem::Message(certified(0, 11, price_tx(3, 9)))],
        ConsensusTransactionOrdering::Unchanged,
    );
    let order: Vec<u64> = same.iter().map(item_digest).collect();
    assert_eq!(order, vec![2, 3]);
}

#[test]
fn accumulator_settlement_in_both_checkpoints() {
    let mut cfg = config(true);
    cfg.accumulators_enabled = true;
    let mut store = AuthorityPerEpochStore::new(cfg, vec![1]);
    let out = run(&mut store, vec![], 6, DkgStatus::Successful, Some(4)).unwrap();
    assert!(keys(&out).contains(&TransactionKey::AccumulatorSettlement(1, 12)));
    assert!(keys(&out).contains(&TransactionKey::AccumulatorSettlement(1, 13)));
    assert!(out.checkpoints[0].roots.contains(&TransactionKey::AccumulatorSettlement(1, 12)));
    assert!(out.checkpoints[1].roots.contains(&TransactionKey::AccumulatorSettlement(1, 13)));
}

#[test]
fn higher_gas_price_scheduled_first() {
    let cfg = config(false);
    let mut store = AuthorityPerEpochStore::new(cfg, vec![1]);
    let out = run(&mut store, vec![certified(0, 1, price_tx(8, 1)), certified(0, 2, price_tx(9, 50))], 2, DkgStatus::Pending, None).unwrap();
    assert_eq!(keys(&out), vec![TransactionKey::ConsensusCommitPrologue(1, 2), TransactionKey::Digest(9), TransactionKey::Digest(8)]);
    assert_eq!(out.notifications, vec![2, 1]);
    assert!(store.processed.contains(&1) && store.processed.contains(&2));
}

#[test]
fn epoch_store_queries_after_commits() {
    let cfg = config(true);
    let mut store = AuthorityPerEpochStore::new(cfg, vec![1, 1, 1, 1]);
    assert_eq!(store.epoch(), 1);
    assert!(store.randomness_state_enabled());
    assert!(!store.accumulators_enabled());
    assert_eq!(store.get_highest_pending_checkpoint_height(), None);
    run(&mut store, vec![certified(0, 1, tx(5, false, 1, &[4])), end_of_publish(2, 9)], 3, DkgStatus::Successful, Some(1)).unwrap();
    run(&mut store, vec![], 4, DkgStatus::Pending, None).unwrap();
    assert!(store.pending_checkpoint_exists(6));
    assert!(store.pending_checkpoint_exists(7));
    assert!(store.pending_checkpoint_exists(8));
    assert!(!store.pending_checkpoint_exists(9));
    assert_eq!(store.get_highest_pending_checkpoint_height(), Some(8));
    assert!(store.is_consensus_message_processed(1));
    assert_eq!(store.check_consensus_messages_processed(&vec![1, 9, 2]), vec![true, true, false]);
    assert!(store.has_sent_end_of_publish(2));
    assert!(!store.has_sent_end_of_publish(1));
    // Object 4 was read at its initial version 1 and moved on.
    assert_eq!(store.get_next_object_version(&obj(4)), Some(2));
    let again = store.assign_shared_object_versions_idempotent(&vec![], &vec![Schedulable::Transaction(tx(6, false, 1, &[4]))]);
    assert_eq!(again[0].versions, vec![(obj(4), 2)]);
    assert_eq!(store.get_next_object_version(&obj(4)), Some(2));
    store.close_user_certs();
    assert_eq!(store.get_reconfig_state(), ReconfigState::RejectUserCerts);
}

#[test]
fn system_transaction_needs_consensus_certs_open() {
    let cfg = config(false);
    let sys = |key: u64, digest: u64| SequencedConsensusTransaction {
        author: 0,
        key,
        kind: ConsensusTransactionKind::System(tx(digest, false, 1, &[])),
    };
    let mut store = AuthorityPerEpochStore::new(cfg, vec![1, 1]);
    store.close_user_certs();
    let out = run(&mut store, vec![sys(1, 70)], 2, DkgStatus::Pending, None).unwrap();
    assert!(keys(&out).contains(&TransactionKey::Digest(70)));
    store.reconfig.close_all_certs();
    store.deferred.insert(DeferralKey::ConsensusRound { future_round: 9, deferred_from_round: 2 }, vec![tx(3, false, 1, &[])]);
    let out = run(&mut store, vec![sys(2, 71)], 3, DkgStatus::Pending, None).unwrap();
    assert!(!keys(&out).contains(&TransactionKey::Digest(71)));
    assert!(!out.final_round);
}

#[test]
fn third_end_of_publish_in_one_commit_closes_certs() {
    let cfg = config(false);
    let mut store = AuthorityPerEpochStore::new(cfg, vec![1, 1, 1, 1]);
    store.close_user_certs();
    // Deferred work remains, so the commit closes certificates without ending the epoch.
    store.deferred.insert(DeferralKey::ConsensusRound { future_round: 20, deferred_from_round: 1 }, vec![tx(3, false, 1, &[])]);
    let out = run(&mut store, vec![end_of_publish(0, 1), end_of_publish(1, 2), end_of_publish(2, 3)], 5, DkgStatus::Pending, None).unwrap();
    assert!(out.reconfig_changed);
    assert!(!out.final_round);
    assert_eq!(store.reconfig, ReconfigState::RejectAllCerts);
    assert!(store.end_of_publish.is_quorum_reached());
    assert!(store.is_consensus_message_processed(3));
}

#[test]
fn message_contents_are_forwarded_and_observations_recorded() {
    let cfg = config(true);
    let mut store = AuthorityPerEpochStore::new(cfg, vec![1, 1]);
    let dkg = SequencedConsensusTransaction { author: 1, key: 40, kind: ConsensusTransactionKind::RandomnessDkgMessage(1, vec![7, 8]) };
    let sig = SequencedConsensusTransaction {
        author: 0,
        key: 41,
        kind: ConsensusTransactionKind::CheckpointSignature { authority: 0, data: vec![1, 2, 3] },
    };
    let obs = SequencedConsensusTransaction {
        author: 1,
        key: 42,
        kind: ConsensusTransactionKind::ExecutionTimeObservation { authority: 1, generation: 3, estimates: vec![(9, 250)] },
    };
    let forged = SequencedConsensusTransaction { author: 0, key: 43, kind: ConsensusTransactionKind::RandomnessDkgConfirmation(1, vec![5]) };
    let out = run(&mut store, vec![dkg, sig, obs, forged], 2, DkgStatus::Pending, None).unwrap();
    assert!(out.randomness_state_updated);
    assert_eq!(out.forwarded.len(), 2);
    match &out.forwarded[0].kind {
        ConsensusTransactionKind::RandomnessDkgMessage(a, bytes) => {
            assert_eq!(*a, 1);
            assert_eq!(bytes, &vec![7, 8]);
        }
        _ => panic!("expected the DKG message first"),
    }
    match &out.forwarded[1].kind {
        ConsensusTransactionKind::CheckpointSignature { data, .. } => assert_eq!(data, &vec![1, 2, 3]),
        _ => panic!("expected the checkpoint signature second"),
    }
    assert_eq!(out.execution_time_observations.len(), 1);
    match &out.execution_time_observations[0].kind {
        ConsensusTransactionKind::ExecutionTimeObservation { generation, estimates, .. } => {
            assert_eq!(*generation, 3);
            assert_eq!(estimates, &vec![(9, 250)]);
        }
        _ => panic!("expected an observation"),
    }
    assert_eq!(store.check_consensus_messages_processed(&vec![40, 41, 42, 43]), vec![true, true, true, false]);
    assert_eq!(out.notifications, vec![40, 41]);
}

#[test]
fn commit_records_consensus_stats_and_checkpoint_timestamps() {
    let cfg = config(false);
    let mut store = AuthorityPerEpochStore::new(cfg, vec![1]);
    let mut stats = ConsensusStats::new(1);
    stats.inc_num_messages(0);
    let indices = ExecutionIndicesWithStats {
        index: ExecutionIndices { last_committed_round: 4, sub_dag_index: 2, transaction_index: 1 },
        hash: 0,
        stats,
    };
    let out = store
        .process_consensus_transactions_and_commit_boundary(
            vec![],
            &CommitInfo { round: 4, timestamp_ms: 777 },
            DkgStatus::Pending,
            None,
            &vec![],
            &vec![],
            indices,
        )
        .unwrap();
    assert_eq!(out.checkpoints[0].timestamp_ms, 777);
    assert_eq!(store.pending_checkpoints[0].timestamp_ms, 777);
    assert_eq!(store.last_consensus_stats.index.last_committed_round, 4);
    assert_eq!(store.last_consensus_stats.stats.get_num_messages(0), 1);
}

#[test]
fn deferred_transaction_stored_under_its_key() {
    let cfg = config(false);
    let mut store = AuthorityPerEpochStore::new(cfg, vec![1]);
    store.object_debts = vec![(5, 100)];
    run(&mut store, vec![certified(0, 10, tx(42, false, 10, &[5]))], 10, DkgStatus::Pending, None).unwrap();
    let (min, max) = DeferralKey::range_for_up_to_consensus_round(11);
    let due = store.deferred.load_range(min, max);
    assert_eq!(due.len(), 1);
    assert_eq!(due[0].key, DeferralKey::ConsensusRound { future_round: 11, deferred_from_round: 10 });
    assert_eq!(due[0].transactions[0].digest, 42);
}

#[test]
fn prologue_carries_cancellation_versions() {
    let cfg = config(true);
    let mut store = AuthorityPerEpochStore::new(cfg, vec![1]);
    run(&mut store, vec![certified(0, 1, tx(5, true, 1, &[9, 10]))], 3, DkgStatus::Pending, None).unwrap();
    let out = run(&mut store, vec![certified(0, 2, tx(6, false, 1, &[9]))], 4, DkgStatus::Failed, None).unwrap();
    match &out.schedulables[0] {
        Schedulable::ConsensusCommitPrologue { cancelled_versions, .. } => match cancelled_versions {
            CancellationList::Next(d, o, v, rest) => {
                assert_eq!((*d, *o, *v), (5, obj(9), CANCELLED_VERSION));
                match rest.as_ref() {
                    CancellationList::Next(d2, o2, v2, rest2) => {
                        assert_eq!((*d2, *o2, *v2), (5, obj(10), CANCELLED_VERSION));
                        assert!(matches!(rest2.as_ref(), CancellationList::End));
                    }
                    CancellationList::End => panic!("expected a second object"),
                }
            }
            CancellationList::End => panic!("expected the cancelled transaction"),
        },
        _ => panic!("expected the prologue first"),
    }
}

#[test]
fn capabilities_not_forwarded_after_certs_close() {
    let cfg = config(false);
    let mut store = AuthorityPerEpochStore::new(cfg, vec![1, 1]);
    store.close_user_certs();
    store.reconfig.close_all_certs();
    store.deferred.insert(DeferralKey::ConsensusRound { future_round: 50, deferred_from_round: 1 }, vec![tx(3, false, 1, &[])]);
    let cap = SequencedConsensusTransaction {
        author: 1,
        key: 7,
        kind: ConsensusTransactionKind::CapabilityNotification { authority: 1, data: vec![1] },
    };
    let sig = SequencedConsensusTransaction {
        author: 1,
        key: 8,
        kind: ConsensusTransactionKind::CheckpointSignature { authority: 1, data: vec![2] },
    };
    let out = run(&mut store, vec![cap, sig], 2, DkgStatus::Pending, None).unwrap();
    assert_eq!(out.forwarded.len(), 1);
    assert!(matches!(out.forwarded[0].kind, ConsensusTransactionKind::CheckpointSignature { .. }));
    assert_eq!(out.notifications, vec![7, 8]);
}

#[test]
fn randomness_update_leads_randomness_units() {
    let cfg = config(true);
    let mut store = AuthorityPerEpochStore::new(cfg, vec![1]);
    let out = run(&mut store, vec![certified(0, 1, tx(5, true, 1, &[]))], 3, DkgStatus::Successful, Some(9)).unwrap();
    assert_eq!(out.schedulables[out.regular_count].key(), TransactionKey::RandomnessRound(1, 9));
    assert_eq!(out.schedulables[out.regular_count + 1].key(), TransactionKey::Digest(5));
}
