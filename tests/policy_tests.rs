use consensus_commit::congestion::SharedObjectCongestionTracker;
use consensus_commit::deferral::{transaction_deferral_within_limit, DeferralKey, DeferredStore};
use consensus_commit::policy::{
    get_tx_cost, process_consensus_user_transaction, should_defer, CancelConsensusCertificateReason,
    CommitContext, CongestionCostModel, ConsensusCertificateResult, DeferralReason,
};
use consensus_commit::reconfig::ReconfigState;
use consensus_commit::types::{ExecutableTransaction, SharedObjectRef};

fn tx(digest: u64, uses_randomness: bool, objects: &[u64]) -> ExecutableTransaction {
    ExecutableTransaction {
        digest,
        epoch: 1,
        uses_randomness,
        gas_budget: 10,
        gas_price: 1,
        shared_objects: objects
            .iter()
            .map(|id| SharedObjectRef { id: *id, initial_shared_version: 1 })
            .collect(),
    }
}

fn ctx(round: u64, dkg_failed: bool, generating: bool, max: u64) -> CommitContext {
    CommitContext {
        round,
        dkg_failed,
        generating_randomness: generating,
        randomness_enabled: true,
        max_deferral_rounds: max,
    }
}

fn congested_tracker() -> SharedObjectCongestionTracker {
    // Object 7 carries a debt equal to the whole budget.
    SharedObjectCongestionTracker::new(&vec![(7, 100)], 100)
}

fn decide(round: u64, previous: Option<DeferralKey>) -> ConsensusCertificateResult {
    let mut tracker = congested_tracker();
    process_consensus_user_transaction(
        tx(1, false, &[7]),
        false,
        previous,
        ReconfigState::AcceptAll,
        &ctx(round, false, false, 2),
        Some(10),
        &mut tracker,
    )
}

#[test]
fn congestion_cancellation_after_max_deferral_rounds() {
    let k10 = match decide(10, None) {
        ConsensusCertificateResult::Deferred(k) => k,
        _ => panic!("expected a deferral at round 10"),
    };
    assert_eq!(k10, DeferralKey::ConsensusRound { future_round: 11, deferred_from_round: 10 });
    let k11 = match decide(11, Some(k10)) {
        ConsensusCertificateResult::Deferred(k) => k,
        _ => panic!("expected a deferral at round 11"),
    };
    assert_eq!(k11, DeferralKey::ConsensusRound { future_round: 12, deferred_from_round: 10 });
    let k12 = match decide(12, Some(k11)) {
        ConsensusCertificateResult::Deferred(k) => k,
        _ => panic!("expected a deferral at round 12"),
    };
    assert_eq!(k12, DeferralKey::ConsensusRound { future_round: 13, deferred_from_round: 10 });
    match decide(13, Some(k12)) {
        ConsensusCertificateResult::Cancelled((t, CancelConsensusCertificateReason::CongestionOnObjects(ids))) => {
            assert_eq!(t.digest, 1);
            assert_eq!(ids, vec![7]);
        }
        _ => panic!("expected a cancellation at round 13"),
    }
}

#[test]
fn dkg_failure_cancels_reloaded_randomness_transaction() {
    let mut tracker = SharedObjectCongestionTracker::new(&vec![], 100);
    let previous = Some(DeferralKey::Randomness { deferred_from_round: 4 });
    let r = process_consensus_user_transaction(
        tx(9, true, &[3]),
        false,
        previous,
        ReconfigState::AcceptAll,
        &ctx(8, true, false, 2),
        Some(1),
        &mut tracker,
    );
    match r {
        ConsensusCertificateResult::Cancelled((t, CancelConsensusCertificateReason::DkgFailed)) => assert_eq!(t.digest, 9),
        _ => panic!("expected a DKG cancellation"),
    }
    assert_eq!(tracker.object_cost(3), 0);
}

#[test]
fn randomness_deferral_keeps_its_first_round() {
    let tracker = SharedObjectCongestionTracker::new(&vec![], 100);
    let t = tx(2, true, &[]);
    match should_defer(Some(1), &t, &ctx(9, false, false, 2), Some(DeferralKey::Randomness { deferred_from_round: 5 }), &tracker) {
        Some((k, DeferralReason::RandomnessNotReady)) => assert_eq!(k, DeferralKey::Randomness { deferred_from_round: 5 }),
        _ => panic!("expected a randomness deferral"),
    }
    match should_defer(Some(1), &t, &ctx(9, false, false, 2), None, &tracker) {
        Some((k, DeferralReason::RandomnessNotReady)) => assert_eq!(k, DeferralKey::Randomness { deferred_from_round: 9 }),
        _ => panic!("expected a randomness deferral"),
    }
    // A round is generated: no deferral, nothing congested.
    assert!(should_defer(Some(1), &t, &ctx(9, false, true, 2), None, &tracker).is_none());
}

#[test]
fn scheduled_transaction_commits_its_cost() {
    let mut tracker = SharedObjectCongestionTracker::new(&vec![(1, 5)], 100);
    let r = process_consensus_user_transaction(
        tx(3, false, &[1, 2]),
        false,
        None,
        ReconfigState::AcceptAll,
        &ctx(5, false, false, 2),
        Some(20),
        &mut tracker,
    );
    assert!(matches!(r, ConsensusCertificateResult::SuiTransaction(_)));
    // Each object's own total rises by the cost.
    assert_eq!(tracker.object_cost(1), 25);
    assert_eq!(tracker.object_cost(2), 20);
}

#[test]
fn new_transaction_ignored_after_certs_closed_or_end_of_publish() {
    let mut tracker = SharedObjectCongestionTracker::new(&vec![], 100);
    let r = process_consensus_user_transaction(tx(4, false, &[]), false, None, ReconfigState::RejectAllCerts, &ctx(5, false, false, 2), Some(1), &mut tracker);
    assert!(matches!(r, ConsensusCertificateResult::Ignored));
    let r = process_consensus_user_transaction(tx(4, false, &[]), true, None, ReconfigState::AcceptAll, &ctx(5, false, false, 2), Some(1), &mut tracker);
    assert!(matches!(r, ConsensusCertificateResult::Ignored));
    // A reloaded deferred transaction is still processed.
    let prev = Some(DeferralKey::ConsensusRound { future_round: 5, deferred_from_round: 4 });
    let r = process_consensus_user_transaction(tx(4, false, &[]), true, prev, ReconfigState::RejectAllCerts, &ctx(5, false, false, 2), Some(1), &mut tracker);
    assert!(matches!(r, ConsensusCertificateResult::SuiTransaction(_)));
}

#[test]
fn deferral_limit_boundary() {
    let ok = DeferralKey::ConsensusRound { future_round: 13, deferred_from_round: 10 };
    let over = DeferralKey::ConsensusRound { future_round: 14, deferred_from_round: 10 };
    assert!(transaction_deferral_within_limit(&ok, 2));
    assert!(!transaction_deferral_within_limit(&over, 2));
    assert!(transaction_deferral_within_limit(&DeferralKey::Randomness { deferred_from_round: 0 }, 0));
}

#[test]
fn cost_models() {
    let t = tx(5, false, &[1]);
    assert_eq!(get_tx_cost(CongestionCostModel::Disabled, &t, Some(3)), None);
    assert_eq!(get_tx_cost(CongestionCostModel::TotalTxCount, &t, Some(3)), Some(1));
    assert_eq!(get_tx_cost(CongestionCostModel::TotalGasBudget, &t, None), Some(10));
    assert_eq!(get_tx_cost(CongestionCostModel::TotalGasBudgetWithCap(4), &t, None), Some(4));
    assert_eq!(get_tx_cost(CongestionCostModel::ExecutionTimeEstimate, &t, Some(33)), Some(33));
}

#[test]
fn debt_carried_into_next_commit() {
    let mut tracker = SharedObjectCongestionTracker::new(&vec![], 100);
    let objs = vec![SharedObjectRef { id: 1, initial_shared_version: 1 }];
    tracker.bump_object_execution_cost(Some(130), &objs);
    let objs2 = vec![SharedObjectRef { id: 2, initial_shared_version: 1 }];
    tracker.bump_object_execution_cost(Some(60), &objs2);
    assert_eq!(tracker.max_cost(), 130);
    let debts = tracker.accumulated_debts();
    assert_eq!(debts, vec![(1, 30)]);
    let next = SharedObjectCongestionTracker::new(&debts, 100);
    assert_eq!(next.object_cost(1), 30);
    assert_eq!(next.object_cost(2), 0);
}

#[test]
fn congestion_reports_objects_over_budget() {
    let tracker = SharedObjectCongestionTracker::new(&vec![(1, 95), (2, 10)], 100);
    let objs = vec![
        SharedObjectRef { id: 2, initial_shared_version: 1 },
        SharedObjectRef { id: 1, initial_shared_version: 1 },
    ];
    assert_eq!(tracker.compute_tx_start_at_cost(&objs), 95);
    let (k, ids) = tracker.should_defer_due_to_object_congestion(Some(10), &objs, None, 3).unwrap();
    assert_eq!(k, DeferralKey::ConsensusRound { future_round: 4, deferred_from_round: 3 });
    assert_eq!(ids, vec![1]);
    assert!(tracker.should_defer_due_to_object_congestion(Some(5), &objs, None, 3).is_none());
    assert!(tracker.should_defer_due_to_object_congestion(None, &objs, None, 3).is_none());
}

#[test]
fn deferred_store_loads_ranges_in_key_order() {
    let mut store = DeferredStore::new();
    store.insert(DeferralKey::ConsensusRound { future_round: 12, deferred_from_round: 11 }, vec![tx(1, false, &[])]);
    store.insert(DeferralKey::Randomness { deferred_from_round: 3 }, vec![tx(2, true, &[])]);
    store.insert(DeferralKey::ConsensusRound { future_round: 11, deferred_from_round: 10 }, vec![tx(3, false, &[])]);
    store.insert(DeferralKey::ConsensusRound { future_round: 11, deferred_from_round: 10 }, vec![tx(4, false, &[])]);
    assert_eq!(store.len(), 3);
    let (min, max) = DeferralKey::range_for_up_to_consensus_round(11);
    let due = store.load_range(min, max);
    assert_eq!(due.len(), 1);
    let digests: Vec<u64> = due[0].transactions.iter().map(|t| t.digest).collect();
    assert_eq!(digests, vec![3, 4]);
    let (rmin, rmax) = DeferralKey::full_range_for_randomness();
    let waiting = store.load_range(rmin, rmax);
    assert_eq!(waiting.len(), 1);
    assert_eq!(waiting[0].transactions[0].digest, 2);
    assert_eq!(store.len(), 1);
    assert!(!store.is_empty());
}

#[test]
fn deferral_key_order() {
    let r = DeferralKey::new_for_randomness(100);
    let c = DeferralKey::new_for_consensus_round(1, 0);
    assert!(r.lt(&c));
    assert!(!c.lt(&r));
    assert!(DeferralKey::new_for_consensus_round(1, 5).lt(&DeferralKey::new_for_consensus_round(2, 0)));
    assert!(DeferralKey::new_for_consensus_round(2, 0).lt(&DeferralKey::new_for_consensus_round(2, 1)));
    assert_eq!(c.deferred_from_round(), 0);
    assert_eq!(r.deferred_from_round(), 100);
}
