use consensus_commit::reconfig::ReconfigState;
use consensus_commit::stats::{ConsensusStats, ConsensusStatsAPI, ExecutionIndices, ExecutionIndicesWithStats, LockDetailsWrapper};
use consensus_commit::store_types::{
    from_stake_subsidy_v1, normalize, DynamicFieldKey, ObjectSummary, ObjectType, StakeSubsidyV1, SuiErrorKind,
    TransactionInfo, Weight,
};

#[test]
fn reconfig_moves_forward_only() {
    let mut s = ReconfigState::new();
    assert!(s.should_accept_user_certs() && s.should_accept_consensus_certs() && s.should_accept_tx());
    s.close_user_certs();
    assert_eq!(s, ReconfigState::RejectUserCerts);
    assert!(!s.should_accept_user_certs() && s.should_accept_consensus_certs());
    s.close_all_certs();
    assert!(s.is_reject_all_certs() && !s.should_accept_consensus_certs() && s.should_accept_tx());
    s.close_user_certs();
    assert_eq!(s, ReconfigState::RejectAllCerts);
    s.close_all_tx();
    assert!(s.is_reject_all_tx() && !s.should_accept_tx());
    s.close_all_certs();
    assert_eq!(s, ReconfigState::RejectAllTx);
}

#[test]
fn consensus_stats_counters() {
    let mut stats = ConsensusStats::new(3);
    assert!(stats.is_initialized());
    assert_eq!(stats.inc_num_messages(1), 1);
    assert_eq!(stats.inc_num_messages(1), 2);
    assert_eq!(stats.inc_num_user_transactions(2), 1);
    assert_eq!(stats.get_num_messages(1), 2);
    assert_eq!(stats.get_num_messages(0), 0);
    assert_eq!(stats.get_num_user_transactions(2), 1);
    assert!(!ConsensusStats::default().is_initialized());
    let d = ExecutionIndicesWithStats::default();
    assert_eq!(d.hash, 0);
    assert!(!d.stats.is_initialized());
}

#[test]
fn execution_indices_order() {
    let a = ExecutionIndices { last_committed_round: 1, sub_dag_index: 9, transaction_index: 9 };
    let b = ExecutionIndices { last_committed_round: 2, sub_dag_index: 0, transaction_index: 0 };
    let c = ExecutionIndices { last_committed_round: 2, sub_dag_index: 0, transaction_index: 1 };
    assert_eq!(a.cmp_indices(&b), std::cmp::Ordering::Less);
    assert_eq!(c.cmp_indices(&b), std::cmp::Ordering::Greater);
    assert_eq!(b.cmp_indices(&b), std::cmp::Ordering::Equal);
    assert!(a < b && b < c);
}

#[test]
fn lock_details_wrapper() {
    let w = LockDetailsWrapper::from(77);
    assert_eq!(w, LockDetailsWrapper::V1(77));
    assert_eq!(*w.migrate().inner(), 77);
    assert_eq!(w.into_inner(), 77);
}

#[test]
fn store_records() {
    let k = DynamicFieldKey::new(1, 2);
    assert_eq!((k.parent, k.field_id), (1, 2));
    assert!(DynamicFieldKey::new(1, 2) < DynamicFieldKey::new(1, 3));
    let info = TransactionInfo::new(
        vec![
            ObjectSummary { id: 4, object_type: ObjectType::Package },
            ObjectSummary { id: 5, object_type: ObjectType::Struct("0x2::coin::Coin".to_string()) },
        ],
        vec![ObjectSummary { id: 5, object_type: ObjectType::Struct("0x2::coin::Coin2".to_string()) }],
        vec![],
        12,
    );
    assert_eq!(info.checkpoint, 12);
    let ids: Vec<u64> = info.object_types.iter().map(|(id, _)| *id).collect();
    assert_eq!(ids, vec![4, 5]);
    match &info.object_types[1].1 {
        ObjectType::Struct(name) => assert_eq!(name, "0x2::coin::Coin2"),
        ObjectType::Package => panic!("expected the written object's type"),
    }
    let s = from_stake_subsidy_v1(StakeSubsidyV1 {
        balance: 100,
        distribution_counter: 3,
        current_distribution_amount: 7,
        stake_subsidy_period_length: 30,
        stake_subsidy_decrease_rate: 1000,
    });
    assert_eq!(s.balance, Some(100));
    assert_eq!(s.decrease_rate, Some(1000));
    assert_eq!(s.period_length, Some(30));
}

#[test]
fn traffic_weight_of_errors() {
    assert_eq!(normalize(SuiErrorKind::IncorrectUserSignature), Weight::One);
    assert_eq!(normalize(SuiErrorKind::WrongEpoch), Weight::One);
    assert_eq!(normalize(SuiErrorKind::Other), Weight::Zero);
}
