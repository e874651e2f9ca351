use consensus_commit::types::{ExecutableTransaction, Schedulable, SharedObjectRef, TransactionKey};
use consensus_commit::versions::{
    assign_shared_object_versions_idempotent, assign_versions_from_consensus, find_stored_object, get_initial_version,
    StoredObject, VersionLedger, CANCELLED_VERSION,
};

fn obj(id: u64, initial: u64) -> SharedObjectRef {
    SharedObjectRef { id, initial_shared_version: initial }
}

fn unit(digest: u64, objects: Vec<SharedObjectRef>) -> Schedulable {
    Schedulable::Transaction(ExecutableTransaction {
        digest,
        epoch: 1,
        uses_randomness: false,
        gas_budget: 1,
        gas_price: 1,
        shared_objects: objects,
    })
}

fn store() -> Vec<StoredObject> {
    vec![
        StoredObject { id: 1, initial_shared_version: Some(3), version: 10 },
        StoredObject { id: 2, initial_shared_version: Some(5), version: 20 },
    ]
}

#[test]
fn versions_strictly_increase_within_a_commit() {
    let mut ledger = VersionLedger::new();
    let items = vec![unit(1, vec![obj(1, 3)]), unit(2, vec![obj(1, 3), obj(2, 5)]), unit(3, vec![obj(1, 3)])];
    let r = assign_versions_from_consensus(&mut ledger, &store(), &items, &vec![]);
    assert_eq!(r[0].versions, vec![(obj(1, 3), 10)]);
    // Reads object 1 at 11 and object 2 at 20: both move to 21.
    assert_eq!(r[1].versions, vec![(obj(1, 3), 11), (obj(2, 5), 20)]);
    assert_eq!(r[2].versions, vec![(obj(1, 3), 21)]);
    assert_eq!(ledger.get_next_object_version(&obj(1, 3)), Some(22));
    assert_eq!(ledger.get_next_object_version(&obj(2, 5)), Some(21));
    assert_eq!(r[1].key, TransactionKey::Digest(2));
}

#[test]
fn versions_strictly_increase_across_commits() {
    let mut ledger = VersionLedger::new();
    let first = assign_versions_from_consensus(&mut ledger, &store(), &vec![unit(1, vec![obj(1, 3)])], &vec![]);
    let second = assign_versions_from_consensus(&mut ledger, &store(), &vec![unit(2, vec![obj(1, 3)])], &vec![]);
    assert!(first[0].versions[0].1 < second[0].versions[0].1);
}

#[test]
fn cancelled_transaction_gets_sentinel_and_does_not_block_others() {
    let mut ledger = VersionLedger::new();
    let items = vec![unit(1, vec![obj(1, 3)]), unit(2, vec![obj(1, 3)]), unit(3, vec![obj(1, 3)])];
    let r = assign_versions_from_consensus(&mut ledger, &store(), &items, &vec![2]);
    assert_eq!(r[0].versions, vec![(obj(1, 3), 10)]);
    assert_eq!(r[1].versions, vec![(obj(1, 3), CANCELLED_VERSION)]);
    assert_eq!(r[2].versions, vec![(obj(1, 3), 11)]);
}

#[test]
fn first_reference_initializes_from_store_or_initial_version() {
    // Stored at another initial version, or absent: start at the reference's own.
    assert_eq!(get_initial_version(&store(), &obj(1, 3)), 10);
    assert_eq!(get_initial_version(&store(), &obj(1, 4)), 4);
    assert_eq!(get_initial_version(&store(), &obj(9, 7)), 7);
    assert_eq!(find_stored_object(&store(), 2).map(|o| o.version), Some(20));
    assert!(find_stored_object(&store(), 3).is_none());
    let mut ledger = VersionLedger::new();
    let r = assign_versions_from_consensus(&mut ledger, &store(), &vec![unit(1, vec![obj(9, 7)])], &vec![1]);
    assert_eq!(r[0].versions, vec![(obj(9, 7), CANCELLED_VERSION)]);
    // Cancelled: initialized, not moved on.
    assert_eq!(ledger.get_next_object_version(&obj(9, 7)), Some(7));
}

#[test]
fn idempotent_assignment_leaves_ledger_unchanged() {
    let mut ledger = VersionLedger::new();
    ledger.set_next_object_version(obj(1, 3), 40);
    let items = vec![unit(1, vec![obj(1, 3)]), unit(2, vec![obj(1, 3), obj(2, 5)])];
    let a = assign_shared_object_versions_idempotent(&ledger, &store(), &items);
    let b = assign_shared_object_versions_idempotent(&ledger, &store(), &items);
    let va: Vec<_> = a.iter().map(|x| (x.key, x.versions.clone())).collect();
    let vb: Vec<_> = b.iter().map(|x| (x.key, x.versions.clone())).collect();
    assert_eq!(va, vb);
    assert_eq!(a[0].versions, vec![(obj(1, 3), 40)]);
    assert_eq!(a[1].versions, vec![(obj(1, 3), 41), (obj(2, 5), 20)]);
    assert_eq!(ledger.get_next_object_version(&obj(1, 3)), Some(40));
    assert_eq!(ledger.get_next_object_version(&obj(2, 5)), None);
}

#[test]
fn marker_units_take_their_objects() {
    let mut ledger = VersionLedger::new();
    let items = vec![
        Schedulable::RandomnessStateUpdate { epoch: 1, round: 2, state_object: obj(8, 1) },
        Schedulable::RandomnessStateUpdate { epoch: 1, round: 3, state_object: obj(8, 1) },
    ];
    let r = assign_versions_from_consensus(&mut ledger, &vec![], &items, &vec![]);
    assert_eq!(r[0].versions, vec![(obj(8, 1), 1)]);
    assert_eq!(r[1].versions, vec![(obj(8, 1), 2)]);
    assert_eq!(r[0].key, TransactionKey::RandomnessRound(1, 2));
}
