use vstd::prelude::*;

verus! {

/// Identifier of an on-chain object.
pub type ObjectId = u64;

/// Digest of a transaction, used as its identity.
pub type TransactionDigest = u64;

/// A consensus commit round.
pub type Round = u64;

/// Index of an authority in the epoch's committee.
pub type AuthorityIndex = u64;

/// A reference to a shared object: its id and the version at which it became shared.
#[derive(Clone, Copy, Debug, PartialEq, Eq, Structural)]
pub struct SharedObjectRef {
    pub id: ObjectId,
    pub initial_shared_version: u64,
}

/// A transaction ready for execution, as the commit pipeline sees it.
#[derive(Clone, Debug)]
pub struct ExecutableTransaction {
    pub digest: TransactionDigest,
    /// Epoch in which the transaction was certified.
    pub epoch: u64,
    /// The transaction reads the randomness beacon.
    pub uses_randomness: bool,
    /// Gas budget the sender set.
    pub gas_budget: u64,
    /// Gas price the sender offered.
    pub gas_price: u64,
    /// Shared objects it touches, in the order the transaction lists them.
    pub shared_objects: Vec<SharedObjectRef>,
}

} // verus!

verus! {

/// A unit of work handed to the execution engine.
#[derive(Debug)]
pub enum Schedulable {
    /// A user or system transaction.
    Transaction(ExecutableTransaction),
    /// Writes the randomness of a round into the randomness state object.
    RandomnessStateUpdate { epoch: u64, round: u64, state_object: SharedObjectRef },
    /// Settles accumulated balances at a checkpoint height.
    AccumulatorSettlement { epoch: u64, height: u64, root_object: SharedObjectRef },
    /// Opens a commit: advances the clock to the commit's timestamp and records,
    /// for every cancelled transaction, the sentinel version of each of its objects.
    ConsensusCommitPrologue {
        epoch: u64,
        round: u64,
        timestamp_ms: u64,
        clock_object: SharedObjectRef,
        cancelled_versions: CancellationList,
    },
}

/// Version assignments of cancelled transactions: one link per object of each,
/// holding the transaction's digest, the object and the version it is given.
#[derive(Debug)]
pub enum CancellationList {
    End,
    Next(TransactionDigest, SharedObjectRef, u64, Box<CancellationList>),
}

/// Identifies a schedulable unit, for deduplication and checkpoint roots.
#[derive(Clone, Copy, Debug, PartialEq, Eq, Structural)]
pub enum TransactionKey {
    Digest(TransactionDigest),
    RandomnessRound(u64, u64),
    AccumulatorSettlement(u64, u64),
    ConsensusCommitPrologue(u64, u64),
}

/// The shared objects a schedulable unit touches.
pub open spec fn schedulable_objects(s: Schedulable) -> Seq<SharedObjectRef> {
    match s {
        Schedulable::Transaction(tx) => tx.shared_objects@,
        Schedulable::RandomnessStateUpdate { state_object, .. } => seq![state_object],
        Schedulable::AccumulatorSettlement { root_object, .. } => seq![root_object],
        Schedulable::ConsensusCommitPrologue { clock_object, .. } => seq![clock_object],
    }
}

pub open spec fn schedulable_key(s: Schedulable) -> TransactionKey {
    match s {
        Schedulable::Transaction(tx) => TransactionKey::Digest(tx.digest),
        Schedulable::RandomnessStateUpdate { epoch, round, .. } => TransactionKey::RandomnessRound(epoch, round),
        Schedulable::AccumulatorSettlement { epoch, height, .. } => TransactionKey::AccumulatorSettlement(epoch, height),
        Schedulable::ConsensusCommitPrologue { epoch, round, .. } => TransactionKey::ConsensusCommitPrologue(epoch, round),
    }
}

/// A copy of a list of object references.
pub fn copy_refs(v: &Vec<SharedObjectRef>) -> (r: Vec<SharedObjectRef>)
    ensures
        r@ == v@,
{
    let mut r: Vec<SharedObjectRef> = Vec::new();
    let mut i: usize = 0;
    while i < v.len()
        invariant
            i <= v@.len(),
            r@ == v@.take(i as int),
        decreases v@.len() - i,
    {
        r.push(v[i]);
        i = i + 1;
        proof {
            assert(r@ =~= v@.take(i as int));
        }
    }
    proof {
        assert(v@.take(i as int) =~= v@);
    }
    r
}

impl Schedulable {
    pub fn key(&self) -> (r: TransactionKey)
        ensures
            r == schedulable_key(*self),
    {
        match self {
            Schedulable::Transaction(tx) => TransactionKey::Digest(tx.digest),
            Schedulable::RandomnessStateUpdate { epoch, round, .. } => TransactionKey::RandomnessRound(*epoch, *round),
            Schedulable::AccumulatorSettlement { epoch, height, .. } => TransactionKey::AccumulatorSettlement(*epoch, *height),
            Schedulable::ConsensusCommitPrologue { epoch, round, .. } => TransactionKey::ConsensusCommitPrologue(*epoch, *round),
        }
    }

    pub fn shared_objects(&self) -> (r: Vec<SharedObjectRef>)
        ensures
            r@ == schedulable_objects(*self),
    {
        match self {
            Schedulable::Transaction(tx) => copy_refs(&tx.shared_objects),
            Schedulable::RandomnessStateUpdate { state_object, .. } => vec![*state_object],
            Schedulable::AccumulatorSettlement { root_object, .. } => vec![*root_object],
            Schedulable::ConsensusCommitPrologue { clock_object, .. } => vec![*clock_object],
        }
    }
}

} // verus!

verus! {

impl ExecutableTransaction {
    /// A field-by-field copy.
    pub fn duplicate(&self) -> (r: ExecutableTransaction)
        ensures
            r.digest == self.digest,
            r.epoch == self.epoch,
            r.uses_randomness == self.uses_randomness,
            r.gas_budget == self.gas_budget,
            r.gas_price == self.gas_price,
            r.shared_objects@ == self.shared_objects@,
    {
        ExecutableTransaction {
            digest: self.digest,
            epoch: self.epoch,
            uses_randomness: self.uses_randomness,
            gas_budget: self.gas_budget,
            gas_price: self.gas_price,
            shared_objects: copy_refs(&self.shared_objects),
        }
    }
}

} // verus!
