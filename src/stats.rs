use vstd::prelude::*;
use crate::types::TransactionDigest;

verus! {

/// Per-authority counters of what consensus delivered. Versioned because it is
/// stored on disk.
pub trait ConsensusStatsAPI {
    spec fn messages(&self) -> Seq<u64>;

    spec fn user_transactions(&self) -> Seq<u64>;

    fn is_initialized(&self) -> (r: bool)
        ensures
            r == (self.messages().len() > 0),
    ;

    fn get_num_messages(&self, authority: usize) -> (r: u64)
        requires
            authority < self.messages().len(),
        ensures
            r == self.messages()[authority as int],
    ;

    fn inc_num_messages(&mut self, authority: usize) -> (r: u64)
        requires
            authority < old(self).messages().len(),
            old(self).messages()[authority as int] < u64::MAX,
        ensures
            r == old(self).messages()[authority as int] + 1,
            final(self).messages() == old(self).messages().update(authority as int, r),
            final(self).user_transactions() == old(self).user_transactions(),
    ;

    fn get_num_user_transactions(&self, authority: usize) -> (r: u64)
        requires
            authority < self.user_transactions().len(),
        ensures
            r == self.user_transactions()[authority as int],
    ;

    fn inc_num_user_transactions(&mut self, authority: usize) -> (r: u64)
        requires
            authority < old(self).user_transactions().len(),
            old(self).user_transactions()[authority as int] < u64::MAX,
        ensures
            r == old(self).user_transactions()[authority as int] + 1,
            final(self).user_transactions() == old(self).user_transactions().update(authority as int, r),
            final(self).messages() == old(self).messages(),
    ;
}

#[derive(Clone, Debug)]
pub struct ConsensusStatsV1 {
    pub num_messages: Vec<u64>,
    pub num_user_transactions: Vec<u64>,
}

impl ConsensusStatsAPI for ConsensusStatsV1 {
    open spec fn messages(&self) -> Seq<u64> {
        self.num_messages@
    }

    open spec fn user_transactions(&self) -> Seq<u64> {
        self.num_user_transactions@
    }

    fn is_initialized(&self) -> (r: bool) {
        self.num_messages.len() > 0
    }

    fn get_num_messages(&self, authority: usize) -> (r: u64) {
        self.num_messages[authority]
    }

    fn inc_num_messages(&mut self, authority: usize) -> (r: u64) {
        let v = self.num_messages[authority] + 1;
        self.num_messages.set(authority, v);
        v
    }

    fn get_num_user_transactions(&self, authority: usize) -> (r: u64) {
        self.num_user_transactions[authority]
    }

    fn inc_num_user_transactions(&mut self, authority: usize) -> (r: u64) {
        let v = self.num_user_transactions[authority] + 1;
        self.num_user_transactions.set(authority, v);
        v
    }
}

#[derive(Clone, Debug)]
pub enum ConsensusStats {
    V1(ConsensusStatsV1),
}

impl ConsensusStats {
    /// Zeroed counters for a committee of `size` authorities.
    pub fn new(size: usize) -> (r: ConsensusStats)
        ensures
            r.messages() == Seq::new(size as nat, |i: int| 0u64),
            r.user_transactions() == Seq::new(size as nat, |i: int| 0u64),
    {
        let mut a: Vec<u64> = Vec::new();
        let mut b: Vec<u64> = Vec::new();
        let mut i: usize = 0;
        while i < size
            invariant
                i <= size,
                a@ == Seq::new(i as nat, |j: int| 0u64),
                b@ == Seq::new(i as nat, |j: int| 0u64),
            decreases size - i,
        {
            a.push(0);
            b.push(0);
            i = i + 1;
            proof {
                assert(a@ =~= Seq::new(i as nat, |j: int| 0u64));
                assert(b@ =~= Seq::new(i as nat, |j: int| 0u64));
            }
        }
        ConsensusStats::V1(ConsensusStatsV1 { num_messages: a, num_user_transactions: b })
    }
}

impl ConsensusStatsAPI for ConsensusStats {
    open spec fn messages(&self) -> Seq<u64> {
        match self {
            ConsensusStats::V1(v) => v.num_messages@,
        }
    }

    open spec fn user_transactions(&self) -> Seq<u64> {
        match self {
            ConsensusStats::V1(v) => v.num_user_transactions@,
        }
    }

    fn is_initialized(&self) -> (r: bool) {
        match self {
            ConsensusStats::V1(v) => v.is_initialized(),
        }
    }

    fn get_num_messages(&self, authority: usize) -> (r: u64) {
        match self {
            ConsensusStats::V1(v) => v.get_num_messages(authority),
        }
    }

    fn inc_num_messages(&mut self, authority: usize) -> (r: u64) {
        match self {
            ConsensusStats::V1(v) => v.inc_num_messages(authority),
        }
    }

    fn get_num_user_transactions(&self, authority: usize) -> (r: u64) {
        match self {
            ConsensusStats::V1(v) => v.get_num_user_transactions(authority),
        }
    }

    fn inc_num_user_transactions(&mut self, authority: usize) -> (r: u64) {
        match self {
            ConsensusStats::V1(v) => v.inc_num_user_transactions(authority),
        }
    }
}

impl Default for ConsensusStats {
    fn default() -> (r: ConsensusStats)
        ensures
            r.messages().len() == 0,
            r.user_transactions().len() == 0,
    {
        ConsensusStats::new(0)
    }
}

/// Position in the consensus output: leader round, sub-DAG, transaction.
/// Ordered by these three fields in turn.
#[derive(Clone, Copy, Debug, Default, PartialEq, Eq, PartialOrd, Ord, Structural)]
pub struct ExecutionIndices {
    /// The round number of the last committed leader.
    pub last_committed_round: u64,
    /// The index of the last sub-DAG that was executed (either fully or partially).
    pub sub_dag_index: u64,
    /// The index of the last transaction that was executed.
    pub transaction_index: u64,
}

pub open spec fn indices_before(a: ExecutionIndices, b: ExecutionIndices) -> bool {
    a.last_committed_round < b.last_committed_round
        || (a.last_committed_round == b.last_committed_round && (a.sub_dag_index < b.sub_dag_index
            || (a.sub_dag_index == b.sub_dag_index && a.transaction_index < b.transaction_index)))
}

impl ExecutionIndices {
    /// Compares positions: round first, then sub-DAG, then transaction.
    pub fn cmp_indices(&self, other: &ExecutionIndices) -> (r: std::cmp::Ordering)
        ensures
            (r == std::cmp::Ordering::Less) == indices_before(*self, *other),
            (r == std::cmp::Ordering::Greater) == indices_before(*other, *self),
            (r == std::cmp::Ordering::Equal) == (*self == *other),
    {
        if self.last_committed_round != other.last_committed_round {
            if self.last_committed_round < other.last_committed_round {
                std::cmp::Ordering::Less
            } else {
                std::cmp::Ordering::Greater
            }
        } else if self.sub_dag_index != other.sub_dag_index {
            if self.sub_dag_index < other.sub_dag_index {
                std::cmp::Ordering::Less
            } else {
                std::cmp::Ordering::Greater
            }
        } else if self.transaction_index != other.transaction_index {
            if self.transaction_index < other.transaction_index {
                std::cmp::Ordering::Less
            } else {
                std::cmp::Ordering::Greater
            }
        } else {
            std::cmp::Ordering::Equal
        }
    }
}

#[derive(Clone, Debug)]
pub struct ExecutionIndicesWithStats {
    pub index: ExecutionIndices,
    /// Always zero; kept for compatibility of the stored form.
    pub hash: u64,
    pub stats: ConsensusStats,
}

impl Default for ExecutionIndicesWithStats {
    fn default() -> (r: ExecutionIndicesWithStats)
        ensures
            r.index == (ExecutionIndices { last_committed_round: 0, sub_dag_index: 0, transaction_index: 0 }),
            r.hash == 0,
            r.stats.messages().len() == 0,
    {
        ExecutionIndicesWithStats {
            index: ExecutionIndices { last_committed_round: 0, sub_dag_index: 0, transaction_index: 0 },
            hash: 0,
            stats: ConsensusStats::new(0),
        }
    }
}

/// What a lock on an owned object records: the transaction holding it.
pub type LockDetails = TransactionDigest;

/// Versioned, stored form of the lock details.
#[derive(Clone, Copy, Debug, PartialEq, Eq, Structural)]
pub enum LockDetailsWrapper {
    V1(TransactionDigest),
}

impl LockDetailsWrapper {
    /// Brings an older stored version to the latest one.
    pub fn migrate(self) -> (r: LockDetailsWrapper)
        ensures
            r == self,
    {
        self
    }

    /// The details, in the latest version.
    pub fn inner(&self) -> (r: &LockDetails)
        ensures
            *self == LockDetailsWrapper::V1(*r),
    {
        match self {
            LockDetailsWrapper::V1(v1) => v1,
        }
    }

    pub fn into_inner(self) -> (r: LockDetails)
        ensures
            self == LockDetailsWrapper::V1(r),
    {
        match self {
            LockDetailsWrapper::V1(v1) => v1,
        }
    }
}

impl From<LockDetails> for LockDetailsWrapper {
    fn from(details: LockDetails) -> (r: LockDetailsWrapper) {
        LockDetailsWrapper::V1(details)
    }
}

impl vstd::std_specs::convert::FromSpecImpl<LockDetails> for LockDetailsWrapper {
    open spec fn obeys_from_spec() -> bool {
        true
    }

    open spec fn from_spec(details: LockDetails) -> LockDetailsWrapper {
        LockDetailsWrapper::V1(details)
    }
}

} // verus!
