use vstd::prelude::*;
use crate::reconfig::{ReconfigState, stage};
use crate::types::{Round, TransactionKey};

verus! {

/// Where the epoch's distributed key generation stands.
#[derive(Clone, Copy, Debug, PartialEq, Eq, Structural)]
pub enum DkgStatus {
    Pending,
    Failed,
    Successful,
}

/// What the randomness coordinator decides for one commit.
#[derive(Clone, Copy, Debug, PartialEq, Eq, Structural)]
pub struct RandomnessDecision {
    /// DKG failed for good: randomness-using transactions are cancelled.
    pub dkg_failed: bool,
    /// A new randomness round is to be reserved in this commit.
    pub reserve_round: bool,
}

pub open spec fn randomness_decision(enabled: bool, status: DkgStatus, reconfig: ReconfigState) -> RandomnessDecision {
    RandomnessDecision {
        dkg_failed: enabled && status == DkgStatus::Failed,
        reserve_round: enabled && status == DkgStatus::Successful && stage(reconfig) < 3,
    }
}

/// Decides whether this commit reserves a randomness round: only when randomness
/// is enabled, DKG succeeded and the epoch still accepts transactions. A failed
/// DKG is reported so that randomness-using transactions get cancelled.
pub fn decide_randomness_round(enabled: bool, status: DkgStatus, reconfig: &ReconfigState) -> (r: RandomnessDecision)
    ensures
        r == randomness_decision(enabled, status, *reconfig),
        !(r.dkg_failed && r.reserve_round),
{
    if !enabled {
        return RandomnessDecision { dkg_failed: false, reserve_round: false };
    }
    match status {
        DkgStatus::Pending => RandomnessDecision { dkg_failed: false, reserve_round: false },
        DkgStatus::Failed => RandomnessDecision { dkg_failed: true, reserve_round: false },
        DkgStatus::Successful => RandomnessDecision { dkg_failed: false, reserve_round: reconfig.should_accept_tx() },
    }
}

/// Deferred randomness transactions are reloaded when DKG failed (to cancel
/// them) or when a round is generated (to run them).
pub fn should_load_deferred_randomness(dkg_failed: bool, randomness_round: Option<u64>) -> (r: bool)
    ensures
        r == (dkg_failed || randomness_round is Some),
{
    dkg_failed || randomness_round.is_some()
}

pub open spec fn checkpoint_height(round: Round, randomness_enabled: bool) -> int {
    if randomness_enabled {
        2 * round
    } else {
        round as int
    }
}

/// The height of a commit's pending checkpoint: twice the round when randomness
/// is enabled, leaving the next odd height for the randomness checkpoint.
pub fn calculate_pending_checkpoint_height(round: Round, randomness_enabled: bool) -> (r: u64)
    requires
        randomness_enabled ==> round <= u64::MAX / 2,
    ensures
        r == checkpoint_height(round, randomness_enabled),
{
    if randomness_enabled {
        round * 2
    } else {
        round
    }
}

/// A checkpoint for roots of transactions in randomness is written when a round
/// was reserved, or when DKG failed and there are roots to cancel.
pub fn should_write_random_checkpoint(randomness_round: Option<u64>, dkg_failed: bool, randomness_roots: usize) -> (r: bool)
    ensures
        r == (randomness_round is Some || (dkg_failed && randomness_roots > 0)),
{
    randomness_round.is_some() || (dkg_failed && randomness_roots > 0)
}

/// Roots and details handed to the checkpoint builder.
#[derive(Clone, Debug)]
pub struct PendingCheckpoint {
    pub roots: Vec<TransactionKey>,
    pub timestamp_ms: u64,
    pub checkpoint_height: u64,
    pub last_of_epoch: bool,
}

} // verus!
