use vstd::prelude::*;
use crate::congestion::{SharedObjectCongestionTracker, add_cost, congestion_decision};
use crate::deferral::{DeferralKey, from_round, within_limit, transaction_deferral_within_limit};
use crate::reconfig::{ReconfigState, stage};
use crate::types::{ExecutableTransaction, ObjectId, Round};

verus! {

/// Why a transaction was put off.
#[derive(Debug)]
pub enum DeferralReason {
    RandomnessNotReady,
    SharedObjectCongestion(Vec<ObjectId>),
}

/// Why a sequenced transaction will go through execution without running.
#[derive(Debug)]
pub enum CancelConsensusCertificateReason {
    CongestionOnObjects(Vec<ObjectId>),
    DkgFailed,
}

/// What processing one sequenced consensus message came to.
#[derive(Debug)]
pub enum ConsensusCertificateResult {
    /// The message was ignored (for instance it was already processed).
    Ignored,
    /// A transaction to execute (a user or a system transaction).
    SuiTransaction(ExecutableTransaction),
    /// The transaction is to be processed again at a later commit.
    Deferred(DeferralKey),
    /// A message that updates the randomness protocol's state.
    RandomnessConsensusMessage,
    /// Any other message (capabilities, checkpoint signatures, ...).
    ConsensusMessage,
    /// A system transaction ignored because the epoch is ending.
    IgnoredSystem,
    /// A transaction that goes through execution as cancelled.
    Cancelled((ExecutableTransaction, CancelConsensusCertificateReason)),
}

/// How the congestion controller prices a transaction.
#[derive(Clone, Copy, Debug, PartialEq, Eq, Structural)]
pub enum CongestionCostModel {
    /// No congestion control: transactions have no cost.
    Disabled,
    /// Every transaction costs one.
    TotalTxCount,
    /// A transaction costs its gas budget.
    TotalGasBudget,
    /// A transaction costs its gas budget, capped.
    TotalGasBudgetWithCap(u64),
    /// A transaction costs the execution time the estimator expects.
    ExecutionTimeEstimate,
}

pub open spec fn tx_cost_spec(model: CongestionCostModel, gas_budget: u64, estimate: Option<u64>) -> Option<u64> {
    match model {
        CongestionCostModel::Disabled => None,
        CongestionCostModel::TotalTxCount => Some(1),
        CongestionCostModel::TotalGasBudget => Some(gas_budget),
        CongestionCostModel::TotalGasBudgetWithCap(cap) => Some(if gas_budget < cap { gas_budget } else { cap }),
        CongestionCostModel::ExecutionTimeEstimate => match estimate {
            Some(e) => Some(e),
            None => Some(0),
        },
    }
}

/// The cost of a transaction under a model; `estimate` is what the execution-time
/// estimator expects of it, where one runs.
pub fn get_tx_cost(model: CongestionCostModel, tx: &ExecutableTransaction, estimate: Option<u64>) -> (r: Option<u64>)
    ensures
        r == tx_cost_spec(model, tx.gas_budget, estimate),
{
    match model {
        CongestionCostModel::Disabled => None,
        CongestionCostModel::TotalTxCount => Some(1),
        CongestionCostModel::TotalGasBudget => Some(tx.gas_budget),
        CongestionCostModel::TotalGasBudgetWithCap(cap) => Some(if tx.gas_budget < cap { tx.gas_budget } else { cap }),
        CongestionCostModel::ExecutionTimeEstimate => match estimate {
            Some(e) => Some(e),
            None => Some(0),
        },
    }
}

/// What holds for the whole of one commit while its transactions are decided.
#[derive(Clone, Copy, Debug, PartialEq, Eq, Structural)]
pub struct CommitContext {
    /// The consensus round of the commit.
    pub round: Round,
    /// DKG failed for good in this epoch.
    pub dkg_failed: bool,
    /// This commit reserved a randomness round.
    pub generating_randomness: bool,
    /// Randomness is enabled for the epoch.
    pub randomness_enabled: bool,
    /// How many rounds a congestion deferral may last.
    pub max_deferral_rounds: u64,
}

/// The transaction must wait for randomness that this commit does not produce.
pub open spec fn waits_for_randomness(ctx: CommitContext, uses_randomness: bool) -> bool {
    !ctx.dkg_failed && !ctx.generating_randomness && ctx.randomness_enabled && uses_randomness
}

/// The key of a randomness deferral, counted from the round it first started.
pub open spec fn randomness_key(previous: Option<DeferralKey>, round: Round) -> DeferralKey {
    DeferralKey::Randomness {
        deferred_from_round: match previous {
            Some(k) => from_round(k),
            None => round,
        },
    }
}

/// A decision on one user transaction, over values alone.
pub enum Decision {
    Ignore,
    DeferForRandomness(DeferralKey),
    DeferForCongestion(DeferralKey, Seq<ObjectId>),
    CancelForCongestion(Seq<ObjectId>),
    CancelForDkg,
    Schedule,
}

/// The deferral check: randomness first, then congestion.
pub open spec fn should_defer_spec(
    costs: Map<ObjectId, u64>,
    budget: u64,
    tx_cost: Option<u64>,
    tx: ExecutableTransaction,
    ctx: CommitContext,
    previous: Option<DeferralKey>,
) -> Option<(DeferralKey, Option<Seq<ObjectId>>)> {
    if waits_for_randomness(ctx, tx.uses_randomness) {
        Some((randomness_key(previous, ctx.round), None))
    } else {
        match congestion_decision(costs, budget, tx_cost, tx.shared_objects@, previous, ctx.round) {
            Some((k, ids)) => Some((k, Some(ids))),
            None => None,
        }
    }
}

/// How one user transaction is resolved in a commit.
pub open spec fn user_decision(
    costs: Map<ObjectId, u64>,
    budget: u64,
    tx_cost: Option<u64>,
    tx: ExecutableTransaction,
    ctx: CommitContext,
    previous: Option<DeferralKey>,
    author_sent_end_of_publish: bool,
    reconfig: ReconfigState,
) -> Decision {
    if previous.is_none() && (author_sent_end_of_publish || stage(reconfig) > 1) {
        Decision::Ignore
    } else {
        match should_defer_spec(costs, budget, tx_cost, tx, ctx, previous) {
            Some((k, None)) => Decision::DeferForRandomness(k),
            Some((k, Some(ids))) => if within_limit(k, ctx.max_deferral_rounds) {
                Decision::DeferForCongestion(k, ids)
            } else {
                Decision::CancelForCongestion(ids)
            },
            None => if ctx.dkg_failed && ctx.randomness_enabled && tx.uses_randomness {
                Decision::CancelForDkg
            } else {
                Decision::Schedule
            },
        }
    }
}

/// The result reports the decision, carrying the transaction where it is
/// scheduled or cancelled.
pub open spec fn outcome_matches(d: Decision, r: ConsensusCertificateResult, tx: ExecutableTransaction) -> bool {
    match (d, r) {
        (Decision::Ignore, ConsensusCertificateResult::Ignored) => true,
        (Decision::DeferForRandomness(k), ConsensusCertificateResult::Deferred(k2)) => k == k2,
        (Decision::DeferForCongestion(k, _), ConsensusCertificateResult::Deferred(k2)) => k == k2,
        (Decision::CancelForCongestion(ids), ConsensusCertificateResult::Cancelled((t, CancelConsensusCertificateReason::CongestionOnObjects(ids2)))) => t == tx && ids2@ == ids,
        (Decision::CancelForDkg, ConsensusCertificateResult::Cancelled((t, CancelConsensusCertificateReason::DkgFailed))) => t == tx,
        (Decision::Schedule, ConsensusCertificateResult::SuiTransaction(t)) => t == tx,
        _ => false,
    }
}

/// The tracker's costs after a decision: only a scheduled transaction with a
/// cost moves its objects on.
pub open spec fn costs_after(d: Decision, costs: Map<ObjectId, u64>, tx: ExecutableTransaction, tx_cost: Option<u64>) -> Map<ObjectId, u64> {
    match (d, tx_cost) {
        (Decision::Schedule, Some(c)) => add_cost(costs, tx.shared_objects@, c),
        _ => costs,
    }
}

/// Whether a transaction must wait, and why: for randomness that this commit
/// does not produce, or because one of its shared objects is congested.
pub fn should_defer(
    tx_cost: Option<u64>,
    tx: &ExecutableTransaction,
    ctx: &CommitContext,
    previous: Option<DeferralKey>,
    tracker: &SharedObjectCongestionTracker,
) -> (r: Option<(DeferralKey, DeferralReason)>)
    requires
        tracker.wf(),
        ctx.round < u64::MAX,
    ensures
        match (r, should_defer_spec(tracker.costs(), tracker.budget(), tx_cost, *tx, *ctx, previous)) {
            (None, None) => true,
            (Some((k, DeferralReason::RandomnessNotReady)), Some((k2, None))) => k == k2,
            (Some((k, DeferralReason::SharedObjectCongestion(ids))), Some((k2, Some(ids2)))) => k == k2 && ids@ == ids2,
            _ => false,
        },
{
    if !ctx.dkg_failed && !ctx.generating_randomness && ctx.randomness_enabled && tx.uses_randomness {
        let from = match previous {
            Some(k) => k.deferred_from_round(),
            None => ctx.round,
        };
        return Some((DeferralKey::new_for_randomness(from), DeferralReason::RandomnessNotReady));
    }
    match tracker.should_defer_due_to_object_congestion(tx_cost, &tx.shared_objects, previous, ctx.round) {
        Some((k, ids)) => Some((k, DeferralReason::SharedObjectCongestion(ids))),
        None => None,
    }
}

/// Decides one sequenced user transaction: ignore it, put it off, cancel it or
/// schedule it. A scheduled transaction's cost is committed into the tracker.
pub fn process_consensus_user_transaction(
    tx: ExecutableTransaction,
    author_sent_end_of_publish: bool,
    previous: Option<DeferralKey>,
    reconfig: ReconfigState,
    ctx: &CommitContext,
    tx_cost: Option<u64>,
    tracker: &mut SharedObjectCongestionTracker,
) -> (r: ConsensusCertificateResult)
    requires
        old(tracker).wf(),
        ctx.round < u64::MAX,
    ensures
        final(tracker).wf(),
        final(tracker).budget() == old(tracker).budget(),
        ({
            let d = user_decision(old(tracker).costs(), old(tracker).budget(), tx_cost, tx, *ctx, previous, author_sent_end_of_publish, reconfig);
            &&& outcome_matches(d, r, tx)
            &&& final(tracker).costs() == costs_after(d, old(tracker).costs(), tx, tx_cost)
        }),
{
    if previous.is_none() && (author_sent_end_of_publish || !reconfig.should_accept_consensus_certs()) {
        return ConsensusCertificateResult::Ignored;
    }
    match should_defer(tx_cost, &tx, ctx, previous, tracker) {
        Some((k, DeferralReason::RandomnessNotReady)) => {
            return ConsensusCertificateResult::Deferred(k);
        },
        Some((k, DeferralReason::SharedObjectCongestion(ids))) => {
            if transaction_deferral_within_limit(&k, ctx.max_deferral_rounds) {
                return ConsensusCertificateResult::Deferred(k);
            } else {
                return ConsensusCertificateResult::Cancelled((tx, CancelConsensusCertificateReason::CongestionOnObjects(ids)));
            }
        },
        None => {},
    }
    if ctx.dkg_failed && ctx.randomness_enabled && tx.uses_randomness {
        return ConsensusCertificateResult::Cancelled((tx, CancelConsensusCertificateReason::DkgFailed));
    }
    tracker.bump_object_execution_cost(tx_cost, &tx.shared_objects);
    ConsensusCertificateResult::SuiTransaction(tx)
}

/// A transaction first put off for congestion at round `R` is never put off for
/// congestion in a round past `R + max_deferral_rounds`: in such a round it is
/// cancelled because of the congested objects instead.
pub proof fn lemma_deferral_bounded(
    costs: Map<ObjectId, u64>,
    budget: u64,
    tx_cost: Option<u64>,
    tx: ExecutableTransaction,
    ctx: CommitContext,
    previous: Option<DeferralKey>,
    author_sent_end_of_publish: bool,
    reconfig: ReconfigState,
)
    requires
        ctx.round < u64::MAX,
    ensures
        match user_decision(costs, budget, tx_cost, tx, ctx, previous, author_sent_end_of_publish, reconfig) {
            Decision::DeferForCongestion(k, _) => match k {
                DeferralKey::ConsensusRound { future_round, deferred_from_round } =>
                    future_round == ctx.round + 1
                    && deferred_from_round == (match previous { Some(p) => from_round(p), None => ctx.round })
                    && ctx.round <= deferred_from_round + ctx.max_deferral_rounds,
                _ => false,
            },
            Decision::CancelForCongestion(_) =>
                ctx.round > (match previous { Some(p) => from_round(p), None => ctx.round }) + ctx.max_deferral_rounds,
            _ => true,
        },
{
}

} // verus!
