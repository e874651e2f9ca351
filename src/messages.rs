use vstd::prelude::*;
use crate::congestion::SharedObjectCongestionTracker;
use crate::policy::{CommitContext, CongestionCostModel, ConsensusCertificateResult, costs_after, get_tx_cost, outcome_matches, process_consensus_user_transaction, tx_cost_spec, user_decision};
use crate::reconfig::{ReconfigState, stage};
use crate::types::{AuthorityIndex, ExecutableTransaction};

verus! {

/// The kinds of message that consensus sequences.
#[derive(Clone, Debug)]
pub enum ConsensusTransactionKind {
    /// A user transaction certified by a quorum.
    CertifiedTransaction(ExecutableTransaction),
    /// A user transaction certified by consensus itself (fast path).
    UserTransaction(ExecutableTransaction),
    /// A checkpoint signature, in its serialized form.
    CheckpointSignature { authority: AuthorityIndex, data: Vec<u8> },
    EndOfPublish(AuthorityIndex),
    /// An authority's capabilities, in their serialized form.
    CapabilityNotification { authority: AuthorityIndex, data: Vec<u8> },
    CapabilityNotificationV2 { authority: AuthorityIndex, data: Vec<u8> },
    /// A vote for a newly fetched JWK, in its serialized form.
    NewJwkFetched { authority: AuthorityIndex, within_size_limit: bool, data: Vec<u8> },
    /// Only ever produced internally; one sent through consensus is dropped.
    RandomnessStateUpdate,
    /// A DKG message, in its serialized form.
    RandomnessDkgMessage(AuthorityIndex, Vec<u8>),
    /// A DKG confirmation, in its serialized form.
    RandomnessDkgConfirmation(AuthorityIndex, Vec<u8>),
    /// Execution times an authority observed: for each key, microseconds.
    ExecutionTimeObservation { authority: AuthorityIndex, generation: u64, estimates: Vec<(u64, u64)> },
    /// A transaction the system itself synthesized.
    System(ExecutableTransaction),
}

/// A message with the consensus metadata it was sequenced with.
#[derive(Clone, Debug)]
pub struct SequencedConsensusTransaction {
    /// The authority whose block carried the message.
    pub author: AuthorityIndex,
    /// The key under which the message is recorded as processed.
    pub key: u64,
    pub kind: ConsensusTransactionKind,
}

/// The message's claimed author agrees with the block that carried it, and it
/// passes the checks of its kind.
pub open spec fn well_formed_message(t: SequencedConsensusTransaction) -> bool {
    match t.kind {
        ConsensusTransactionKind::CertifiedTransaction(_) => true,
        ConsensusTransactionKind::UserTransaction(_) => true,
        ConsensusTransactionKind::CheckpointSignature { authority, .. } => authority == t.author,
        ConsensusTransactionKind::EndOfPublish(authority) => authority == t.author,
        ConsensusTransactionKind::CapabilityNotification { authority, .. } => authority == t.author,
        ConsensusTransactionKind::CapabilityNotificationV2 { authority, .. } => authority == t.author,
        ConsensusTransactionKind::NewJwkFetched { authority, within_size_limit, .. } => authority == t.author && within_size_limit,
        ConsensusTransactionKind::RandomnessStateUpdate => false,
        ConsensusTransactionKind::RandomnessDkgMessage(authority, _) => authority == t.author,
        ConsensusTransactionKind::RandomnessDkgConfirmation(authority, _) => authority == t.author,
        ConsensusTransactionKind::ExecutionTimeObservation { authority, .. } => authority == t.author,
        ConsensusTransactionKind::System(_) => true,
    }
}

pub open spec fn accepted_message(t: SequencedConsensusTransaction, processed: Seq<u64>) -> bool {
    !processed.contains(t.key) && well_formed_message(t)
}

/// Whether the key is in the list.
fn contains_key(v: &Vec<u64>, k: u64) -> (r: bool)
    ensures
        r == v@.contains(k),
{
    let mut i: usize = 0;
    while i < v.len()
        invariant
            i <= v@.len(),
            forall|j: int| 0 <= j < i ==> v@[j] != k,
        decreases v@.len() - i,
    {
        if v[i] == k {
            return true;
        }
        i = i + 1;
    }
    false
}

/// Drops a message that was already processed, or whose claimed author does not
/// match the authority that sequenced it (a sign of a Byzantine sender).
pub fn verify_consensus_transaction(t: &SequencedConsensusTransaction, processed: &Vec<u64>) -> (r: bool)
    ensures
        r == accepted_message(*t, processed@),
{
    if contains_key(processed, t.key) {
        return false;
    }
    match &t.kind {
        ConsensusTransactionKind::CertifiedTransaction(_) => true,
        ConsensusTransactionKind::UserTransaction(_) => true,
        ConsensusTransactionKind::CheckpointSignature { authority, .. } => *authority == t.author,
        ConsensusTransactionKind::EndOfPublish(authority) => *authority == t.author,
        ConsensusTransactionKind::CapabilityNotification { authority, .. } => *authority == t.author,
        ConsensusTransactionKind::CapabilityNotificationV2 { authority, .. } => *authority == t.author,
        ConsensusTransactionKind::NewJwkFetched { authority, within_size_limit, .. } => *authority == t.author && *within_size_limit,
        ConsensusTransactionKind::RandomnessStateUpdate => false,
        ConsensusTransactionKind::RandomnessDkgMessage(authority, _) => *authority == t.author,
        ConsensusTransactionKind::RandomnessDkgConfirmation(authority, _) => *authority == t.author,
        ConsensusTransactionKind::ExecutionTimeObservation { authority, .. } => *authority == t.author,
        ConsensusTransactionKind::System(_) => true,
    }
}

/// Which list a message goes to: end-of-publish notices, execution-time
/// observations, system transactions, user transactions that need randomness,
/// and everything else.
#[derive(Clone, Copy, Debug, PartialEq, Eq, Structural)]
pub enum MessageClass {
    EndOfPublish,
    ExecutionTimeObservation,
    System,
    UserWithRandomness,
    Other,
}

pub open spec fn class_of(t: SequencedConsensusTransaction, randomness_enabled: bool) -> MessageClass {
    match t.kind {
        ConsensusTransactionKind::EndOfPublish(_) => MessageClass::EndOfPublish,
        ConsensusTransactionKind::ExecutionTimeObservation { .. } => MessageClass::ExecutionTimeObservation,
        ConsensusTransactionKind::System(_) => MessageClass::System,
        ConsensusTransactionKind::CertifiedTransaction(tx) => if randomness_enabled && tx.uses_randomness {
            MessageClass::UserWithRandomness
        } else {
            MessageClass::Other
        },
        ConsensusTransactionKind::UserTransaction(tx) => if randomness_enabled && tx.uses_randomness {
            MessageClass::UserWithRandomness
        } else {
            MessageClass::Other
        },
        _ => MessageClass::Other,
    }
}

pub fn classify(t: &SequencedConsensusTransaction, randomness_enabled: bool) -> (r: MessageClass)
    ensures
        r == class_of(*t, randomness_enabled),
{
    match &t.kind {
        ConsensusTransactionKind::EndOfPublish(_) => MessageClass::EndOfPublish,
        ConsensusTransactionKind::ExecutionTimeObservation { .. } => MessageClass::ExecutionTimeObservation,
        ConsensusTransactionKind::System(_) => MessageClass::System,
        ConsensusTransactionKind::CertifiedTransaction(tx) => if randomness_enabled && tx.uses_randomness {
            MessageClass::UserWithRandomness
        } else {
            MessageClass::Other
        },
        ConsensusTransactionKind::UserTransaction(tx) => if randomness_enabled && tx.uses_randomness {
            MessageClass::UserWithRandomness
        } else {
            MessageClass::Other
        },
        _ => MessageClass::Other,
    }
}

/// The accepted messages of a class, in consensus order.
pub open spec fn messages_of_class(
    txs: Seq<SequencedConsensusTransaction>,
    processed: Seq<u64>,
    randomness_enabled: bool,
    c: MessageClass,
) -> Seq<SequencedConsensusTransaction> {
    txs.filter(|t: SequencedConsensusTransaction| accepted_message(t, processed) && class_of(t, randomness_enabled) == c)
}

/// A commit's accepted messages, split by class, each list in consensus order.
pub struct ClassifiedMessages {
    pub end_of_publish: Vec<SequencedConsensusTransaction>,
    pub execution_time_observations: Vec<SequencedConsensusTransaction>,
    pub system: Vec<SequencedConsensusTransaction>,
    pub randomness: Vec<SequencedConsensusTransaction>,
    pub other: Vec<SequencedConsensusTransaction>,
}

/// Verifies a commit's messages and splits those accepted by class.
pub fn classify_transactions(
    txs: Vec<SequencedConsensusTransaction>,
    processed: &Vec<u64>,
    randomness_enabled: bool,
) -> (r: ClassifiedMessages)
    ensures
        r.end_of_publish@ == messages_of_class(txs@, processed@, randomness_enabled, MessageClass::EndOfPublish),
        r.execution_time_observations@ == messages_of_class(txs@, processed@, randomness_enabled, MessageClass::ExecutionTimeObservation),
        r.system@ == messages_of_class(txs@, processed@, randomness_enabled, MessageClass::System),
        r.randomness@ == messages_of_class(txs@, processed@, randomness_enabled, MessageClass::UserWithRandomness),
        r.other@ == messages_of_class(txs@, processed@, randomness_enabled, MessageClass::Other),
{
    let ghost all = txs@;
    let mut out = ClassifiedMessages {
        end_of_publish: Vec::new(),
        execution_time_observations: Vec::new(),
        system: Vec::new(),
        randomness: Vec::new(),
        other: Vec::new(),
    };
    let mut rest = txs;
    let ghost mut k: int = 0;
    while rest.len() > 0
        invariant
            0 <= k <= all.len(),
            rest@ == all.subrange(k, all.len() as int),
            out.end_of_publish@ == messages_of_class(all.take(k), processed@, randomness_enabled, MessageClass::EndOfPublish),
            out.execution_time_observations@ == messages_of_class(all.take(k), processed@, randomness_enabled, MessageClass::ExecutionTimeObservation),
            out.system@ == messages_of_class(all.take(k), processed@, randomness_enabled, MessageClass::System),
            out.randomness@ == messages_of_class(all.take(k), processed@, randomness_enabled, MessageClass::UserWithRandomness),
            out.other@ == messages_of_class(all.take(k), processed@, randomness_enabled, MessageClass::Other),
        decreases rest@.len(),
    {
        let t = rest.remove(0);
        proof {
            assert(t == all[k]);
            assert(all.take(k + 1).drop_last() =~= all.take(k));
            assert(all.take(k + 1).last() == t);
            reveal_with_fuel(Seq::filter, 1);
        }
        if verify_consensus_transaction(&t, processed) {
            let c = classify(&t, randomness_enabled);
            match c {
                MessageClass::EndOfPublish => out.end_of_publish.push(t),
                MessageClass::ExecutionTimeObservation => out.execution_time_observations.push(t),
                MessageClass::System => out.system.push(t),
                MessageClass::UserWithRandomness => out.randomness.push(t),
                MessageClass::Other => out.other.push(t),
            }
        }
        proof {
            k = k + 1;
            assert(rest@ =~= all.subrange(k, all.len() as int));
        }
    }
    proof {
        assert(all.take(k) =~= all);
    }
    out
}

/// What the epoch's configuration fixes for message processing.
#[derive(Clone, Copy, Debug, PartialEq, Eq, Structural)]
pub struct MessageConfig {
    pub epoch: u64,
    /// Transactions certified by consensus itself are accepted.
    pub fastpath_enabled: bool,
    pub cost_model: CongestionCostModel,
}

/// A freshly sequenced user transaction is decided by the deferral and
/// cancellation policy, at the cost its model gives it.
pub open spec fn user_outcome(
    before: SharedObjectCongestionTracker,
    after: SharedObjectCongestionTracker,
    r: ConsensusCertificateResult,
    tx: ExecutableTransaction,
    config: &MessageConfig,
    ctx: CommitContext,
    author_sent_end_of_publish: bool,
    reconfig: ReconfigState,
    estimate: Option<u64>,
) -> bool {
    let cost = tx_cost_spec(config.cost_model, tx.gas_budget, estimate);
    let d = user_decision(before.costs(), before.budget(), cost, tx, ctx, None, author_sent_end_of_publish, reconfig);
    &&& outcome_matches(d, r, tx)
    &&& after.costs() == costs_after(d, before.costs(), tx, cost)
}

/// Routes one message to its handler. User transactions go through the
/// deferral and cancellation policy; system transactions are admitted while
/// the epoch accepts consensus certificates; other messages are acknowledged.
pub fn process_consensus_transaction(
    t: SequencedConsensusTransaction,
    config: &MessageConfig,
    ctx: &CommitContext,
    author_sent_end_of_publish: bool,
    reconfig: ReconfigState,
    estimate: Option<u64>,
    tracker: &mut SharedObjectCongestionTracker,
) -> (r: ConsensusCertificateResult)
    requires
        old(tracker).wf(),
        ctx.round < u64::MAX,
    ensures
        final(tracker).wf(),
        final(tracker).budget() == old(tracker).budget(),
        match t.kind {
            ConsensusTransactionKind::CertifiedTransaction(tx) => if tx.epoch != config.epoch {
                r is Ignored && final(tracker).costs() == old(tracker).costs()
            } else {
                user_outcome(*old(tracker), *final(tracker), r, tx, config, *ctx, author_sent_end_of_publish, reconfig, estimate)
            },
            ConsensusTransactionKind::UserTransaction(tx) => if !config.fastpath_enabled {
                r is Ignored && final(tracker).costs() == old(tracker).costs()
            } else {
                user_outcome(*old(tracker), *final(tracker), r, tx, config, *ctx, author_sent_end_of_publish, reconfig, estimate)
            },
            ConsensusTransactionKind::System(tx) => final(tracker).costs() == old(tracker).costs() && if stage(reconfig) <= 1 {
                r == ConsensusCertificateResult::SuiTransaction(tx)
            } else {
                r is IgnoredSystem
            },
            ConsensusTransactionKind::RandomnessDkgMessage(_, _) => r is RandomnessConsensusMessage && final(tracker).costs() == old(tracker).costs(),
            ConsensusTransactionKind::RandomnessDkgConfirmation(_, _) => r is RandomnessConsensusMessage && final(tracker).costs() == old(tracker).costs(),
            ConsensusTransactionKind::CheckpointSignature { .. } => r is ConsensusMessage && final(tracker).costs() == old(tracker).costs(),
            ConsensusTransactionKind::CapabilityNotification { .. } => r is ConsensusMessage && final(tracker).costs() == old(tracker).costs(),
            ConsensusTransactionKind::CapabilityNotificationV2 { .. } => r is ConsensusMessage && final(tracker).costs() == old(tracker).costs(),
            ConsensusTransactionKind::NewJwkFetched { .. } => r is ConsensusMessage && final(tracker).costs() == old(tracker).costs(),
            _ => r is Ignored && final(tracker).costs() == old(tracker).costs(),
        },
{
    match t.kind {
        ConsensusTransactionKind::CertifiedTransaction(tx) => {
            if tx.epoch != config.epoch {
                return ConsensusCertificateResult::Ignored;
            }
            let cost = get_tx_cost(config.cost_model, &tx, estimate);
            process_consensus_user_transaction(tx, author_sent_end_of_publish, None, reconfig, ctx, cost, tracker)
        },
        ConsensusTransactionKind::UserTransaction(tx) => {
            if !config.fastpath_enabled {
                return ConsensusCertificateResult::Ignored;
            }
            let cost = get_tx_cost(config.cost_model, &tx, estimate);
            process_consensus_user_transaction(tx, author_sent_end_of_publish, None, reconfig, ctx, cost, tracker)
        },
        ConsensusTransactionKind::System(tx) => {
            if reconfig.should_accept_consensus_certs() {
                ConsensusCertificateResult::SuiTransaction(tx)
            } else {
                ConsensusCertificateResult::IgnoredSystem
            }
        },
        ConsensusTransactionKind::RandomnessDkgMessage(_, _) => ConsensusCertificateResult::RandomnessConsensusMessage,
        ConsensusTransactionKind::RandomnessDkgConfirmation(_, _) => ConsensusCertificateResult::RandomnessConsensusMessage,
        ConsensusTransactionKind::CheckpointSignature { .. } => ConsensusCertificateResult::ConsensusMessage,
        ConsensusTransactionKind::CapabilityNotification { .. } => ConsensusCertificateResult::ConsensusMessage,
        ConsensusTransactionKind::CapabilityNotificationV2 { .. } => ConsensusCertificateResult::ConsensusMessage,
        ConsensusTransactionKind::NewJwkFetched { .. } => ConsensusCertificateResult::ConsensusMessage,
        _ => ConsensusCertificateResult::Ignored,
    }
}

} // verus!
