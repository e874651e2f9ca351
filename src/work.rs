use vstd::prelude::*;
use crate::congestion::SharedObjectCongestionTracker;
use crate::deferral::{DeferralKey, DeferredEntry, DeferredStore, contents};
use crate::end_of_publish::EndOfPublishAggregator;
use crate::messages::{ConsensusTransactionKind, MessageConfig, SequencedConsensusTransaction, process_consensus_transaction};
use crate::policy::{CancelConsensusCertificateReason, CommitContext, ConsensusCertificateResult, Decision, costs_after, get_tx_cost, process_consensus_user_transaction, tx_cost_spec, user_decision};
use crate::reconfig::{ReconfigState, stage};
use crate::types::{ExecutableTransaction, ObjectId, Schedulable, TransactionDigest, TransactionKey};

verus! {

/// A unit of work in a commit: a message sequenced now, or a transaction
/// reloaded from the deferred queue with the key it was stored under.
pub enum WorkItem {
    Message(SequencedConsensusTransaction),
    Deferred(ExecutableTransaction, DeferralKey),
}

/// What a commit's processing gathers as it goes.
pub struct CommitProcessing {
    /// Schedulable units, for the regular and the randomness checkpoint.
    pub regular: Vec<Schedulable>,
    pub randomness: Vec<Schedulable>,
    /// Checkpoint roots, in the same split.
    pub regular_roots: Vec<TransactionKey>,
    pub randomness_roots: Vec<TransactionKey>,
    /// Keys of messages whose waiters are to be woken.
    pub notifications: Vec<u64>,
    /// Keys of messages to record as processed.
    pub processed: Vec<u64>,
    /// Transactions this commit defers.
    pub deferred: DeferredStore,
    /// Each deferral this commit made: the key and the transaction's digest.
    pub deferrals: Vec<(DeferralKey, TransactionDigest)>,
    /// Transactions this commit cancels, with the reason.
    pub cancelled: Vec<(TransactionDigest, CancelConsensusCertificateReason)>,
    /// Messages whose contents go to the collaborators that handle their kind
    /// (checkpoint signatures, capabilities, JWK votes, DKG messages).
    pub forwarded: Vec<SequencedConsensusTransaction>,
    /// A message advanced the randomness protocol.
    pub randomness_state_updated: bool,
}

/// The first estimate recorded for a digest.
pub open spec fn estimate_of(estimates: Seq<(TransactionDigest, u64)>, digest: TransactionDigest) -> Option<u64>
    decreases estimates.len(),
{
    if estimates.len() == 0 {
        None
    } else {
        match estimate_of(estimates.drop_last(), digest) {
            Some(v) => Some(v),
            None => if estimates.last().0 == digest {
                Some(estimates.last().1)
            } else {
                None
            },
        }
    }
}

proof fn lemma_estimate_prefix(estimates: Seq<(TransactionDigest, u64)>, n: int, digest: TransactionDigest)
    requires
        0 <= n <= estimates.len(),
        estimate_of(estimates.take(n), digest) is Some,
    ensures
        estimate_of(estimates, digest) == estimate_of(estimates.take(n), digest),
    decreases estimates.len(),
{
    if estimates.len() == n {
        assert(estimates.take(n) == estimates);
    } else {
        assert(estimates.drop_last().take(n) == estimates.take(n));
        lemma_estimate_prefix(estimates.drop_last(), n, digest);
    }
}

pub fn find_estimate(estimates: &Vec<(TransactionDigest, u64)>, digest: TransactionDigest) -> (r: Option<u64>)
    ensures
        r == estimate_of(estimates@, digest),
{
    let mut i: usize = 0;
    while i < estimates.len()
        invariant
            i <= estimates@.len(),
            estimate_of(estimates@.take(i as int), digest) is None,
        decreases estimates@.len() - i,
    {
        proof {
            assert(estimates@.take(i + 1).drop_last() == estimates@.take(i as int));
        }
        if estimates[i].0 == digest {
            proof {
                lemma_estimate_prefix(estimates@, i + 1, digest);
            }
            return Some(estimates[i].1);
        }
        i = i + 1;
    }
    proof {
        assert(estimates@.take(i as int) == estimates@);
    }
    None
}

/// What became of one work item.
pub enum ItemOutcome {
    Ignored,
    IgnoredSystem,
    /// Acknowledged; its contents are forwarded when the flag is set.
    Message(bool),
    /// Updates the randomness protocol; its contents are forwarded when the flag is set.
    RandomnessMessage(bool),
    Scheduled(ExecutableTransaction),
    /// Put off under the key; the digest is the transaction's.
    Deferred(DeferralKey, TransactionDigest),
    /// Cancelled because of congested objects (their ids), or a failed DKG (none).
    Cancelled(ExecutableTransaction, Option<Seq<ObjectId>>),
}

/// What one decision on a user transaction comes to.
pub open spec fn decided(d: Decision, tx: ExecutableTransaction) -> ItemOutcome {
    match d {
        Decision::Ignore => ItemOutcome::Ignored,
        Decision::DeferForRandomness(k) => ItemOutcome::Deferred(k, tx.digest),
        Decision::DeferForCongestion(k, _) => ItemOutcome::Deferred(k, tx.digest),
        Decision::CancelForCongestion(ids) => ItemOutcome::Cancelled(tx, Some(ids)),
        Decision::CancelForDkg => ItemOutcome::Cancelled(tx, None),
        Decision::Schedule => ItemOutcome::Scheduled(tx),
    }
}

/// What is fixed while a list of work items is decided.
pub struct ItemEnv {
    pub config: MessageConfig,
    pub ctx: CommitContext,
    pub reconfig: ReconfigState,
    /// Which authorities sent their end-of-publish notice in earlier commits.
    pub seen: Seq<bool>,
    pub estimates: Seq<(TransactionDigest, u64)>,
    pub budget: u64,
}

/// A user transaction decided with its cost under the configured model.
pub open spec fn user_item(
    env: ItemEnv,
    costs: Map<ObjectId, u64>,
    tx: ExecutableTransaction,
    previous: Option<DeferralKey>,
    author_sent: bool,
) -> (ItemOutcome, Map<ObjectId, u64>) {
    let cost = tx_cost_spec(env.config.cost_model, tx.gas_budget, estimate_of(env.estimates, tx.digest));
    let d = user_decision(costs, env.budget, cost, tx, env.ctx, previous, author_sent, env.reconfig);
    (decided(d, tx), costs_after(d, costs, tx, cost))
}

/// The outcome of one work item, and the tracker's costs after it.
pub open spec fn item_result(env: ItemEnv, costs: Map<ObjectId, u64>, item: WorkItem) -> (ItemOutcome, Map<ObjectId, u64>) {
    match item {
        WorkItem::Message(m) => {
            let sent = m.author < env.seen.len() && env.seen[m.author as int];
            match m.kind {
                ConsensusTransactionKind::CertifiedTransaction(tx) => if tx.epoch != env.config.epoch {
                    (ItemOutcome::Ignored, costs)
                } else {
                    user_item(env, costs, tx, None, sent)
                },
                ConsensusTransactionKind::UserTransaction(tx) => if !env.config.fastpath_enabled {
                    (ItemOutcome::Ignored, costs)
                } else {
                    user_item(env, costs, tx, None, sent)
                },
                ConsensusTransactionKind::System(tx) => if stage(env.reconfig) <= 1 {
                    (ItemOutcome::Scheduled(tx), costs)
                } else {
                    (ItemOutcome::IgnoredSystem, costs)
                },
                ConsensusTransactionKind::RandomnessDkgMessage(_, _) => (ItemOutcome::RandomnessMessage(stage(env.reconfig) < 3), costs),
                ConsensusTransactionKind::RandomnessDkgConfirmation(_, _) => (ItemOutcome::RandomnessMessage(stage(env.reconfig) < 3), costs),
                ConsensusTransactionKind::CheckpointSignature { .. } => (ItemOutcome::Message(true), costs),
                ConsensusTransactionKind::CapabilityNotification { .. } => (ItemOutcome::Message(stage(env.reconfig) <= 1), costs),
                ConsensusTransactionKind::CapabilityNotificationV2 { .. } => (ItemOutcome::Message(stage(env.reconfig) <= 1), costs),
                ConsensusTransactionKind::NewJwkFetched { .. } => (ItemOutcome::Message(stage(env.reconfig) <= 1), costs),
                _ => (ItemOutcome::Ignored, costs),
            }
        },
        WorkItem::Deferred(tx, k) => if tx.epoch != env.config.epoch {
            (ItemOutcome::Ignored, costs)
        } else {
            user_item(env, costs, tx, Some(k), false)
        },
    }
}

pub open spec fn item_key(item: WorkItem) -> Option<u64> {
    match item {
        WorkItem::Message(m) => Some(m.key),
        WorkItem::Deferred(_, _) => None,
    }
}

/// What a commit's processing has gathered, as values.
pub struct ProcessingView {
    pub regular: Seq<Schedulable>,
    pub randomness: Seq<Schedulable>,
    pub regular_roots: Seq<TransactionKey>,
    pub randomness_roots: Seq<TransactionKey>,
    pub notifications: Seq<u64>,
    pub processed: Seq<u64>,
    pub cancelled: Seq<(TransactionDigest, Option<Seq<ObjectId>>)>,
    pub deferrals: Seq<(DeferralKey, TransactionDigest)>,
    pub forwarded: Seq<SequencedConsensusTransaction>,
    pub randomness_state_updated: bool,
}

/// A cancellation reason as a value: the congested objects, or none for a failed DKG.
pub open spec fn reason_view(r: CancelConsensusCertificateReason) -> Option<Seq<ObjectId>> {
    match r {
        CancelConsensusCertificateReason::CongestionOnObjects(ids) => Some(ids@),
        CancelConsensusCertificateReason::DkgFailed => None,
    }
}

pub open spec fn cancelled_view(c: Seq<(TransactionDigest, CancelConsensusCertificateReason)>) -> Seq<(TransactionDigest, Option<Seq<ObjectId>>)> {
    Seq::new(c.len(), |i: int| (c[i].0, reason_view(c[i].1)))
}

/// The message an item carries, for forwarding.
pub open spec fn forward(s: Seq<SequencedConsensusTransaction>, item: WorkItem) -> Seq<SequencedConsensusTransaction> {
    match item {
        WorkItem::Message(m) => s.push(m),
        WorkItem::Deferred(_, _) => s,
    }
}

pub open spec fn opt_push(s: Seq<u64>, k: Option<u64>) -> Seq<u64> {
    match k {
        Some(v) => s.push(v),
        None => s,
    }
}

/// Files one outcome: executable transactions go to the schedule and the
/// checkpoint roots of their kind, waiters are notified, deferrals and
/// cancellations are recorded, messages for collaborators are forwarded, and
/// every item but an ignored one is recorded as processed.
pub open spec fn file_outcome(a: ProcessingView, item: WorkItem, o: ItemOutcome, in_randomness: bool) -> ProcessingView {
    let key = item_key(item);
    let processed = if o is Ignored { a.processed } else { opt_push(a.processed, key) };
    match o {
        ItemOutcome::Scheduled(tx) => file_transaction(ProcessingView { notifications: opt_push(a.notifications, key), processed, ..a }, tx, in_randomness),
        ItemOutcome::Cancelled(tx, reason) => file_transaction(ProcessingView {
            notifications: opt_push(a.notifications, key),
            processed,
            cancelled: a.cancelled.push((tx.digest, reason)),
            ..a
        }, tx, in_randomness),
        ItemOutcome::Deferred(k, d) => ProcessingView {
            notifications: opt_push(a.notifications, key),
            processed,
            deferrals: a.deferrals.push((k, d)),
            ..a
        },
        ItemOutcome::RandomnessMessage(f) => ProcessingView {
            notifications: opt_push(a.notifications, key),
            processed,
            forwarded: if f { forward(a.forwarded, item) } else { a.forwarded },
            randomness_state_updated: true,
            ..a
        },
        ItemOutcome::Message(f) => ProcessingView {
            notifications: opt_push(a.notifications, key),
            processed,
            forwarded: if f { forward(a.forwarded, item) } else { a.forwarded },
            ..a
        },
        _ => ProcessingView { processed, ..a },
    }
}

pub open spec fn file_transaction(a: ProcessingView, tx: ExecutableTransaction, in_randomness: bool) -> ProcessingView {
    if in_randomness {
        ProcessingView {
            randomness: a.randomness.push(Schedulable::Transaction(tx)),
            randomness_roots: a.randomness_roots.push(TransactionKey::Digest(tx.digest)),
            ..a
        }
    } else {
        ProcessingView {
            regular: a.regular.push(Schedulable::Transaction(tx)),
            regular_roots: a.regular_roots.push(TransactionKey::Digest(tx.digest)),
            ..a
        }
    }
}

/// The gathered view and the tracker's costs after deciding `items` in order.
pub open spec fn process_items_spec(
    env: ItemEnv,
    in_randomness: bool,
    a: ProcessingView,
    costs: Map<ObjectId, u64>,
    items: Seq<WorkItem>,
) -> (ProcessingView, Map<ObjectId, u64>)
    decreases items.len(),
{
    if items.len() == 0 {
        (a, costs)
    } else {
        let (a1, c1) = process_items_spec(env, in_randomness, a, costs, items.drop_last());
        let (o, c2) = item_result(env, c1, items.last());
        (file_outcome(a1, items.last(), o, in_randomness), c2)
    }
}

impl CommitProcessing {
    pub open spec fn view(&self) -> ProcessingView {
        ProcessingView {
            regular: self.regular@,
            randomness: self.randomness@,
            regular_roots: self.regular_roots@,
            randomness_roots: self.randomness_roots@,
            notifications: self.notifications@,
            processed: self.processed@,
            cancelled: cancelled_view(self.cancelled@),
            deferrals: self.deferrals@,
            forwarded: self.forwarded@,
            randomness_state_updated: self.randomness_state_updated,
        }
    }
}

pub open spec fn env_of(
    config: MessageConfig,
    ctx: CommitContext,
    reconfig: ReconfigState,
    end_of_publish: EndOfPublishAggregator,
    estimates: Seq<(TransactionDigest, u64)>,
    budget: u64,
) -> ItemEnv {
    ItemEnv { config, ctx, reconfig, seen: end_of_publish.seen(), estimates, budget }
}

/// Recording one deferral in the queue and in the list keeps them in step.
proof fn lemma_record_deferral(
    before_list: Seq<(DeferralKey, TransactionDigest)>,
    k: DeferralKey,
    d: TransactionDigest,
    txs: Seq<ExecutableTransaction>,
)
    requires
        txs.len() == 1,
        txs[0].digest == d,
    ensures
        before_list.to_multiset().add(crate::deferral::keyed(k, txs).to_multiset()) == before_list.push((k, d)).to_multiset(),
{
    broadcast use vstd::seq_lib::group_to_multiset_ensures;
    assert(crate::deferral::keyed(k, txs) =~= Seq::<(DeferralKey, TransactionDigest)>::empty().push((k, d)));
    assert(Seq::<(DeferralKey, TransactionDigest)>::empty().to_multiset() =~= vstd::multiset::Multiset::empty());
    assert(before_list.to_multiset().add(crate::deferral::keyed(k, txs).to_multiset()) =~= before_list.push((k, d)).to_multiset());
}

/// Whether a message's contents go on to their collaborator: checkpoint
/// signatures always, capabilities and JWK votes while consensus certificates
/// are accepted, DKG messages while transactions are accepted.
fn should_forward(kind: &ConsensusTransactionKind, reconfig: ReconfigState) -> (r: bool)
    ensures
        r == match *kind {
            ConsensusTransactionKind::RandomnessDkgMessage(_, _) => stage(reconfig) < 3,
            ConsensusTransactionKind::RandomnessDkgConfirmation(_, _) => stage(reconfig) < 3,
            ConsensusTransactionKind::CheckpointSignature { .. } => true,
            ConsensusTransactionKind::CapabilityNotification { .. } => stage(reconfig) <= 1,
            ConsensusTransactionKind::CapabilityNotificationV2 { .. } => stage(reconfig) <= 1,
            ConsensusTransactionKind::NewJwkFetched { .. } => stage(reconfig) <= 1,
            _ => false,
        },
{
    match kind {
        ConsensusTransactionKind::RandomnessDkgMessage(_, _) => reconfig.should_accept_tx(),
        ConsensusTransactionKind::RandomnessDkgConfirmation(_, _) => reconfig.should_accept_tx(),
        ConsensusTransactionKind::CheckpointSignature { .. } => true,
        ConsensusTransactionKind::CapabilityNotification { .. } => reconfig.should_accept_consensus_certs(),
        ConsensusTransactionKind::CapabilityNotificationV2 { .. } => reconfig.should_accept_consensus_certs(),
        ConsensusTransactionKind::NewJwkFetched { .. } => reconfig.should_accept_consensus_certs(),
        _ => false,
    }
}

/// Whether a message kind carries a transaction to decide.
fn carries_transaction(kind: &ConsensusTransactionKind) -> (r: bool)
    ensures
        r == (*kind is CertifiedTransaction || *kind is UserTransaction || *kind is System),
{
    match kind {
        ConsensusTransactionKind::CertifiedTransaction(_) => true,
        ConsensusTransactionKind::UserTransaction(_) => true,
        ConsensusTransactionKind::System(_) => true,
        _ => false,
    }
}

/// The result of a message that carries no transaction: DKG messages update
/// the randomness protocol, checkpoint signatures, capabilities and JWK votes
/// are acknowledged, and kinds handled elsewhere are ignored.
fn message_result(kind: &ConsensusTransactionKind) -> (r: ConsensusCertificateResult)
    ensures
        match *kind {
            ConsensusTransactionKind::RandomnessDkgMessage(_, _) => r is RandomnessConsensusMessage,
            ConsensusTransactionKind::RandomnessDkgConfirmation(_, _) => r is RandomnessConsensusMessage,
            ConsensusTransactionKind::CheckpointSignature { .. } => r is ConsensusMessage,
            ConsensusTransactionKind::CapabilityNotification { .. } => r is ConsensusMessage,
            ConsensusTransactionKind::CapabilityNotificationV2 { .. } => r is ConsensusMessage,
            ConsensusTransactionKind::NewJwkFetched { .. } => r is ConsensusMessage,
            _ => r is Ignored,
        },
{
    match kind {
        ConsensusTransactionKind::RandomnessDkgMessage(_, _) => ConsensusCertificateResult::RandomnessConsensusMessage,
        ConsensusTransactionKind::RandomnessDkgConfirmation(_, _) => ConsensusCertificateResult::RandomnessConsensusMessage,
        ConsensusTransactionKind::CheckpointSignature { .. } => ConsensusCertificateResult::ConsensusMessage,
        ConsensusTransactionKind::CapabilityNotification { .. } => ConsensusCertificateResult::ConsensusMessage,
        ConsensusTransactionKind::CapabilityNotificationV2 { .. } => ConsensusCertificateResult::ConsensusMessage,
        ConsensusTransactionKind::NewJwkFetched { .. } => ConsensusCertificateResult::ConsensusMessage,
        _ => ConsensusCertificateResult::Ignored,
    }
}

/// Processes one work item and files its outcome.
fn process_item(
    item: WorkItem,
    in_randomness: bool,
    acc: &mut CommitProcessing,
    config: &MessageConfig,
    ctx: &CommitContext,
    reconfig: ReconfigState,
    end_of_publish: &EndOfPublishAggregator,
    estimates: &Vec<(TransactionDigest, u64)>,
    tracker: &mut SharedObjectCongestionTracker,
)
    requires
        old(acc).deferred.wf(),
        contents(old(acc).deferred@) == old(acc).deferrals@.to_multiset(),
        old(tracker).wf(),
        end_of_publish.wf(),
        ctx.round < u64::MAX,
    ensures
        final(acc).deferred.wf(),
        contents(final(acc).deferred@) == final(acc).deferrals@.to_multiset(),
        final(tracker).wf(),
        final(tracker).budget() == old(tracker).budget(),
        ({
            let env = env_of(*config, *ctx, reconfig, *end_of_publish, estimates@, old(tracker).budget());
            let (o, c) = item_result(env, old(tracker).costs(), item);
            &&& final(acc).view() == file_outcome(old(acc).view(), item, o, in_randomness)
            &&& final(tracker).costs() == c
        }),
{
    let ghost env = env_of(*config, *ctx, reconfig, *end_of_publish, estimates@, tracker.budget());
    let ghost before = acc.view();
    let ghost it = item;
    let (result, key, copy, fwd) = match item {
        WorkItem::Message(m) => {
            let key = m.key;
            if carries_transaction(&m.kind) {
                let author_sent = end_of_publish.has_sent_end_of_publish(m.author);
                let (copy, estimate) = match &m.kind {
                    ConsensusTransactionKind::CertifiedTransaction(tx) => (Some(tx.duplicate()), find_estimate(estimates, tx.digest)),
                    ConsensusTransactionKind::UserTransaction(tx) => (Some(tx.duplicate()), find_estimate(estimates, tx.digest)),
                    _ => (None, None),
                };
                let r = process_consensus_transaction(m, config, ctx, author_sent, reconfig, estimate, tracker);
                (r, Some(key), copy, None)
            } else {
                let r = message_result(&m.kind);
                if should_forward(&m.kind, reconfig) {
                    (r, Some(key), None, Some(m))
                } else {
                    (r, Some(key), None, None)
                }
            }
        },
        WorkItem::Deferred(tx, k) => {
            let copy = tx.duplicate();
            let r = if tx.epoch != config.epoch {
                ConsensusCertificateResult::Ignored
            } else {
                let estimate = find_estimate(estimates, tx.digest);
                let cost = get_tx_cost(config.cost_model, &tx, estimate);
                process_consensus_user_transaction(tx, false, Some(k), reconfig, ctx, cost, tracker)
            };
            (r, None, Some(copy), None)
        },
    };
    let ghost o = item_result(env, old(tracker).costs(), it).0;
    proof {
        assert(key == item_key(it));
        match o {
            ItemOutcome::Deferred(_, d) => {
                assert(copy is Some);
                assert(copy->0.digest == d);
            },
            ItemOutcome::Message(f) => {
                assert(fwd is Some <==> f);
                assert(fwd is Some ==> it == WorkItem::Message(fwd->0));
            },
            ItemOutcome::RandomnessMessage(f) => {
                assert(fwd is Some <==> f);
                assert(fwd is Some ==> it == WorkItem::Message(fwd->0));
            },
            _ => {},
        }
    }
    let ignored = matches!(result, ConsensusCertificateResult::Ignored);
    match result {
        ConsensusCertificateResult::SuiTransaction(tx) => {
            if let Some(k) = key {
                acc.notifications.push(k);
            }
            if in_randomness {
                acc.randomness_roots.push(TransactionKey::Digest(tx.digest));
                acc.randomness.push(Schedulable::Transaction(tx));
            } else {
                acc.regular_roots.push(TransactionKey::Digest(tx.digest));
                acc.regular.push(Schedulable::Transaction(tx));
            }
        },
        ConsensusCertificateResult::Deferred(k) => {
            if let Some(tx) = copy {
                let d = tx.digest;
                let ghost before_deferrals = acc.deferrals@;
                let ghost txs = seq![tx];
                proof {
                    assert(contents(acc.deferred@) == before_deferrals.to_multiset());
                }
                let one = vec![tx];
                proof {
                    assert(one@ =~= txs);
                }
                acc.deferred.insert(k, one);
                acc.deferrals.push((k, d));
                proof {
                    lemma_record_deferral(before_deferrals, k, d, txs);
                    assert(contents(acc.deferred@) == acc.deferrals@.to_multiset());
                }
            }
            if let Some(m) = key {
                acc.notifications.push(m);
            }
        },
        ConsensusCertificateResult::Cancelled((tx, reason)) => {
            if let Some(k) = key {
                acc.notifications.push(k);
            }
            let ghost before_cancelled = acc.cancelled@;
            let ghost rv = reason_view(reason);
            acc.cancelled.push((tx.digest, reason));
            proof {
                assert(cancelled_view(acc.cancelled@) =~= cancelled_view(before_cancelled).push((tx.digest, rv)));
            }
            if in_randomness {
                acc.randomness_roots.push(TransactionKey::Digest(tx.digest));
                acc.randomness.push(Schedulable::Transaction(tx));
            } else {
                acc.regular_roots.push(TransactionKey::Digest(tx.digest));
                acc.regular.push(Schedulable::Transaction(tx));
            }
        },
        ConsensusCertificateResult::RandomnessConsensusMessage => {
            acc.randomness_state_updated = true;
            if let Some(k) = key {
                acc.notifications.push(k);
            }
            if let Some(m) = fwd {
                acc.forwarded.push(m);
            }
        },
        ConsensusCertificateResult::ConsensusMessage => {
            if let Some(k) = key {
                acc.notifications.push(k);
            }
            if let Some(m) = fwd {
                acc.forwarded.push(m);
            }
        },
        ConsensusCertificateResult::IgnoredSystem => {},
        ConsensusCertificateResult::Ignored => {},
    }
    if !ignored {
        if let Some(k) = key {
            acc.processed.push(k);
        }
    }
    proof {
        assert(acc.view() =~= file_outcome(before, it, o, in_randomness));
    }
}

/// Decides a list of work items in order, all for one checkpoint kind, and
/// files each outcome.
pub fn decide_work_items(
    items: Vec<WorkItem>,
    in_randomness: bool,
    acc: &mut CommitProcessing,
    config: &MessageConfig,
    ctx: &CommitContext,
    reconfig: ReconfigState,
    end_of_publish: &EndOfPublishAggregator,
    estimates: &Vec<(TransactionDigest, u64)>,
    tracker: &mut SharedObjectCongestionTracker,
)
    requires
        old(acc).deferred.wf(),
        contents(old(acc).deferred@) == old(acc).deferrals@.to_multiset(),
        old(tracker).wf(),
        end_of_publish.wf(),
        ctx.round < u64::MAX,
    ensures
        final(acc).deferred.wf(),
        contents(final(acc).deferred@) == final(acc).deferrals@.to_multiset(),
        final(tracker).wf(),
        final(tracker).budget() == old(tracker).budget(),
        ({
            let env = env_of(*config, *ctx, reconfig, *end_of_publish, estimates@, old(tracker).budget());
            (final(acc).view(), final(tracker).costs()) == process_items_spec(env, in_randomness, old(acc).view(), old(tracker).costs(), items@)
        }),
{
    let ghost env = env_of(*config, *ctx, reconfig, *end_of_publish, estimates@, tracker.budget());
    let ghost all = items@;
    let mut rest = items;
    let ghost mut k: int = 0;
    while rest.len() > 0
        invariant
            acc.deferred.wf(),
            contents(acc.deferred@) == acc.deferrals@.to_multiset(),
            tracker.wf(),
            tracker.budget() == old(tracker).budget(),
            end_of_publish.wf(),
            ctx.round < u64::MAX,
            env == env_of(*config, *ctx, reconfig, *end_of_publish, estimates@, old(tracker).budget()),
            0 <= k <= all.len(),
            rest@ == all.subrange(k, all.len() as int),
            (acc.view(), tracker.costs()) == process_items_spec(env, in_randomness, old(acc).view(), old(tracker).costs(), all.take(k)),
        decreases rest@.len(),
    {
        let item = rest.remove(0);
        proof {
            assert(item == all[k]);
            assert(all.take(k + 1).drop_last() =~= all.take(k));
            assert(all.take(k + 1).last() == item);
        }
        process_item(item, in_randomness, acc, config, ctx, reconfig, end_of_publish, estimates, tracker);
        proof {
            k = k + 1;
            assert(rest@ =~= all.subrange(k, all.len() as int));
        }
    }
    proof {
        assert(all.take(k) =~= all);
    }
}

/// The work items of one reloaded entry, in order.
pub open spec fn entry_work(e: DeferredEntry) -> Seq<WorkItem> {
    Seq::new(e.transactions@.len(), |i: int| WorkItem::Deferred(e.transactions@[i], e.key))
}

/// The work items of reloaded entries, entry by entry.
pub open spec fn deferred_work(entries: Seq<DeferredEntry>) -> Seq<WorkItem>
    decreases entries.len(),
{
    if entries.len() == 0 {
        Seq::empty()
    } else {
        deferred_work(entries.drop_last()) + entry_work(entries.last())
    }
}

/// A reloaded transaction is decided with the randomness ones when it was
/// reloaded for randomness, or when it uses randomness and randomness is enabled.
pub open spec fn goes_to_randomness(w: WorkItem, all_randomness: bool, randomness_enabled: bool) -> bool {
    all_randomness || (randomness_enabled && match w {
        WorkItem::Deferred(tx, _) => tx.uses_randomness,
        WorkItem::Message(_) => false,
    })
}

pub(crate) fn flatten_entries(entries: Vec<DeferredEntry>) -> (r: Vec<WorkItem>)
    ensures
        r@ == deferred_work(entries@),
{
    let ghost all = entries@;
    let mut rest = entries;
    let mut out: Vec<WorkItem> = Vec::new();
    let ghost mut k: int = 0;
    while rest.len() > 0
        invariant
            0 <= k <= all.len(),
            rest@ == all.subrange(k, all.len() as int),
            out@ == deferred_work(all.take(k)),
        decreases rest@.len(),
    {
        let entry = rest.remove(0);
        let ghost start = out@;
        let key = entry.key;
        let ghost txs0 = entry.transactions@;
        let mut txs = entry.transactions;
        let ghost mut j: int = 0;
        while txs.len() > 0
            invariant
                0 <= j <= txs0.len(),
                txs@ == txs0.subrange(j, txs0.len() as int),
                out@ == start + Seq::new(j as nat, |i: int| WorkItem::Deferred(txs0[i], key)),
            decreases txs@.len(),
        {
            let tx = txs.remove(0);
            out.push(WorkItem::Deferred(tx, key));
            proof {
                j = j + 1;
                assert(txs@ =~= txs0.subrange(j, txs0.len() as int));
                assert(out@ =~= start + Seq::new(j as nat, |i: int| WorkItem::Deferred(txs0[i], key)));
            }
        }
        proof {
            assert(entry == all[k]);
            assert(all.take(k + 1).drop_last() =~= all.take(k));
            assert(Seq::new(j as nat, |i: int| WorkItem::Deferred(txs0[i], key)) =~= entry_work(all[k]));
            k = k + 1;
            assert(rest@ =~= all.subrange(k, all.len() as int));
        }
    }
    proof {
        assert(all.take(k) =~= all);
    }
    out
}

/// Moves reloaded deferred transactions, entry by entry, into the work lists.
pub(crate) fn push_deferred(
    entries: Vec<DeferredEntry>,
    all_randomness: bool,
    randomness_enabled: bool,
    regular: &mut Vec<WorkItem>,
    randomness: &mut Vec<WorkItem>,
)
    ensures
        final(randomness)@ == old(randomness)@ + deferred_work(entries@).filter(|w: WorkItem| goes_to_randomness(w, all_randomness, randomness_enabled)),
        final(regular)@ == old(regular)@ + deferred_work(entries@).filter(|w: WorkItem| !goes_to_randomness(w, all_randomness, randomness_enabled)),
{
    let items = flatten_entries(entries);
    let ghost all = items@;
    let mut rest = items;
    let ghost mut k: int = 0;
    while rest.len() > 0
        invariant
            0 <= k <= all.len(),
            rest@ == all.subrange(k, all.len() as int),
            randomness@ == old(randomness)@ + all.take(k).filter(|w: WorkItem| goes_to_randomness(w, all_randomness, randomness_enabled)),
            regular@ == old(regular)@ + all.take(k).filter(|w: WorkItem| !goes_to_randomness(w, all_randomness, randomness_enabled)),
        decreases rest@.len(),
    {
        let w = rest.remove(0);
        proof {
            assert(w == all[k]);
            assert(all.take(k + 1).drop_last() =~= all.take(k));
            assert(all.take(k + 1).last() == w);
            reveal_with_fuel(Seq::filter, 1);
        }
        let to_randomness = all_randomness || (randomness_enabled && match &w {
            WorkItem::Deferred(tx, _) => tx.uses_randomness,
            WorkItem::Message(_) => false,
        });
        if to_randomness {
            randomness.push(w);
        } else {
            regular.push(w);
        }
        proof {
            k = k + 1;
            assert(rest@ =~= all.subrange(k, all.len() as int));
            assert(randomness@ =~= old(randomness)@ + all.take(k).filter(|w: WorkItem| goes_to_randomness(w, all_randomness, randomness_enabled)));
            assert(regular@ =~= old(regular)@ + all.take(k).filter(|w: WorkItem| !goes_to_randomness(w, all_randomness, randomness_enabled)));
        }
    }
    proof {
        assert(all.take(k) =~= all);
    }
}

/// Sequenced messages as work items, in order.
pub open spec fn message_work(s: Seq<SequencedConsensusTransaction>) -> Seq<WorkItem> {
    Seq::new(s.len(), |i: int| WorkItem::Message(s[i]))
}

pub(crate) fn push_messages(msgs: Vec<SequencedConsensusTransaction>, out: &mut Vec<WorkItem>)
    ensures
        final(out)@ == old(out)@ + message_work(msgs@),
{
    let ghost all = msgs@;
    let mut rest = msgs;
    let ghost mut k: int = 0;
    while rest.len() > 0
        invariant
            0 <= k <= all.len(),
            rest@ == all.subrange(k, all.len() as int),
            out@ == old(out)@ + message_work(all.take(k)),
        decreases rest@.len(),
    {
        let m = rest.remove(0);
        out.push(WorkItem::Message(m));
        proof {
            assert(m == all[k]);
            k = k + 1;
            assert(rest@ =~= all.subrange(k, all.len() as int));
            assert(out@ =~= old(out)@ + message_work(all.take(k)));
        }
    }
    proof {
        assert(all.take(k) =~= all);
    }
}

} // verus!

verus! {

/// Deciding work items only ever appends transactions to the randomness list:
/// what it held before stays in front.
pub proof fn lemma_items_append_transactions(
    env: ItemEnv,
    in_randomness: bool,
    a: ProcessingView,
    costs: Map<ObjectId, u64>,
    items: Seq<WorkItem>,
)
    ensures
        ({
            let r = process_items_spec(env, in_randomness, a, costs, items).0;
            &&& r.randomness.len() >= a.randomness.len()
            &&& r.randomness.take(a.randomness.len() as int) == a.randomness
            &&& forall|i: int| a.randomness.len() <= i < r.randomness.len() ==> (#[trigger] r.randomness[i]) is Transaction
        }),
    decreases items.len(),
{
    if items.len() > 0 {
        lemma_items_append_transactions(env, in_randomness, a, costs, items.drop_last());
        let (a1, c1) = process_items_spec(env, in_randomness, a, costs, items.drop_last());
        let r = process_items_spec(env, in_randomness, a, costs, items).0;
        assert(r.randomness.len() >= a1.randomness.len());
        assert(r.randomness.take(a1.randomness.len() as int) == a1.randomness);
        assert(r.randomness.take(a.randomness.len() as int) =~= a1.randomness.take(a.randomness.len() as int));
        assert forall|i: int| a.randomness.len() <= i < r.randomness.len() implies (#[trigger] r.randomness[i]) is Transaction by {
            if i < a1.randomness.len() {
                assert(r.randomness[i] == a1.randomness.take(a1.randomness.len() as int)[i]);
            }
        }
    } else {
        assert(a.randomness.take(a.randomness.len() as int) =~= a.randomness);
    }
}

} // verus!
