use vstd::prelude::*;
use crate::commit::{cancellation_triples, list_of, AuthorityPerEpochStore, CommitInfo, CommitOutput, EpochConfig, digests_of, notice_authorities};
use crate::deferral::{DeferralKey, DeferredEntry, DeferredStore, contents, entries_in_range, entries_outside_range};
use crate::end_of_publish::{end_of_publish_run, is_final_round};
use crate::messages::{MessageClass, MessageConfig, SequencedConsensusTransaction, messages_of_class};
use crate::ordering::reordered;
use crate::policy::CommitContext;
use crate::randomness::{DkgStatus, calculate_pending_checkpoint_height, checkpoint_height, randomness_decision};
use crate::reconfig::{ReconfigState, advance_to, stage};
use crate::table::map_of;
use crate::types::{ObjectId, Round, Schedulable, SharedObjectRef, TransactionDigest, TransactionKey};
use crate::versions::{MAX_VERSION, StoredObject, assign_all, assigned_view, bounded, headroom, refs_ok, store_ok};
use crate::work::{lemma_items_append_transactions, cancelled_view, CommitProcessing, ItemEnv, ProcessingView, WorkItem, deferred_work, goes_to_randomness, message_work, process_items_spec};

verus! {

/// What a commit schedules and reports, as a function of the epoch's state
/// before it and of its inputs.
pub struct CommitPlan {
    /// The whole schedule: prologue and regular units, then those in randomness.
    pub schedule: Seq<Schedulable>,
    pub regular_count: nat,
    /// Cancelled transactions with their reason: the congested objects, or none
    /// for a failed DKG.
    pub cancelled: Seq<(TransactionDigest, Option<Seq<ObjectId>>)>,
    pub notifications: Seq<u64>,
    /// Roots of the regular checkpoint, after the prologue's.
    pub regular_roots: Seq<TransactionKey>,
    /// Roots of the randomness checkpoint, before the randomness round's.
    pub randomness_roots: Seq<TransactionKey>,
    /// Each deferral made: the key and the transaction's digest.
    pub deferrals: Seq<(DeferralKey, TransactionDigest)>,
    /// Messages for the collaborators of their kind, in consensus order.
    pub forwarded: Seq<SequencedConsensusTransaction>,
    pub randomness_state_updated: bool,
    /// The reconfiguration state after the commit's end-of-publish notices.
    pub reconfig: ReconfigState,
    pub final_round: bool,
    /// The randomness checkpoint is written (when checkpoints are).
    pub write_random: bool,
    pub checkpoint_count: nat,
}

/// The epoch state a commit starts from, as values.
pub struct PriorState {
    pub config: EpochConfig,
    pub reconfig: ReconfigState,
    pub deferred: Seq<DeferredEntry>,
    pub seen: Seq<bool>,
    pub processed: Seq<u64>,
    pub object_debts: Seq<(ObjectId, u64)>,
    pub randomness_object_debts: Seq<(ObjectId, u64)>,
    /// The committee's weights and the stake that makes a quorum.
    pub weights: Seq<u64>,
    pub threshold: u64,
}

/// The inputs of one commit, as values.
pub struct CommitInputs {
    pub transactions: Seq<SequencedConsensusTransaction>,
    pub info: CommitInfo,
    pub dkg_status: DkgStatus,
    pub randomness_round: Option<u64>,
    pub estimates: Seq<(TransactionDigest, u64)>,
}

pub open spec fn congestion_range_end(round: Round) -> DeferralKey {
    DeferralKey::ConsensusRound { future_round: (round + 1) as u64, deferred_from_round: 0 }
}

pub open spec fn congestion_range_start() -> DeferralKey {
    DeferralKey::ConsensusRound { future_round: 0, deferred_from_round: 0 }
}

pub open spec fn randomness_range_start() -> DeferralKey {
    DeferralKey::Randomness { deferred_from_round: 0 }
}

pub open spec fn randomness_range_end() -> DeferralKey {
    DeferralKey::Randomness { deferred_from_round: u64::MAX }
}

/// The deferred entries a commit reloads for randomness, if it reloads them.
pub open spec fn reloaded_for_randomness(p: PriorState, c: CommitInputs) -> Seq<DeferredEntry> {
    let after_due = entries_outside_range(p.deferred, congestion_range_start(), congestion_range_end(c.info.round));
    if randomness_decision(p.config.randomness_enabled, c.dkg_status, p.reconfig).dkg_failed || c.randomness_round is Some {
        entries_in_range(after_due, randomness_range_start(), randomness_range_end())
    } else {
        Seq::empty()
    }
}

/// The regular work and the randomness work of a commit, before ordering.
pub open spec fn commit_work(p: PriorState, c: CommitInputs) -> (Seq<WorkItem>, Seq<WorkItem>) {
    let enabled = p.config.randomness_enabled;
    let due = entries_in_range(p.deferred, congestion_range_start(), congestion_range_end(c.info.round));
    let waiting = deferred_work(reloaded_for_randomness(p, c));
    let due_work = deferred_work(due);
    let regular = waiting.filter(|w: WorkItem| !goes_to_randomness(w, true, enabled))
        + due_work.filter(|w: WorkItem| !goes_to_randomness(w, false, enabled))
        + message_work(messages_of_class(c.transactions, p.processed, enabled, MessageClass::Other));
    let randomness = waiting.filter(|w: WorkItem| goes_to_randomness(w, true, enabled))
        + due_work.filter(|w: WorkItem| goes_to_randomness(w, false, enabled))
        + message_work(messages_of_class(c.transactions, p.processed, enabled, MessageClass::UserWithRandomness));
    (regular, randomness)
}

/// What the commit gathers before deciding any transaction: the randomness
/// update of a reserved round, and the settlements where accumulators run.
pub open spec fn initial_processing(p: PriorState, c: CommitInputs) -> ProcessingView {
    initial_view(p.config, c.info.round, c.randomness_round)
}

pub open spec fn initial_view(config: EpochConfig, round: Round, randomness_round: Option<u64>) -> ProcessingView {
    let height = checkpoint_height(round, config.randomness_enabled) as u64;
    let rsu = match randomness_round {
        Some(rr) => seq![Schedulable::RandomnessStateUpdate { epoch: config.epoch, round: rr, state_object: config.randomness_state_object }],
        None => Seq::empty(),
    };
    let settle = config.accumulators_enabled;
    let settle_random = config.accumulators_enabled && randomness_round is Some;
    ProcessingView {
        regular: if settle {
            seq![Schedulable::AccumulatorSettlement { epoch: config.epoch, height, root_object: config.accumulator_root_object }]
        } else {
            Seq::empty()
        },
        randomness: rsu + if settle_random {
            seq![Schedulable::AccumulatorSettlement { epoch: config.epoch, height: (height + 1) as u64, root_object: config.accumulator_root_object }]
        } else {
            Seq::empty()
        },
        regular_roots: if settle {
            seq![TransactionKey::AccumulatorSettlement(config.epoch, height)]
        } else {
            Seq::empty()
        },
        randomness_roots: if settle_random {
            seq![TransactionKey::AccumulatorSettlement(config.epoch, (height + 1) as u64)]
        } else {
            Seq::empty()
        },
        notifications: Seq::empty(),
        processed: Seq::empty(),
        cancelled: Seq::empty(),
        deferrals: Seq::empty(),
        forwarded: Seq::empty(),
        randomness_state_updated: false,
    }
}

/// The gathering a commit starts with.
pub(crate) fn initial_acc(config: &EpochConfig, round: Round, randomness_round: Option<u64>) -> (r: CommitProcessing)
    requires
        round < u64::MAX,
        config.randomness_enabled ==> round <= u64::MAX / 2,
    ensures
        r.view() == initial_view(*config, round, randomness_round),
        r.deferred.wf(),
        contents(r.deferred@) == r.deferrals@.to_multiset(),
{
    let height = calculate_pending_checkpoint_height(round, config.randomness_enabled);
    let mut acc = CommitProcessing {
        regular: Vec::new(),
        randomness: Vec::new(),
        regular_roots: Vec::new(),
        randomness_roots: Vec::new(),
        notifications: Vec::new(),
        processed: Vec::new(),
        deferred: DeferredStore::new(),
        deferrals: Vec::new(),
        cancelled: Vec::new(),
        forwarded: Vec::new(),
        randomness_state_updated: false,
    };
    if let Some(rr) = randomness_round {
        acc.randomness.push(Schedulable::RandomnessStateUpdate {
            epoch: config.epoch,
            round: rr,
            state_object: config.randomness_state_object,
        });
    }
    if config.accumulators_enabled {
        acc.regular_roots.push(TransactionKey::AccumulatorSettlement(config.epoch, height));
        acc.regular.push(Schedulable::AccumulatorSettlement {
            epoch: config.epoch,
            height,
            root_object: config.accumulator_root_object,
        });
        if randomness_round.is_some() {
            acc.randomness_roots.push(TransactionKey::AccumulatorSettlement(config.epoch, height + 1));
            acc.randomness.push(Schedulable::AccumulatorSettlement {
                epoch: config.epoch,
                height: height + 1,
                root_object: config.accumulator_root_object,
            });
        }
    }
    proof {
        assert(cancelled_view(acc.cancelled@) =~= Seq::empty());
        assert(crate::deferral::store_pairs(acc.deferred@) =~= acc.deferrals@);
        assert(acc.view().regular =~= initial_view(*config, round, randomness_round).regular);
        assert(acc.view().randomness =~= initial_view(*config, round, randomness_round).randomness);
        assert(acc.view().regular_roots =~= initial_view(*config, round, randomness_round).regular_roots);
        assert(acc.view().randomness_roots =~= initial_view(*config, round, randomness_round).randomness_roots);
        assert(acc.view() =~= initial_view(*config, round, randomness_round));
    }
    acc
}

pub open spec fn commit_env(p: PriorState, c: CommitInputs) -> ItemEnv {
    let config = p.config;
    ItemEnv {
        config: MessageConfig { epoch: config.epoch, fastpath_enabled: config.fastpath_enabled, cost_model: config.cost_model },
        ctx: CommitContext {
            round: c.info.round,
            dkg_failed: randomness_decision(config.randomness_enabled, c.dkg_status, p.reconfig).dkg_failed,
            generating_randomness: c.randomness_round is Some,
            randomness_enabled: config.randomness_enabled,
            max_deferral_rounds: config.max_deferral_rounds,
        },
        reconfig: p.reconfig,
        seen: p.seen,
        estimates: c.estimates,
        budget: config.per_object_budget,
    }
}

/// The two trackers' costs once all work is decided: regular, then randomness.
pub open spec fn commit_costs(p: PriorState, c: CommitInputs) -> (Map<ObjectId, u64>, Map<ObjectId, u64>) {
    let (regular, randomness) = commit_work(p, c);
    let ordering = p.config.ordering;
    let enabled = p.config.randomness_enabled;
    let regular_items = message_work(messages_of_class(c.transactions, p.processed, enabled, MessageClass::System))
        + reordered(regular, ordering);
    let env = commit_env(p, c);
    let (a1, c1) = process_items_spec(env, false, initial_processing(p, c), map_of(p.object_debts), regular_items);
    let (_, c2) = process_items_spec(env, true, a1, map_of(p.randomness_object_debts), reordered(randomness, ordering));
    (c1, c2)
}

/// The keys of messages, in order.
pub open spec fn message_keys(m: Seq<SequencedConsensusTransaction>) -> Seq<u64> {
    Seq::new(m.len(), |i: int| m[i].key)
}

/// The gathered view after deciding the regular work, then the randomness work.
pub open spec fn commit_processing(p: PriorState, c: CommitInputs) -> ProcessingView {
    let (regular, randomness) = commit_work(p, c);
    let ordering = p.config.ordering;
    let enabled = p.config.randomness_enabled;
    let regular_items = message_work(messages_of_class(c.transactions, p.processed, enabled, MessageClass::System))
        + reordered(regular, ordering);
    let env = commit_env(p, c);
    let (a1, _) = process_items_spec(env, false, initial_processing(p, c), map_of(p.object_debts), regular_items);
    let (a2, _) = process_items_spec(env, true, a1, map_of(p.randomness_object_debts), reordered(randomness, ordering));
    a2
}

pub open spec fn prologue_of(p: PriorState, c: CommitInputs) -> Schedulable {
    let a = commit_processing(p, c);
    Schedulable::ConsensusCommitPrologue {
        epoch: p.config.epoch,
        round: c.info.round,
        timestamp_ms: c.info.timestamp_ms,
        clock_object: p.config.clock_object,
        cancelled_versions: list_of(cancellation_triples(a.regular + a.randomness, cancelled_digests(a.cancelled))),
    }
}

/// The deferred entries left once a commit has reloaded what it reloads.
pub open spec fn remaining_after_loads(p: PriorState, c: CommitInputs) -> Seq<DeferredEntry> {
    let after_due = entries_outside_range(p.deferred, congestion_range_start(), congestion_range_end(c.info.round));
    if randomness_decision(p.config.randomness_enabled, c.dkg_status, p.reconfig).dkg_failed || c.randomness_round is Some {
        entries_outside_range(after_due, randomness_range_start(), randomness_range_end())
    } else {
        after_due
    }
}

pub open spec fn randomness_round_root(p: PriorState, c: CommitInputs) -> Seq<TransactionKey> {
    match c.randomness_round {
        Some(rr) => seq![TransactionKey::RandomnessRound(p.config.epoch, rr)],
        None => Seq::empty(),
    }
}

pub open spec fn commit_plan(p: PriorState, c: CommitInputs) -> CommitPlan {
    let a = commit_processing(p, c);
    let enabled = p.config.randomness_enabled;
    let auths = notice_authorities(messages_of_class(c.transactions, p.processed, enabled, MessageClass::EndOfPublish));
    let st = end_of_publish_run(p.weights, p.threshold, p.reconfig, p.seen, auths).0;
    let fin = is_final_round(st, remaining_after_loads(p, c).len() == 0, a.deferrals.len() > 0);
    let reconfig = if fin { advance_to(st, 3) } else { st };
    let dkg_failed = randomness_decision(enabled, c.dkg_status, p.reconfig).dkg_failed;
    let write_random = c.randomness_round is Some || (dkg_failed && (a.randomness_roots + randomness_round_root(p, c)).len() > 0);
    CommitPlan {
        reconfig,
        final_round: fin,
        write_random,
        checkpoint_count: if stage(reconfig) < 3 || fin {
            if write_random { 2 } else { 1 }
        } else {
            0
        },
        schedule: seq![prologue_of(p, c)] + a.regular + a.randomness,
        regular_count: 1 + a.regular.len(),
        cancelled: a.cancelled,
        notifications: a.notifications,
        regular_roots: a.regular_roots,
        randomness_roots: a.randomness_roots,
        deferrals: a.deferrals,
        forwarded: a.forwarded,
        randomness_state_updated: a.randomness_state_updated,
    }
}

/// The digests of the cancelled transactions, in order.
pub open spec fn cancelled_digests(c: Seq<(TransactionDigest, Option<Seq<ObjectId>>)>) -> Seq<TransactionDigest> {
    Seq::new(c.len(), |i: int| c[i].0)
}

/// Every version the schedule can reach stays at or below the largest allowed.
pub open spec fn version_room(ledger: Map<SharedObjectRef, u64>, objects: Seq<StoredObject>, schedule: Seq<Schedulable>) -> bool {
    &&& schedule.len() <= MAX_VERSION
    &&& bounded(ledger, headroom(schedule.len() as int))
    &&& store_ok(objects, headroom(schedule.len() as int))
    &&& refs_ok(schedule, headroom(schedule.len() as int))
}

impl AuthorityPerEpochStore {
    pub open spec fn prior(&self) -> PriorState {
        PriorState {
            config: self.config,
            reconfig: self.reconfig,
            deferred: self.deferred@,
            seen: self.end_of_publish.seen(),
            processed: self.processed@,
            object_debts: self.object_debts@,
            randomness_object_debts: self.randomness_object_debts@,
            weights: self.end_of_publish.weights(),
            threshold: self.end_of_publish.threshold(),
        }
    }
}

/// Processing a commit is deterministic: two runs from the same epoch state,
/// ledger and object store, on the same inputs, schedule the same units in the
/// same order with the same versions, and build the same checkpoints: same
/// roots in the same order, heights, timestamps and last-of-epoch flags.
pub proof fn lemma_commit_deterministic(
    p: PriorState,
    c: CommitInputs,
    ledger: Map<SharedObjectRef, u64>,
    objects: Seq<StoredObject>,
    first: CommitOutput,
    second: CommitOutput,
)
    requires
        commit_output_matches(first, p, c, ledger, objects),
        commit_output_matches(second, p, c, ledger, objects),
    ensures
        first.schedulables@ == second.schedulables@,
        assigned_view(first.assigned_versions@) == assigned_view(second.assigned_versions@),
        first.checkpoints@.len() == second.checkpoints@.len(),
        forall|i: int| 0 <= i < first.checkpoints@.len() ==> (#[trigger] first.checkpoints@[i]).roots@ == second.checkpoints@[i].roots@
            && first.checkpoints@[i].checkpoint_height == second.checkpoints@[i].checkpoint_height
            && first.checkpoints@[i].last_of_epoch == second.checkpoints@[i].last_of_epoch
            && first.checkpoints@[i].timestamp_ms == second.checkpoints@[i].timestamp_ms,
{
}

/// The output of a commit agrees with its plan.
pub open spec fn commit_output_matches(
    out: CommitOutput,
    p: PriorState,
    c: CommitInputs,
    ledger: Map<SharedObjectRef, u64>,
    objects: Seq<StoredObject>,
) -> bool {
    let plan = commit_plan(p, c);
    let height = checkpoint_height(c.info.round, p.config.randomness_enabled);
    &&& out.schedulables@ == plan.schedule
    &&& out.regular_count == plan.regular_count
    &&& cancelled_view(out.cancelled@) == plan.cancelled
    &&& out.notifications@ == plan.notifications
    &&& out.forwarded@ == plan.forwarded
    &&& out.execution_time_observations@ == messages_of_class(c.transactions, p.processed, p.config.randomness_enabled, MessageClass::ExecutionTimeObservation)
    &&& out.randomness_state_updated == plan.randomness_state_updated
    &&& assigned_view(out.assigned_versions@) == assign_all(ledger, objects, plan.schedule, cancelled_digests(plan.cancelled)).0
    &&& out.final_round == plan.final_round
    &&& out.checkpoints@.len() == plan.checkpoint_count
    &&& forall|i: int| 0 <= i < out.checkpoints@.len() ==> (#[trigger] out.checkpoints@[i]).timestamp_ms == c.info.timestamp_ms
    &&& out.checkpoints@.len() > 0 ==> {
        &&& out.checkpoints@[0].roots@ == seq![TransactionKey::ConsensusCommitPrologue(p.config.epoch, c.info.round)] + plan.regular_roots
        &&& out.checkpoints@[0].checkpoint_height == height
        &&& out.checkpoints@[0].last_of_epoch == (plan.final_round && !plan.write_random)
    }
    &&& out.checkpoints@.len() == 2 ==> {
        &&& out.checkpoints@[1].roots@ == plan.randomness_roots + randomness_round_root(p, c)
        &&& out.checkpoints@[1].checkpoint_height == height + 1
        &&& out.checkpoints@[1].last_of_epoch == plan.final_round
    }
}

} // verus!

verus! {

/// A reserved round's randomness update leads the randomness units of the
/// schedule; without a reserved round no randomness update is scheduled there.
pub proof fn lemma_randomness_update_first(p: PriorState, c: CommitInputs)
    ensures
        ({
            let plan = commit_plan(p, c);
            match c.randomness_round {
                Some(rr) => plan.regular_count < plan.schedule.len()
                    && plan.schedule[plan.regular_count as int] == (Schedulable::RandomnessStateUpdate {
                        epoch: p.config.epoch,
                        round: rr,
                        state_object: p.config.randomness_state_object,
                    }),
                None => forall|i: int| plan.regular_count <= i < plan.schedule.len()
                    ==> !((#[trigger] plan.schedule[i]) is RandomnessStateUpdate),
            }
        }),
{
    let env = commit_env(p, c);
    let (rw, ww) = commit_work(p, c);
    let enabled = p.config.randomness_enabled;
    let reg_items = message_work(messages_of_class(c.transactions, p.processed, enabled, MessageClass::System))
        + reordered(rw, p.config.ordering);
    let a0 = initial_processing(p, c);
    let (a1, _) = process_items_spec(env, false, a0, map_of(p.object_debts), reg_items);
    lemma_items_append_transactions(env, false, a0, map_of(p.object_debts), reg_items);
    lemma_items_append_transactions(env, true, a1, map_of(p.randomness_object_debts), reordered(ww, p.config.ordering));
    let a2 = commit_processing(p, c);
    let plan = commit_plan(p, c);
    assert(a2.randomness.take(a0.randomness.len() as int) == a0.randomness);
    assert forall|i: int| a0.randomness.len() <= i < a2.randomness.len() implies (#[trigger] a2.randomness[i]) is Transaction by {
        if i < a1.randomness.len() {
            assert(a2.randomness[i] == a2.randomness.take(a1.randomness.len() as int)[i]);
        }
    }
    assert forall|i: int| 0 <= i < a2.randomness.len() implies plan.schedule[1 + a2.regular.len() + i] == #[trigger] a2.randomness[i] by {}
    match c.randomness_round {
        Some(rr) => {
            assert(a0.randomness.len() >= 1);
            assert(a2.randomness[0] == a0.randomness.take(a0.randomness.len() as int)[0]);
            assert(plan.schedule[plan.regular_count as int] == a2.randomness[0]);
        },
        None => {
            assert(a0.randomness.len() == 0);
            assert forall|i: int| plan.regular_count <= i < plan.schedule.len() implies !((#[trigger] plan.schedule[i]) is RandomnessStateUpdate) by {
                assert(plan.schedule[i] == a2.randomness[i - 1 - a2.regular.len()]);
            }
        },
    }
}

} // verus!
