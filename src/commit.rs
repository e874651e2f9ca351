use vstd::prelude::*;
use crate::congestion::{SharedObjectCongestionTracker, debts_after};
use crate::deferral::{DeferralKey, DeferredEntry, DeferredStore, contents, lemma_contents_concat, lemma_contents_single, store_pairs};
use crate::end_of_publish::{EndOfPublishAggregator, lemma_reconfig_monotonic, lemma_run_forward, process_end_of_publish_transactions_and_reconfig, total_weight};
use crate::messages::{ConsensusTransactionKind, MessageClass, MessageConfig, SequencedConsensusTransaction, classify_transactions, messages_of_class};
use crate::ordering::{ConsensusTransactionOrdering, reorder, reordered};
use crate::plan::{cancelled_digests, lemma_randomness_update_first, CommitInputs, commit_costs, message_keys, commit_env, commit_output_matches, commit_plan, commit_processing, commit_work, initial_acc, randomness_round_root, remaining_after_loads, reloaded_for_randomness, version_room};
use crate::policy::{CancelConsensusCertificateReason, CommitContext, CongestionCostModel};
use crate::randomness::{DkgStatus, PendingCheckpoint, calculate_pending_checkpoint_height, decide_randomness_round, randomness_decision, should_load_deferred_randomness, should_write_random_checkpoint};
use crate::reconfig::{ReconfigState, advance_to, stage};
use crate::table::map_of;
use crate::stats::{ConsensusStats, ExecutionIndices, ExecutionIndicesWithStats};
use crate::types::{CancellationList, AuthorityIndex, ObjectId, Round, Schedulable, SharedObjectRef, TransactionDigest, TransactionKey};
use crate::versions::{AssignedVersions, CANCELLED_VERSION, contains_digest, MAX_VERSION, StoredObject, VersionLedger, assign_all, assign_shared_object_versions_idempotent, assign_versions_from_consensus, assigned_view, bounded, headroom, objects_at_most, refs_at_most, refs_ok, store_ok};
use crate::work::{WorkItem, deferred_work, env_of, goes_to_randomness, message_work, decide_work_items, push_deferred, push_messages};

verus! {

/// What the epoch's protocol configuration fixes for commit processing.
#[derive(Clone, Copy, Debug, PartialEq, Eq, Structural)]
pub struct EpochConfig {
    pub epoch: u64,
    pub randomness_enabled: bool,
    /// Transactions certified by consensus itself are accepted.
    pub fastpath_enabled: bool,
    /// Each commit settles accumulated balances.
    pub accumulators_enabled: bool,
    pub cost_model: CongestionCostModel,
    /// How many rounds a congestion deferral may last.
    pub max_deferral_rounds: u64,
    /// Cost each shared object may take on in one commit.
    pub per_object_budget: u64,
    pub clock_object: SharedObjectRef,
    pub randomness_state_object: SharedObjectRef,
    pub accumulator_root_object: SharedObjectRef,
    /// How each work list is ordered before it is decided.
    pub ordering: ConsensusTransactionOrdering,
}

/// The consensus metadata of one commit.
#[derive(Clone, Copy, Debug, PartialEq, Eq, Structural)]
pub struct CommitInfo {
    pub round: Round,
    pub timestamp_ms: u64,
}

/// A version that would pass the largest one allowed; the commit cannot proceed.
#[derive(Clone, Copy, Debug, PartialEq, Eq, Structural)]
pub enum CommitError {
    VersionLimitExceeded,
}

/// The per-epoch state that commit processing reads and writes, with the
/// epoch's configuration.
pub struct AuthorityPerEpochStore {
    pub config: EpochConfig,
    pub reconfig: ReconfigState,
    pub deferred: DeferredStore,
    pub ledger: VersionLedger,
    pub end_of_publish: EndOfPublishAggregator,
    /// Keys of the consensus messages already processed.
    pub processed: Vec<u64>,
    /// Debts carried into the next commit, for regular transactions.
    pub object_debts: Vec<(ObjectId, u64)>,
    /// Debts carried into the next commit, for transactions in randomness.
    pub randomness_object_debts: Vec<(ObjectId, u64)>,
    /// Checkpoints waiting for the checkpoint builder.
    pub pending_checkpoints: Vec<PendingCheckpoint>,
    /// Consensus position and per-authority counters as of the last commit.
    pub last_consensus_stats: ExecutionIndicesWithStats,
}

impl AuthorityPerEpochStore {
    pub open spec fn wf(&self) -> bool {
        &&& self.deferred.wf()
        &&& self.ledger.wf()
        &&& self.end_of_publish.wf()
    }

    /// The state at the start of an epoch whose committee has these weights.
    pub fn new(config: EpochConfig, weights: Vec<u64>) -> (r: AuthorityPerEpochStore)
        requires
            total_weight(weights@) <= u64::MAX,
        ensures
            r.wf(),
            r.config == config,
            r.reconfig == ReconfigState::AcceptAll,
            r.deferred@.len() == 0,
            r.ledger@ == Map::<SharedObjectRef, u64>::empty(),
            r.end_of_publish.weights() == weights@,
            r.end_of_publish.stake() == 0,
            r.processed@.len() == 0,
            r.pending_checkpoints@.len() == 0,
    {
        AuthorityPerEpochStore {
            config,
            reconfig: ReconfigState::AcceptAll,
            deferred: DeferredStore::new(),
            ledger: VersionLedger::new(),
            end_of_publish: EndOfPublishAggregator::new(weights),
            processed: Vec::new(),
            object_debts: Vec::new(),
            randomness_object_debts: Vec::new(),
            pending_checkpoints: Vec::new(),
            last_consensus_stats: ExecutionIndicesWithStats {
                index: ExecutionIndices { last_committed_round: 0, sub_dag_index: 0, transaction_index: 0 },
                hash: 0,
                stats: ConsensusStats::new(0),
            },
        }
    }

    pub fn epoch(&self) -> (r: u64)
        ensures
            r == self.config.epoch,
    {
        self.config.epoch
    }

    pub fn randomness_state_enabled(&self) -> (r: bool)
        ensures
            r == self.config.randomness_enabled,
    {
        self.config.randomness_enabled
    }

    pub fn accumulators_enabled(&self) -> (r: bool)
        ensures
            r == self.config.accumulators_enabled,
    {
        self.config.accumulators_enabled
    }

    /// No deferred transaction remains.
    pub fn deferred_transactions_empty(&self) -> (r: bool)
        ensures
            r == (self.deferred@.len() == 0),
    {
        self.deferred.is_empty()
    }

    /// The next version the ledger records for a shared object, if initialized.
    pub fn get_next_object_version(&self, r: &SharedObjectRef) -> (v: Option<u64>)
        requires
            self.wf(),
        ensures
            v == (if self.ledger@.dom().contains(*r) {
                Some(self.ledger@[*r])
            } else {
                None::<u64>
            }),
    {
        self.ledger.get_next_object_version(r)
    }

    /// Versions for units outside consensus, leaving the ledger as it is.
    pub fn assign_shared_object_versions_idempotent(&self, objects: &Vec<StoredObject>, items: &Vec<Schedulable>) -> (r: Vec<AssignedVersions>)
        requires
            self.wf(),
            items@.len() <= MAX_VERSION,
            bounded(self.ledger@, headroom(items@.len() as int)),
            store_ok(objects@, headroom(items@.len() as int)),
            refs_ok(items@, headroom(items@.len() as int)),
        ensures
            assigned_view(r@) == assign_all(self.ledger@, objects@, items@, Seq::<TransactionDigest>::empty()).0,
    {
        assign_shared_object_versions_idempotent(&self.ledger, objects, items)
    }

    /// Whether a consensus message was already processed in this epoch.
    pub fn is_consensus_message_processed(&self, key: u64) -> (r: bool)
        ensures
            r == self.processed@.contains(key),
    {
        let mut i: usize = 0;
        while i < self.processed.len()
            invariant
                i <= self.processed@.len(),
                forall|j: int| 0 <= j < i ==> self.processed@[j] != key,
            decreases self.processed@.len() - i,
        {
            if self.processed[i] == key {
                return true;
            }
            i = i + 1;
        }
        false
    }

    /// For each key, whether its message was already processed.
    pub fn check_consensus_messages_processed(&self, keys: &Vec<u64>) -> (r: Vec<bool>)
        ensures
            r@.len() == keys@.len(),
            forall|i: int| 0 <= i < keys@.len() ==> r@[i] == self.processed@.contains(#[trigger] keys@[i]),
    {
        let mut r: Vec<bool> = Vec::new();
        let mut i: usize = 0;
        while i < keys.len()
            invariant
                i <= keys@.len(),
                r@.len() == i,
                forall|j: int| 0 <= j < i ==> r@[j] == self.processed@.contains(#[trigger] keys@[j]),
            decreases keys@.len() - i,
        {
            r.push(self.is_consensus_message_processed(keys[i]));
            i = i + 1;
        }
        r
    }

    /// Whether an authority's end-of-publish notice was counted.
    pub fn has_sent_end_of_publish(&self, authority: AuthorityIndex) -> (r: bool)
        requires
            self.wf(),
        ensures
            r == (authority < self.end_of_publish.seen().len() && self.end_of_publish.seen()[authority as int]),
    {
        self.end_of_publish.has_sent_end_of_publish(authority)
    }

    /// Closes admission of new user transactions (the epoch-close request).
    pub fn close_user_certs(&mut self)
        ensures
            final(self).reconfig == advance_to(old(self).reconfig, 1),
    {
        self.reconfig.close_user_certs();
    }

    pub fn get_reconfig_state(&self) -> (r: ReconfigState)
        ensures
            r == self.reconfig,
    {
        self.reconfig
    }

    /// Whether a checkpoint is pending at this height.
    pub fn pending_checkpoint_exists(&self, height: u64) -> (r: bool)
        ensures
            r == exists|i: int| 0 <= i < self.pending_checkpoints@.len() && #[trigger] self.pending_checkpoints@[i].checkpoint_height == height,
    {
        let mut i: usize = 0;
        while i < self.pending_checkpoints.len()
            invariant
                i <= self.pending_checkpoints@.len(),
                forall|j: int| 0 <= j < i ==> (#[trigger] self.pending_checkpoints@[j]).checkpoint_height != height,
            decreases self.pending_checkpoints@.len() - i,
        {
            if self.pending_checkpoints[i].checkpoint_height == height {
                return true;
            }
            i = i + 1;
        }
        false
    }

    /// The highest height of a pending checkpoint, if any is pending.
    pub fn get_highest_pending_checkpoint_height(&self) -> (r: Option<u64>)
        ensures
            match r {
                None => self.pending_checkpoints@.len() == 0,
                Some(h) => (exists|i: int| 0 <= i < self.pending_checkpoints@.len() && #[trigger] self.pending_checkpoints@[i].checkpoint_height == h)
                    && forall|i: int| 0 <= i < self.pending_checkpoints@.len() ==> (#[trigger] self.pending_checkpoints@[i]).checkpoint_height <= h,
            },
    {
        if self.pending_checkpoints.len() == 0 {
            return None;
        }
        let mut best: u64 = self.pending_checkpoints[0].checkpoint_height;
        let mut i: usize = 1;
        while i < self.pending_checkpoints.len()
            invariant
                1 <= i <= self.pending_checkpoints@.len(),
                exists|j: int| 0 <= j < i && #[trigger] self.pending_checkpoints@[j].checkpoint_height == best,
                forall|j: int| 0 <= j < i ==> (#[trigger] self.pending_checkpoints@[j]).checkpoint_height <= best,
            decreases self.pending_checkpoints@.len() - i,
        {
            if self.pending_checkpoints[i].checkpoint_height > best {
                best = self.pending_checkpoints[i].checkpoint_height;
            }
            i = i + 1;
        }
        Some(best)
    }
}

/// A copy of the checkpoints, for the epoch store's pending queue.
fn copy_checkpoints(c: &Vec<PendingCheckpoint>) -> (r: Vec<PendingCheckpoint>)
    ensures
        r@.len() == c@.len(),
        forall|i: int| 0 <= i < c@.len() ==> (#[trigger] r@[i]).checkpoint_height == c@[i].checkpoint_height
            && r@[i].roots@ == c@[i].roots@ && r@[i].timestamp_ms == c@[i].timestamp_ms
            && r@[i].last_of_epoch == c@[i].last_of_epoch,
{
    let mut r: Vec<PendingCheckpoint> = Vec::new();
    let mut i: usize = 0;
    while i < c.len()
        invariant
            i <= c@.len(),
            r@.len() == i,
            forall|j: int| 0 <= j < i ==> (#[trigger] r@[j]).checkpoint_height == c@[j].checkpoint_height
                && r@[j].roots@ == c@[j].roots@ && r@[j].timestamp_ms == c@[j].timestamp_ms
                && r@[j].last_of_epoch == c@[j].last_of_epoch,
        decreases c@.len() - i,
    {
        let mut roots: Vec<TransactionKey> = Vec::new();
        let mut k: usize = 0;
        while k < c[i].roots.len()
            invariant
                i < c@.len(),
                k <= c@[i as int].roots@.len(),
                roots@ == c@[i as int].roots@.take(k as int),
            decreases c@[i as int].roots@.len() - k,
        {
            roots.push(c[i].roots[k]);
            k = k + 1;
            proof {
                assert(roots@ =~= c@[i as int].roots@.take(k as int));
            }
        }
        proof {
            assert(c@[i as int].roots@.take(k as int) =~= c@[i as int].roots@);
        }
        r.push(PendingCheckpoint {
            roots,
            timestamp_ms: c[i].timestamp_ms,
            checkpoint_height: c[i].checkpoint_height,
            last_of_epoch: c[i].last_of_epoch,
        });
        i = i + 1;
    }
    r
}

/// Adds every entry to the queue, in order.
fn insert_entries(deferred: &mut DeferredStore, entries: Vec<DeferredEntry>)
    requires
        old(deferred).wf(),
    ensures
        final(deferred).wf(),
        contents(final(deferred)@) == contents(old(deferred)@).add(contents(entries@)),
{
    let ghost all = entries@;
    let mut entries = entries;
    let ghost mut k: int = 0;
    proof {
        broadcast use vstd::seq_lib::group_to_multiset_ensures;
        assert(all.take(0) =~= Seq::<DeferredEntry>::empty());
        assert(store_pairs(all.take(0)) =~= Seq::empty());
        assert(store_pairs(all.take(0)).to_multiset() =~= vstd::multiset::Multiset::empty());
        assert(contents(deferred@) =~= contents(old(deferred)@).add(contents(all.take(0))));
    }
    while entries.len() > 0
        invariant
            deferred.wf(),
            0 <= k <= all.len(),
            entries@ == all.subrange(k, all.len() as int),
            contents(deferred@) == contents(old(deferred)@).add(contents(all.take(k))),
        decreases entries@.len(),
    {
        let e = entries.remove(0);
        proof {
            assert(e == all[k]);
            assert(all.take(k + 1) =~= all.take(k) + seq![e]);
            lemma_contents_concat(all.take(k), seq![e]);
            lemma_contents_single(e);
        }
        deferred.insert(e.key, e.transactions);
        proof {
            k = k + 1;
            assert(entries@ =~= all.subrange(k, all.len() as int));
            assert(contents(deferred@) =~= contents(old(deferred)@).add(contents(all.take(k))));
        }
    }
    proof {
        assert(all.take(k) =~= all);
    }
}

/// The keys of messages, pushed in order.
fn push_keys(m: &Vec<SequencedConsensusTransaction>, keys: &mut Vec<u64>)
    ensures
        final(keys)@ == old(keys)@ + message_keys(m@),
{
    let mut i: usize = 0;
    while i < m.len()
        invariant
            i <= m@.len(),
            keys@ == old(keys)@ + message_keys(m@.take(i as int)),
        decreases m@.len() - i,
    {
        keys.push(m[i].key);
        i = i + 1;
        proof {
            assert(keys@ =~= old(keys)@ + message_keys(m@.take(i as int)));
        }
    }
    proof {
        assert(m@.take(i as int) =~= m@);
    }
}

/// The sentinel assignments of the cancelled transactions among the units, in
/// order: for each object of each, its digest, the object and the sentinel.
pub open spec fn cancellation_triples(s: Seq<Schedulable>, cancelled: Seq<TransactionDigest>) -> Seq<(TransactionDigest, SharedObjectRef, u64)>
    decreases s.len(),
{
    if s.len() == 0 {
        Seq::empty()
    } else {
        cancellation_triples(s.drop_last(), cancelled) + unit_cancellation(s.last(), cancelled)
    }
}

pub open spec fn unit_cancellation(u: Schedulable, cancelled: Seq<TransactionDigest>) -> Seq<(TransactionDigest, SharedObjectRef, u64)> {
    match u {
        Schedulable::Transaction(tx) => if cancelled.contains(tx.digest) {
            Seq::new(tx.shared_objects@.len(), |i: int| (tx.digest, tx.shared_objects@[i], CANCELLED_VERSION))
        } else {
            Seq::empty()
        },
        _ => Seq::empty(),
    }
}

/// The list holding the assignments, in order.
pub open spec fn list_of(t: Seq<(TransactionDigest, SharedObjectRef, u64)>) -> CancellationList
    decreases t.len(),
{
    if t.len() == 0 {
        CancellationList::End
    } else {
        CancellationList::Next(t[0].0, t[0].1, t[0].2, Box::new(list_of(t.subrange(1, t.len() as int))))
    }
}

pub proof fn lemma_cancellation_concat(a: Seq<Schedulable>, b: Seq<Schedulable>, cancelled: Seq<TransactionDigest>)
    ensures
        cancellation_triples(a + b, cancelled) == cancellation_triples(a, cancelled) + cancellation_triples(b, cancelled),
    decreases b.len(),
{
    if b.len() == 0 {
        assert(a + b =~= a);
        assert(cancellation_triples(b, cancelled) =~= Seq::empty());
        assert(cancellation_triples(a, cancelled) + cancellation_triples(b, cancelled) =~= cancellation_triples(a, cancelled));
    } else {
        assert((a + b).drop_last() =~= a + b.drop_last());
        assert((a + b).last() == b.last());
        lemma_cancellation_concat(a, b.drop_last(), cancelled);
        assert(cancellation_triples(a + b, cancelled) =~= cancellation_triples(a, cancelled) + cancellation_triples(b, cancelled));
    }
}

/// Appends the sentinel assignments of the cancelled transactions among `units`.
fn collect_cancellations(
    units: &Vec<Schedulable>,
    cancelled: &Vec<TransactionDigest>,
    out: &mut Vec<(TransactionDigest, SharedObjectRef, u64)>,
)
    ensures
        final(out)@ == old(out)@ + cancellation_triples(units@, cancelled@),
{
    let mut i: usize = 0;
    while i < units.len()
        invariant
            i <= units@.len(),
            out@ == old(out)@ + cancellation_triples(units@.take(i as int), cancelled@),
        decreases units@.len() - i,
    {
        let ghost start = out@;
        proof {
            assert(units@.take(i + 1).drop_last() =~= units@.take(i as int));
            assert(units@.take(i + 1).last() == units@[i as int]);
        }
        if let Schedulable::Transaction(tx) = &units[i] {
            if contains_digest(cancelled, tx.digest) {
                let mut j: usize = 0;
                while j < tx.shared_objects.len()
                    invariant
                        j <= tx.shared_objects@.len(),
                        out@ == start + Seq::new(j as nat, |m: int| (tx.digest, tx.shared_objects@[m], CANCELLED_VERSION)),
                    decreases tx.shared_objects@.len() - j,
                {
                    out.push((tx.digest, tx.shared_objects[j], CANCELLED_VERSION));
                    j = j + 1;
                    proof {
                        assert(out@ =~= start + Seq::new(j as nat, |m: int| (tx.digest, tx.shared_objects@[m], CANCELLED_VERSION)));
                    }
                }
                proof {
                    assert(out@ =~= start + unit_cancellation(units@[i as int], cancelled@));
                }
            } else {
                proof {
                    assert(out@ =~= start + unit_cancellation(units@[i as int], cancelled@));
                }
            }
        } else {
            proof {
                assert(out@ =~= start + unit_cancellation(units@[i as int], cancelled@));
            }
        }
        i = i + 1;
    }
    proof {
        assert(units@.take(i as int) =~= units@);
    }
}

/// The cancellation record of a schedule: the regular units, then `more`.
fn cancellation_versions(
    units: &Vec<Schedulable>,
    more: &Vec<Schedulable>,
    cancelled: &Vec<TransactionDigest>,
) -> (r: CancellationList)
    ensures
        r == list_of(cancellation_triples(units@ + more@, cancelled@)),
{
    let mut triples: Vec<(TransactionDigest, SharedObjectRef, u64)> = Vec::new();
    collect_cancellations(units, cancelled, &mut triples);
    collect_cancellations(more, cancelled, &mut triples);
    proof {
        lemma_cancellation_concat(units@, more@, cancelled@);
        assert(triples@ =~= cancellation_triples(units@ + more@, cancelled@));
    }
    let n = triples.len();
    let mut list = CancellationList::End;
    let mut i: usize = n;
    proof {
        assert(triples@.subrange(n as int, n as int) =~= Seq::empty());
    }
    while i > 0
        invariant
            i <= n == triples@.len(),
            list == list_of(triples@.subrange(i as int, n as int)),
        decreases i,
    {
        i = i - 1;
        let (d, o, v) = triples[i];
        proof {
            let t = triples@.subrange(i as int, n as int);
            assert(t.subrange(1, t.len() as int) =~= triples@.subrange(i + 1, n as int));
            assert(t[0] == (d, o, v));
        }
        list = CancellationList::Next(d, o, v, Box::new(list));
    }
    proof {
        assert(triples@.subrange(0, n as int) =~= triples@);
    }
    list
}

/// Puts the commit prologue at the front of the regular schedule: it advances
/// the clock to the commit's timestamp and carries the sentinel assignment of
/// every cancelled transaction of the schedule (the regular units, then those
/// in randomness), in schedule order. Returns its root key.
pub fn add_consensus_commit_prologue_transaction(
    schedulables: &mut Vec<Schedulable>,
    randomness: &Vec<Schedulable>,
    epoch: u64,
    info: &CommitInfo,
    clock_object: SharedObjectRef,
    cancelled: &Vec<TransactionDigest>,
) -> (r: TransactionKey)
    ensures
        final(schedulables)@ == seq![Schedulable::ConsensusCommitPrologue {
            epoch,
            round: info.round,
            timestamp_ms: info.timestamp_ms,
            clock_object,
            cancelled_versions: list_of(cancellation_triples(old(schedulables)@ + randomness@, cancelled@)),
        }] + old(schedulables)@,
        r == TransactionKey::ConsensusCommitPrologue(epoch, info.round),
{
    let cancelled_versions = cancellation_versions(schedulables, randomness, cancelled);
    let ghost before = schedulables@;
    schedulables.insert(0, Schedulable::ConsensusCommitPrologue {
        epoch,
        round: info.round,
        timestamp_ms: info.timestamp_ms,
        clock_object,
        cancelled_versions,
    });
    proof {
        assert(schedulables@ =~= seq![Schedulable::ConsensusCommitPrologue {
            epoch,
            round: info.round,
            timestamp_ms: info.timestamp_ms,
            clock_object,
            cancelled_versions: list_of(cancellation_triples(before + randomness@, cancelled@)),
        }] + before);
    }
    TransactionKey::ConsensusCommitPrologue(epoch, info.round)
}

/// The digests of the cancelled transactions, in order.
pub open spec fn digests_of(c: Seq<(TransactionDigest, CancelConsensusCertificateReason)>) -> Seq<TransactionDigest> {
    Seq::new(c.len(), |i: int| c[i].0)
}

/// The digests of the cancelled transactions, as a list.
fn cancelled_digest_list(c: &Vec<(TransactionDigest, CancelConsensusCertificateReason)>) -> (r: Vec<TransactionDigest>)
    ensures
        r@ == digests_of(c@),
{
    let mut r: Vec<TransactionDigest> = Vec::new();
    let mut i: usize = 0;
    while i < c.len()
        invariant
            i <= c@.len(),
            r@ == digests_of(c@.take(i as int)),
        decreases c@.len() - i,
    {
        r.push(c[i].0);
        i = i + 1;
        proof {
            assert(r@ =~= digests_of(c@.take(i as int)));
        }
    }
    proof {
        assert(c@.take(i as int) =~= c@);
    }
    r
}

/// The authorities of a commit's end-of-publish notices, in order.
pub open spec fn notice_authorities(m: Seq<SequencedConsensusTransaction>) -> Seq<u64>
    decreases m.len(),
{
    if m.len() == 0 {
        Seq::empty()
    } else {
        let rest = notice_authorities(m.drop_last());
        match m.last().kind {
            ConsensusTransactionKind::EndOfPublish(a) => rest.push(a),
            _ => rest,
        }
    }
}

/// The authorities of the notices, in order; their keys go to `keys`.
fn end_of_publish_authorities(m: &Vec<SequencedConsensusTransaction>, keys: &mut Vec<u64>) -> (r: Vec<u64>)
    ensures
        r@ == notice_authorities(m@),
        final(keys)@ == old(keys)@ + message_keys(m@),
{
    let mut r: Vec<u64> = Vec::new();
    let mut i: usize = 0;
    while i < m.len()
        invariant
            i <= m@.len(),
            r@ == notice_authorities(m@.take(i as int)),
            keys@ == old(keys)@ + message_keys(m@.take(i as int)),
        decreases m@.len() - i,
    {
        proof {
            assert(m@.take(i + 1).drop_last() == m@.take(i as int));
        }
        if let ConsensusTransactionKind::EndOfPublish(a) = &m[i].kind {
            r.push(*a);
        }
        keys.push(m[i].key);
        i = i + 1;
        proof {
            assert(keys@ =~= old(keys)@ + message_keys(m@.take(i as int)));
        }
    }
    proof {
        assert(m@.take(i as int) == m@);
    }
    r
}

/// What one commit hands on: the units to execute with their versions, the
/// checkpoints to build, and what waiters and the epoch lifecycle need.
pub struct CommitOutput {
    /// All units in execution order: the regular ones, then those in randomness.
    pub schedulables: Vec<Schedulable>,
    /// How many of them are regular.
    pub regular_count: usize,
    pub assigned_versions: Vec<AssignedVersions>,
    pub notifications: Vec<u64>,
    pub cancelled: Vec<(TransactionDigest, CancelConsensusCertificateReason)>,
    pub checkpoints: Vec<PendingCheckpoint>,
    /// The epoch's last commit: all transactions are now rejected.
    pub final_round: bool,
    /// The reconfiguration state changed and its snapshot must be stored.
    pub reconfig_changed: bool,
    /// A DKG message arrived: the randomness protocol is to be advanced.
    pub randomness_state_updated: bool,
    /// Messages whose contents go to the collaborator of their kind (checkpoint
    /// signatures, capabilities, JWK votes, DKG messages and confirmations),
    /// in consensus order.
    pub forwarded: Vec<SequencedConsensusTransaction>,
    /// Execution-time observations, in consensus order, for the estimator.
    pub execution_time_observations: Vec<SequencedConsensusTransaction>,
}

} // verus!

verus! {

impl AuthorityPerEpochStore {
    /// Verifies and splits a commit's messages, reloads the deferred work that
    /// is due (and, when randomness resolves, the work that waited for it), and
    /// returns the regular work (system transactions first), the randomness
    /// work, each ordered by the configured policy, the end-of-publish notices
    /// and the execution-time observations.
    fn prepare_work(
        &mut self,
        transactions: Vec<SequencedConsensusTransaction>,
        info: &CommitInfo,
        dkg_status: DkgStatus,
        randomness_round: Option<u64>,
    ) -> (r: (Vec<WorkItem>, Vec<WorkItem>, Vec<SequencedConsensusTransaction>, Vec<SequencedConsensusTransaction>))
        requires
            old(self).wf(),
            info.round < u64::MAX,
        ensures
            final(self).wf(),
            final(self).deferred@ == remaining_after_loads(old(self).prior(), CommitInputs { transactions: transactions@, info: *info, dkg_status, randomness_round, estimates: Seq::empty() }),
            final(self).config == old(self).config,
            final(self).reconfig == old(self).reconfig,
            final(self).ledger == old(self).ledger,
            final(self).end_of_publish == old(self).end_of_publish,
            final(self).processed == old(self).processed,
            final(self).object_debts == old(self).object_debts,
            final(self).randomness_object_debts == old(self).randomness_object_debts,
            final(self).pending_checkpoints == old(self).pending_checkpoints,
            final(self).last_consensus_stats == old(self).last_consensus_stats,
            ({
                let p = old(self).prior();
                let c = CommitInputs { transactions: transactions@, info: *info, dkg_status, randomness_round, estimates: Seq::empty() };
                let enabled = p.config.randomness_enabled;
                &&& r.0@ == message_work(messages_of_class(transactions@, p.processed, enabled, MessageClass::System))
                    + reordered(commit_work(p, c).0, p.config.ordering)
                &&& r.1@ == reordered(commit_work(p, c).1, p.config.ordering)
                &&& r.2@ == messages_of_class(transactions@, p.processed, enabled, MessageClass::EndOfPublish)
                &&& r.3@ == messages_of_class(transactions@, p.processed, enabled, MessageClass::ExecutionTimeObservation)
            }),
    {
        let ghost p = self.prior();
        let ghost c = CommitInputs { transactions: transactions@, info: *info, dkg_status, randomness_round, estimates: Seq::empty() };
        let enabled = self.config.randomness_enabled;
        let ordering = self.config.ordering;
        let classified = classify_transactions(transactions, &self.processed, enabled);
        let (min, max) = DeferralKey::range_for_up_to_consensus_round(info.round);
        let due = self.deferred.load_range(min, max);
        let dkg_failed = decide_randomness_round(enabled, dkg_status, &self.reconfig).dkg_failed;
        let mut regular_items: Vec<WorkItem> = Vec::new();
        let mut randomness_items: Vec<WorkItem> = Vec::new();
        if should_load_deferred_randomness(dkg_failed, randomness_round) {
            let (rmin, rmax) = DeferralKey::full_range_for_randomness();
            let waiting = self.deferred.load_range(rmin, rmax);
            push_deferred(waiting, true, enabled, &mut regular_items, &mut randomness_items);
        }
        proof {
            reveal_with_fuel(Seq::filter, 1);
            let w = deferred_work(reloaded_for_randomness(p, c));
            assert(regular_items@ =~= w.filter(|x: WorkItem| !goes_to_randomness(x, true, enabled)));
            assert(randomness_items@ =~= w.filter(|x: WorkItem| goes_to_randomness(x, true, enabled)));
        }
        push_deferred(due, false, enabled, &mut regular_items, &mut randomness_items);
        push_messages(classified.other, &mut regular_items);
        push_messages(classified.randomness, &mut randomness_items);
        proof {
            assert(regular_items@ =~= commit_work(p, c).0);
            assert(randomness_items@ =~= commit_work(p, c).1);
        }
        let mut regular_items = reorder(regular_items, ordering);
        let randomness_items = reorder(randomness_items, ordering);
        let mut system_items: Vec<WorkItem> = Vec::new();
        push_messages(classified.system, &mut system_items);
        system_items.append(&mut regular_items);
        proof {
            assert(system_items@ =~= message_work(messages_of_class(c.transactions, p.processed, enabled, MessageClass::System))
                + reordered(commit_work(p, c).0, ordering));
        }
        (system_items, randomness_items, classified.end_of_publish, classified.execution_time_observations)
    }

    /// Runs one consensus commit end to end: verifies and splits its messages,
    /// reloads deferred work, decides each transaction (schedule, defer or cancel)
    /// against two congestion trackers, opens the schedule with a commit prologue,
    /// assigns shared object versions over the whole schedule, counts end-of-publish
    /// notices, and builds the commit's pending checkpoints.
    ///
    /// `randomness_round` is the round the randomness manager reserved, if it was
    /// asked to (only when `decide_randomness_round` says so). On an error the
    /// commit cannot be applied: the reloaded deferred entries are gone from the
    /// store and nothing else changed, so the caller must stop and replay the
    /// commit from consensus after a restart.
    #[verifier::loop_isolation(false)]
    #[verifier::rlimit(60)]
    pub fn process_consensus_transactions_and_commit_boundary(
        &mut self,
        transactions: Vec<SequencedConsensusTransaction>,
        info: &CommitInfo,
        dkg_status: DkgStatus,
        randomness_round: Option<u64>,
        objects: &Vec<StoredObject>,
        estimates: &Vec<(TransactionDigest, u64)>,
        consensus_stats: ExecutionIndicesWithStats,
    ) -> (r: Result<CommitOutput, CommitError>)
        requires
            old(self).wf(),
            info.round < u64::MAX,
            old(self).config.randomness_enabled ==> info.round <= u64::MAX / 2,
            randomness_round is Some ==> randomness_decision(old(self).config.randomness_enabled, dkg_status, old(self).reconfig).reserve_round,
        ensures
            final(self).wf(),
            final(self).config == old(self).config,
            ({
                let c = CommitInputs { transactions: transactions@, info: *info, dkg_status, randomness_round, estimates: estimates@ };
                let plan = commit_plan(old(self).prior(), c);
                &&& (r is Ok) == version_room(old(self).ledger@, objects@, plan.schedule)
                &&& match r {
                    Ok(out) => {
                        &&& commit_output_matches(out, old(self).prior(), c, old(self).ledger@, objects@)
                        &&& final(self).ledger@ == assign_all(old(self).ledger@, objects@, plan.schedule, cancelled_digests(plan.cancelled)).1
                        &&& final(self).reconfig == plan.reconfig
                        &&& map_of(final(self).object_debts@) == debts_after(commit_costs(old(self).prior(), c).0, old(self).config.per_object_budget)
                        &&& map_of(final(self).randomness_object_debts@) == debts_after(commit_costs(old(self).prior(), c).1, old(self).config.per_object_budget)
                        &&& final(self).processed@ == old(self).processed@ + commit_processing(old(self).prior(), c).processed
                            + message_keys(messages_of_class(transactions@, old(self).processed@, old(self).config.randomness_enabled, MessageClass::ExecutionTimeObservation))
                            + message_keys(messages_of_class(transactions@, old(self).processed@, old(self).config.randomness_enabled, MessageClass::EndOfPublish))
                        &&& contents(final(self).deferred@) == contents(remaining_after_loads(old(self).prior(), c)).add(plan.deferrals.to_multiset())
                        &&& plan.deferrals.len() == 0 ==> final(self).deferred@ == remaining_after_loads(old(self).prior(), c)
                        &&& final(self).pending_checkpoints@.len() == old(self).pending_checkpoints@.len() + out.checkpoints@.len()
                        &&& final(self).pending_checkpoints@.take(old(self).pending_checkpoints@.len() as int) == old(self).pending_checkpoints@
                        &&& forall|i: int| 0 <= i < out.checkpoints@.len() ==> {
                            let w = #[trigger] final(self).pending_checkpoints@[old(self).pending_checkpoints@.len() + i];
                            &&& w.roots@ == out.checkpoints@[i].roots@
                            &&& w.checkpoint_height == out.checkpoints@[i].checkpoint_height
                            &&& w.timestamp_ms == out.checkpoints@[i].timestamp_ms
                            &&& w.last_of_epoch == out.checkpoints@[i].last_of_epoch
                        }
                        &&& final(self).last_consensus_stats == consensus_stats
                        &&& match randomness_round {
                            Some(rr) => out.regular_count < out.schedulables@.len()
                                && out.schedulables@[out.regular_count as int] == (Schedulable::RandomnessStateUpdate {
                                    epoch: old(self).config.epoch,
                                    round: rr,
                                    state_object: old(self).config.randomness_state_object,
                                }),
                            None => forall|i: int| out.regular_count <= i < out.schedulables@.len()
                                ==> !((#[trigger] out.schedulables@[i]) is RandomnessStateUpdate),
                        }
                        &&& plan.deferrals.len() > 0 ==> !out.final_round
                        &&& stage(final(self).reconfig) >= stage(old(self).reconfig)
                        &&& out.final_round == (stage(final(self).reconfig) == 3 && stage(old(self).reconfig) < 3)
                        &&& out.final_round ==> final(self).deferred@.len() == 0
                        &&& out.reconfig_changed == (final(self).reconfig != old(self).reconfig)
                        &&& (out.checkpoints@.len() > 0) == (stage(final(self).reconfig) < 3 || out.final_round)
                        &&& out.checkpoints@.len() > 0 && randomness_round is Some ==> out.checkpoints@.len() == 2
                    },
                    Err(_) => {
                        &&& final(self).deferred@ == remaining_after_loads(old(self).prior(), c)
                        &&& final(self).ledger == old(self).ledger
                        &&& final(self).reconfig == old(self).reconfig
                        &&& final(self).end_of_publish == old(self).end_of_publish
                        &&& final(self).processed == old(self).processed
                        &&& final(self).object_debts == old(self).object_debts
                        &&& final(self).randomness_object_debts == old(self).randomness_object_debts
                        &&& final(self).pending_checkpoints == old(self).pending_checkpoints
                        &&& final(self).last_consensus_stats == old(self).last_consensus_stats
                    },
                }
            }),
    {
        let ghost p = self.prior();
        let ghost c = CommitInputs { transactions: transactions@, info: *info, dkg_status, randomness_round, estimates: estimates@ };
        let config = self.config;
        let round = info.round;
        let enabled = config.randomness_enabled;
        let initial_reconfig = self.reconfig;
        let dkg_failed = decide_randomness_round(enabled, dkg_status, &self.reconfig).dkg_failed;

        let (regular_items, randomness_items, notices, observations) = self.prepare_work(transactions, info, dkg_status, randomness_round);

        // Trackers seeded with the debts of the previous commit.
        let mut tracker = SharedObjectCongestionTracker::new(&self.object_debts, config.per_object_budget);
        let mut randomness_tracker = SharedObjectCongestionTracker::new(&self.randomness_object_debts, config.per_object_budget);
        let height = calculate_pending_checkpoint_height(round, enabled);
        let mut acc = initial_acc(&config, round, randomness_round);

        // Decide every transaction, regular ones first.
        let ctx = CommitContext {
            round,
            dkg_failed,
            generating_randomness: randomness_round.is_some(),
            randomness_enabled: enabled,
            max_deferral_rounds: config.max_deferral_rounds,
        };
        let mconfig = MessageConfig {
            epoch: config.epoch,
            fastpath_enabled: config.fastpath_enabled,
            cost_model: config.cost_model,
        };
        proof {
            assert(env_of(mconfig, ctx, initial_reconfig, self.end_of_publish, estimates@, config.per_object_budget) == commit_env(p, c));
        }
        decide_work_items(regular_items, false, &mut acc, &mconfig, &ctx, initial_reconfig, &self.end_of_publish, estimates, &mut tracker);
        decide_work_items(randomness_items, true, &mut acc, &mconfig, &ctx, initial_reconfig, &self.end_of_publish, estimates, &mut randomness_tracker);
        let ghost a = acc.view();
        proof {
            assert(a == commit_processing(p, c));
            assert((tracker.costs(), randomness_tracker.costs()) == commit_costs(p, c));
        }

        let object_debts = tracker.accumulated_debts();
        let randomness_object_debts = randomness_tracker.accumulated_debts();

        // Open the schedule with the commit prologue.
        let cancelled = cancelled_digest_list(&acc.cancelled);
        proof {
            assert(cancelled@ =~= cancelled_digests(a.cancelled));
        }
        let mut all = acc.regular;
        let prologue_root = add_consensus_commit_prologue_transaction(&mut all, &acc.randomness, config.epoch, info, config.clock_object, &cancelled);
        let regular_count = all.len();
        all.append(&mut acc.randomness);
        let ghost plan = commit_plan(p, c);
        proof {
            assert(all@ =~= plan.schedule);
        }

        // Assign versions over the whole schedule.
        let n = all.len();
        if n as u64 > MAX_VERSION {
            return Err(CommitError::VersionLimitExceeded);
        }
        let limit = MAX_VERSION - n as u64;
        if !self.ledger.all_at_most(limit) || !objects_at_most(objects, limit) || !refs_at_most(&all, limit) {
            return Err(CommitError::VersionLimitExceeded);
        }
        let assigned_versions = assign_versions_from_consensus(&mut self.ledger, objects, &all, &cancelled);

        // End-of-publish notices and the epoch's final round.
        let mut notice_keys: Vec<u64> = Vec::new();
        let authorities = end_of_publish_authorities(&notices, &mut notice_keys);
        let store_empty = self.deferred.is_empty();
        let commit_has_deferred = acc.deferrals.len() > 0;
        let ghost before_notices = self.end_of_publish;
        let (reconfig_changed, final_round) = crate::end_of_publish::process_end_of_publish_transactions_and_reconfig(
            &mut self.reconfig,
            &mut self.end_of_publish,
            &authorities,
            store_empty,
            commit_has_deferred,
        );
        proof {
            lemma_reconfig_monotonic(before_notices.weights(), before_notices.threshold(), initial_reconfig, before_notices.seen(), authorities@, store_empty, commit_has_deferred);
            crate::end_of_publish::lemma_run_forward(before_notices.weights(), before_notices.threshold(), initial_reconfig, before_notices.seen(), authorities@);
            assert(final_round == plan.final_round);
            assert(self.reconfig == plan.reconfig);
        }

        // Pending checkpoints, while the epoch accepts transactions or at its end.
        let mut checkpoints: Vec<PendingCheckpoint> = Vec::new();
        if self.reconfig.should_accept_tx() || final_round {
            let mut roots: Vec<TransactionKey> = Vec::new();
            roots.push(prologue_root);
            roots.append(&mut acc.regular_roots);
            let mut randomness_roots = acc.randomness_roots;
            if let Some(rr) = randomness_round {
                randomness_roots.push(TransactionKey::RandomnessRound(config.epoch, rr));
            }
            proof {
                assert(roots@ =~= seq![TransactionKey::ConsensusCommitPrologue(p.config.epoch, c.info.round)] + plan.regular_roots);
                assert(randomness_roots@ =~= plan.randomness_roots + randomness_round_root(p, c));
            }
            let write_random = should_write_random_checkpoint(randomness_round, dkg_failed, randomness_roots.len());
            checkpoints.push(PendingCheckpoint {
                roots,
                timestamp_ms: info.timestamp_ms,
                checkpoint_height: height,
                last_of_epoch: final_round && !write_random,
            });
            if write_random {
                checkpoints.push(PendingCheckpoint {
                    roots: randomness_roots,
                    timestamp_ms: info.timestamp_ms,
                    checkpoint_height: height + 1,
                    last_of_epoch: final_round,
                });
            }
        }

        // Record the new deferrals, processed messages and debts.
        let ghost remaining = self.deferred@;
        if commit_has_deferred {
            insert_entries(&mut self.deferred, acc.deferred.into_entries());
        }
        proof {
            broadcast use vstd::seq_lib::group_to_multiset_ensures;
            if !commit_has_deferred {
                assert(plan.deferrals =~= Seq::<(DeferralKey, TransactionDigest)>::empty());
                assert(plan.deferrals.to_multiset() =~= vstd::multiset::Multiset::empty());
                assert(contents(remaining).add(plan.deferrals.to_multiset()) =~= contents(remaining));
            }
        }
        let ghost acc_processed = acc.processed@;
        let mut observation_keys: Vec<u64> = Vec::new();
        push_keys(&observations, &mut observation_keys);
        self.processed.append(&mut acc.processed);
        self.processed.append(&mut observation_keys);
        self.processed.append(&mut notice_keys);
        proof {
            assert(self.processed@ =~= p.processed + acc_processed
                + message_keys(messages_of_class(c.transactions, p.processed, p.config.randomness_enabled, MessageClass::ExecutionTimeObservation))
                + message_keys(messages_of_class(c.transactions, p.processed, p.config.randomness_enabled, MessageClass::EndOfPublish)));
        }
        self.last_consensus_stats = consensus_stats;
        self.object_debts = object_debts;
        self.randomness_object_debts = randomness_object_debts;
        let ghost pending_before = self.pending_checkpoints@;
        let mut written = copy_checkpoints(&checkpoints);
        self.pending_checkpoints.append(&mut written);
        proof {
            assert(self.pending_checkpoints@.take(pending_before.len() as int) =~= pending_before);
        }

        proof {
            lemma_randomness_update_first(p, c);
        }
        let out = CommitOutput {
            schedulables: all,
            regular_count,
            assigned_versions,
            notifications: acc.notifications,
            cancelled: acc.cancelled,
            checkpoints,
            final_round,
            reconfig_changed,
            randomness_state_updated: acc.randomness_state_updated,
            forwarded: acc.forwarded,
            execution_time_observations: observations,
        };
        Ok(out)
    }
}

} // verus!
