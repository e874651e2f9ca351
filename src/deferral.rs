use vstd::prelude::*;
use crate::types::{ExecutableTransaction, Round, TransactionDigest};

verus! {

/// Why and until when a transaction was put off.
///
/// Keys are ordered first by variant (randomness before consensus round), then
/// by their fields in order, so that range scans pick out one class.
#[derive(Clone, Copy, Debug, PartialEq, Eq, Structural)]
pub enum DeferralKey {
    /// Waiting for randomness to become available.
    Randomness { deferred_from_round: Round },
    /// Waiting for a later consensus round because of congestion.
    ConsensusRound { future_round: Round, deferred_from_round: Round },
}

pub open spec fn pow64() -> int {
    0x1_0000_0000_0000_0000int
}

/// The total order on keys, as one integer.
pub open spec fn key_rank(k: DeferralKey) -> int {
    match k {
        DeferralKey::Randomness { deferred_from_round } => deferred_from_round * pow64(),
        DeferralKey::ConsensusRound { future_round, deferred_from_round } => pow64() * pow64()
            + future_round * pow64() + deferred_from_round,
    }
}

/// The round in which the transaction was first deferred.
pub open spec fn from_round(k: DeferralKey) -> Round {
    match k {
        DeferralKey::Randomness { deferred_from_round } => deferred_from_round,
        DeferralKey::ConsensusRound { deferred_from_round, .. } => deferred_from_round,
    }
}

/// A congestion deferral may be made while the round deferring it (the one
/// before `future_round`) is at most `max_rounds` past the round it started from.
pub open spec fn within_limit(k: DeferralKey, max_rounds: u64) -> bool {
    match k {
        DeferralKey::Randomness { .. } => true,
        DeferralKey::ConsensusRound { future_round, deferred_from_round } => future_round - 1
            - deferred_from_round <= max_rounds,
    }
}

impl DeferralKey {
    pub fn new_for_randomness(deferred_from_round: Round) -> (r: DeferralKey)
        ensures
            r == (DeferralKey::Randomness { deferred_from_round }),
    {
        DeferralKey::Randomness { deferred_from_round }
    }

    pub fn new_for_consensus_round(future_round: Round, deferred_from_round: Round) -> (r:
        DeferralKey)
        ensures
            r == (DeferralKey::ConsensusRound { future_round, deferred_from_round }),
    {
        DeferralKey::ConsensusRound { future_round, deferred_from_round }
    }

    pub fn deferred_from_round(&self) -> (r: Round)
        ensures
            r == from_round(*self),
    {
        match self {
            DeferralKey::Randomness { deferred_from_round } => *deferred_from_round,
            DeferralKey::ConsensusRound { deferred_from_round, .. } => *deferred_from_round,
        }
    }

    /// Half-open range holding every congestion deferral due at or before `round`.
    pub fn range_for_up_to_consensus_round(round: Round) -> (r: (DeferralKey, DeferralKey))
        requires
            round < u64::MAX,
        ensures
            r.0 == (DeferralKey::ConsensusRound { future_round: 0, deferred_from_round: 0 }),
            r.1 == (DeferralKey::ConsensusRound { future_round: (round + 1) as u64, deferred_from_round: 0 }),
    {
        (
            DeferralKey::ConsensusRound { future_round: 0, deferred_from_round: 0 },
            DeferralKey::ConsensusRound { future_round: round + 1, deferred_from_round: 0 },
        )
    }

    /// Half-open range holding every randomness deferral.
    pub fn full_range_for_randomness() -> (r: (DeferralKey, DeferralKey))
        ensures
            r.0 == (DeferralKey::Randomness { deferred_from_round: 0 }),
            r.1 == (DeferralKey::Randomness { deferred_from_round: u64::MAX }),
    {
        (
            DeferralKey::Randomness { deferred_from_round: 0 },
            DeferralKey::Randomness { deferred_from_round: u64::MAX },
        )
    }

    /// `self` comes strictly before `other` in the key order.
    pub fn lt(&self, other: &DeferralKey) -> (r: bool)
        ensures
            r == (key_rank(*self) < key_rank(*other)),
    {
        match (self, other) {
            (DeferralKey::Randomness { .. }, DeferralKey::ConsensusRound { .. }) => true,
            (DeferralKey::ConsensusRound { .. }, DeferralKey::Randomness { .. }) => false,
            (
                DeferralKey::Randomness { deferred_from_round: a },
                DeferralKey::Randomness { deferred_from_round: b },
            ) => *a < *b,
            (
                DeferralKey::ConsensusRound { future_round: fa, deferred_from_round: da },
                DeferralKey::ConsensusRound { future_round: fb, deferred_from_round: db },
            ) => *fa < *fb || (*fa == *fb && *da < *db),
        }
    }
}

/// Whether a congestion deferral may go on, or has run past the limit of rounds.
pub fn transaction_deferral_within_limit(key: &DeferralKey, max_rounds: u64) -> (r: bool)
    ensures
        r == within_limit(*key, max_rounds),
{
    match key {
        DeferralKey::Randomness { .. } => true,
        DeferralKey::ConsensusRound { future_round, deferred_from_round } => {
            *future_round <= *deferred_from_round || *future_round - *deferred_from_round - 1
                <= max_rounds
        },
    }
}

} // verus!

verus! {

/// Transactions put off under one key.
#[derive(Clone, Debug)]
pub struct DeferredEntry {
    pub key: DeferralKey,
    pub transactions: Vec<ExecutableTransaction>,
}

pub open spec fn in_range(k: DeferralKey, min: DeferralKey, max: DeferralKey) -> bool {
    key_rank(min) <= key_rank(k) < key_rank(max)
}

/// Keys strictly increase along the sequence.
pub open spec fn sorted_entries(s: Seq<DeferredEntry>) -> bool {
    forall|i: int, j: int| 0 <= i < j < s.len() ==> key_rank(#[trigger] s[i].key) < key_rank(#[trigger] s[j].key)
}

/// The entries whose key falls in `[min, max)`, in order.
pub open spec fn entries_in_range(s: Seq<DeferredEntry>, min: DeferralKey, max: DeferralKey) -> Seq<
    DeferredEntry,
> {
    s.filter(|e: DeferredEntry| in_range(e.key, min, max))
}

/// The entries whose key falls outside `[min, max)`, in order.
pub open spec fn entries_outside_range(
    s: Seq<DeferredEntry>,
    min: DeferralKey,
    max: DeferralKey,
) -> Seq<DeferredEntry> {
    s.filter(|e: DeferredEntry| !in_range(e.key, min, max))
}

/// `p` is where `key` belongs: every entry before it has a smaller key, none after it.
pub open spec fn insert_position(s: Seq<DeferredEntry>, key: DeferralKey, p: int) -> bool {
    &&& 0 <= p <= s.len()
    &&& forall|j: int| 0 <= j < p ==> key_rank(#[trigger] s[j].key) < key_rank(key)
    &&& forall|j: int| p <= j < s.len() ==> key_rank(key) <= key_rank(#[trigger] s[j].key)
}

/// `after` is `before` with `added` appended to the transactions of entry `p`.
pub open spec fn merged_at(
    before: Seq<DeferredEntry>,
    after: Seq<DeferredEntry>,
    p: int,
    added: Seq<ExecutableTransaction>,
) -> bool {
    &&& after.len() == before.len()
    &&& after[p].key == before[p].key
    &&& after[p].transactions@ == before[p].transactions@ + added
    &&& forall|j: int| 0 <= j < before.len() && j != p ==> #[trigger] after[j] == before[j]
}

/// The transactions, each paired with the key they are held under.
pub open spec fn keyed(key: DeferralKey, txs: Seq<ExecutableTransaction>) -> Seq<(DeferralKey, TransactionDigest)> {
    Seq::new(txs.len(), |i: int| (key, txs[i].digest))
}

pub open spec fn entry_pairs(e: DeferredEntry) -> Seq<(DeferralKey, TransactionDigest)> {
    keyed(e.key, e.transactions@)
}

/// Every held transaction with its key, entry by entry.
pub open spec fn store_pairs(s: Seq<DeferredEntry>) -> Seq<(DeferralKey, TransactionDigest)>
    decreases s.len(),
{
    if s.len() == 0 {
        Seq::empty()
    } else {
        store_pairs(s.drop_last()) + entry_pairs(s.last())
    }
}

/// What the entries hold: each transaction's digest under its key, in any order.
pub open spec fn contents(s: Seq<DeferredEntry>) -> vstd::multiset::Multiset<(DeferralKey, TransactionDigest)> {
    store_pairs(s).to_multiset()
}

pub proof fn lemma_store_pairs_concat(a: Seq<DeferredEntry>, b: Seq<DeferredEntry>)
    ensures
        store_pairs(a + b) == store_pairs(a) + store_pairs(b),
    decreases b.len(),
{
    if b.len() == 0 {
        assert(a + b =~= a);
        assert(store_pairs(a) + store_pairs(b) =~= store_pairs(a));
    } else {
        assert((a + b).drop_last() =~= a + b.drop_last());
        assert((a + b).last() == b.last());
        lemma_store_pairs_concat(a, b.drop_last());
        assert(store_pairs(a + b) =~= store_pairs(a) + store_pairs(b));
    }
}

pub proof fn lemma_contents_concat(a: Seq<DeferredEntry>, b: Seq<DeferredEntry>)
    ensures
        contents(a + b) == contents(a).add(contents(b)),
{
    broadcast use vstd::seq_lib::lemma_multiset_commutative;
    lemma_store_pairs_concat(a, b);
}

pub proof fn lemma_contents_single(e: DeferredEntry)
    ensures
        contents(seq![e]) == entry_pairs(e).to_multiset(),
{
    assert(seq![e].drop_last() =~= Seq::<DeferredEntry>::empty());
    assert(seq![e].last() == e);
    assert(store_pairs(Seq::<DeferredEntry>::empty()) =~= Seq::empty());
    assert(store_pairs(seq![e]) == store_pairs(seq![e].drop_last()) + entry_pairs(seq![e].last()));
    assert(store_pairs(seq![e]) =~= entry_pairs(e));
}

proof fn lemma_contents_around(a: Seq<DeferredEntry>, e: DeferredEntry, b: Seq<DeferredEntry>)
    ensures
        contents(a + seq![e] + b) == contents(a).add(entry_pairs(e).to_multiset()).add(contents(b)),
{
    lemma_contents_concat(a + seq![e], b);
    lemma_contents_concat(a, seq![e]);
    lemma_contents_single(e);
}

/// The deferred-transaction queue of an epoch, ordered by key.
pub struct DeferredStore {
    entries: Vec<DeferredEntry>,
}

impl DeferredStore {
    pub closed spec fn view(&self) -> Seq<DeferredEntry> {
        self.entries@
    }

    pub open spec fn wf(&self) -> bool {
        sorted_entries(self@)
    }

    pub fn new() -> (r: DeferredStore)
        ensures
            r.wf(),
            r@ == Seq::<DeferredEntry>::empty(),
    {
        DeferredStore { entries: Vec::new() }
    }

    pub fn is_empty(&self) -> (r: bool)
        ensures
            r == (self@.len() == 0),
    {
        self.entries.len() == 0
    }

    pub fn len(&self) -> (r: usize)
        ensures
            r == self@.len(),
    {
        self.entries.len()
    }

    /// Adds transactions under `key`, after those already held under it.
    pub fn insert(&mut self, key: DeferralKey, transactions: Vec<ExecutableTransaction>)
        requires
            old(self).wf(),
        ensures
            final(self).wf(),
            exists|p: int|
                #![trigger insert_position(old(self)@, key, p)]
                insert_position(old(self)@, key, p) && if p < old(self)@.len() && old(self)@[p].key
                    == key {
                    merged_at(old(self)@, final(self)@, p, transactions@)
                } else {
                    final(self)@ == old(self)@.insert(p, DeferredEntry { key, transactions })
                },
            contents(final(self)@) == contents(old(self)@).add(keyed(key, transactions@).to_multiset()),
    {
        let n = self.entries.len();
        let mut p: usize = 0;
        while p < n && self.entries[p].key.lt(&key)
            invariant
                p <= n == self.entries@.len(),
                self.entries@ == old(self)@,
                self.wf(),
                forall|j: int| 0 <= j < p ==> key_rank(#[trigger] self@[j].key) < key_rank(key),
            decreases n - p,
        {
            p = p + 1;
        }
        proof {
            if p < n {
                assert(key_rank(key) <= key_rank(self@[p as int].key));
                assert forall|j: int| p <= j < n implies key_rank(key) <= key_rank(
                    #[trigger] self@[j].key,
                ) by {
                    if j > p {
                        assert(key_rank(self@[p as int].key) < key_rank(self@[j].key));
                    }
                }
            }
        }
        if p < n && self.entries[p].key == key {
            let ghost added = transactions@;
            let mut entry = self.entries.remove(p);
            let mut more = transactions;
            entry.transactions.append(&mut more);
            self.entries.insert(p, entry);
            proof {
                assert(self@ =~= old(self)@.update(p as int, entry));
                assert forall|i: int, j: int| 0 <= i < j < self@.len() implies key_rank(
                    #[trigger] self@[i].key,
                ) < key_rank(#[trigger] self@[j].key) by {
                    assert(old(self)@[i].key == self@[i].key);
                    assert(old(self)@[j].key == self@[j].key);
                }
                assert(merged_at(old(self)@, self@, p as int, added));
                assert(insert_position(old(self)@, key, p as int));
                let o = old(self)@;
                assert(o =~= o.take(p as int) + seq![o[p as int]] + o.skip(p + 1));
                assert(self@ =~= o.take(p as int) + seq![self@[p as int]] + o.skip(p + 1));
                lemma_contents_around(o.take(p as int), o[p as int], o.skip(p + 1));
                lemma_contents_around(o.take(p as int), self@[p as int], o.skip(p + 1));
                assert(entry_pairs(self@[p as int]) =~= entry_pairs(o[p as int]) + keyed(key, added));
                vstd::seq_lib::lemma_multiset_commutative(entry_pairs(o[p as int]), keyed(key, added));
                assert(contents(self@) =~= contents(o).add(keyed(key, added).to_multiset()));
            }
        } else {
            let ghost fresh = DeferredEntry { key, transactions };
            self.entries.insert(p, DeferredEntry { key, transactions });
            proof {
                assert forall|i: int, j: int| 0 <= i < j < self@.len() implies key_rank(
                    #[trigger] self@[i].key,
                ) < key_rank(#[trigger] self@[j].key) by {
                    if j == p {
                    } else if i == p {
                        assert(self@[j] == old(self)@[j - 1]);
                        assert(key_rank(key) <= key_rank(old(self)@[j - 1].key));
                        assert(key_rank(key) != key_rank(old(self)@[j - 1].key) || j - 1 > p);
                        if j - 1 > p {
                            assert(key_rank(old(self)@[p as int].key) < key_rank(
                                old(self)@[j - 1].key,
                            ));
                        } else {
                            assert(old(self)@[p as int].key != key);
                            if key_rank(key) == key_rank(old(self)@[p as int].key) {
                                lemma_rank_injective(key, old(self)@[p as int].key);
                            }
                        }
                    } else if i < p && j > p {
                        assert(self@[j] == old(self)@[j - 1]);
                    } else if j < p {
                    } else {
                        assert(self@[j] == old(self)@[j - 1]);
                        assert(self@[i] == old(self)@[i - 1]);
                    }
                }
                assert(self@ == old(self)@.insert(p as int, fresh));
                assert(insert_position(old(self)@, key, p as int));
                let o = old(self)@;
                assert(o =~= o.take(p as int) + o.skip(p as int));
                assert(self@ =~= o.take(p as int) + seq![fresh] + o.skip(p as int));
                lemma_contents_concat(o.take(p as int), o.skip(p as int));
                lemma_contents_around(o.take(p as int), fresh, o.skip(p as int));
                assert(contents(self@) =~= contents(o).add(keyed(key, fresh.transactions@).to_multiset()));
            }
        }
    }

    /// Removes and returns, in key order, every entry whose key is in `[min, max)`.
    pub fn load_range(&mut self, min: DeferralKey, max: DeferralKey) -> (r: Vec<DeferredEntry>)
        requires
            old(self).wf(),
        ensures
            final(self).wf(),
            r@ == entries_in_range(old(self)@, min, max),
            final(self)@ == entries_outside_range(old(self)@, min, max),
    {
        let ghost orig = self@;
        let mut entries: Vec<DeferredEntry> = Vec::new();
        std::mem::swap(&mut entries, &mut self.entries);
        let mut loaded: Vec<DeferredEntry> = Vec::new();
        let mut rest: Vec<DeferredEntry> = Vec::new();
        let ghost mut k: int = 0;
        while entries.len() > 0
            invariant
                0 <= k <= orig.len(),
                sorted_entries(orig),
                entries@ == orig.subrange(k, orig.len() as int),
                loaded@ == entries_in_range(orig.take(k), min, max),
                rest@ == entries_outside_range(orig.take(k), min, max),
                sorted_entries(rest@),
                forall|i: int, j: int|
                    0 <= i < rest@.len() && k <= j < orig.len() ==> key_rank(
                        #[trigger] rest@[i].key,
                    ) < key_rank(#[trigger] orig[j].key),
            decreases entries@.len(),
        {
            let e = entries.remove(0);
            proof {
                assert(e == orig[k]);
                assert(orig.take(k + 1).drop_last() =~= orig.take(k));
                assert(orig.take(k + 1).last() == e);
            }
            let inside = min.lt(&e.key) || min == e.key;
            let inside = inside && e.key.lt(&max);
            proof {
                if key_rank(min) == key_rank(e.key) {
                    lemma_rank_injective(min, e.key);
                }
                assert(inside == in_range(e.key, min, max));
                reveal_with_fuel(Seq::filter, 1);
                assert(entries_in_range(orig.take(k + 1), min, max) == if inside {
                    entries_in_range(orig.take(k), min, max).push(e)
                } else {
                    entries_in_range(orig.take(k), min, max)
                });
                assert(entries_outside_range(orig.take(k + 1), min, max) == if inside {
                    entries_outside_range(orig.take(k), min, max)
                } else {
                    entries_outside_range(orig.take(k), min, max).push(e)
                });
            }
            if inside {
                loaded.push(e);
            } else {
                rest.push(e);
            }
            proof {
                k = k + 1;
                assert(entries@ =~= orig.subrange(k, orig.len() as int));
            }
        }
        proof {
            assert(orig.take(k) =~= orig);
        }
        self.entries = rest;
        loaded
    }
}

/// Two keys of the same rank are the same key.
pub proof fn lemma_rank_injective(a: DeferralKey, b: DeferralKey)
    requires
        key_rank(a) == key_rank(b),
    ensures
        a == b,
{
    match (a, b) {
        (
            DeferralKey::Randomness { deferred_from_round: x },
            DeferralKey::Randomness { deferred_from_round: y },
        ) => {
            assert(x == y) by (nonlinear_arith)
                requires
                    x * pow64() == y * pow64(),
                    pow64() > 0,
            ;
        },
        (
            DeferralKey::ConsensusRound { future_round: f1, deferred_from_round: d1 },
            DeferralKey::ConsensusRound { future_round: f2, deferred_from_round: d2 },
        ) => {
            assert(f1 == f2 && d1 == d2) by (nonlinear_arith)
                requires
                    f1 * pow64() + d1 == f2 * pow64() + d2,
                    0 <= d1 < pow64(),
                    0 <= d2 < pow64(),
                    0 <= f1,
                    0 <= f2,
            ;
        },
        (DeferralKey::Randomness { deferred_from_round: x }, DeferralKey::ConsensusRound { future_round: f, deferred_from_round: d }) => {
            assert(x * pow64() < pow64() * pow64()) by (nonlinear_arith)
                requires
                    0 <= x < pow64(),
            ;
        },
        (DeferralKey::ConsensusRound { future_round: f, deferred_from_round: d }, DeferralKey::Randomness { deferred_from_round: x }) => {
            assert(x * pow64() < pow64() * pow64()) by (nonlinear_arith)
                requires
                    0 <= x < pow64(),
            ;
        },
    }
}

} // verus!

verus! {

impl DeferredStore {
    /// Hands out every entry, in key order.
    pub fn into_entries(self) -> (r: Vec<DeferredEntry>)
        ensures
            r@ == self@,
    {
        self.entries
    }
}

} // verus!
