use vstd::prelude::*;
use crate::reconfig::{ReconfigState, stage, advance_to};
use crate::types::AuthorityIndex;

verus! {

/// Sum of all weights.
pub open spec fn total_weight(w: Seq<u64>) -> int
    decreases w.len(),
{
    if w.len() == 0 {
        0
    } else {
        total_weight(w.drop_last()) + w.last()
    }
}

/// Sum of the weights of the authorities marked seen.
pub open spec fn seen_weight(w: Seq<u64>, seen: Seq<bool>) -> int
    decreases w.len(),
{
    if w.len() == 0 {
        0
    } else {
        seen_weight(w.drop_last(), seen) + if w.len() - 1 < seen.len() && seen[w.len() - 1] {
            w.last() as int
        } else {
            0
        }
    }
}

/// The stake that makes a quorum: more than two thirds of the total.
pub open spec fn quorum_of(total: int) -> int {
    total * 2 / 3 + 1
}

proof fn lemma_seen_weight_bound(w: Seq<u64>, seen: Seq<bool>)
    ensures
        0 <= seen_weight(w, seen) <= total_weight(w),
    decreases w.len(),
{
    if w.len() > 0 {
        lemma_seen_weight_bound(w.drop_last(), seen);
    }
}

proof fn lemma_seen_weight_prefix_same(w: Seq<u64>, s1: Seq<bool>, s2: Seq<bool>)
    requires
        forall|i: int| 0 <= i < w.len() ==> (i < s1.len() && s1[i]) == (i < s2.len() && s2[i]),
    ensures
        seen_weight(w, s1) == seen_weight(w, s2),
    decreases w.len(),
{
    if w.len() > 0 {
        lemma_seen_weight_prefix_same(w.drop_last(), s1, s2);
    }
}

proof fn lemma_seen_weight_mark_prefix(w: Seq<u64>, seen: Seq<bool>, a: int)
    requires
        0 <= a < seen.len(),
        a < w.len(),
        !seen[a],
    ensures
        seen_weight(w, seen.update(a, true)) == seen_weight(w, seen) + w[a],
    decreases w.len(),
{
    if w.len() - 1 == a {
        lemma_seen_weight_prefix_same(w.drop_last(), seen, seen.update(a, true));
    } else {
        assert(w.drop_last()[a] == w[a]);
        lemma_seen_weight_mark_prefix(w.drop_last(), seen, a);
    }
}

/// The committee's voting weights, and the stake of the authorities that have
/// announced the end of their publishing for the epoch.
pub struct EndOfPublishAggregator {
    weights: Vec<u64>,
    seen: Vec<bool>,
    stake: u64,
    threshold: u64,
}

impl EndOfPublishAggregator {
    pub closed spec fn weights(&self) -> Seq<u64> {
        self.weights@
    }

    pub closed spec fn seen(&self) -> Seq<bool> {
        self.seen@
    }

    pub closed spec fn threshold(&self) -> u64 {
        self.threshold
    }

    /// The stake of the authorities seen so far.
    pub open spec fn stake(&self) -> int {
        seen_weight(self.weights(), self.seen())
    }

    pub closed spec fn wf(&self) -> bool {
        &&& self.seen@.len() == self.weights@.len()
        &&& self.stake == seen_weight(self.weights@, self.seen@)
        &&& total_weight(self.weights@) <= u64::MAX
        &&& self.threshold == quorum_of(total_weight(self.weights@))
    }

    /// An aggregator over a committee with these voting weights, one per authority.
    pub fn new(weights: Vec<u64>) -> (r: EndOfPublishAggregator)
        requires
            total_weight(weights@) <= u64::MAX,
        ensures
            r.wf(),
            r.weights() == weights@,
            r.seen() == Seq::new(weights@.len(), |i: int| false),
            r.stake() == 0,
            r.threshold() == quorum_of(total_weight(weights@)),
    {
        let mut total: u64 = 0;
        let mut seen: Vec<bool> = Vec::new();
        let mut i: usize = 0;
        while i < weights.len()
            invariant
                i <= weights@.len(),
                total == total_weight(weights@.take(i as int)),
                total_weight(weights@) <= u64::MAX,
                seen@ == Seq::new(i as nat, |j: int| false),
            decreases weights@.len() - i,
        {
            proof {
                assert(weights@.take(i + 1).drop_last() == weights@.take(i as int));
                lemma_total_prefix(weights@, i + 1);
            }
            total = total + weights[i];
            seen.push(false);
            i = i + 1;
            proof {
                assert(seen@ =~= Seq::new(i as nat, |j: int| false));
            }
        }
        proof {
            assert(weights@.take(i as int) == weights@);
            lemma_seen_weight_none(weights@, seen@);
        }
        let threshold = total / 3 * 2 + (total % 3) * 2 / 3 + 1;
        proof {
            assert(threshold == total * 2 / 3 + 1) by (nonlinear_arith)
                requires
                    threshold == total / 3 * 2 + (total % 3) * 2 / 3 + 1,
            ;
        }
        EndOfPublishAggregator { weights, seen, stake: 0, threshold }
    }

    /// Records an authority's end-of-publish notice; says whether the stake seen
    /// so far reaches a quorum. An index outside the committee is not counted.
    pub fn insert(&mut self, authority: AuthorityIndex) -> (r: bool)
        requires
            old(self).wf(),
        ensures
            final(self).wf(),
            final(self).weights() == old(self).weights(),
            final(self).threshold() == old(self).threshold(),
            final(self).seen() == if authority < old(self).seen().len() {
                old(self).seen().update(authority as int, true)
            } else {
                old(self).seen()
            },
            r == (final(self).stake() >= final(self).threshold()),
    {
        if authority < self.seen.len() as u64 {
            let a = authority as usize;
            if !self.seen[a] {
                proof {
                    lemma_seen_weight_mark_prefix(self.weights@, self.seen@, a as int);
                    lemma_seen_weight_bound(self.weights@, self.seen@.update(a as int, true));
                }
                self.stake = self.stake + self.weights[a];
                self.seen.set(a, true);
            } else {
                proof {
                    assert(self.seen@.update(a as int, true) =~= self.seen@);
                }
            }
        }
        self.stake >= self.threshold
    }

    /// Whether the authority's notice was already recorded.
    pub fn has_sent_end_of_publish(&self, authority: AuthorityIndex) -> (r: bool)
        requires
            self.wf(),
        ensures
            r == (authority < self.seen().len() && self.seen()[authority as int]),
    {
        authority < self.seen.len() as u64 && self.seen[authority as usize]
    }

    pub fn is_quorum_reached(&self) -> (r: bool)
        requires
            self.wf(),
        ensures
            r == (self.stake() >= self.threshold()),
    {
        self.stake >= self.threshold
    }
}

proof fn lemma_total_prefix(w: Seq<u64>, n: int)
    requires
        0 <= n <= w.len(),
    ensures
        total_weight(w.take(n)) <= total_weight(w),
    decreases w.len(),
{
    if n < w.len() {
        assert(w.drop_last().take(n) == w.take(n));
        lemma_total_prefix(w.drop_last(), n);
    } else {
        assert(w.take(n) == w);
    }
}

proof fn lemma_seen_weight_none(w: Seq<u64>, seen: Seq<bool>)
    requires
        forall|i: int| 0 <= i < seen.len() ==> !seen[i],
    ensures
        seen_weight(w, seen) == 0,
    decreases w.len(),
{
    if w.len() > 0 {
        lemma_seen_weight_none(w.drop_last(), seen);
    }
}

/// The reconfiguration state and seen set after a commit's end-of-publish
/// notices: each is counted while certificates are still accepted, and the
/// state moves to rejecting all certificates when their stake reaches a quorum.
pub open spec fn end_of_publish_run(
    w: Seq<u64>,
    threshold: u64,
    state: ReconfigState,
    seen: Seq<bool>,
    auths: Seq<AuthorityIndex>,
) -> (ReconfigState, Seq<bool>)
    decreases auths.len(),
{
    if auths.len() == 0 {
        (state, seen)
    } else {
        let (st, sn) = end_of_publish_run(w, threshold, state, seen, auths.drop_last());
        let a = auths.last();
        if stage(st) <= 1 {
            let sn2 = if a < sn.len() {
                sn.update(a as int, true)
            } else {
                sn
            };
            if seen_weight(w, sn2) >= threshold {
                (advance_to(st, 2), sn2)
            } else {
                (st, sn2)
            }
        } else {
            (st, sn)
        }
    }
}

/// This commit ends the epoch: certificates are closed and no deferred
/// transaction remains, from this commit or any earlier one.
pub open spec fn is_final_round(after_notices: ReconfigState, store_empty: bool, commit_has_deferred: bool) -> bool {
    stage(after_notices) == 2 && store_empty && !commit_has_deferred
}

/// Counts a commit's end-of-publish notices and advances the reconfiguration
/// state; returns whether the state changed (its snapshot must be stored) and
/// whether this is the epoch's final round.
pub fn process_end_of_publish_transactions_and_reconfig(
    reconfig: &mut ReconfigState,
    aggregator: &mut EndOfPublishAggregator,
    authorities: &Vec<AuthorityIndex>,
    deferred_store_empty: bool,
    commit_has_deferred: bool,
) -> (r: (bool, bool))
    requires
        old(aggregator).wf(),
    ensures
        final(aggregator).wf(),
        final(aggregator).weights() == old(aggregator).weights(),
        final(aggregator).threshold() == old(aggregator).threshold(),
        ({
            let (st, sn) = end_of_publish_run(old(aggregator).weights(), old(aggregator).threshold(), *old(reconfig), old(aggregator).seen(), authorities@);
            &&& final(aggregator).seen() == sn
            &&& r.1 == is_final_round(st, deferred_store_empty, commit_has_deferred)
            &&& *final(reconfig) == if r.1 { advance_to(st, 3) } else { st }
            &&& r.0 == (*final(reconfig) != *old(reconfig))
        }),
{
    let initial = *reconfig;
    let ghost st0 = *reconfig;
    let mut i: usize = 0;
    while i < authorities.len()
        invariant
            aggregator.wf(),
            aggregator.weights() == old(aggregator).weights(),
            aggregator.threshold() == old(aggregator).threshold(),
            i <= authorities@.len(),
            (*reconfig, aggregator.seen()) == end_of_publish_run(old(aggregator).weights(), old(aggregator).threshold(), st0, old(aggregator).seen(), authorities@.take(i as int)),
        decreases authorities@.len() - i,
    {
        proof {
            assert(authorities@.take(i + 1).drop_last() == authorities@.take(i as int));
        }
        let a = authorities[i];
        if reconfig.should_accept_consensus_certs() {
            let collected = aggregator.insert(a);
            if collected {
                reconfig.close_all_certs();
            }
        }
        i = i + 1;
    }
    proof {
        assert(authorities@.take(i as int) == authorities@);
    }
    if !reconfig.is_reject_all_certs() || !deferred_store_empty || commit_has_deferred {
        return (*reconfig != initial, false);
    }
    reconfig.close_all_tx();
    (*reconfig != initial, true)
}

} // verus!

verus! {

pub proof fn lemma_run_forward(w: Seq<u64>, threshold: u64, state: ReconfigState, seen: Seq<bool>, auths: Seq<AuthorityIndex>)
    ensures
        stage(end_of_publish_run(w, threshold, state, seen, auths).0) >= stage(state),
        stage(state) <= 2 ==> stage(end_of_publish_run(w, threshold, state, seen, auths).0) <= 2,
    decreases auths.len(),
{
    if auths.len() > 0 {
        lemma_run_forward(w, threshold, state, seen, auths.drop_last());
    }
}

/// Over one commit the reconfiguration state only moves forward, and it reaches
/// the terminal state only in a commit where no deferred transaction remains,
/// neither from earlier commits nor from this one.
pub proof fn lemma_reconfig_monotonic(
    w: Seq<u64>,
    threshold: u64,
    state: ReconfigState,
    seen: Seq<bool>,
    auths: Seq<AuthorityIndex>,
    deferred_store_empty: bool,
    commit_has_deferred: bool,
)
    ensures
        ({
            let st = end_of_publish_run(w, threshold, state, seen, auths).0;
            let fin = if is_final_round(st, deferred_store_empty, commit_has_deferred) {
                advance_to(st, 3)
            } else {
                st
            };
            &&& stage(fin) >= stage(state)
            &&& (stage(fin) == 3 && stage(state) < 3) ==> (deferred_store_empty && !commit_has_deferred)
        }),
{
    lemma_run_forward(w, threshold, state, seen, auths);
}

} // verus!
