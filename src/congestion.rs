use vstd::prelude::*;
use crate::deferral::DeferralKey;
use crate::table::{Table, map_of, value_or_zero};
use crate::types::{ObjectId, Round, SharedObjectRef};

verus! {

/// `a + b`, capped at the largest `u64`.
pub open spec fn sat_add(a: u64, b: u64) -> u64 {
    if a + b > u64::MAX {
        u64::MAX
    } else {
        (a + b) as u64
    }
}

/// The largest running cost among the given objects, zero for none.
pub open spec fn start_cost(m: Map<ObjectId, u64>, objs: Seq<SharedObjectRef>) -> u64
    decreases objs.len(),
{
    if objs.len() == 0 {
        0
    } else {
        let rest = start_cost(m, objs.drop_last());
        let here = value_or_zero(m, objs.last().id);
        if here > rest {
            here
        } else {
            rest
        }
    }
}

/// The objects, in the transaction's order, whose running cost would pass the budget.
pub open spec fn congested(m: Map<ObjectId, u64>, objs: Seq<SharedObjectRef>, cost: u64, budget: u64) -> Seq<ObjectId>
    decreases objs.len(),
{
    if objs.len() == 0 {
        Seq::empty()
    } else {
        let rest = congested(m, objs.drop_last(), cost, budget);
        if sat_add(value_or_zero(m, objs.last().id), cost) > budget {
            rest.push(objs.last().id)
        } else {
            rest
        }
    }
}

/// Every listed object's running cost raised by `cost` from what it was in `m`.
pub open spec fn add_cost(m: Map<ObjectId, u64>, objs: Seq<SharedObjectRef>, cost: u64) -> Map<ObjectId, u64>
    decreases objs.len(),
{
    if objs.len() == 0 {
        m
    } else {
        add_cost(m, objs.drop_last(), cost).insert(objs.last().id, sat_add(value_or_zero(m, objs.last().id), cost))
    }
}

/// The debt carried into the next commit: what each object ran over the budget.
pub open spec fn debts_after(m: Map<ObjectId, u64>, budget: u64) -> Map<ObjectId, u64> {
    Map::new(|k: ObjectId| m.dom().contains(k) && m[k] > budget, |k: ObjectId| (m[k] - budget) as u64)
}

/// The key of a congestion deferral: due next round, counted from the round it first started.
pub open spec fn congestion_key(previous: Option<DeferralKey>, round: Round) -> DeferralKey {
    DeferralKey::ConsensusRound {
        future_round: (round + 1) as u64,
        deferred_from_round: match previous {
            Some(k) => crate::deferral::from_round(k),
            None => round,
        },
    }
}

/// The outcome of the congestion check for one transaction.
pub open spec fn congestion_decision(
    m: Map<ObjectId, u64>,
    budget: u64,
    tx_cost: Option<u64>,
    objs: Seq<SharedObjectRef>,
    previous: Option<DeferralKey>,
    round: Round,
) -> Option<(DeferralKey, Seq<ObjectId>)> {
    match tx_cost {
        None => None,
        Some(c) => if objs.len() == 0 || sat_add(start_cost(m, objs), c) <= budget {
            None
        } else {
            Some((congestion_key(previous, round), congested(m, objs, c, budget)))
        },
    }
}

/// Running per-object cost of one commit, for one kind of transaction.
pub struct SharedObjectCongestionTracker {
    costs: Table<ObjectId>,
    budget: u64,
}

impl SharedObjectCongestionTracker {
    pub closed spec fn costs(&self) -> Map<ObjectId, u64> {
        self.costs@
    }

    pub closed spec fn budget(&self) -> u64 {
        self.budget
    }

    pub closed spec fn wf(&self) -> bool {
        self.costs.wf()
    }

    /// A tracker whose objects start at the debts carried from the previous commit.
    pub fn new(initial_debts: &Vec<(ObjectId, u64)>, budget: u64) -> (r: SharedObjectCongestionTracker)
        ensures
            r.wf(),
            r.costs() == map_of(initial_debts@),
            r.budget() == budget,
    {
        let mut costs: Table<ObjectId> = Table::new();
        let mut i: usize = 0;
        while i < initial_debts.len()
            invariant
                i <= initial_debts@.len(),
                costs.wf(),
                costs@ == map_of(initial_debts@.take(i as int)),
            decreases initial_debts@.len() - i,
        {
            let (id, debt) = initial_debts[i];
            costs.set(id, debt);
            proof {
                assert(initial_debts@.take(i + 1).drop_last() == initial_debts@.take(i as int));
            }
            i = i + 1;
        }
        proof {
            assert(initial_debts@.take(i as int) == initial_debts@);
        }
        SharedObjectCongestionTracker { costs, budget }
    }

    pub fn get_budget(&self) -> (r: u64)
        ensures
            r == self.budget(),
    {
        self.budget
    }

    /// The running cost of one object.
    pub fn object_cost(&self, id: ObjectId) -> (r: u64)
        requires
            self.wf(),
        ensures
            r == value_or_zero(self.costs(), id),
    {
        self.costs.get_or_zero(&id)
    }

    /// The cost at which a transaction over these objects would start.
    pub fn compute_tx_start_at_cost(&self, objs: &Vec<SharedObjectRef>) -> (r: u64)
        requires
            self.wf(),
        ensures
            r == start_cost(self.costs(), objs@),
    {
        let mut best: u64 = 0;
        let mut i: usize = 0;
        while i < objs.len()
            invariant
                self.wf(),
                i <= objs@.len(),
                best == start_cost(self.costs(), objs@.take(i as int)),
            decreases objs@.len() - i,
        {
            let here = self.object_cost(objs[i].id);
            proof {
                assert(objs@.take(i + 1).drop_last() == objs@.take(i as int));
            }
            if here > best {
                best = here;
            }
            i = i + 1;
        }
        proof {
            assert(objs@.take(i as int) == objs@);
        }
        best
    }

    /// Whether a transaction must wait because one of its objects would pass the
    /// budget, and if so, under which key and because of which objects.
    pub fn should_defer_due_to_object_congestion(
        &self,
        tx_cost: Option<u64>,
        objs: &Vec<SharedObjectRef>,
        previous: Option<DeferralKey>,
        round: Round,
    ) -> (r: Option<(DeferralKey, Vec<ObjectId>)>)
        requires
            self.wf(),
            round < u64::MAX,
        ensures
            match (r, congestion_decision(self.costs(), self.budget(), tx_cost, objs@, previous, round)) {
                (None, None) => true,
                (Some((k, ids)), Some((k2, ids2))) => k == k2 && ids@ == ids2,
                _ => false,
            },
    {
        let cost = match tx_cost {
            None => {
                return None;
            },
            Some(c) => c,
        };
        if objs.len() == 0 {
            return None;
        }
        let start = self.compute_tx_start_at_cost(objs);
        if start.saturating_add(cost) <= self.budget {
            return None;
        }
        let mut ids: Vec<ObjectId> = Vec::new();
        let mut i: usize = 0;
        while i < objs.len()
            invariant
                self.wf(),
                i <= objs@.len(),
                ids@ == congested(self.costs(), objs@.take(i as int), cost, self.budget),
            decreases objs@.len() - i,
        {
            let id = objs[i].id;
            let here = self.object_cost(id);
            proof {
                assert(objs@.take(i + 1).drop_last() == objs@.take(i as int));
            }
            if here.saturating_add(cost) > self.budget {
                ids.push(id);
            }
            i = i + 1;
        }
        proof {
            assert(objs@.take(i as int) == objs@);
        }
        let from = match previous {
            Some(k) => k.deferred_from_round(),
            None => round,
        };
        Some((DeferralKey::ConsensusRound { future_round: round + 1, deferred_from_round: from }, ids))
    }

    /// Records that a transaction over these objects was scheduled: its cost is
    /// added to the running total of each object it touches (once per object).
    pub fn bump_object_execution_cost(&mut self, tx_cost: Option<u64>, objs: &Vec<SharedObjectRef>)
        requires
            old(self).wf(),
        ensures
            final(self).wf(),
            final(self).budget() == old(self).budget(),
            final(self).costs() == match tx_cost {
                None => old(self).costs(),
                Some(c) => add_cost(old(self).costs(), objs@, c),
            },
    {
        let cost = match tx_cost {
            None => {
                return;
            },
            Some(c) => c,
        };
        let ghost before = self.costs();
        let mut totals: Vec<u64> = Vec::new();
        let mut i: usize = 0;
        while i < objs.len()
            invariant
                self.wf(),
                self.costs() == before,
                i <= objs@.len(),
                totals@.len() == i,
                forall|j: int| 0 <= j < i ==> #[trigger] totals@[j] == sat_add(value_or_zero(before, objs@[j].id), cost),
            decreases objs@.len() - i,
        {
            let t = self.object_cost(objs[i].id).saturating_add(cost);
            totals.push(t);
            i = i + 1;
        }
        let mut k: usize = 0;
        while k < objs.len()
            invariant
                self.wf(),
                self.budget() == old(self).budget(),
                before == old(self).costs(),
                k <= objs@.len(),
                totals@.len() == objs@.len(),
                forall|j: int| 0 <= j < objs@.len() ==> #[trigger] totals@[j] == sat_add(value_or_zero(before, objs@[j].id), cost),
                self.costs() == add_cost(before, objs@.take(k as int), cost),
            decreases objs@.len() - k,
        {
            self.costs.set(objs[k].id, totals[k]);
            proof {
                assert(objs@.take(k + 1).drop_last() == objs@.take(k as int));
                assert(objs@.take(k + 1).last() == objs@[k as int]);
            }
            k = k + 1;
        }
        proof {
            assert(objs@.take(k as int) == objs@);
        }
    }

    /// The largest running cost of any object.
    pub fn max_cost(&self) -> (r: u64)
        requires
            self.wf(),
        ensures
            forall|k: ObjectId| self.costs().dom().contains(k) ==> self.costs()[k] <= r,
            r == 0 || exists|k: ObjectId| self.costs().dom().contains(k) && self.costs()[k] == r,
    {
        let mut best: u64 = 0;
        let mut i: usize = 0;
        let n = self.costs.len();
        while i < n
            invariant
                self.wf(),
                i <= n == self.costs.entries().len(),
                forall|j: int| 0 <= j < i ==> (#[trigger] self.costs.entries()[j]).1 <= best,
                best == 0 || exists|j: int| 0 <= j < i && (#[trigger] self.costs.entries()[j]).1 == best,
            decreases n - i,
        {
            let (_, c) = self.costs.entry_at(i);
            if c > best {
                best = c;
            }
            i = i + 1;
        }
        proof {
            assert forall|k: ObjectId| self.costs().dom().contains(k) implies self.costs()[k] <= best by {
                crate::table::lemma_map_of_dom(self.costs.entries(), k);
                let j = choose|j: int| 0 <= j < n && (#[trigger] self.costs.entries()[j]).0 == k;
                crate::table::lemma_map_of_at(self.costs.entries(), j);
            }
            if best != 0 {
                let j = choose|j: int| 0 <= j < n && (#[trigger] self.costs.entries()[j]).1 == best;
                crate::table::lemma_map_of_at(self.costs.entries(), j);
                assert(self.costs().dom().contains(self.costs.entries()[j].0));
            }
        }
        best
    }

    /// The debts to carry into the next commit: for each object, what its running
    /// cost exceeds the budget by; objects within budget carry none.
    pub fn accumulated_debts(&self) -> (r: Vec<(ObjectId, u64)>)
        requires
            self.wf(),
        ensures
            map_of(r@) == debts_after(self.costs(), self.budget()),
    {
        let mut out: Vec<(ObjectId, u64)> = Vec::new();
        let n = self.costs.len();
        let mut i: usize = 0;
        let ghost es = self.costs.entries();
        while i < n
            invariant
                self.wf(),
                es == self.costs.entries(),
                i <= n == es.len(),
                map_of(out@) == debts_after(map_of(es.take(i as int)), self.budget),
                forall|j: int| i <= j < n ==> !map_of(es.take(i as int)).dom().contains(#[trigger] es[j].0),
            decreases n - i,
        {
            let (id, c) = self.costs.entry_at(i);
            let ghost prev = map_of(es.take(i as int));
            proof {
                assert(es.take(i + 1).drop_last() == es.take(i as int));
                assert(es.take(i + 1).last() == (id, c));
                assert(!prev.dom().contains(es[i as int].0));
            }
            if c > self.budget {
                let ghost before = out@;
                out.push((id, c - self.budget));
                proof {
                    assert(out@.drop_last() == before);
                    assert(map_of(out@) =~= debts_after(map_of(es.take(i + 1)), self.budget));
                }
            } else {
                proof {
                    assert(map_of(out@) =~= debts_after(map_of(es.take(i + 1)), self.budget));
                }
            }
            proof {
                assert forall|j: int| i + 1 <= j < n implies !map_of(es.take(i + 1)).dom().contains(#[trigger] es[j].0) by {
                    assert(es[i as int].0 != es[j].0);
                }
            }
            i = i + 1;
        }
        proof {
            assert(es.take(i as int) == es);
        }
        out
    }
}

/// What an object carries out of a commit is exactly what its committed cost
/// ran over the budget (zero if it stayed within), and a tracker seeded with the
/// emitted debts starts that object at exactly that cost.
pub proof fn lemma_debt_conservation(
    costs: Map<ObjectId, u64>,
    budget: u64,
    emitted: Seq<(ObjectId, u64)>,
    id: ObjectId,
)
    requires
        map_of(emitted) == debts_after(costs, budget),
    ensures
        value_or_zero(map_of(emitted), id) == if value_or_zero(costs, id) > budget {
            value_or_zero(costs, id) - budget
        } else {
            0
        },
{
}

} // verus!
