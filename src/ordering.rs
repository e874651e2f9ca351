use vstd::prelude::*;
use crate::messages::ConsensusTransactionKind;
use crate::work::WorkItem;

verus! {

/// How the work of a commit is ordered before it is decided.
#[derive(Clone, Copy, Debug, PartialEq, Eq, Structural)]
pub enum ConsensusTransactionOrdering {
    /// Keep the order: deferred work first, then consensus order.
    Unchanged,
    /// Highest gas price first; other messages before all user transactions;
    /// equal prices keep their order.
    ByGasPrice,
}

pub open spec fn item_gas_price(w: WorkItem) -> u64 {
    match w {
        WorkItem::Message(m) => match m.kind {
            ConsensusTransactionKind::CertifiedTransaction(tx) => tx.gas_price,
            ConsensusTransactionKind::UserTransaction(tx) => tx.gas_price,
            _ => u64::MAX,
        },
        WorkItem::Deferred(tx, _) => tx.gas_price,
    }
}

pub open spec fn sorted_by_gas_price(s: Seq<WorkItem>) -> bool {
    forall|i: int, j: int| 0 <= i < j < s.len() ==> item_gas_price(#[trigger] s[i]) >= item_gas_price(#[trigger] s[j])
}

/// The gas price an item is ordered by.
fn gas_price_of(w: &WorkItem) -> (r: u64)
    ensures
        r == item_gas_price(*w),
{
    match w {
        WorkItem::Message(m) => match &m.kind {
            ConsensusTransactionKind::CertifiedTransaction(tx) => tx.gas_price,
            ConsensusTransactionKind::UserTransaction(tx) => tx.gas_price,
            _ => u64::MAX,
        },
        WorkItem::Deferred(tx, _) => tx.gas_price,
    }
}

/// Where an item goes in a list sorted by gas price: after every leading item
/// whose price is at least its own, so that equal prices keep their order.
pub open spec fn insert_position(t: Seq<WorkItem>, x: WorkItem) -> int
    decreases t.len(),
{
    if t.len() == 0 {
        0
    } else if item_gas_price(t[0]) >= item_gas_price(x) {
        1 + insert_position(t.subrange(1, t.len() as int), x)
    } else {
        0
    }
}

/// The items sorted by gas price, highest first, equal prices in their order.
pub open spec fn sorted_work(s: Seq<WorkItem>) -> Seq<WorkItem>
    decreases s.len(),
{
    if s.len() == 0 {
        s
    } else {
        let t = sorted_work(s.drop_last());
        t.insert(insert_position(t, s.last()), s.last())
    }
}

pub open spec fn reordered(s: Seq<WorkItem>, ordering: ConsensusTransactionOrdering) -> Seq<WorkItem> {
    match ordering {
        ConsensusTransactionOrdering::Unchanged => s,
        ConsensusTransactionOrdering::ByGasPrice => sorted_work(s),
    }
}

proof fn lemma_insert_position(t: Seq<WorkItem>, x: WorkItem, p: int)
    requires
        0 <= p <= t.len(),
        forall|q: int| 0 <= q < p ==> item_gas_price(#[trigger] t[q]) >= item_gas_price(x),
        p < t.len() ==> item_gas_price(t[p]) < item_gas_price(x),
    ensures
        insert_position(t, x) == p,
    decreases t.len(),
{
    if t.len() > 0 && p > 0 {
        let u = t.subrange(1, t.len() as int);
        assert forall|q: int| 0 <= q < p - 1 implies item_gas_price(#[trigger] u[q]) >= item_gas_price(x) by {
            assert(u[q] == t[q + 1]);
        }
        if p < t.len() {
            assert(u[p - 1] == t[p]);
        }
        lemma_insert_position(u, x, p - 1);
    }
}

/// Orders a commit's work by the configured policy: unchanged, or by gas price
/// (highest first, equal prices keeping their order).
pub fn reorder(items: Vec<WorkItem>, ordering: ConsensusTransactionOrdering) -> (r: Vec<WorkItem>)
    ensures
        r@ == reordered(items@, ordering),
        r@.to_multiset() == items@.to_multiset(),
        ordering == ConsensusTransactionOrdering::ByGasPrice ==> sorted_by_gas_price(r@),
{
    if ordering == ConsensusTransactionOrdering::Unchanged {
        return items;
    }
    let ghost all = items@;
    let mut rest = items;
    let mut out: Vec<WorkItem> = Vec::new();
    let ghost mut k: int = 0;
    proof {
        broadcast use vstd::seq_lib::group_to_multiset_ensures;
        assert(out@.to_multiset().add(rest@.to_multiset()) =~= all.to_multiset());
        assert(all.take(0) =~= Seq::<WorkItem>::empty());
    }
    while rest.len() > 0
        invariant
            0 <= k <= all.len(),
            rest@ == all.subrange(k, all.len() as int),
            out@ == sorted_work(all.take(k)),
            out@.to_multiset().add(rest@.to_multiset()) == all.to_multiset(),
            sorted_by_gas_price(out@),
        decreases rest@.len(),
    {
        let ghost before_rest = rest@;
        let ghost before_out = out@;
        let x = rest.remove(0);
        let px = gas_price_of(&x);
        let mut p: usize = 0;
        while p < out.len() && gas_price_of(&out[p]) >= px
            invariant
                p <= out@.len(),
                out@ == before_out,
                forall|q: int| 0 <= q < p ==> item_gas_price(#[trigger] out@[q]) >= px,
            decreases out@.len() - p,
        {
            p = p + 1;
        }
        proof {
            lemma_insert_position(before_out, x, p as int);
            assert(x == all[k]);
            assert(all.take(k + 1).drop_last() =~= all.take(k));
            assert(all.take(k + 1).last() == x);
        }
        out.insert(p, x);
        proof {
            broadcast use vstd::seq_lib::group_to_multiset_ensures;
            k = k + 1;
            assert(rest@ =~= all.subrange(k, all.len() as int));
            assert(before_rest == rest@.insert(0, x));
            assert(before_rest.to_multiset() =~= rest@.to_multiset().insert(x));
            assert(out@.to_multiset() =~= before_out.to_multiset().insert(x));
            assert(out@.to_multiset().add(rest@.to_multiset()) =~= all.to_multiset());
            assert forall|i: int, j: int| 0 <= i < j < out@.len() implies item_gas_price(#[trigger] out@[i]) >= item_gas_price(#[trigger] out@[j]) by {
                if j == p {
                    assert(out@[i] == before_out[i]);
                } else if i == p {
                    assert(out@[j] == before_out[j - 1]);
                    if j - 1 > p {
                        assert(item_gas_price(before_out[p as int]) >= item_gas_price(before_out[j - 1]));
                    }
                } else if j < p {
                    assert(out@[i] == before_out[i]);
                    assert(out@[j] == before_out[j]);
                } else if i < p {
                    assert(out@[i] == before_out[i]);
                    assert(out@[j] == before_out[j - 1]);
                } else {
                    assert(out@[i] == before_out[i - 1]);
                    assert(out@[j] == before_out[j - 1]);
                }
            }
        }
    }
    proof {
        broadcast use vstd::seq_lib::group_to_multiset_ensures;
        assert(all.take(k) =~= all);
        assert(rest@.to_multiset() =~= vstd::multiset::Multiset::empty());
        assert(out@.to_multiset() =~= all.to_multiset());
    }
    out
}

} // verus!
