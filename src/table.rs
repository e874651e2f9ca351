use vstd::prelude::*;

verus! {

/// A key that can be compared for equality in executable code.
pub trait TableKey: Copy + Sized {
    fn same(&self, other: &Self) -> (r: bool)
        ensures
            r == (*self == *other),
    ;
}

/// The map that a list of entries stands for; a later entry wins.
pub open spec fn map_of<K, V>(s: Seq<(K, V)>) -> Map<K, V>
    decreases s.len(),
{
    if s.len() == 0 {
        Map::empty()
    } else {
        map_of(s.drop_last()).insert(s.last().0, s.last().1)
    }
}

/// No key occurs twice.
pub open spec fn unique_keys<K, V>(s: Seq<(K, V)>) -> bool {
    forall|i: int, j: int| 0 <= i < j < s.len() ==> (#[trigger] s[i]).0 != (#[trigger] s[j]).0
}

/// The value held under `k`, zero where none is.
pub open spec fn value_or_zero<K>(m: Map<K, u64>, k: K) -> u64 {
    if m.dom().contains(k) {
        m[k]
    } else {
        0
    }
}

pub proof fn lemma_map_of_dom<K, V>(s: Seq<(K, V)>, k: K)
    ensures
        map_of(s).dom().contains(k) <==> exists|i: int| 0 <= i < s.len() && (#[trigger] s[i]).0 == k,
    decreases s.len(),
{
    if s.len() > 0 {
        lemma_map_of_dom(s.drop_last(), k);
        if map_of(s).dom().contains(k) && s.last().0 != k {
            let i = choose|i: int| 0 <= i < s.drop_last().len() && (#[trigger] s.drop_last()[i]).0 == k;
            assert(s[i].0 == k);
        }
        if exists|i: int| 0 <= i < s.len() && (#[trigger] s[i]).0 == k {
            let i = choose|i: int| 0 <= i < s.len() && (#[trigger] s[i]).0 == k;
            if i < s.len() - 1 {
                assert(s.drop_last()[i].0 == k);
            }
        }
    }
}

pub proof fn lemma_map_of_at<K, V>(s: Seq<(K, V)>, i: int)
    requires
        unique_keys(s),
        0 <= i < s.len(),
    ensures
        map_of(s).dom().contains(s[i].0),
        map_of(s)[s[i].0] == s[i].1,
    decreases s.len(),
{
    if i < s.len() - 1 {
        assert(s.drop_last()[i] == s[i]);
        lemma_map_of_at(s.drop_last(), i);
        assert(s[s.len() - 1].0 != s[i].0);
    }
}

pub proof fn lemma_map_of_update<K, V>(s: Seq<(K, V)>, i: int, v: V)
    requires
        unique_keys(s),
        0 <= i < s.len(),
    ensures
        map_of(s.update(i, (s[i].0, v))) == map_of(s).insert(s[i].0, v),
        unique_keys(s.update(i, (s[i].0, v))),
    decreases s.len(),
{
    let t = s.update(i, (s[i].0, v));
    assert(t.drop_last() == if i == s.len() - 1 {
        s.drop_last()
    } else {
        s.drop_last().update(i, (s[i].0, v))
    });
    if i < s.len() - 1 {
        assert(s.drop_last()[i] == s[i]);
        lemma_map_of_update(s.drop_last(), i, v);
        assert(s[s.len() - 1].0 != s[i].0);
    }
    assert(map_of(t) =~= map_of(s).insert(s[i].0, v));
    assert forall|a: int, b: int| 0 <= a < b < t.len() implies (#[trigger] t[a]).0 != (#[trigger] t[b]).0 by {
        assert(t[a].0 == s[a].0);
        assert(t[b].0 == s[b].0);
    }
}

/// A small map kept as a list of entries with distinct keys, in the order they came.
pub struct Table<K> {
    entries: Vec<(K, u64)>,
}

impl<K: TableKey> Table<K> {
    pub closed spec fn entries(&self) -> Seq<(K, u64)> {
        self.entries@
    }

    pub open spec fn view(&self) -> Map<K, u64> {
        map_of(self.entries())
    }

    pub open spec fn wf(&self) -> bool {
        unique_keys(self.entries())
    }

    pub fn new() -> (r: Table<K>)
        ensures
            r.wf(),
            r@ == Map::<K, u64>::empty(),
            r.entries().len() == 0,
    {
        Table { entries: Vec::new() }
    }

    pub fn len(&self) -> (r: usize)
        ensures
            r == self.entries().len(),
    {
        self.entries.len()
    }

    /// The entry at position `i` of the list.
    pub fn entry_at(&self, i: usize) -> (r: (K, u64))
        requires
            i < self.entries().len(),
        ensures
            r == self.entries()[i as int],
    {
        self.entries[i]
    }

    /// The position of the entry under `k`, if any.
    fn find(&self, k: &K) -> (r: Option<usize>)
        ensures
            match r {
                Some(i) => i < self.entries().len() && self.entries()[i as int].0 == *k,
                None => forall|j: int| 0 <= j < self.entries().len() ==> (#[trigger] self.entries()[j]).0 != *k,
            },
    {
        let mut i: usize = 0;
        while i < self.entries.len()
            invariant
                i <= self.entries@.len(),
                forall|j: int| 0 <= j < i ==> (#[trigger] self.entries@[j]).0 != *k,
            decreases self.entries@.len() - i,
        {
            if self.entries[i].0.same(k) {
                return Some(i);
            }
            i = i + 1;
        }
        None
    }

    /// The value held under `k`, if any.
    pub fn get(&self, k: &K) -> (r: Option<u64>)
        requires
            self.wf(),
        ensures
            r == (if self@.dom().contains(*k) {
                Some(self@[*k])
            } else {
                None::<u64>
            }),
    {
        proof {
            lemma_map_of_dom(self.entries(), *k);
        }
        match self.find(k) {
            Some(i) => {
                proof {
                    lemma_map_of_at(self.entries(), i as int);
                }
                Some(self.entries[i].1)
            },
            None => None,
        }
    }

    /// The value held under `k`, zero where none is.
    pub fn get_or_zero(&self, k: &K) -> (r: u64)
        requires
            self.wf(),
        ensures
            r == value_or_zero(self@, *k),
    {
        match self.get(k) {
            Some(v) => v,
            None => 0,
        }
    }

    /// Sets the value under `k`.
    pub fn set(&mut self, k: K, v: u64)
        requires
            old(self).wf(),
        ensures
            final(self).wf(),
            final(self)@ == old(self)@.insert(k, v),
    {
        match self.find(&k) {
            Some(i) => {
                proof {
                    lemma_map_of_update(self.entries@, i as int, v);
                }
                self.entries.set(i, (k, v));
            },
            None => {
                let ghost before = self.entries@;
                self.entries.push((k, v));
                proof {
                    assert(self.entries@.drop_last() == before);
                    assert forall|a: int, b: int| 0 <= a < b < self.entries@.len() implies (
                    #[trigger] self.entries@[a]).0 != (#[trigger] self.entries@[b]).0 by {
                        if b == before.len() {
                            assert(before[a].0 != k);
                        } else {
                            assert(before[a] == self.entries@[a]);
                            assert(before[b] == self.entries@[b]);
                        }
                    }
                }
            },
        }
    }
}

} // verus!

verus! {

impl TableKey for u64 {
    fn same(&self, other: &Self) -> (r: bool) {
        *self == *other
    }
}

} // verus!
