use vstd::prelude::*;
use crate::table::{Table, TableKey};
use crate::types::{ObjectId, Schedulable, SharedObjectRef, TransactionDigest, TransactionKey, schedulable_objects, schedulable_key};

verus! {

/// The version given, in place of a real one, to every shared object of a
/// cancelled transaction.
pub const CANCELLED_VERSION: u64 = 0xffff_ffff_ffff_ffff;

/// The largest version an object can have in the object store.
pub const MAX_VERSION: u64 = 0x7fff_ffff_ffff_ffff;

impl TableKey for SharedObjectRef {
    fn same(&self, other: &Self) -> (r: bool) {
        self.id == other.id && self.initial_shared_version == other.initial_shared_version
    }
}

/// What the object store holds of one object.
#[derive(Clone, Copy, Debug, PartialEq, Eq, Structural)]
pub struct StoredObject {
    pub id: ObjectId,
    /// The version at which the object became shared, if it is shared.
    pub initial_shared_version: Option<u64>,
    /// Its current version.
    pub version: u64,
}

/// The versions a schedulable unit reads its shared objects at.
#[derive(Clone, Debug)]
pub struct AssignedVersions {
    pub key: TransactionKey,
    pub versions: Vec<(SharedObjectRef, u64)>,
}

/// The first stored object with this id.
pub open spec fn find_object(store: Seq<StoredObject>, id: ObjectId) -> Option<StoredObject>
    decreases store.len(),
{
    if store.len() == 0 {
        None
    } else {
        match find_object(store.drop_last(), id) {
            Some(o) => Some(o),
            None => if store.last().id == id {
                Some(store.last())
            } else {
                None
            },
        }
    }
}

/// Where an object's versions start in this epoch: its stored version where
/// the store holds it shared at the same initial version, else that initial version.
pub open spec fn initial_version(store: Seq<StoredObject>, r: SharedObjectRef) -> u64 {
    match find_object(store, r.id) {
        Some(o) => if o.initial_shared_version == Some(r.initial_shared_version) {
            o.version
        } else {
            r.initial_shared_version
        },
        None => r.initial_shared_version,
    }
}

/// The next version the ledger gives an object, initializing it lazily.
pub open spec fn next_version_of(ledger: Map<SharedObjectRef, u64>, store: Seq<StoredObject>, r: SharedObjectRef) -> u64 {
    if ledger.dom().contains(r) {
        ledger[r]
    } else {
        initial_version(store, r)
    }
}

/// The versions of one unit's objects: the next versions, or the sentinel if cancelled.
pub open spec fn versions_for(
    ledger: Map<SharedObjectRef, u64>,
    store: Seq<StoredObject>,
    objs: Seq<SharedObjectRef>,
    cancelled: bool,
) -> Seq<(SharedObjectRef, u64)>
    decreases objs.len(),
{
    if objs.len() == 0 {
        Seq::empty()
    } else {
        versions_for(ledger, store, objs.drop_last(), cancelled).push(
            (objs.last(), if cancelled { CANCELLED_VERSION } else { next_version_of(ledger, store, objs.last()) }),
        )
    }
}

/// The largest next version among the objects, zero for none.
pub open spec fn max_next(ledger: Map<SharedObjectRef, u64>, store: Seq<StoredObject>, objs: Seq<SharedObjectRef>) -> u64
    decreases objs.len(),
{
    if objs.len() == 0 {
        0
    } else {
        let rest = max_next(ledger, store, objs.drop_last());
        let here = next_version_of(ledger, store, objs.last());
        if here > rest {
            here
        } else {
            rest
        }
    }
}

/// The ledger with every object of the list that it lacks initialized.
pub open spec fn init_keys(ledger: Map<SharedObjectRef, u64>, store: Seq<StoredObject>, objs: Seq<SharedObjectRef>) -> Map<SharedObjectRef, u64>
    decreases objs.len(),
{
    if objs.len() == 0 {
        ledger
    } else {
        let m = init_keys(ledger, store, objs.drop_last());
        if m.dom().contains(objs.last()) {
            m
        } else {
            m.insert(objs.last(), initial_version(store, objs.last()))
        }
    }
}

/// The ledger with every object of the list set to `v`.
pub open spec fn set_keys(ledger: Map<SharedObjectRef, u64>, objs: Seq<SharedObjectRef>, v: u64) -> Map<SharedObjectRef, u64>
    decreases objs.len(),
{
    if objs.len() == 0 {
        ledger
    } else {
        set_keys(ledger, objs.drop_last(), v).insert(objs.last(), v)
    }
}

/// The ledger after one unit: a cancelled one only initializes its objects; any
/// other moves all of them past the largest version it read.
pub open spec fn ledger_after(
    ledger: Map<SharedObjectRef, u64>,
    store: Seq<StoredObject>,
    objs: Seq<SharedObjectRef>,
    cancelled: bool,
) -> Map<SharedObjectRef, u64> {
    if cancelled {
        init_keys(ledger, store, objs)
    } else if objs.len() == 0 {
        ledger
    } else {
        set_keys(ledger, objs, (max_next(ledger, store, objs) + 1) as u64)
    }
}

pub open spec fn is_cancelled(s: Schedulable, cancelled: Seq<TransactionDigest>) -> bool {
    match s {
        Schedulable::Transaction(tx) => cancelled.contains(tx.digest),
        _ => false,
    }
}

/// Versions of every unit, in order, and the ledger after the last one.
pub open spec fn assign_all(
    ledger: Map<SharedObjectRef, u64>,
    store: Seq<StoredObject>,
    items: Seq<Schedulable>,
    cancelled: Seq<TransactionDigest>,
) -> (Seq<(TransactionKey, Seq<(SharedObjectRef, u64)>)>, Map<SharedObjectRef, u64>)
    decreases items.len(),
{
    if items.len() == 0 {
        (Seq::empty(), ledger)
    } else {
        let (prev, l) = assign_all(ledger, store, items.drop_last(), cancelled);
        let s = items.last();
        let c = is_cancelled(s, cancelled);
        let objs = schedulable_objects(s);
        (prev.push((schedulable_key(s), versions_for(l, store, objs, c))), ledger_after(l, store, objs, c))
    }
}

/// The view of assigned versions, as values.
pub open spec fn assigned_view(r: Seq<AssignedVersions>) -> Seq<(TransactionKey, Seq<(SharedObjectRef, u64)>)> {
    Seq::new(r.len(), |i: int| (r[i].key, r[i].versions@))
}

pub open spec fn bounded(ledger: Map<SharedObjectRef, u64>, b: int) -> bool {
    forall|k: SharedObjectRef| ledger.dom().contains(k) ==> ledger[k] <= b
}

/// Every stored version is at most `b`.
pub open spec fn store_ok(store: Seq<StoredObject>, b: int) -> bool {
    forall|i: int| 0 <= i < store.len() ==> (#[trigger] store[i]).version <= b
}

/// Every initial shared version the units name is at most `b`.
pub open spec fn refs_ok(items: Seq<Schedulable>, b: int) -> bool {
    forall|i: int| 0 <= i < items.len() ==> objs_ok(schedulable_objects(#[trigger] items[i]), b)
}

pub open spec fn objs_ok(objs: Seq<SharedObjectRef>, b: int) -> bool {
    forall|j: int| 0 <= j < objs.len() ==> (#[trigger] objs[j]).initial_shared_version <= b
}

/// Room left below the largest version once `n` units have each moved it by one.
pub open spec fn headroom(n: int) -> int {
    MAX_VERSION - n
}

proof fn lemma_find_object_ok(store: Seq<StoredObject>, id: ObjectId, b: int)
    requires
        store_ok(store, b),
    ensures
        match find_object(store, id) {
            Some(o) => o.version <= b,
            None => true,
        },
    decreases store.len(),
{
    if store.len() > 0 {
        assert(store_ok(store.drop_last(), b)) by {
            assert forall|i: int| 0 <= i < store.drop_last().len() implies (#[trigger] store.drop_last()[i]).version <= b by {
                assert(store.drop_last()[i] == store[i]);
            }
        }
        lemma_find_object_ok(store.drop_last(), id, b);
        assert(store[store.len() - 1].version <= b);
    }
}

proof fn lemma_find_object_prefix(store: Seq<StoredObject>, n: int, id: ObjectId)
    requires
        0 <= n <= store.len(),
        find_object(store.take(n), id) is Some,
    ensures
        find_object(store, id) == find_object(store.take(n), id),
    decreases store.len(),
{
    if store.len() == n {
        assert(store.take(n) == store);
    } else {
        assert(store.drop_last().take(n) == store.take(n));
        lemma_find_object_prefix(store.drop_last(), n, id);
    }
}

/// The version ledger: for each shared object (by id and initial version), the
/// next version to assign.
pub struct VersionLedger {
    next: Table<SharedObjectRef>,
}

impl VersionLedger {
    pub closed spec fn view(&self) -> Map<SharedObjectRef, u64> {
        self.next@
    }

    pub closed spec fn wf(&self) -> bool {
        self.next.wf()
    }

    pub fn new() -> (r: VersionLedger)
        ensures
            r.wf(),
            r@ == Map::<SharedObjectRef, u64>::empty(),
    {
        VersionLedger { next: Table::new() }
    }

    /// The next version recorded for an object, if it was initialized.
    pub fn get_next_object_version(&self, r: &SharedObjectRef) -> (v: Option<u64>)
        requires
            self.wf(),
        ensures
            v == (if self@.dom().contains(*r) {
                Some(self@[*r])
            } else {
                None::<u64>
            }),
    {
        self.next.get(r)
    }

    /// Records the next version of an object.
    pub fn set_next_object_version(&mut self, r: SharedObjectRef, v: u64)
        requires
            old(self).wf(),
        ensures
            final(self).wf(),
            final(self)@ == old(self)@.insert(r, v),
    {
        self.next.set(r, v)
    }

    /// A working copy of the ledger.
    fn copy(&self) -> (r: VersionLedger)
        requires
            self.wf(),
        ensures
            r.wf(),
            r@ == self@,
    {
        let mut out = VersionLedger::new();
        let n = self.next.len();
        let mut i: usize = 0;
        let ghost es = self.next.entries();
        while i < n
            invariant
                self.wf(),
                es == self.next.entries(),
                i <= n == es.len(),
                out.wf(),
                out@ == crate::table::map_of(es.take(i as int)),
            decreases n - i,
        {
            let (k, v) = self.next.entry_at(i);
            out.next.set(k, v);
            proof {
                assert(es.take(i + 1).drop_last() == es.take(i as int));
            }
            i = i + 1;
        }
        proof {
            assert(es.take(i as int) == es);
        }
        out
    }
}


/// The first stored object with this id.
pub fn find_stored_object(store: &Vec<StoredObject>, id: ObjectId) -> (r: Option<StoredObject>)
    ensures
        r == find_object(store@, id),
{
    let mut i: usize = 0;
    while i < store.len()
        invariant
            i <= store@.len(),
            find_object(store@.take(i as int), id) is None,
        decreases store@.len() - i,
    {
        proof {
            assert(store@.take(i + 1).drop_last() == store@.take(i as int));
        }
        if store[i].id == id {
            proof {
                lemma_find_object_prefix(store@, i + 1, id);
            }
            return Some(store[i]);
        }
        i = i + 1;
    }
    proof {
        assert(store@.take(i as int) == store@);
    }
    None
}

/// Where an object's versions start in this epoch.
pub fn get_initial_version(store: &Vec<StoredObject>, r: &SharedObjectRef) -> (v: u64)
    ensures
        v == initial_version(store@, *r),
{
    match find_stored_object(store, r.id) {
        Some(o) => {
            if o.initial_shared_version == Some(r.initial_shared_version) {
                o.version
            } else {
                r.initial_shared_version
            }
        },
        None => r.initial_shared_version,
    }
}

/// The next version of an object, from the working ledger or the store.
fn next_version(work: &VersionLedger, store: &Vec<StoredObject>, r: &SharedObjectRef) -> (v: u64)
    requires
        work.wf(),
    ensures
        v == next_version_of(work@, store@, *r),
{
    match work.get_next_object_version(r) {
        Some(v) => v,
        None => get_initial_version(store, r),
    }
}

/// Whether the digest is in the list.
pub(crate) fn contains_digest(v: &Vec<TransactionDigest>, d: TransactionDigest) -> (r: bool)
    ensures
        r == v@.contains(d),
{
    let mut i: usize = 0;
    while i < v.len()
        invariant
            i <= v@.len(),
            forall|j: int| 0 <= j < i ==> v@[j] != d,
        decreases v@.len() - i,
    {
        if v[i] == d {
            return true;
        }
        i = i + 1;
    }
    false
}

/// Whether the unit is a cancelled transaction.
fn schedulable_is_cancelled(s: &Schedulable, cancelled: &Vec<TransactionDigest>) -> (r: bool)
    ensures
        r == is_cancelled(*s, cancelled@),
{
    match s {
        Schedulable::Transaction(tx) => contains_digest(cancelled, tx.digest),
        _ => false,
    }
}

/// The next versions of the objects, initializing in the ledger, from the
/// object store, each one it does not hold yet.
pub(crate) fn get_or_init_next_object_versions(
    ledger: &mut VersionLedger,
    store: &Vec<StoredObject>,
    objs: &Vec<SharedObjectRef>,
    Ghost(b): Ghost<int>,
) -> (r: Vec<(SharedObjectRef, u64)>)
    requires
        old(ledger).wf(),
        bounded(old(ledger)@, b),
        store_ok(store@, b),
        objs_ok(objs@, b),
    ensures
        final(ledger).wf(),
        r@ == versions_for(old(ledger)@, store@, objs@, false),
        final(ledger)@ == init_keys(old(ledger)@, store@, objs@),
        bounded(final(ledger)@, b),
{
    let ghost l0 = ledger@;
    let mut out: Vec<(SharedObjectRef, u64)> = Vec::new();
    let mut j: usize = 0;
    while j < objs.len()
        invariant
            ledger.wf(),
            bounded(l0, b),
            store_ok(store@, b),
            objs_ok(objs@, b),
            j <= objs@.len(),
            ledger@ == init_keys(l0, store@, objs@.take(j as int)),
            bounded(ledger@, b),
            out@ == versions_for(l0, store@, objs@.take(j as int), false),
        decreases objs@.len() - j,
    {
        let r = objs[j];
        proof {
            assert(objs@.take(j + 1).drop_last() == objs@.take(j as int));
            assert(objs@[j as int] == r);
            lemma_find_object_ok(store@, r.id, b);
            lemma_init_keys_next(l0, store@, objs@.take(j as int), r);
        }
        match ledger.get_next_object_version(&r) {
            Some(v) => {
                out.push((r, v));
            },
            None => {
                let v = get_initial_version(store, &r);
                ledger.set_next_object_version(r, v);
                out.push((r, v));
            },
        }
        j = j + 1;
    }
    proof {
        assert(objs@.take(j as int) == objs@);
    }
    out
}

/// Initializing keys leaves what the ledger gives each object unchanged.
proof fn lemma_init_keys_next(ledger: Map<SharedObjectRef, u64>, store: Seq<StoredObject>, objs: Seq<SharedObjectRef>, r: SharedObjectRef)
    ensures
        next_version_of(init_keys(ledger, store, objs), store, r) == next_version_of(ledger, store, r),
    decreases objs.len(),
{
    if objs.len() > 0 {
        lemma_init_keys_next(ledger, store, objs.drop_last(), r);
    }
}

/// Assigns versions to one unit's objects and moves the working ledger on.
fn assign_one(
    work: &mut VersionLedger,
    store: &Vec<StoredObject>,
    objs: &Vec<SharedObjectRef>,
    cancelled: bool,
    Ghost(b): Ghost<int>,
) -> (r: Vec<(SharedObjectRef, u64)>)
    requires
        old(work).wf(),
        bounded(old(work)@, b),
        store_ok(store@, b),
        objs_ok(objs@, b),
        0 <= b < MAX_VERSION,
    ensures
        final(work).wf(),
        r@ == versions_for(old(work)@, store@, objs@, cancelled),
        final(work)@ == ledger_after(old(work)@, store@, objs@, cancelled),
        bounded(final(work)@, b + 1),
{
    let ghost l0 = work@;
    let mut out: Vec<(SharedObjectRef, u64)> = Vec::new();
    let mut mx: u64 = 0;
    let mut i: usize = 0;
    while i < objs.len()
        invariant
            work.wf(),
            work@ == l0,
            bounded(l0, b),
            store_ok(store@, b),
            objs_ok(objs@, b),
            0 <= b < MAX_VERSION,
            i <= objs@.len(),
            out@ == versions_for(l0, store@, objs@.take(i as int), cancelled),
            mx == max_next(l0, store@, objs@.take(i as int)),
            mx <= b,
        decreases objs@.len() - i,
    {
        let r = objs[i];
        let v = next_version(work, store, &r);
        proof {
            assert(objs@.take(i + 1).drop_last() == objs@.take(i as int));
            assert(objs@[i as int] == r);
            lemma_find_object_ok(store@, r.id, b);
        }
        if cancelled {
            out.push((r, CANCELLED_VERSION));
        } else {
            out.push((r, v));
        }
        if v > mx {
            mx = v;
        }
        i = i + 1;
    }
    proof {
        assert(objs@.take(i as int) == objs@);
    }
    if cancelled {
        let _ = get_or_init_next_object_versions(work, store, objs, Ghost(b));
    } else if objs.len() > 0 {
        let lamport = mx + 1;
        let mut j: usize = 0;
        while j < objs.len()
            invariant
                work.wf(),
                bounded(l0, b),
                lamport <= b + 1,
                j <= objs@.len(),
                work@ == set_keys(l0, objs@.take(j as int), lamport),
                bounded(work@, b + 1),
            decreases objs@.len() - j,
        {
            let r = objs[j];
            proof {
                assert(objs@.take(j + 1).drop_last() == objs@.take(j as int));
                assert(objs@[j as int] == r);
            }
            work.set_next_object_version(r, lamport);
            j = j + 1;
        }
        proof {
            assert(objs@.take(j as int) == objs@);
        }
    }
    out
}

/// Assigns versions over the units, moving the working ledger on.
fn assign_into(
    work: &mut VersionLedger,
    store: &Vec<StoredObject>,
    items: &Vec<Schedulable>,
    cancelled: &Vec<TransactionDigest>,
) -> (r: Vec<AssignedVersions>)
    requires
        old(work).wf(),
        items@.len() <= MAX_VERSION,
        bounded(old(work)@, headroom(items@.len() as int)),
        store_ok(store@, headroom(items@.len() as int)),
        refs_ok(items@, headroom(items@.len() as int)),
    ensures
        final(work).wf(),
        assigned_view(r@) == assign_all(old(work)@, store@, items@, cancelled@).0,
        final(work)@ == assign_all(old(work)@, store@, items@, cancelled@).1,
        bounded(final(work)@, MAX_VERSION as int),
{
    let ghost l0 = work@;
    let ghost b0 = headroom(items@.len() as int);
    let mut out: Vec<AssignedVersions> = Vec::new();
    let mut i: usize = 0;
    while i < items.len()
        invariant
            work.wf(),
            i <= items@.len() <= MAX_VERSION,
            b0 == headroom(items@.len() as int),
            store_ok(store@, b0),
            refs_ok(items@, b0),
            bounded(work@, b0 + i),
            assigned_view(out@) == assign_all(l0, store@, items@.take(i as int), cancelled@).0,
            work@ == assign_all(l0, store@, items@.take(i as int), cancelled@).1,
        decreases items@.len() - i,
    {
        let s = &items[i];
        let objs = s.shared_objects();
        let c = schedulable_is_cancelled(s, cancelled);
        proof {
            assert(objs_ok(objs@, b0));
            assert forall|j: int| 0 <= j < objs@.len() implies (#[trigger] objs@[j]).initial_shared_version <= b0 + i by {
            }
            assert(store_ok(store@, b0 + i)) by {
                assert forall|k: int| 0 <= k < store@.len() implies (#[trigger] store@[k]).version <= b0 + i by {
                }
            }
            assert(items@.take(i + 1).drop_last() == items@.take(i as int));
            assert(items@.take(i + 1).last() == *s);
        }
        let ghost prev = out@;
        let versions = assign_one(work, store, &objs, c, Ghost(b0 + i));
        out.push(AssignedVersions { key: s.key(), versions });
        proof {
            assert(out@.drop_last() == prev);
            assert(assigned_view(out@) =~= assign_all(l0, store@, items@.take(i + 1), cancelled@).0);
        }
        i = i + 1;
    }
    proof {
        assert(items@.take(i as int) == items@);
    }
    out
}

/// Assigns versions to the shared objects of every unit, in order, and records
/// the ledger's new next versions. A cancelled transaction gets the sentinel for
/// each of its objects and moves none of them on.
pub fn assign_versions_from_consensus(
    ledger: &mut VersionLedger,
    store: &Vec<StoredObject>,
    items: &Vec<Schedulable>,
    cancelled: &Vec<TransactionDigest>,
) -> (r: Vec<AssignedVersions>)
    requires
        old(ledger).wf(),
        items@.len() <= MAX_VERSION,
        bounded(old(ledger)@, headroom(items@.len() as int)),
        store_ok(store@, headroom(items@.len() as int)),
        refs_ok(items@, headroom(items@.len() as int)),
    ensures
        final(ledger).wf(),
        assigned_view(r@) == assign_all(old(ledger)@, store@, items@, cancelled@).0,
        final(ledger)@ == assign_all(old(ledger)@, store@, items@, cancelled@).1,
        bounded(final(ledger)@, MAX_VERSION as int),
{
    assign_into(ledger, store, items, cancelled)
}

/// The same assignment, with nothing cancelled, leaving the ledger as it was:
/// safe to call again and again.
pub fn assign_shared_object_versions_idempotent(
    ledger: &VersionLedger,
    store: &Vec<StoredObject>,
    items: &Vec<Schedulable>,
) -> (r: Vec<AssignedVersions>)
    requires
        ledger.wf(),
        items@.len() <= MAX_VERSION,
        bounded(ledger@, headroom(items@.len() as int)),
        store_ok(store@, headroom(items@.len() as int)),
        refs_ok(items@, headroom(items@.len() as int)),
    ensures
        assigned_view(r@) == assign_all(ledger@, store@, items@, Seq::<TransactionDigest>::empty()).0,
{
    let mut work = ledger.copy();
    let none: Vec<TransactionDigest> = Vec::new();
    assign_into(&mut work, store, items, &none)
}

} // verus!

verus! {

/// Assigning versions through the idempotent entry point twice, over the same
/// ledger, store and units, gives the same versions both times; the ledger is
/// only read, so it is left as it was.
pub proof fn lemma_idempotent_assignment(
    ledger: Map<SharedObjectRef, u64>,
    store: Seq<StoredObject>,
    items: Seq<Schedulable>,
    first: Seq<AssignedVersions>,
    second: Seq<AssignedVersions>,
)
    requires
        assigned_view(first) == assign_all(ledger, store, items, Seq::<TransactionDigest>::empty()).0,
        assigned_view(second) == assign_all(ledger, store, items, Seq::<TransactionDigest>::empty()).0,
    ensures
        assigned_view(first) == assigned_view(second),
{
}

} // verus!

verus! {

impl VersionLedger {
    /// Whether every next version recorded is at most `b`.
    pub fn all_at_most(&self, b: u64) -> (r: bool)
        requires
            self.wf(),
        ensures
            r == bounded(self@, b as int),
    {
        let n = self.next.len();
        let ghost es = self.next.entries();
        let mut i: usize = 0;
        while i < n
            invariant
                self.wf(),
                es == self.next.entries(),
                i <= n == es.len(),
                forall|j: int| 0 <= j < i ==> (#[trigger] es[j]).1 <= b,
            decreases n - i,
        {
            let (k, v) = self.next.entry_at(i);
            if v > b {
                proof {
                    crate::table::lemma_map_of_at(es, i as int);
                }
                return false;
            }
            i = i + 1;
        }
        proof {
            assert forall|k: SharedObjectRef| self@.dom().contains(k) implies self@[k] <= b by {
                crate::table::lemma_map_of_dom(es, k);
                let j = choose|j: int| 0 <= j < es.len() && (#[trigger] es[j]).0 == k;
                crate::table::lemma_map_of_at(es, j);
            }
        }
        true
    }
}

/// Whether every stored version is at most `b`.
pub fn objects_at_most(store: &Vec<StoredObject>, b: u64) -> (r: bool)
    ensures
        r == store_ok(store@, b as int),
{
    let mut i: usize = 0;
    while i < store.len()
        invariant
            i <= store@.len(),
            forall|j: int| 0 <= j < i ==> (#[trigger] store@[j]).version <= b,
        decreases store@.len() - i,
    {
        if store[i].version > b {
            return false;
        }
        i = i + 1;
    }
    true
}

/// Whether every initial shared version the units name is at most `b`.
pub fn refs_at_most(items: &Vec<Schedulable>, b: u64) -> (r: bool)
    ensures
        r == refs_ok(items@, b as int),
{
    let mut i: usize = 0;
    while i < items.len()
        invariant
            i <= items@.len(),
            forall|j: int| 0 <= j < i ==> objs_ok(schedulable_objects(#[trigger] items@[j]), b as int),
        decreases items@.len() - i,
    {
        let objs = items[i].shared_objects();
        let mut j: usize = 0;
        while j < objs.len()
            invariant
                i < items@.len(),
                j <= objs@.len(),
                objs@ == schedulable_objects(items@[i as int]),
                forall|m: int| 0 <= m < j ==> (#[trigger] objs@[m]).initial_shared_version <= b,
            decreases objs@.len() - j,
        {
            if objs[j].initial_shared_version > b {
                proof {
                    assert(!objs_ok(schedulable_objects(items@[i as int]), b as int));
                }
                return false;
            }
            j = j + 1;
        }
        i = i + 1;
    }
    true
}

} // verus!

verus! {

proof fn lemma_versions_for_at(
    ledger: Map<SharedObjectRef, u64>,
    store: Seq<StoredObject>,
    objs: Seq<SharedObjectRef>,
    cancelled: bool,
    a: int,
)
    requires
        0 <= a < objs.len(),
    ensures
        versions_for(ledger, store, objs, cancelled).len() == objs.len(),
        versions_for(ledger, store, objs, cancelled)[a] == (objs[a], if cancelled {
            CANCELLED_VERSION
        } else {
            next_version_of(ledger, store, objs[a])
        }),
    decreases objs.len(),
{
    lemma_versions_for_len(ledger, store, objs.drop_last(), cancelled);
    if a < objs.len() - 1 {
        assert(objs.drop_last()[a] == objs[a]);
        lemma_versions_for_at(ledger, store, objs.drop_last(), cancelled, a);
    }
}

proof fn lemma_versions_for_len(
    ledger: Map<SharedObjectRef, u64>,
    store: Seq<StoredObject>,
    objs: Seq<SharedObjectRef>,
    cancelled: bool,
)
    ensures
        versions_for(ledger, store, objs, cancelled).len() == objs.len(),
    decreases objs.len(),
{
    if objs.len() > 0 {
        lemma_versions_for_len(ledger, store, objs.drop_last(), cancelled);
    }
}

proof fn lemma_max_next_ge(ledger: Map<SharedObjectRef, u64>, store: Seq<StoredObject>, objs: Seq<SharedObjectRef>, a: int)
    requires
        0 <= a < objs.len(),
    ensures
        max_next(ledger, store, objs) >= next_version_of(ledger, store, objs[a]),
    decreases objs.len(),
{
    if a < objs.len() - 1 {
        assert(objs.drop_last()[a] == objs[a]);
        lemma_max_next_ge(ledger, store, objs.drop_last(), a);
    }
}

proof fn lemma_max_next_bounded(ledger: Map<SharedObjectRef, u64>, store: Seq<StoredObject>, objs: Seq<SharedObjectRef>, b: int)
    requires
        bounded(ledger, b),
        store_ok(store, b),
        objs_ok(objs, b),
        b >= 0,
    ensures
        max_next(ledger, store, objs) <= b,
    decreases objs.len(),
{
    if objs.len() > 0 {
        assert(objs_ok(objs.drop_last(), b)) by {
            assert forall|j: int| 0 <= j < objs.drop_last().len() implies (#[trigger] objs.drop_last()[j]).initial_shared_version <= b by {
                assert(objs.drop_last()[j] == objs[j]);
            }
        }
        lemma_max_next_bounded(ledger, store, objs.drop_last(), b);
        assert(objs[objs.len() - 1].initial_shared_version <= b);
        lemma_find_object_ok(store, objs.last().id, b);
    }
}

proof fn lemma_set_keys(ledger: Map<SharedObjectRef, u64>, objs: Seq<SharedObjectRef>, v: u64, k: SharedObjectRef)
    ensures
        objs.contains(k) ==> set_keys(ledger, objs, v).dom().contains(k) && set_keys(ledger, objs, v)[k] == v,
        !objs.contains(k) ==> (set_keys(ledger, objs, v).dom().contains(k) == ledger.dom().contains(k)
            && (ledger.dom().contains(k) ==> set_keys(ledger, objs, v)[k] == ledger[k])),
    decreases objs.len(),
{
    if objs.len() > 0 {
        lemma_set_keys(ledger, objs.drop_last(), v, k);
        if objs.contains(k) && objs.last() != k {
            let i = choose|i: int| 0 <= i < objs.len() && objs[i] == k;
            assert(objs.drop_last()[i] == k);
        }
        if !objs.contains(k) {
            assert(!objs.drop_last().contains(k)) by {
                if objs.drop_last().contains(k) {
                    let i = choose|i: int| 0 <= i < objs.drop_last().len() && objs.drop_last()[i] == k;
                    assert(objs[i] == k);
                }
            }
            assert(objs[objs.len() - 1] != k);
        }
    }
}

proof fn lemma_set_keys_bounded(ledger: Map<SharedObjectRef, u64>, objs: Seq<SharedObjectRef>, v: u64, b: int)
    requires
        bounded(ledger, b),
        v <= b,
    ensures
        bounded(set_keys(ledger, objs, v), b),
    decreases objs.len(),
{
    if objs.len() > 0 {
        lemma_set_keys_bounded(ledger, objs.drop_last(), v, b);
    }
}

proof fn lemma_init_keys(ledger: Map<SharedObjectRef, u64>, store: Seq<StoredObject>, objs: Seq<SharedObjectRef>, k: SharedObjectRef)
    ensures
        ledger.dom().contains(k) ==> init_keys(ledger, store, objs).dom().contains(k) && init_keys(ledger, store, objs)[k] == ledger[k],
    decreases objs.len(),
{
    if objs.len() > 0 {
        lemma_init_keys(ledger, store, objs.drop_last(), k);
    }
}

proof fn lemma_init_keys_bounded(ledger: Map<SharedObjectRef, u64>, store: Seq<StoredObject>, objs: Seq<SharedObjectRef>, b: int)
    requires
        bounded(ledger, b),
        store_ok(store, b),
        objs_ok(objs, b),
    ensures
        bounded(init_keys(ledger, store, objs), b),
    decreases objs.len(),
{
    if objs.len() > 0 {
        assert(objs_ok(objs.drop_last(), b)) by {
            assert forall|j: int| 0 <= j < objs.drop_last().len() implies (#[trigger] objs.drop_last()[j]).initial_shared_version <= b by {
                assert(objs.drop_last()[j] == objs[j]);
            }
        }
        lemma_init_keys_bounded(ledger, store, objs.drop_last(), b);
        assert(objs[objs.len() - 1].initial_shared_version <= b);
        lemma_find_object_ok(store, objs.last().id, b);
    }
}

/// The ledger after the first `m` units.
pub open spec fn ledger_at(
    ledger: Map<SharedObjectRef, u64>,
    store: Seq<StoredObject>,
    items: Seq<Schedulable>,
    cancelled: Seq<TransactionDigest>,
    m: int,
) -> Map<SharedObjectRef, u64> {
    assign_all(ledger, store, items.take(m), cancelled).1
}

proof fn lemma_ledger_step(
    ledger: Map<SharedObjectRef, u64>,
    store: Seq<StoredObject>,
    items: Seq<Schedulable>,
    cancelled: Seq<TransactionDigest>,
    m: int,
)
    requires
        0 <= m < items.len(),
    ensures
        ledger_at(ledger, store, items, cancelled, m + 1) == ledger_after(
            ledger_at(ledger, store, items, cancelled, m),
            store,
            schedulable_objects(items[m]),
            is_cancelled(items[m], cancelled),
        ),
{
    assert(items.take(m + 1).drop_last() == items.take(m));
    assert(items.take(m + 1).last() == items[m]);
}

proof fn lemma_assign_at(
    ledger: Map<SharedObjectRef, u64>,
    store: Seq<StoredObject>,
    items: Seq<Schedulable>,
    cancelled: Seq<TransactionDigest>,
    i: int,
)
    requires
        0 <= i < items.len(),
    ensures
        assign_all(ledger, store, items, cancelled).0.len() == items.len(),
        assign_all(ledger, store, items, cancelled).0[i] == (
            schedulable_key(items[i]),
            versions_for(ledger_at(ledger, store, items, cancelled, i), store, schedulable_objects(items[i]), is_cancelled(items[i], cancelled)),
        ),
    decreases items.len(),
{
    lemma_assign_len(ledger, store, items.drop_last(), cancelled);
    if i == items.len() - 1 {
        assert(items.drop_last() == items.take(i));
    } else {
        assert(items.drop_last()[i] == items[i]);
        assert(items.drop_last().take(i) == items.take(i));
        lemma_assign_at(ledger, store, items.drop_last(), cancelled, i);
    }
}

proof fn lemma_assign_len(
    ledger: Map<SharedObjectRef, u64>,
    store: Seq<StoredObject>,
    items: Seq<Schedulable>,
    cancelled: Seq<TransactionDigest>,
)
    ensures
        assign_all(ledger, store, items, cancelled).0.len() == items.len(),
    decreases items.len(),
{
    if items.len() > 0 {
        lemma_assign_len(ledger, store, items.drop_last(), cancelled);
    }
}

proof fn lemma_ledger_bounded(
    ledger: Map<SharedObjectRef, u64>,
    store: Seq<StoredObject>,
    items: Seq<Schedulable>,
    cancelled: Seq<TransactionDigest>,
    m: int,
    b: int,
)
    requires
        0 <= m <= items.len(),
        0 <= b,
        b + items.len() <= MAX_VERSION,
        bounded(ledger, b),
        store_ok(store, b),
        refs_ok(items, b),
    ensures
        bounded(ledger_at(ledger, store, items, cancelled, m), b + m),
    decreases m,
{
    if m == 0 {
        assert(items.take(0) == Seq::<Schedulable>::empty());
    } else {
        lemma_ledger_bounded(ledger, store, items, cancelled, m - 1, b);
        lemma_ledger_step(ledger, store, items, cancelled, m - 1);
        let l = ledger_at(ledger, store, items, cancelled, m - 1);
        let objs = schedulable_objects(items[m - 1]);
        let bb = b + m - 1;
        assert(objs_ok(objs, b));
        assert(objs_ok(objs, bb));
        assert(store_ok(store, bb));
        if is_cancelled(items[m - 1], cancelled) {
            lemma_init_keys_bounded(l, store, objs, bb);
        } else if objs.len() > 0 {
            lemma_max_next_bounded(l, store, objs, bb);
            lemma_set_keys_bounded(l, objs, (max_next(l, store, objs) + 1) as u64, bb + 1);
        }
    }
}

proof fn lemma_ledger_persists(
    ledger: Map<SharedObjectRef, u64>,
    store: Seq<StoredObject>,
    items: Seq<Schedulable>,
    cancelled: Seq<TransactionDigest>,
    k: SharedObjectRef,
    m0: int,
    m: int,
    lo: int,
    b: int,
)
    requires
        0 <= m0 <= m <= items.len(),
        0 <= b,
        b + items.len() <= MAX_VERSION,
        bounded(ledger, b),
        store_ok(store, b),
        refs_ok(items, b),
        ledger_at(ledger, store, items, cancelled, m0).dom().contains(k),
        ledger_at(ledger, store, items, cancelled, m0)[k] >= lo,
    ensures
        ledger_at(ledger, store, items, cancelled, m).dom().contains(k),
        ledger_at(ledger, store, items, cancelled, m)[k] >= lo,
    decreases m - m0,
{
    if m > m0 {
        lemma_ledger_persists(ledger, store, items, cancelled, k, m0, m - 1, lo, b);
        lemma_ledger_step(ledger, store, items, cancelled, m - 1);
        let l = ledger_at(ledger, store, items, cancelled, m - 1);
        let objs = schedulable_objects(items[m - 1]);
        if is_cancelled(items[m - 1], cancelled) {
            lemma_init_keys(l, store, objs, k);
        } else if objs.len() > 0 {
            let v = (max_next(l, store, objs) + 1) as u64;
            lemma_set_keys(l, objs, v, k);
            if objs.contains(k) {
                let a = choose|a: int| 0 <= a < objs.len() && objs[a] == k;
                lemma_max_next_ge(l, store, objs, a);
                lemma_ledger_bounded(ledger, store, items, cancelled, m - 1, b);
                assert(objs_ok(objs, b + m - 1));
                assert(store_ok(store, b + m - 1));
                lemma_max_next_bounded(l, store, objs, b + m - 1);
            }
        }
    }
}

/// After a unit that is not cancelled, each object it names is in the ledger,
/// past the version the unit read it at.
proof fn lemma_after_unit(
    ledger: Map<SharedObjectRef, u64>,
    store: Seq<StoredObject>,
    items: Seq<Schedulable>,
    cancelled: Seq<TransactionDigest>,
    i: int,
    a: int,
    b: int,
)
    requires
        0 <= i < items.len(),
        0 <= b,
        b + items.len() <= MAX_VERSION,
        bounded(ledger, b),
        store_ok(store, b),
        refs_ok(items, b),
        !is_cancelled(items[i], cancelled),
        0 <= a < schedulable_objects(items[i]).len(),
    ensures
        ({
            let k = schedulable_objects(items[i])[a];
            let after = ledger_at(ledger, store, items, cancelled, i + 1);
            &&& assign_all(ledger, store, items, cancelled).0[i].1[a].1 == next_version_of(ledger_at(ledger, store, items, cancelled, i), store, k)
            &&& after.dom().contains(k)
            &&& after[k] > next_version_of(ledger_at(ledger, store, items, cancelled, i), store, k)
        }),
{
    let oi = schedulable_objects(items[i]);
    let k = oi[a];
    let li = ledger_at(ledger, store, items, cancelled, i);
    lemma_assign_at(ledger, store, items, cancelled, i);
    lemma_versions_for_at(li, store, oi, false, a);
    lemma_ledger_step(ledger, store, items, cancelled, i);
    let v = (max_next(li, store, oi) + 1) as u64;
    lemma_max_next_ge(li, store, oi, a);
    lemma_ledger_bounded(ledger, store, items, cancelled, i, b);
    assert(objs_ok(oi, b + i));
    assert(store_ok(store, b + i));
    lemma_max_next_bounded(li, store, oi, b + i);
    assert(oi.contains(k));
    lemma_set_keys(li, oi, v, k);
}

/// Versions given to one shared object strictly increase along the units of
/// one assignment: if two units that are not cancelled both name the object,
/// the later one reads it at a higher version.
pub proof fn lemma_version_monotonicity(
    ledger: Map<SharedObjectRef, u64>,
    store: Seq<StoredObject>,
    items: Seq<Schedulable>,
    cancelled: Seq<TransactionDigest>,
    i: int,
    j: int,
    a: int,
    b: int,
)
    requires
        items.len() <= MAX_VERSION,
        bounded(ledger, headroom(items.len() as int)),
        store_ok(store, headroom(items.len() as int)),
        refs_ok(items, headroom(items.len() as int)),
        0 <= i < j < items.len(),
        !is_cancelled(items[i], cancelled),
        !is_cancelled(items[j], cancelled),
        0 <= a < schedulable_objects(items[i]).len(),
        0 <= b < schedulable_objects(items[j]).len(),
        schedulable_objects(items[i])[a] == schedulable_objects(items[j])[b],
    ensures
        assign_all(ledger, store, items, cancelled).0[i].1[a].1 < assign_all(ledger, store, items, cancelled).0[j].1[b].1,
{
    let oj = schedulable_objects(items[j]);
    let k = oj[b];
    let h = headroom(items.len() as int);
    lemma_after_unit(ledger, store, items, cancelled, i, a, h);
    let lj = ledger_at(ledger, store, items, cancelled, j);
    lemma_assign_at(ledger, store, items, cancelled, j);
    lemma_versions_for_at(lj, store, oj, false, b);
    let after_i = ledger_at(ledger, store, items, cancelled, i + 1);
    lemma_ledger_persists(ledger, store, items, cancelled, k, i + 1, j, after_i[k] as int, h);
}

} // verus!

verus! {

/// Across two consecutive commits (the second assigning from the ledger the
/// first left, each with its own object store snapshot and cancellations),
/// versions of a shared object keep strictly increasing: a unit of the second
/// commit that is not cancelled reads an object at a higher version than any
/// unit of the first commit that is not cancelled and names it.
pub proof fn lemma_version_monotonicity_across_commits(
    ledger: Map<SharedObjectRef, u64>,
    store1: Seq<StoredObject>,
    items1: Seq<Schedulable>,
    cancelled1: Seq<TransactionDigest>,
    store2: Seq<StoredObject>,
    items2: Seq<Schedulable>,
    cancelled2: Seq<TransactionDigest>,
    i: int,
    j: int,
    a: int,
    b: int,
)
    requires
        items1.len() + items2.len() <= MAX_VERSION,
        bounded(ledger, headroom((items1.len() + items2.len()) as int)),
        store_ok(store1, headroom((items1.len() + items2.len()) as int)),
        store_ok(store2, headroom((items1.len() + items2.len()) as int)),
        refs_ok(items1, headroom((items1.len() + items2.len()) as int)),
        refs_ok(items2, headroom((items1.len() + items2.len()) as int)),
        0 <= i < items1.len(),
        0 <= j < items2.len(),
        !is_cancelled(items1[i], cancelled1),
        !is_cancelled(items2[j], cancelled2),
        0 <= a < schedulable_objects(items1[i]).len(),
        0 <= b < schedulable_objects(items2[j]).len(),
        schedulable_objects(items1[i])[a] == schedulable_objects(items2[j])[b],
    ensures
        assign_all(ledger, store1, items1, cancelled1).0[i].1[a].1
            < assign_all(assign_all(ledger, store1, items1, cancelled1).1, store2, items2, cancelled2).0[j].1[b].1,
{
    let h = headroom((items1.len() + items2.len()) as int);
    let n1 = items1.len() as int;
    let k = schedulable_objects(items1[i])[a];
    lemma_after_unit(ledger, store1, items1, cancelled1, i, a, h);
    let after_i = ledger_at(ledger, store1, items1, cancelled1, i + 1);
    let lo = after_i[k] as int;
    lemma_ledger_persists(ledger, store1, items1, cancelled1, k, i + 1, n1, lo, h);
    lemma_ledger_bounded(ledger, store1, items1, cancelled1, n1, h);
    assert(items1.take(n1) == items1);
    let l1 = assign_all(ledger, store1, items1, cancelled1).1;
    let b2 = h + n1;
    assert(store_ok(store2, b2));
    assert forall|m: int| 0 <= m < items2.len() implies objs_ok(schedulable_objects(#[trigger] items2[m]), b2) by {
        assert(objs_ok(schedulable_objects(items2[m]), h));
    }
    assert(items2.take(0) =~= Seq::<Schedulable>::empty());
    lemma_ledger_persists(l1, store2, items2, cancelled2, k, 0, j, lo, b2);
    let oj = schedulable_objects(items2[j]);
    let lj = ledger_at(l1, store2, items2, cancelled2, j);
    lemma_assign_at(l1, store2, items2, cancelled2, j);
    lemma_versions_for_at(lj, store2, oj, false, b);
}

} // verus!

verus! {

/// Across two consecutive commits, an object's next version in the ledger never
/// goes down: whatever the first commit left for it, the second leaves at least.
pub proof fn lemma_ledger_monotonic_across_commits(
    ledger: Map<SharedObjectRef, u64>,
    store1: Seq<StoredObject>,
    items1: Seq<Schedulable>,
    cancelled1: Seq<TransactionDigest>,
    store2: Seq<StoredObject>,
    items2: Seq<Schedulable>,
    cancelled2: Seq<TransactionDigest>,
    k: SharedObjectRef,
)
    requires
        items1.len() + items2.len() <= MAX_VERSION,
        bounded(ledger, headroom((items1.len() + items2.len()) as int)),
        store_ok(store1, headroom((items1.len() + items2.len()) as int)),
        store_ok(store2, headroom((items1.len() + items2.len()) as int)),
        refs_ok(items1, headroom((items1.len() + items2.len()) as int)),
        refs_ok(items2, headroom((items1.len() + items2.len()) as int)),
        assign_all(ledger, store1, items1, cancelled1).1.dom().contains(k),
    ensures
        ({
            let l1 = assign_all(ledger, store1, items1, cancelled1).1;
            let l2 = assign_all(l1, store2, items2, cancelled2).1;
            l2.dom().contains(k) && l2[k] >= l1[k]
        }),
{
    let h = headroom((items1.len() + items2.len()) as int);
    let n1 = items1.len() as int;
    lemma_ledger_bounded(ledger, store1, items1, cancelled1, n1, h);
    assert(items1.take(n1) == items1);
    let l1 = assign_all(ledger, store1, items1, cancelled1).1;
    let b2 = h + n1;
    assert(store_ok(store2, b2));
    assert forall|m: int| 0 <= m < items2.len() implies objs_ok(schedulable_objects(#[trigger] items2[m]), b2) by {
        assert(objs_ok(schedulable_objects(items2[m]), h));
    }
    assert(items2.take(0) =~= Seq::<Schedulable>::empty());
    let n2 = items2.len() as int;
    lemma_ledger_persists(l1, store2, items2, cancelled2, k, 0, n2, l1[k] as int, b2);
    assert(items2.take(n2) == items2);
}

} // verus!
