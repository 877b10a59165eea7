//! The bundle store: the one record of which bundles exist and where each
//! stands. Identifiers are unique in it.

use vstd::prelude::*;

use crate::keys::{keys_unique, lemma_remove_unique, lemma_update_unique};
use crate::bundle::{lifetime_exceeded, Bundle};
use crate::bundlepack::{BundlePack, BundleStatus, PackView};

verus! {

/// Why a store operation did not take place.
#[derive(Clone, Copy, Debug, PartialEq, Eq, Structural)]
pub enum StoreError {
    /// A bundle with this identifier is stored already.
    AlreadyExists,
    /// No bundle with this identifier is stored.
    NotFound,
}

/// The stored packs, in the order in which they came.
pub struct BundleStore {
    packs: Vec<BundlePack>,
}

/// Whether no two packs hold bundles with the same identifier.
pub open spec fn ids_unique(s: Seq<PackView>) -> bool {
    keys_unique(s, |p: PackView| p.bundle.id)
}

/// Whether a pack with identifier `id` is among `s`.
pub open spec fn holds_id(s: Seq<PackView>, id: Seq<char>) -> bool {
    exists|i: int| 0 <= i < s.len() && #[trigger] s[i].bundle.id == id
}

/// The position of the pack with identifier `id` in `s`.
pub open spec fn position_of(s: Seq<PackView>, id: Seq<char>) -> int {
    choose|i: int| 0 <= i < s.len() && #[trigger] s[i].bundle.id == id
}

/// Whether exactly one pack of `s` holds identifier `id`.
pub open spec fn exactly_one(s: Seq<PackView>, id: Seq<char>) -> bool {
    exists|i: int|
        0 <= i < s.len() && #[trigger] s[i].bundle.id == id && forall|j: int|
            0 <= j < s.len() && #[trigger] s[j].bundle.id == id ==> j == i
}

/// The identifiers of the packs of `s` in status `st`, in store order.
pub open spec fn ids_with_status(s: Seq<PackView>, st: BundleStatus) -> Seq<Seq<char>>
    decreases s.len(),
{
    if s.len() == 0 {
        Seq::empty()
    } else {
        let rest = ids_with_status(s.drop_last(), st);
        if s.last().status == st {
            rest.push(s.last().bundle.id)
        } else {
            rest
        }
    }
}

/// Whether the store sweep drops a pack at time `now`: it waits to be
/// forwarded and its lifetime has run out.
pub open spec fn swept(p: PackView, now: u64) -> bool {
    p.status == BundleStatus::Forwarding && lifetime_exceeded(p.bundle, now)
}

/// The packs of `s` that the sweep at time `now` keeps, in order.
pub open spec fn kept_after_sweep(s: Seq<PackView>, now: u64) -> Seq<PackView>
    decreases s.len(),
{
    if s.len() == 0 {
        Seq::empty()
    } else {
        let rest = kept_after_sweep(s.drop_last(), now);
        if swept(s.last(), now) {
            rest
        } else {
            rest.push(s.last())
        }
    }
}

/// Whether a pack waits for a routing decision or to be forwarded.
pub open spec fn awaits_forwarding(p: PackView) -> bool {
    p.status == BundleStatus::Dispatching || p.status == BundleStatus::Forwarding
}

/// The text of each string of `v`.
pub open spec fn texts(v: Seq<String>) -> Seq<Seq<char>> {
    v.map_values(|s: String| s@)
}

proof fn lemma_unique_position(s: Seq<PackView>, id: Seq<char>, i: int)
    requires
        ids_unique(s),
        0 <= i < s.len(),
        s[i].bundle.id == id,
    ensures
        holds_id(s, id),
        position_of(s, id) == i,
        exactly_one(s, id),
{
    assert(holds_id(s, id));
    let k = position_of(s, id);
    assert(s[k].bundle.id == id);
}

proof fn lemma_kept_subset(s: Seq<PackView>, now: u64)
    ensures
        forall|k: int|
            0 <= k < kept_after_sweep(s, now).len() ==> exists|i: int|
                0 <= i < s.len() && s[i] == #[trigger] kept_after_sweep(s, now)[k],
    decreases s.len(),
{
    if s.len() > 0 {
        lemma_kept_subset(s.drop_last(), now);
        let rest = kept_after_sweep(s.drop_last(), now);
        assert forall|k: int|
            0 <= k < kept_after_sweep(s, now).len() implies exists|i: int|
                0 <= i < s.len() && s[i] == #[trigger] kept_after_sweep(s, now)[k] by {
            if k < rest.len() {
                let i = choose|i: int| 0 <= i < s.drop_last().len() && s.drop_last()[i] == rest[k];
                assert(s[i] == kept_after_sweep(s, now)[k]);
            } else {
                assert(s[s.len() - 1] == kept_after_sweep(s, now)[k]);
            }
        }
    }
}

proof fn lemma_kept_unique(s: Seq<PackView>, now: u64)
    requires
        ids_unique(s),
    ensures
        ids_unique(kept_after_sweep(s, now)),
    decreases s.len(),
{
    if s.len() > 0 {
        let d = s.drop_last();
        assert(ids_unique(d));
        lemma_kept_unique(d, now);
        lemma_kept_subset(d, now);
        let rest = kept_after_sweep(d, now);
        if !swept(s.last(), now) {
            let r = rest.push(s.last());
            assert forall|i: int, j: int|
                0 <= i < r.len() && 0 <= j < r.len() && i != j implies #[trigger] r[i].bundle.id
                != #[trigger] r[j].bundle.id by {
                if i < rest.len() && j < rest.len() {
                    assert(r[i] == rest[i] && r[j] == rest[j]);
                } else if i < rest.len() {
                    let a = choose|a: int| 0 <= a < d.len() && d[a] == #[trigger] rest[i];
                    assert(s[a] == d[a]);
                    assert(s[s.len() - 1] == r[j]);
                } else {
                    let a = choose|a: int| 0 <= a < d.len() && d[a] == #[trigger] rest[j];
                    assert(s[a] == d[a]);
                    assert(s[s.len() - 1] == r[i]);
                }
            }
        }
    }
}

/// In a store that grew by one pack whose identifier it did not hold, that
/// pack is the one found for its identifier.
pub proof fn lemma_position_last(s0: Seq<PackView>, s1: Seq<PackView>, id: Seq<char>)
    requires
        ids_unique(s1),
        s1.len() == s0.len() + 1,
        s1.subrange(0, s0.len() as int) == s0,
        s1[s0.len() as int].bundle.id == id,
    ensures
        holds_id(s1, id),
        position_of(s1, id) == s0.len(),
{
    lemma_unique_position(s1, id, s0.len() as int);
}

impl View for BundleStore {
    type V = Seq<PackView>;

    closed spec fn view(&self) -> Seq<PackView> {
        self.packs@.map_values(|p: BundlePack| p@)
    }
}

impl BundleStore {
    /// The store's invariant: identifiers are unique.
    pub open spec fn wf(&self) -> bool {
        ids_unique(self@)
    }

    /// Whether a bundle with identifier `id` is stored.
    pub open spec fn contains(&self, id: Seq<char>) -> bool {
        holds_id(self@, id)
    }

    /// The pack stored for identifier `id` (meaningful where it is stored).
    pub open spec fn pack_of(&self, id: Seq<char>) -> PackView {
        self@[position_of(self@, id)]
    }

    /// An empty store.
    pub fn new() -> (r: BundleStore)
        ensures
            r@ == Seq::<PackView>::empty(),
            r.wf(),
    {
        BundleStore { packs: Vec::new() }
    }

    /// The number of stored bundles.
    pub fn len(&self) -> (r: usize)
        ensures
            r == self@.len(),
    {
        self.packs.len()
    }

    /// Where the pack with identifier `id` stands, if it is stored.
    fn find(&self, id: &str) -> (r: Option<usize>)
        requires
            self.wf(),
        ensures
            r is None <==> !self.contains(id@),
            r matches Some(i) ==> i < self@.len() && self@[i as int].bundle.id == id@ && i
                == position_of(self@, id@),
    {
        let key = id.to_owned();
        let mut i: usize = 0;
        while i < self.packs.len()
            invariant
                i <= self@.len(),
                key@ == id@,
                self.wf(),
                forall|k: int| 0 <= k < i ==> #[trigger] self@[k].bundle.id != id@,
            decreases self@.len() - i,
        {
            if self.packs[i].bundle.id == key {
                proof {
                    lemma_unique_position(self@, id@, i as int);
                }
                return Some(i);
            }
            i = i + 1;
        }
        None
    }

    /// Whether a bundle with identifier `id` is stored.
    pub fn has_item(&self, id: &str) -> (r: bool)
        requires
            self.wf(),
        ensures
            r == self.contains(id@),
    {
        self.find(id).is_some()
    }

    /// Stores a new bundle, received at time `now`, in status `Received`.
    /// Refused where its identifier is stored already.
    pub fn push(&mut self, bundle: Bundle, now: u64) -> (r: Result<(), StoreError>)
        requires
            old(self).wf(),
        ensures
            final(self).wf(),
            r is Err <==> old(self).contains(bundle.id@),
            r matches Err(e) ==> e == StoreError::AlreadyExists && final(self)@ == old(self)@,
            r is Ok ==> final(self)@ == old(self)@.push(
                PackView {
                    bundle: bundle@,
                    status: BundleStatus::Received,
                    received_at: now,
                    attempts: 0,
                    last_peers: Seq::empty(),
                },
            ),
    {
        if self.find(bundle.id.as_str()).is_some() {
            return Err(StoreError::AlreadyExists);
        }
        let pack = BundlePack::new(bundle, now);
        self.packs.push(pack);
        proof {
            assert(self@ =~= old(self)@.push(pack@));
        }
        Ok(())
    }

    /// A copy of the stored bundle with identifier `id`.
    pub fn get_bundle(&self, id: &str) -> (r: Option<Bundle>)
        requires
            self.wf(),
        ensures
            r is Some <==> self.contains(id@),
            r matches Some(b) ==> b@ == self.pack_of(id@).bundle,
    {
        match self.find(id) {
            Some(i) => Some(self.packs[i].bundle.copy()),
            None => None,
        }
    }

    /// A copy of the stored pack with identifier `id`.
    pub fn get_metadata(&self, id: &str) -> (r: Option<BundlePack>)
        requires
            self.wf(),
        ensures
            r is Some <==> self.contains(id@),
            r matches Some(p) ==> p@ == self.pack_of(id@),
    {
        match self.find(id) {
            Some(i) => Some(self.packs[i].copy()),
            None => None,
        }
    }

    /// Replaces the processing state of the stored pack that has the
    /// identifier of `pack` with that of `pack`; the stored bundle stays as it
    /// is. Refused where none is stored.
    pub fn update_metadata(&mut self, pack: BundlePack) -> (r: Result<(), StoreError>)
        requires
            old(self).wf(),
        ensures
            final(self).wf(),
            r is Ok <==> old(self).contains(pack.bundle.id@),
            r matches Err(e) ==> e == StoreError::NotFound && final(self)@ == old(self)@,
            r is Ok ==> final(self)@ == old(self)@.update(
                position_of(old(self)@, pack.bundle.id@),
                PackView { bundle: old(self).pack_of(pack.bundle.id@).bundle, ..pack@ },
            ),
    {
        match self.find(pack.bundle.id.as_str()) {
            Some(i) => {
                let bundle = self.packs[i].bundle.copy();
                let np = BundlePack {
                    bundle,
                    status: pack.status,
                    received_at: pack.received_at,
                    attempts: pack.attempts,
                    last_peers: pack.last_peers,
                };
                let ghost pv = np@;
                self.packs.set(i, np);
                proof {
                    assert(self@ =~= old(self)@.update(i as int, pv));
                    lemma_update_unique(old(self)@, |p: PackView| p.bundle.id, i as int, pv);
                }
                Ok(())
            },
            None => Err(StoreError::NotFound),
        }
    }

    /// Removes the stored bundle with identifier `id`; refused where none is
    /// stored.
    pub fn remove(&mut self, id: &str) -> (r: Result<(), StoreError>)
        requires
            old(self).wf(),
        ensures
            final(self).wf(),
            r is Ok <==> old(self).contains(id@),
            r matches Err(e) ==> e == StoreError::NotFound && final(self)@ == old(self)@,
            r is Ok ==> final(self)@ == old(self)@.remove(position_of(old(self)@, id@)),
            !final(self).contains(id@),
    {
        match self.find(id) {
            Some(i) => {
                self.packs.remove(i);
                proof {
                    let o = old(self)@;
                    assert(self@ =~= o.remove(i as int));
                    lemma_remove_unique(o, |p: PackView| p.bundle.id, i as int);
                    if self.contains(id@) {
                        let k = choose|k: int| 0 <= k < self@.len() && #[trigger] self@[k].bundle.id == id@;
                        let k2 = if k < i { k } else { k + 1 };
                        assert(o[k2] == self@[k]);
                    }
                }
                Ok(())
            },
            None => Err(StoreError::NotFound),
        }
    }

    /// The identifiers of the bundles in status `st`, in store order.
    fn ids_in_status(&self, st: BundleStatus) -> (r: Vec<String>)
        ensures
            texts(r@) == ids_with_status(self@, st),
    {
        let mut r: Vec<String> = Vec::new();
        let mut i: usize = 0;
        while i < self.packs.len()
            invariant
                i <= self@.len(),
                texts(r@) == ids_with_status(self@.subrange(0, i as int), st),
            decreases self@.len() - i,
        {
            proof {
                let s = self@.subrange(0, i as int + 1);
                assert(s.drop_last() =~= self@.subrange(0, i as int));
            }
            if self.packs[i].status == st {
                let id = self.packs[i].bundle.id.clone();
                r.push(id);
            }
            proof {
                assert(texts(r@) =~= ids_with_status(self@.subrange(0, i as int + 1), st));
            }
            i = i + 1;
        }
        assert(self@.subrange(0, self@.len() as int) =~= self@);
        r
    }

    /// The identifiers of the bundles that wait to be forwarded, in store
    /// order.
    pub fn pending(&self) -> (r: Vec<String>)
        ensures
            texts(r@) == ids_with_status(self@, BundleStatus::Forwarding),
    {
        self.ids_in_status(BundleStatus::Forwarding)
    }

    /// The identifiers of the bundles for which a routing decision was asked,
    /// in store order.
    pub fn forwarding(&self) -> (r: Vec<String>)
        ensures
            texts(r@) == ids_with_status(self@, BundleStatus::Dispatching),
    {
        self.ids_in_status(BundleStatus::Dispatching)
    }

    /// Drops the bundles that wait to be forwarded and whose lifetime has run
    /// out at time `now`; keeps the others in order.
    pub fn delete_expired(&mut self, now: u64)
        requires
            old(self).wf(),
        ensures
            final(self).wf(),
            final(self)@ == kept_after_sweep(old(self)@, now),
    {
        let mut old_packs: Vec<BundlePack> = Vec::new();
        std::mem::swap(&mut old_packs, &mut self.packs);
        let ghost o = old(self)@;
        assert(old_packs@.map_values(|p: BundlePack| p@) == o);
        let mut i: usize = 0;
        while i < old_packs.len()
            invariant
                i <= old_packs@.len(),
                old_packs@.map_values(|p: BundlePack| p@) == o,
                self@ == kept_after_sweep(o.subrange(0, i as int), now),
            decreases old_packs@.len() - i,
        {
            proof {
                let s = o.subrange(0, i as int + 1);
                assert(s.drop_last() =~= o.subrange(0, i as int));
                assert(s.last() == old_packs@[i as int]@);
            }
            let keep = !(old_packs[i].status == BundleStatus::Forwarding
                && old_packs[i].bundle.is_lifetime_exceeded(now));
            if keep {
                let p = old_packs[i].copy();
                let ghost before = self@;
                self.packs.push(p);
                proof {
                    assert(self@ =~= before.push(p@));
                }
            }
            i = i + 1;
        }
        proof {
            assert(o.subrange(0, o.len() as int) =~= o);
            lemma_kept_unique(o, now);
        }
    }

    /// The identifiers of the bundles that wait for a routing decision or to
    /// be forwarded, oldest (by creation time) first.
    pub fn ids_oldest_first(&self) -> (r: Vec<String>)
        requires
            self.wf(),
        ensures
            forall|k: int|
                0 <= k < r@.len() ==> self.contains((#[trigger] r@[k])@) && awaits_forwarding(
                    self.pack_of(r@[k]@),
                ),
            forall|j: int|
                0 <= j < self@.len() && awaits_forwarding(#[trigger] self@[j]) ==> exists|k: int|
                    0 <= k < r@.len() && (#[trigger] r@[k])@ == self@[j].bundle.id,
            forall|a: int, b: int| 0 <= a < b < r@.len() ==> (#[trigger] r@[a])@ != (#[trigger] r@[b])@,
            forall|a: int, b: int|
                0 <= a < b < r@.len() ==> self.pack_of((#[trigger] r@[a])@).bundle.creation_time
                    <= self.pack_of((#[trigger] r@[b])@).bundle.creation_time,
    {
        let ghost v = self@;
        let mut idx: Vec<usize> = Vec::new();
        let mut i: usize = 0;
        while i < self.packs.len()
            invariant
                i <= v.len(),
                v == self@,
                forall|k: int|
                    0 <= k < idx@.len() ==> (#[trigger] idx@[k]) < i && awaits_forwarding(
                        v[idx@[k] as int],
                    ),
                forall|j: int|
                    0 <= j < i && awaits_forwarding(#[trigger] v[j]) ==> exists|k: int|
                        0 <= k < idx@.len() && (#[trigger] idx@[k]) == j,
                forall|a: int, b: int|
                    0 <= a < b < idx@.len() ==> (#[trigger] idx@[a]) != (#[trigger] idx@[b]),
                forall|a: int, b: int|
                    0 <= a < b < idx@.len() ==> v[(#[trigger] idx@[a]) as int].bundle.creation_time
                        <= v[(#[trigger] idx@[b]) as int].bundle.creation_time,
            decreases v.len() - i,
        {
            let st = self.packs[i].status;
            if st == BundleStatus::Dispatching || st == BundleStatus::Forwarding {
                let t = self.packs[i].bundle.creation_time;
                let mut pos: usize = 0;
                while pos < idx.len() && self.packs[idx[pos]].bundle.creation_time <= t
                    invariant
                        pos <= idx@.len(),
                        v == self@,
                        t == v[i as int].bundle.creation_time,
                        forall|k: int| 0 <= k < idx@.len() ==> (#[trigger] idx@[k]) < i,
                        i < v.len(),
                        forall|m: int|
                            0 <= m < pos ==> v[(#[trigger] idx@[m]) as int].bundle.creation_time <= t,
                    decreases idx@.len() - pos,
                {
                    pos = pos + 1;
                }
                let ghost o = idx@;
                proof {
                    assert forall|m: int| pos <= m < o.len() implies v[(#[trigger] o[m]) as int].bundle.creation_time
                        > t by {
                        assert(v[o[pos as int] as int].bundle.creation_time > t);
                        if m > pos {
                            assert(v[o[pos as int] as int].bundle.creation_time <= v[o[m] as int].bundle.creation_time);
                        }
                    }
                }
                idx.insert(pos, i);
                proof {
                    let n = idx@;
                    assert(n == o.insert(pos as int, i));
                    assert forall|m: int| 0 <= m < n.len() implies #[trigger] n[m] == if m < pos {
                        o[m]
                    } else if m == pos {
                        i
                    } else {
                        o[m - 1]
                    } by {}
                    assert forall|j: int|
                        0 <= j < i + 1 && awaits_forwarding(#[trigger] v[j]) implies exists|k: int|
                            0 <= k < n.len() && (#[trigger] n[k]) == j by {
                        if j < i {
                            let k = choose|k: int| 0 <= k < o.len() && (#[trigger] o[k]) == j;
                            if k < pos {
                                assert(n[k] == j);
                            } else {
                                assert(n[k + 1] == j);
                            }
                        } else {
                            assert(n[pos as int] == j);
                        }
                    }
                    assert forall|a: int, b: int| 0 <= a < b < n.len() implies (#[trigger] n[a]) != (
                    #[trigger] n[b]) by {
                        if a != pos && b != pos {
                            let a2 = if a < pos { a } else { a - 1 };
                            let b2 = if b < pos { b } else { b - 1 };
                            assert(o[a2] != o[b2]);
                        } else if a == pos {
                            assert(o[b - 1] < i);
                        } else {
                            assert(o[a] < i);
                        }
                    }
                    assert forall|a: int, b: int|
                        0 <= a < b < n.len() implies v[(#[trigger] n[a]) as int].bundle.creation_time
                        <= v[(#[trigger] n[b]) as int].bundle.creation_time by {
                        if a != pos && b != pos {
                            let a2 = if a < pos { a } else { a - 1 };
                            let b2 = if b < pos { b } else { b - 1 };
                            if a2 < b2 {
                                assert(v[o[a2] as int].bundle.creation_time <= v[o[b2] as int].bundle.creation_time);
                            }
                        } else if a == pos {
                            assert(v[o[b - 1] as int].bundle.creation_time > t);
                        } else {
                            assert(v[o[a] as int].bundle.creation_time <= t);
                        }
                    }
                }
            } else {
                proof {
                    assert forall|j: int|
                        0 <= j < i + 1 && awaits_forwarding(#[trigger] v[j]) implies exists|k: int|
                            0 <= k < idx@.len() && (#[trigger] idx@[k]) == j by {
                        if j < i {
                        }
                    }
                }
            }
            i = i + 1;
        }
        let mut r: Vec<String> = Vec::new();
        let mut k: usize = 0;
        while k < idx.len()
            invariant
                k <= idx@.len(),
                v == self@,
                self.wf(),
                r@.len() == k,
                forall|m: int| 0 <= m < idx@.len() ==> (#[trigger] idx@[m]) < v.len(),
                forall|m: int| 0 <= m < k ==> (#[trigger] r@[m])@ == v[idx@[m] as int].bundle.id,
            decreases idx@.len() - k,
        {
            r.push(self.packs[idx[k]].bundle.id.clone());
            k = k + 1;
        }
        proof {
            assert forall|m: int| 0 <= m < r@.len() implies position_of(v, (#[trigger] r@[m])@) == idx@[m] as int
                && holds_id(v, r@[m]@) by {
                lemma_unique_position(v, r@[m]@, idx@[m] as int);
            }
            assert forall|j: int|
                0 <= j < v.len() && awaits_forwarding(#[trigger] v[j]) implies exists|k: int|
                    0 <= k < r@.len() && (#[trigger] r@[k])@ == v[j].bundle.id by {
                let k = choose|k: int| 0 <= k < idx@.len() && (#[trigger] idx@[k]) == j;
                assert(r@[k]@ == v[j].bundle.id);
            }
            assert forall|a: int, b: int| 0 <= a < b < r@.len() implies (#[trigger] r@[a])@ != (
            #[trigger] r@[b])@ by {
                assert(idx@[a] != idx@[b]);
            }
        }
        r
    }
}

} // verus!
