//! The storage of one (identifier kind, component type) pair: an ordered map
//! from the keys of the identifiers to the components.
use super::world::{is_traversal, lemma_key_injective, Component, ComponentStorage, Id, Iterate};
use std::collections::BTreeMap;
use std::marker::PhantomData;
use vstd::prelude::*;
use vstd::set_lib::lemma_map_size;
use vstd::std_specs::btree::{increasing_seq, spec_keys_iter};
use vstd::std_specs::cmp::OrdSpec;
use vstd::std_specs::iter::IteratorSpec;

verus! {

/// The components filed under the keys of `m`, by identifier.
pub open spec fn by_id<I: Id, C>(m: Map<u64, C>) -> Map<I, C> {
    Map::new(|id: I| m.contains_key(id.key()), |id: I| m[id.key()])
}

proof fn lemma_by_id_insert<I: Id, C>(m: Map<u64, C>, id: I, c: C)
    ensures
        by_id::<I, C>(m.insert(id.key(), c)) == by_id::<I, C>(m).insert(id, c),
{
    assert forall|other: I| other.key() == id.key() implies other == id by {
        lemma_key_injective(other, id);
    }
    assert(by_id::<I, C>(m.insert(id.key(), c)) =~= by_id::<I, C>(m).insert(id, c));
}

proof fn lemma_by_id_remove<I: Id, C>(m: Map<u64, C>, id: I)
    ensures
        by_id::<I, C>(m.remove(id.key())) == by_id::<I, C>(m).remove(id),
{
    assert forall|other: I| other.key() == id.key() implies other == id by {
        lemma_key_injective(other, id);
    }
    assert(by_id::<I, C>(m.remove(id.key())) =~= by_id::<I, C>(m).remove(id));
}

proof fn lemma_by_id_empty<I: Id, C>()
    ensures
        by_id::<I, C>(Map::<u64, C>::empty()) == Map::<I, C>::empty(),
{
    assert(by_id::<I, C>(Map::<u64, C>::empty()) =~= Map::<I, C>::empty());
}

proof fn lemma_by_id_len<I: Id, C>(m: Map<u64, C>)
    requires
        m.dom().finite(),
    ensures
        by_id::<I, C>(m).dom().finite(),
        by_id::<I, C>(m).len() == m.len(),
{
    let f = |k: u64| I::with_key(k);
    assert forall|a: u64, b: u64| #[trigger] f(a) == #[trigger] f(b) implies a == b by {
        I::lemma_key_of_with_key(a);
        I::lemma_key_of_with_key(b);
    }
    assert forall|id: I| by_id::<I, C>(m).dom().contains(id) <==> m.dom().map(f).contains(
        id,
    ) by {
        I::lemma_with_key_of_key(id);
        if m.dom().map(f).contains(id) {
            let k = choose|k: u64| m.dom().contains(k) && f(k) == id;
            I::lemma_key_of_with_key(k);
        }
    }
    assert(m.dom().map(f) =~= by_id::<I, C>(m).dom());
    lemma_map_size(m.dom(), by_id::<I, C>(m).dom(), f);
}

/// What it means for the keys of an ordered map or set to come out in
/// increasing order.
pub proof fn lemma_keys_increasing(keys: Seq<&u64>)
    requires
        increasing_seq(keys),
    ensures
        forall|i: int, j: int| 0 <= i < j < keys.len() ==> *keys[i] < *keys[j],
{
    reveal(vstd::laws_cmp::obeys_partial_cmp_spec_properties);
    reveal(vstd::laws_cmp::obeys_cmp_partial_ord);
    reveal(vstd::laws_cmp::obeys_cmp_ord);
    assert(vstd::laws_cmp::obeys_cmp::<&u64>());
    vstd::std_specs::btree::axiom_increasing_seq_meaning::<&u64>(keys);
    assert forall|i: int, j: int| 0 <= i < j < keys.len() implies *keys[i] < *keys[j] by {
        assert(OrdSpec::cmp_spec(&keys[i], &keys[j]) is Less);
    }
}

/// `BTreeMap::get_mut`: an exclusive borrow of the value filed under `key`,
/// or `None`, and then no change, when the map has no such key. The keys of
/// the map stay as they are; the value under `key` ends up as the caller
/// leaves it.
#[verifier::external_body]
fn map_get_mut<'a, C>(map: &'a mut BTreeMap<u64, C>, key: u64) -> (r: Option<&'a mut C>)
    ensures
        match r {
            Some(c) => old(map)@.contains_key(key) && *c == old(map)@[key] && final(map)@ == old(
                map,
            )@.insert(key, *final(c)),
            None => !old(map)@.contains_key(key) && final(map)@ == old(map)@,
        },
{
    map.get_mut(&key)
}

/// An ordered storage: traversals yield the identifiers by increasing key.
pub struct BTreeStorage<I: Id, C: Component> {
    map: BTreeMap<u64, C>,
    kind: PhantomData<I>,
}

impl<I: Id, C: Component> BTreeStorage<I, C> {
    /// The keys of the identifiers that bear a component, smallest first.
    fn sorted_keys(&self) -> (keys: Vec<u64>)
        ensures
            forall|i: int, j: int| 0 <= i < j < keys@.len() ==> keys@[i] < keys@[j],
            forall|k: u64| keys@.contains(k) <==> self.map@.contains_key(k),
    {
        let mut keys: Vec<u64> = Vec::new();
        let ghost all = spec_keys_iter(&self.map).remaining();
        for k in it: self.map.keys()
            invariant
                it.seq() == all,
                keys@.len() == it.index(),
                forall|i: int| 0 <= i < keys@.len() ==> keys@[i] == *all[i],
        {
            keys.push(*k);
        }
        proof {
            assert(keys@ =~= all.unref());
            lemma_keys_increasing(all);
            assert(all.unref().to_set() == self.map@.dom());
            assert forall|k: u64| keys@.contains(k) <==> self.map@.contains_key(k) by {
                assert(keys@.contains(k) <==> keys@.to_set().contains(k));
            }
        }
        keys
    }
}

impl<I: Id, C: Component> Default for BTreeStorage<I, C> {
    fn default() -> (s: Self)
        ensures
            s.contents() == Map::<I, C>::empty(),
    {
        Self::new()
    }
}

impl<I: Id, C: Component> ComponentStorage<I, C> for BTreeStorage<I, C> {
    closed spec fn contents(&self) -> Map<I, C> {
        by_id::<I, C>(self.map@)
    }

    proof fn lemma_contents_finite(&self) {
        lemma_by_id_len::<I, C>(self.map@);
    }

    fn new() -> (s: Self) {
        proof {
            lemma_by_id_empty::<I, C>();
        }
        BTreeStorage { map: BTreeMap::new(), kind: PhantomData }
    }

    fn has(&self, id: I) -> (b: bool) {
        let key: u64 = id.to_key();
        self.map.contains_key(&key)
    }

    fn get(&self, id: I) -> (r: Option<&C>) {
        let key: u64 = id.to_key();
        self.map.get(&key)
    }

    fn get_mut(&mut self, id: I) -> (r: Option<&mut C>) {
        let key: u64 = id.to_key();
        proof {
            assert forall|c: C| by_id::<I, C>(old(self).map@.insert(key, c)) == by_id::<I, C>(old(self).map@).insert(id, c) by {
                lemma_by_id_insert::<I, C>(old(self).map@, id, c);
            }
        }
        map_get_mut(&mut self.map, key)
    }

    fn insert(&mut self, id: I, c: C) -> (r: Option<C>) {
        let key: u64 = id.to_key();
        proof {
            lemma_by_id_insert::<I, C>(self.map@, id, c);
        }
        self.map.insert(key, c)
    }

    fn remove(&mut self, id: I) -> (r: Option<C>) {
        let key: u64 = id.to_key();
        proof {
            lemma_by_id_remove::<I, C>(self.map@, id);
        }
        self.map.remove(&key)
    }

    fn get_or_else<F: FnOnce() -> C>(&mut self, id: I, f: F) -> (r: &mut C) {
        let key: u64 = id.to_key();
        if !self.map.contains_key(&key) {
            let c = f();
            self.map.insert(key, c);
        }
        proof {
            assert forall|c: C| by_id::<I, C>(old(self).map@.insert(key, c)) == by_id::<I, C>(old(self).map@).insert(id, c) by {
                lemma_by_id_insert::<I, C>(old(self).map@, id, c);
            }
        }
        map_get_mut(&mut self.map, key).unwrap()
    }

    fn count(&self) -> (n: usize) {
        proof {
            lemma_by_id_len::<I, C>(self.map@);
        }
        self.map.len()
    }

    fn clear(&mut self) {
        proof {
            lemma_by_id_empty::<I, C>();
        }
        self.map.clear()
    }
}

/// A traversal of the identifiers of a storage, by increasing key.
pub struct IdsMap<'a, I: Id, C: Component> {
    storage: &'a BTreeStorage<I, C>,
    keys: Vec<u64>,
    at: usize,
}

impl<'a, I: Id, C: Component> IdsMap<'a, I, C> {
    #[verifier::type_invariant]
    spec fn well_formed(self) -> bool {
        self.at <= self.keys@.len()
    }

    /// The identifiers that are still to come, next first.
    pub closed spec fn remaining(&self) -> Seq<I> {
        self.keys@.skip(self.at as int).map_values(|k: u64| I::with_key(k))
    }

    /// The next identifier, or `None` when the traversal is over.
    pub fn next(&mut self) -> (r: Option<I>)
        ensures
            match r {
                Some(id) => old(self).remaining().len() > 0 && id == old(self).remaining()[0]
                    && final(self).remaining() == old(self).remaining().drop_first(),
                None => old(self).remaining().len() == 0 && final(self).remaining() == old(
                    self,
                ).remaining(),
            },
    {
        proof {
            use_type_invariant(&*self);
        }
        if self.at < self.keys.len() {
            let key: u64 = self.keys[self.at];
            self.at = self.at + 1;
            assert(final(self).remaining() =~= old(self).remaining().drop_first());
            Some(I::from_key(key))
        } else {
            None
        }
    }

    /// How many identifiers are still to come, as a lower and an upper bound.
    pub fn size_hint(&self) -> (r: (usize, Option<usize>))
        ensures
            r.0 == self.remaining().len(),
            r.1 == Some(r.0),
    {
        proof {
            use_type_invariant(self);
        }
        let left: usize = self.keys.len() - self.at;
        (left, Some(left))
    }

    /// The identifiers that are still to come, in a vector.
    pub fn collect(self) -> (ids: Vec<I>)
        ensures
            ids@ == self.remaining(),
    {
        let mut rest = self;
        let mut ids: Vec<I> = Vec::new();
        loop
            invariant
                ids@ + rest.remaining() == self.remaining(),
            ensures
                ids@ == self.remaining(),
            decreases rest.remaining().len(),
        {
            let ghost before = rest.remaining();
            match rest.next() {
                Some(id) => {
                    ids.push(id);
                    proof {
                        assert(ids@ + rest.remaining() =~= self.remaining()) by {
                            assert(before =~= seq![before[0]] + before.drop_first());
                        }
                    }
                },
                None => {
                    proof {
                        assert(ids@ + rest.remaining() =~= ids@);
                    }
                    break ;
                },
            }
        }
        ids
    }
}

/// A traversal of the identifiers of a storage with their components, by
/// increasing key.
pub struct IterMap<'a, I: Id, C: Component> {
    storage: &'a BTreeStorage<I, C>,
    keys: Vec<u64>,
    at: usize,
}

impl<'a, I: Id, C: Component> IterMap<'a, I, C> {
    #[verifier::type_invariant]
    spec fn well_formed(self) -> bool {
        &&& self.at <= self.keys@.len()
        &&& forall|i: int| 0 <= i < self.keys@.len() ==> self.storage.map@.contains_key(self.keys@[i])
    }

    /// The identifiers that are still to come with their components, next
    /// first.
    pub closed spec fn remaining(&self) -> Seq<(I, C)> {
        self.keys@.skip(self.at as int).map_values(
            |k: u64| (I::with_key(k), self.storage.map@[k]),
        )
    }

    /// The next identifier and its component, or `None` when the traversal
    /// is over.
    pub fn next(&mut self) -> (r: Option<(I, &'a C)>)
        ensures
            match r {
                Some((id, c)) => old(self).remaining().len() > 0 && (id, *c) == old(
                    self,
                ).remaining()[0] && final(self).remaining() == old(self).remaining().drop_first(),
                None => old(self).remaining().len() == 0 && final(self).remaining() == old(
                    self,
                ).remaining(),
            },
    {
        proof {
            use_type_invariant(&*self);
        }
        if self.at < self.keys.len() {
            let key: u64 = self.keys[self.at];
            self.at = self.at + 1;
            assert(final(self).remaining() =~= old(self).remaining().drop_first());
            match self.storage.map.get(&key) {
                Some(c) => Some((I::from_key(key), c)),
                None => {
                    proof {
                        assert(false);
                    }
                    None
                },
            }
        } else {
            None
        }
    }

    /// How many identifiers are still to come, as a lower and an upper bound.
    pub fn size_hint(&self) -> (r: (usize, Option<usize>))
        ensures
            r.0 == self.remaining().len(),
            r.1 == Some(r.0),
    {
        proof {
            use_type_invariant(self);
        }
        let left: usize = self.keys.len() - self.at;
        (left, Some(left))
    }
}

/// A traversal of the identifiers of a storage with their components, by
/// increasing key, that lends each component out for change. A component is
/// lent until the traversal is asked for the next one.
pub struct IterMutMap<'a, I: Id, C: Component> {
    /// The storage that is traversed.
    pub storage: &'a mut BTreeStorage<I, C>,
    /// The keys of the identifiers of the traversal, smallest first.
    pub keys: Vec<u64>,
    /// How many of them have been passed.
    pub at: usize,
}

impl<'a, I: Id, C: Component> IterMutMap<'a, I, C> {
    /// What the traversal relies on: every identifier still to come bears a
    /// component.
    pub closed spec fn well_formed(&self) -> bool {
        &&& self.at <= self.keys@.len()
        &&& forall|i: int| 0 <= i < self.keys@.len() ==> self.storage.map@.contains_key(self.keys@[i])
    }

    /// The exclusive borrow of the storage that the traversal holds.
    pub open spec fn storage_mut(&self) -> &'a mut BTreeStorage<I, C> {
        self.storage
    }

    /// The storage as the traversal sees it now.
    pub open spec fn spec_storage(&self) -> BTreeStorage<I, C> {
        *self.storage
    }

    /// The components of the storage as the traversal sees them now.
    pub open spec fn contents(&self) -> Map<I, C> {
        self.spec_storage().contents()
    }

    /// The identifiers that are still to come, next first.
    pub open spec fn remaining(&self) -> Seq<I> {
        self.keys@.skip(self.at as int).map_values(|k: u64| I::with_key(k))
    }

    /// The next identifier and its component, lent for change, or `None` when
    /// the traversal is over. What the caller leaves in the component is what
    /// the storage holds afterwards.
    pub fn next(&mut self) -> (r: Option<(I, &mut C)>)
        requires
            old(self).well_formed(),
        ensures
            final(self).well_formed(),
            *final(final(self).storage_mut()) == *final(old(self).storage_mut()),
            match r {
                Some((id, c)) => {
                    &&& old(self).remaining().len() > 0
                    &&& id == old(self).remaining()[0]
                    &&& old(self).contents().contains_key(id)
                    &&& *c == old(self).contents()[id]
                    &&& final(self).remaining() == old(self).remaining().drop_first()
                    &&& final(self).contents() == old(self).contents().insert(id, *final(c))
                },
                None => {
                    &&& old(self).remaining().len() == 0
                    &&& final(self).remaining() == old(self).remaining()
                    &&& final(self).contents() == old(self).contents()
                },
            },
    {
        if self.at < self.keys.len() {
            let key: u64 = self.keys[self.at];
            let id = I::from_key(key);
            self.at = self.at + 1;
            proof {
                I::lemma_key_of_with_key(key);
                assert(self.remaining() =~= old(self).remaining().drop_first());
                assert forall|c: C|
                    by_id::<I, C>(old(self).storage.map@.insert(key, c)) == by_id::<I, C>(
                        old(self).storage.map@,
                    ).insert(id, c) by {
                    lemma_by_id_insert::<I, C>(old(self).storage.map@, id, c);
                }
            }
            match map_get_mut(&mut self.storage.map, key) {
                Some(c) => Some((id, c)),
                None => {
                    proof {
                        assert(false);
                    }
                    None
                },
            }
        } else {
            None
        }
    }

    /// How many identifiers are still to come, as a lower and an upper bound.
    pub fn size_hint(&self) -> (r: (usize, Option<usize>))
        requires
            self.well_formed(),
        ensures
            r.0 == self.remaining().len(),
            r.1 == Some(r.0),
    {
        let left: usize = self.keys.len() - self.at;
        (left, Some(left))
    }
}

proof fn lemma_keys_traversal<I: Id, C>(keys: Seq<u64>, m: Map<u64, C>)
    requires
        forall|i: int, j: int| 0 <= i < j < keys.len() ==> keys[i] < keys[j],
        forall|k: u64| keys.contains(k) <==> m.contains_key(k),
    ensures
        is_traversal(keys.map_values(|k: u64| I::with_key(k)), by_id::<I, C>(m).dom()),
{
    let ids = keys.map_values(|k: u64| I::with_key(k));
    assert forall|i: int| 0 <= i < ids.len() implies #[trigger] ids[i].key() == keys[i] by {
        I::lemma_key_of_with_key(keys[i]);
    }
    assert forall|id: I| ids.contains(id) <==> by_id::<I, C>(m).dom().contains(id) by {
        I::lemma_with_key_of_key(id);
        if ids.contains(id) {
            let i = choose|i: int| 0 <= i < ids.len() && ids[i] == id;
            assert(ids[i].key() == keys[i]);
            assert(keys.contains(keys[i]));
        }
        if by_id::<I, C>(m).dom().contains(id) {
            assert(keys.contains(id.key()));
            let i = choose|i: int| 0 <= i < keys.len() && keys[i] == id.key();
            assert(ids[i] == id);
        }
    }
}

impl<'a, I: Id + 'a, C: Component + 'a> Iterate<'a, I, C> for BTreeStorage<I, C> {
    type Ids = IdsMap<'a, I, C>;

    type Iter = IterMap<'a, I, C>;

    type IterMut = IterMutMap<'a, I, C>;

    /// The identifiers that bear a component, by increasing key.
    fn ids(&'a self) -> (it: IdsMap<'a, I, C>)
        ensures
            is_traversal(it.remaining(), self.contents().dom()),
    {
        let keys = self.sorted_keys();
        proof {
            lemma_keys_traversal::<I, C>(keys@, self.map@);
            assert(keys@.skip(0) =~= keys@);
        }
        IdsMap { storage: self, keys: keys, at: 0 }
    }

    /// The identifiers that bear a component, by increasing key, each with
    /// its component.
    fn iter(&'a self) -> (it: IterMap<'a, I, C>)
        ensures
            is_traversal(it.remaining().map_values(|e: (I, C)| e.0), self.contents().dom()),
            forall|i: int|
                0 <= i < it.remaining().len() ==> self.contents().contains_key(
                    (#[trigger] it.remaining()[i]).0,
                ) && it.remaining()[i].1 == self.contents()[it.remaining()[i].0],
    {
        let keys = self.sorted_keys();
        proof {
            lemma_keys_traversal::<I, C>(keys@, self.map@);
            assert(keys@.skip(0) =~= keys@);
            let entries = keys@.map_values(|k: u64| (I::with_key(k), self.map@[k]));
            assert(entries.map_values(|e: (I, C)| e.0) =~= keys@.map_values(
                |k: u64| I::with_key(k),
            ));
            assert forall|i: int| 0 <= i < entries.len() implies self.contents().contains_key(
                (#[trigger] entries[i]).0,
            ) && entries[i].1 == self.contents()[entries[i].0] by {
                I::lemma_key_of_with_key(keys@[i]);
                assert(keys@.contains(keys@[i]));
            }
            assert forall|i: int| 0 <= i < keys@.len() implies self.map@.contains_key(
                keys@[i],
            ) by {
                assert(keys@.contains(keys@[i]));
            }
        }
        IterMap { storage: self, keys: keys, at: 0 }
    }

    /// The identifiers that bear a component, by increasing key, each with
    /// its component lent for change. What the traversal leaves in the
    /// storage is what the storage holds once the traversal is given up.
    fn iter_mut(&'a mut self) -> (it: IterMutMap<'a, I, C>)
        ensures
            it.well_formed(),
            is_traversal(it.remaining(), old(self).contents().dom()),
            it.contents() == old(self).contents(),
            *final(it.storage_mut()) == *final(self),
    {
        let keys = self.sorted_keys();
        proof {
            lemma_keys_traversal::<I, C>(keys@, self.map@);
            assert(keys@.skip(0) =~= keys@);
            assert forall|i: int| 0 <= i < keys@.len() implies self.map@.contains_key(
                keys@[i],
            ) by {
                assert(keys@.contains(keys@[i]));
            }
        }
        IterMutMap { storage: self, keys: keys, at: 0 }
    }
}

} // verus!
