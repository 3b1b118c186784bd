//! The traits that make up a world and the reference wrappers that bind one
//! identifier to it.
use vstd::prelude::*;

verus! {

/// The result of a query: `Err(())` stands for "absent".
pub type QueryResult<T> = Result<T, ()>;

/// The result of an action on the world.
pub type ActionResult<T> = Result<T, ActionError>;

/// Why an action on the world did not take place.
#[derive(Debug, PartialEq, Eq, Structural)]
pub enum ActionError {
    InCheckOnlyMode,
    Failed,
}

impl From<()> for ActionError {
    fn from(absent: ()) -> (e: ActionError) {
        ActionError::Failed
    }
}

impl vstd::std_specs::convert::FromSpecImpl<()> for ActionError {
    open spec fn obeys_from_spec() -> bool {
        true
    }

    open spec fn from_spec(absent: ()) -> ActionError {
        ActionError::Failed
    }
}

/// A value that can be attached to an identifier.
pub trait Component {
}

/// An identifier kind: a copyable value that stands in one-to-one
/// correspondence with the 64-bit keys by which storages are ordered.
/// Identifiers are equal exactly when their keys are, and traversals yield
/// them by increasing key.
pub trait Id: Copy {
    /// The key under which storages file this identifier.
    spec fn key(self) -> u64;

    /// The identifier filed under `k`.
    spec fn with_key(k: u64) -> Self;

    /// Every key belongs to the identifier that `with_key` gives for it.
    proof fn lemma_key_of_with_key(k: u64)
        ensures
            Self::with_key(k).key() == k,
    ;

    /// An identifier is recovered from its key.
    proof fn lemma_with_key_of_key(id: Self)
        ensures
            Self::with_key(id.key()) == id,
    ;

    fn to_key(self) -> (k: u64)
        ensures
            k == self.key(),
    ;

    fn from_key(k: u64) -> (id: Self)
        ensures
            id == Self::with_key(k),
    ;
}

/// Two identifiers with the same key are the same identifier.
pub proof fn lemma_key_injective<I: Id>(a: I, b: I)
    requires
        a.key() == b.key(),
    ensures
        a == b,
{
    I::lemma_with_key_of_key(a);
    I::lemma_with_key_of_key(b);
}

/// Zero or one component of type `C` for each identifier of kind `I`.
/// The model of a storage is the map from the identifiers that bear a
/// component to that component.
pub trait ComponentStorage<I: Id, C: Component>: Sized {
    /// The components held, by identifier.
    spec fn contents(&self) -> Map<I, C>;

    /// A storage holds finitely many components.
    proof fn lemma_contents_finite(&self)
        ensures
            self.contents().dom().finite(),
    ;

    fn new() -> (s: Self)
        ensures
            s.contents() == Map::<I, C>::empty(),
    ;

    fn has(&self, id: I) -> (b: bool)
        ensures
            b == self.contents().contains_key(id),
    ;

    fn get(&self, id: I) -> (r: Option<&C>)
        ensures
            match r {
                Some(c) => self.contents().contains_key(id) && *c == self.contents()[id],
                None => !self.contents().contains_key(id),
            },
    ;

    /// An exclusive borrow of the component of `id`; what the caller leaves in
    /// it is what the storage holds afterwards.
    fn get_mut(&mut self, id: I) -> (r: Option<&mut C>)
        ensures
            match r {
                Some(c) => old(self).contents().contains_key(id) && *c == old(self).contents()[id]
                    && final(self).contents() == old(self).contents().insert(id, *final(c)),
                None => !old(self).contents().contains_key(id) && final(self).contents() == old(
                    self,
                ).contents(),
            },
    ;

    /// Attaches `c` to `id` and hands back the component it replaces, if any.
    fn insert(&mut self, id: I, c: C) -> (r: Option<C>)
        ensures
            final(self).contents() == old(self).contents().insert(id, c),
            r == old(self).contents().get(id),
    ;

    /// Detaches the component of `id` and hands it back; nothing changes when
    /// `id` bears none.
    fn remove(&mut self, id: I) -> (r: Option<C>)
        ensures
            final(self).contents() == old(self).contents().remove(id),
            r == old(self).contents().get(id),
    ;

    /// The component of `id`, made by `f` and attached first when `id` bears
    /// none. `f` is called at most once, and only for an absent component:
    /// it need not even be callable otherwise.
    fn get_or_else<F: FnOnce() -> C>(&mut self, id: I, f: F) -> (r: &mut C)
        requires
            !old(self).contents().contains_key(id) ==> f.requires(()),
        ensures
            old(self).contents().contains_key(id) ==> *r == old(self).contents()[id],
            !old(self).contents().contains_key(id) ==> f.ensures((), *r),
            final(self).contents() == old(self).contents().insert(id, *final(r)),
    ;

    /// As `get_or_else`, with `C::default` for the factory.
    fn get_or_default(&mut self, id: I) -> (r: &mut C) where C: Default
        ensures
            old(self).contents().contains_key(id) ==> *r == old(self).contents()[id],
            !old(self).contents().contains_key(id) ==> call_ensures(C::default, (), *r),
            final(self).contents() == old(self).contents().insert(id, *final(r)),
    {
        self.get_or_else(id, C::default)
    }

    fn count(&self) -> (n: usize)
        ensures
            n == self.contents().len(),
    ;

    fn clear(&mut self)
        ensures
            final(self).contents() == Map::<I, C>::empty(),
    ;
}

/// Replacing: when `a` and then `b` are attached to `id`, the second `insert`
/// hands back `a`, and `get` finds `b` afterwards. Here `s0`, `s1` and `s2`
/// are the storage before, between and after the two calls.
pub proof fn lemma_insert_replaces<S: ComponentStorage<I, C>, I: Id, C: Component>(
    s0: S,
    s1: S,
    s2: S,
    id: I,
    a: C,
    b: C,
)
    requires
        s1.contents() == s0.contents().insert(id, a),
        s2.contents() == s1.contents().insert(id, b),
    ensures
        s1.contents().get(id) == Some(a),
        s2.contents().get(id) == Some(b),
        s2.contents() == s0.contents().insert(id, b),
{
    assert(s2.contents() =~= s0.contents().insert(id, b));
}

/// Removing what is not there: `remove` of an identifier that bears no
/// component hands back `None` and leaves the storage, and so its count, as
/// it was. Here `s0` and `s1` are the storage before and after the call.
pub proof fn lemma_remove_absent<S: ComponentStorage<I, C>, I: Id, C: Component>(
    s0: S,
    s1: S,
    id: I,
)
    requires
        !s0.contents().contains_key(id),
        s1.contents() == s0.contents().remove(id),
    ensures
        s0.contents().get(id) is None,
        s1.contents() == s0.contents(),
        s1.contents().len() == s0.contents().len(),
{
    assert(s1.contents() =~= s0.contents());
}

/// Removing what is there: the component comes back, the identifier bears
/// none afterwards, and the count goes down by one.
pub proof fn lemma_remove_present<S: ComponentStorage<I, C>, I: Id, C: Component>(
    s0: S,
    s1: S,
    id: I,
)
    requires
        s0.contents().contains_key(id),
        s1.contents() == s0.contents().remove(id),
    ensures
        s0.contents().get(id) == Some(s0.contents()[id]),
        s1.contents().get(id) is None,
        s1.contents().len() == s0.contents().len() - 1,
{
    s0.lemma_contents_finite();
}

/// `get_or_else` on an identifier that bears a component: the component is
/// handed out as it is, and as long as the caller does not change it the
/// storage stays as it was. Here `s0` is the storage before the call, `c` the
/// component handed out and `s1` the storage once the borrow has ended.
pub proof fn lemma_get_or_else_present<S: ComponentStorage<I, C>, I: Id, C: Component>(
    s0: S,
    s1: S,
    id: I,
    c: C,
)
    requires
        s0.contents().contains_key(id),
        c == s0.contents()[id],
        s1.contents() == s0.contents().insert(id, c),
    ensures
        s1.contents() == s0.contents(),
{
    assert(s1.contents() =~= s0.contents());
}

/// The count of a storage is the number of identifiers that a traversal of
/// it yields, and a traversal yields no identifier twice.
pub proof fn lemma_count_is_traversal_len<S: ComponentStorage<I, C>, I: Id, C: Component>(
    s: S,
    ids: Seq<I>,
)
    requires
        is_traversal(ids, s.contents().dom()),
    ensures
        ids.len() == s.contents().len(),
        ids.no_duplicates(),
        forall|i: int, j: int| 0 <= i < j < ids.len() ==> ids[i].key() < ids[j].key(),
{
    lemma_traversal_len(ids, s.contents().dom());
}

/// Whether `ids` lists the identifiers in `dom`, and no others, by strictly
/// increasing key.
pub open spec fn is_traversal<I: Id>(ids: Seq<I>, dom: Set<I>) -> bool {
    &&& forall|i: int, j: int| 0 <= i < j < ids.len() ==> ids[i].key() < ids[j].key()
    &&& forall|id: I| ids.contains(id) <==> dom.contains(id)
}

/// A traversal yields as many identifiers as there are, each once.
pub proof fn lemma_traversal_len<I: Id>(ids: Seq<I>, dom: Set<I>)
    requires
        is_traversal(ids, dom),
    ensures
        ids.no_duplicates(),
        dom.finite(),
        ids.len() == dom.len(),
{
    assert(ids.to_set() =~= dom) by {
        assert forall|id: I| ids.to_set().contains(id) <==> dom.contains(id) by {
            assert(ids.to_set().contains(id) <==> ids.contains(id));
        }
    }
    ids.unique_seq_to_set();
    vstd::seq_lib::seq_to_set_is_finite(ids);
}

/// There is one way only to traverse a set of identifiers: two traversals of
/// the same set yield the same identifiers in the same order.
pub proof fn lemma_traversal_unique<I: Id>(a: Seq<I>, b: Seq<I>, dom: Set<I>)
    requires
        is_traversal(a, dom),
        is_traversal(b, dom),
    ensures
        a == b,
    decreases a.len(),
{
    lemma_traversal_len(a, dom);
    lemma_traversal_len(b, dom);
    if a.len() > 0 {
        let last_a = a.last();
        let last_b = b.last();
        assert(a.contains(last_a));
        assert(b.contains(last_b));
        let i = choose|i: int| 0 <= i < b.len() && b[i] == last_a;
        let j = choose|j: int| 0 <= j < a.len() && a[j] == last_b;
        assert(last_a.key() == last_b.key());
        lemma_key_injective(last_a, last_b);
        let rest = dom.remove(last_a);
        assert(is_traversal(a.drop_last(), rest)) by {
            assert forall|id: I| a.drop_last().contains(id) <==> rest.contains(id) by {
                if a.drop_last().contains(id) {
                    let k = choose|k: int| 0 <= k < a.drop_last().len() && a.drop_last()[k] == id;
                    assert(a[k] == id);
                    assert(a.contains(id));
                }
                if rest.contains(id) {
                    assert(a.contains(id));
                    let k = choose|k: int| 0 <= k < a.len() && a[k] == id;
                    assert(a.drop_last()[k] == id);
                }
            }
        }
        assert(is_traversal(b.drop_last(), rest)) by {
            assert forall|id: I| b.drop_last().contains(id) <==> rest.contains(id) by {
                if b.drop_last().contains(id) {
                    let k = choose|k: int| 0 <= k < b.drop_last().len() && b.drop_last()[k] == id;
                    assert(b[k] == id);
                    assert(b.contains(id));
                }
                if rest.contains(id) {
                    assert(b.contains(id));
                    let k = choose|k: int| 0 <= k < b.len() && b[k] == id;
                    assert(b.drop_last()[k] == id);
                }
            }
        }
        lemma_traversal_unique(a.drop_last(), b.drop_last(), rest);
        assert(a =~= a.drop_last().push(last_a));
        assert(b =~= b.drop_last().push(last_b));
    } else {
        assert(a =~= b);
    }
}

/// Whether `first` is what a traversal of `dom` yields first: the identifier
/// in `dom` with the smallest key, or `None` where `dom` is empty.
pub open spec fn is_first<I: Id>(first: Option<I>, dom: Set<I>) -> bool {
    match first {
        Some(id) => dom.contains(id) && forall|other: I|
            dom.contains(other) ==> id.key() <= #[trigger] other.key(),
        None => forall|other: I| !dom.contains(other),
    }
}

/// The head of a traversal is the first identifier of what it traverses.
pub proof fn lemma_first_of_traversal<I: Id>(ids: Seq<I>, dom: Set<I>)
    requires
        is_traversal(ids, dom),
    ensures
        is_first(if ids.len() > 0 { Some(ids[0]) } else { None }, dom),
{
    if ids.len() > 0 {
        assert(ids.contains(ids[0]));
        assert forall|other: I| dom.contains(other) implies ids[0].key() <= #[trigger] other.key() by {
            assert(ids.contains(other));
            let i = choose|i: int| 0 <= i < ids.len() && ids[i] == other;
        }
    } else {
        assert forall|other: I| !dom.contains(other) by {
            assert(!ids.contains(other));
        }
    }
}

/// A set of identifiers has one first identifier only.
pub proof fn lemma_first_unique<I: Id>(a: Option<I>, b: Option<I>, dom: Set<I>)
    requires
        is_first(a, dom),
        is_first(b, dom),
    ensures
        a == b,
{
    if a is Some && b is Some {
        lemma_key_injective(a->0, b->0);
    }
}

/// What a traversal of `dom` yields first: the identifier in `dom` with the
/// smallest key, or `None` where `dom` is empty.
pub open spec fn first_id<I: Id>(dom: Set<I>) -> Option<I> {
    choose|first: Option<I>| is_first(first, dom)
}

/// `first_id` is the one first identifier.
pub proof fn lemma_first_id<I: Id>(first: Option<I>, dom: Set<I>)
    requires
        is_first(first, dom),
    ensures
        first_id(dom) == first,
{
    lemma_first_unique(first, first_id(dom), dom);
}

/// In a traversal the first identifier that meets `wanted` is the first of
/// the identifiers that meet it; where none in the traversal does, there is
/// no such identifier.
pub proof fn lemma_first_wanted<I: Id>(
    ids: Seq<I>,
    dom: Set<I>,
    wanted: spec_fn(I) -> bool,
    at: int,
)
    requires
        is_traversal(ids, dom),
        0 <= at <= ids.len(),
        forall|i: int| 0 <= i < at ==> !wanted(#[trigger] ids[i]),
        at < ids.len() ==> wanted(ids[at]),
    ensures
        first_id(dom.filter(wanted)) == if at < ids.len() {
            Some(ids[at])
        } else {
            None
        },
{
    let found = if at < ids.len() {
        Some(ids[at])
    } else {
        None
    };
    assert(is_first(found, dom.filter(wanted))) by {
        if at < ids.len() {
            assert(ids.contains(ids[at]));
            assert forall|other: I| dom.filter(wanted).contains(other) implies ids[at].key()
                <= #[trigger] other.key() by {
                assert(ids.contains(other));
                let i = choose|i: int| 0 <= i < ids.len() && ids[i] == other;
            }
        } else {
            assert forall|other: I| !dom.filter(wanted).contains(other) by {
                if dom.contains(other) {
                    assert(ids.contains(other));
                    let i = choose|i: int| 0 <= i < ids.len() && ids[i] == other;
                }
            }
        }
    }
    lemma_first_id(found, dom.filter(wanted));
}

/// The identifiers in `dom` in the order in which a traversal yields them.
pub open spec fn traversal_of<I: Id>(dom: Set<I>) -> Seq<I> {
    choose|ids: Seq<I>| is_traversal(ids, dom)
}

/// `traversal_of` is the one traversal.
pub proof fn lemma_traversal_of<I: Id>(ids: Seq<I>, dom: Set<I>)
    requires
        is_traversal(ids, dom),
    ensures
        traversal_of(dom) == ids,
{
    lemma_traversal_unique(ids, traversal_of(dom), dom);
}

/// The three ordered traversals of a storage.
pub trait Iterate<'a, I: Id, C: Component>: ComponentStorage<I, C> {
    type Ids;

    type Iter;

    type IterMut;

    /// The identifiers that bear a component.
    fn ids(&'a self) -> Self::Ids;

    /// The identifiers with their components.
    fn iter(&'a self) -> Self::Iter;

    /// The identifiers with their components, borrowed exclusively.
    fn iter_mut(&'a mut self) -> Self::IterMut;
}

/// The aggregate that owns every storage of a schema.
pub trait World: Sized {
    /// No identifier bears any component.
    spec fn is_empty(&self) -> bool;

    fn new() -> (w: Self)
        ensures
            w.is_empty(),
    ;

    /// The failure that actions on this world report.
    fn err<T>(&self) -> (r: ActionResult<T>)
        ensures
            r == Err::<T, ActionError>(ActionError::Failed),
    {
        Err(ActionError::Failed)
    }
}

/// A world whose schema declares component type `C` for identifier kind `I`:
/// it owns exactly one storage for the pair.
pub trait EntityComponent<I: Id, C: Component>: World {
    type Storage: ComponentStorage<I, C>;

    /// The storage of the pair.
    spec fn storage(&self) -> Self::Storage;

    /// This world with the storage of the pair replaced by `s` and every
    /// other storage as it is.
    spec fn replaced(&self, s: Self::Storage) -> Self;

    proof fn lemma_replaced_storage(&self, s: Self::Storage)
        ensures
            self.replaced(s).storage() == s,
    ;

    /// Of two replacements the second counts.
    proof fn lemma_replaced_twice(&self, first: Self::Storage, second: Self::Storage)
        ensures
            self.replaced(first).replaced(second) == self.replaced(second),
    ;

    /// Replacing the storage by itself changes nothing.
    proof fn lemma_replaced_same(&self)
        ensures
            self.replaced(self.storage()) == *self,
    ;

    /// In an empty world the storage of the pair holds nothing.
    proof fn lemma_empty_storage(&self)
        requires
            self.is_empty(),
        ensures
            self.storage().contents() == Map::<I, C>::empty(),
    ;

    fn borrow(&self) -> (r: &Self::Storage)
        ensures
            *r == self.storage(),
    ;

    fn borrow_mut(&mut self) -> (r: &mut Self::Storage)
        ensures
            *r == old(self).storage(),
            *final(self) == old(self).replaced(*final(r)),
    ;
}

/// An operation that is run once for each component type that a world
/// declares for identifier kind `I`, with read access to the world. It can
/// be run for every component type, whatever the world holds.
pub trait VisitComponentTypes<S, I: Id>: Sized {
    /// The visitor after it has been run for component type `C` on `s`.
    spec fn visited<C: Component>(self, s: &S) -> Self where S: EntityComponent<I, C>;

    fn visit<C: Component>(&mut self, s: &S) where S: EntityComponent<I, C>
        ensures
            *final(self) == old(self).visited::<C>(s),
    ;
}

/// An operation that is run once for each component type that a world
/// declares for identifier kind `I`, with exclusive access to the world. It
/// can be run for every component type, whatever the world holds.
pub trait VisitComponentTypesMut<S, I: Id>: Sized {
    /// The visitor and the world after the visitor has been run for
    /// component type `C` on `s`.
    spec fn visited_mut<C: Component>(self, s: S) -> (Self, S) where S: EntityComponent<I, C>;

    fn visit_mut<C: Component>(&mut self, s: &mut S) where S: EntityComponent<I, C>
        ensures
            (*final(self), *final(s)) == old(self).visited_mut::<C>(*old(s)),
    ;
}

/// A world whose schema declares identifier kind `I`.
pub trait EntityStorage<I: Id>: World {
    /// Runs `v` once for each component type that the schema declares for
    /// `I`, in the order of the declaration. Each world says in its own
    /// contract which types these are.
    fn visit_component_types<V: VisitComponentTypes<Self, I>>(&self, v: &mut V);

    /// Runs `v` once, with exclusive access to the world, for each component
    /// type that the schema declares for `I`, in the order of the
    /// declaration. Each world says in its own contract which types these are.
    fn visit_component_types_mut<V: VisitComponentTypesMut<Self, I>>(&mut self, v: &mut V);

    /// The storage of component type `C`.
    fn component<C: Component>(&self) -> (r: &Self::Storage) where Self: EntityComponent<I, C>
        ensures
            *r == self.storage(),
    {
        self.borrow()
    }

    /// The storage of component type `C`, borrowed exclusively.
    fn component_mut<C: Component>(&mut self) -> (r: &mut Self::Storage) where
        Self: EntityComponent<I, C>,

        ensures
            *r == old(self).storage(),
            *final(self) == old(self).replaced(*final(r)),
    {
        self.borrow_mut()
    }

    /// A read-only view of `id` in this world.
    fn entity(&self, id: I) -> (e: EntityRef<'_, Self, I>)
        ensures
            *e.world() == *self,
            e.id() == id,
    {
        EntityRef { world: self, id: id }
    }

    /// An exclusive view of `id` in this world. What the view leaves in the
    /// world is what the world holds once the view is given up.
    fn entity_mut(&mut self, id: I) -> (e: EntityMut<'_, Self, I>)
        ensures
            *e.world_mut() == *old(self),
            *final(e.world_mut()) == *final(self),
            e.id() == id,
            !e.is_committed(),
    {
        EntityMut { world: self, id: id, committed: false }
    }
}

/// `after` is `before` with the components of type `C` now being `m` and
/// every other storage as it was.
pub open spec fn updates<S: EntityComponent<I, C>, I: Id, C: Component>(
    before: S,
    after: S,
    m: Map<I, C>,
) -> bool {
    &&& after == before.replaced(after.storage())
    &&& after.storage().contents() == m
}

/// A read-only view of one identifier in a world.
pub struct EntityRef<'a, S, I: Id> {
    pub world: &'a S,
    pub id: I,
}

impl<'a, S, I: Id> Clone for EntityRef<'a, S, I> {
    fn clone(&self) -> (r: Self)
        ensures
            r == *self,
    {
        EntityRef { world: self.world, id: self.id }
    }
}

impl<'a, S, I: Id> Copy for EntityRef<'a, S, I> {
}

/// A component handed out by a world, together with the world and the
/// identifier that it was read from.
pub struct ComponentRef<'a, S, I: Id, C> {
    pub world: &'a S,
    pub id: I,
    pub component: &'a C,
}

/// An exclusive view of one identifier in a world.
pub struct EntityMut<'a, S, I: Id> {
    pub world: &'a mut S,
    pub committed: bool,
    pub id: I,
}

impl<'a, S, I: Id> EntityRef<'a, S, I> {
    pub open spec fn spec_world(&self) -> &'a S {
        self.world
    }

    pub open spec fn spec_id(&self) -> I {
        self.id
    }

    /// The identifier that the view is bound to.
    #[verifier::when_used_as_spec(spec_id)]
    pub fn id(&self) -> (r: I)
        ensures
            r == self.spec_id(),
    {
        self.id
    }

    /// The world that the view is bound to.
    #[verifier::when_used_as_spec(spec_world)]
    pub fn world(&self) -> (r: &'a S)
        ensures
            r == self.spec_world(),
    {
        self.world
    }
}

impl<'a, S: EntityStorage<I>, I: Id> EntityRef<'a, S, I> {
    /// Whether the identifier bears a component of type `C`.
    pub fn has<C: Component>(&self) -> (b: bool) where S: EntityComponent<I, C>
        ensures
            b == self.world().storage().contents().contains_key(self.id()),
    {
        self.world.component::<C>().has(self.id)
    }

    /// The component of type `C` that the identifier bears, if any.
    pub fn get<C: Component>(&self) -> (r: Option<&'a C>) where
        S: EntityComponent<I, C>,
        S::Storage: 'a,

        ensures
            match r {
                Some(c) => self.world().storage().contents().contains_key(self.id()) && *c
                    == self.world().storage().contents()[self.id()],
                None => !self.world().storage().contents().contains_key(self.id()),
            },
    {
        self.world.component::<C>().get(self.id)
    }

    /// The component of type `C` that the identifier bears, if any, together
    /// with this world and identifier.
    pub fn get_ref<C: Component>(&self) -> (r: Option<ComponentRef<'a, S, I, C>>) where
        S: EntityComponent<I, C>,
        S::Storage: 'a,

        ensures
            match r {
                Some(c) => self.world().storage().contents().contains_key(self.id())
                    && *c.get() == self.world().storage().contents()[self.id()] && c.world()
                    == self.world() && c.id() == self.id(),
                None => !self.world().storage().contents().contains_key(self.id()),
            },
    {
        match self.world.component::<C>().get(self.id) {
            Some(c) => Some(ComponentRef { world: self.world, id: self.id, component: c }),
            None => None,
        }
    }
}

impl<'a, S, I: Id, C> ComponentRef<'a, S, I, C> {
    pub open spec fn spec_world(&self) -> &'a S {
        self.world
    }

    pub open spec fn spec_id(&self) -> I {
        self.id
    }

    pub open spec fn spec_get(&self) -> &'a C {
        self.component
    }

    /// The world that the component was read from.
    #[verifier::when_used_as_spec(spec_world)]
    pub fn world(&self) -> (r: &'a S)
        ensures
            r == self.spec_world(),
    {
        self.world
    }

    /// The identifier that bears the component.
    #[verifier::when_used_as_spec(spec_id)]
    pub fn id(&self) -> (r: I)
        ensures
            r == self.spec_id(),
    {
        self.id
    }

    /// The component itself.
    #[verifier::when_used_as_spec(spec_get)]
    pub fn get(&self) -> (r: &'a C)
        ensures
            r == self.spec_get(),
    {
        self.component
    }

    /// A read-only view of the identifier that bears the component.
    pub fn entity(&self) -> (e: EntityRef<'a, S, I>)
        ensures
            e.world() == self.world(),
            e.id() == self.id(),
    {
        EntityRef { world: self.world, id: self.id }
    }
}

impl<'a, S, I: Id> EntityMut<'a, S, I> {
    /// The exclusive borrow of the world that the view holds.
    pub open spec fn world_mut(&self) -> &'a mut S {
        self.world
    }

    /// The world as the view sees it now.
    pub open spec fn spec_world(&self) -> S {
        *self.world
    }

    pub open spec fn spec_id(&self) -> I {
        self.id
    }

    /// Whether a change has been made through the view.
    pub open spec fn is_committed(&self) -> bool {
        self.committed
    }

    /// The identifier that the view is bound to.
    #[verifier::when_used_as_spec(spec_id)]
    pub fn id(&self) -> (r: I)
        ensures
            r == self.spec_id(),
    {
        self.id
    }

    /// The world that the view is bound to.
    pub fn world(&self) -> (r: &S)
        ensures
            *r == self.spec_world(),
    {
        &*self.world
    }

    /// Records that a change has been made through the view.
    pub fn commit(&mut self)
        ensures
            final(self).is_committed(),
            final(self).id() == old(self).id(),
            final(self).spec_world() == old(self).spec_world(),
            *final(final(self).world_mut()) == *final(old(self).world_mut()),
    {
        self.committed = true;
    }
}

impl<'a, S: EntityStorage<I>, I: Id> EntityMut<'a, S, I> {
    /// Whether the identifier bears a component of type `C`.
    pub fn has<C: Component>(&self) -> (b: bool) where S: EntityComponent<I, C>
        ensures
            b == self.spec_world().storage().contents().contains_key(self.id()),
    {
        self.world.component::<C>().has(self.id)
    }

    /// The component of type `C` that the identifier bears, if any.
    pub fn get<C: Component>(&self) -> (r: Option<&C>) where
        S: EntityComponent<I, C>,
        S::Storage: 'a,

        ensures
            match r {
                Some(c) => self.spec_world().storage().contents().contains_key(self.id()) && *c
                    == self.spec_world().storage().contents()[self.id()],
                None => !self.spec_world().storage().contents().contains_key(self.id()),
            },
    {
        self.as_ref().get()
    }

    /// The read-only view of the same identifier.
    pub fn as_ref(&self) -> (e: EntityRef<'_, S, I>)
        ensures
            *e.world() == self.spec_world(),
            e.id() == self.id(),
    {
        EntityRef { world: &*self.world, id: self.id }
    }

    /// An exclusive borrow of the component of type `C` that the identifier
    /// bears, if any. Handing one out counts as a change.
    pub fn get_mut<C: Component>(&mut self) -> (r: Option<&mut C>) where S: EntityComponent<I, C>
        ensures
            final(self).id() == old(self).id(),
            *final(final(self).world_mut()) == *final(old(self).world_mut()),
            match r {
                Some(c) => {
                    &&& old(self).spec_world().storage().contents().contains_key(old(self).id())
                    &&& *c == old(self).spec_world().storage().contents()[old(self).id()]
                    &&& final(self).is_committed()
                    &&& updates(
                        old(self).spec_world(),
                        final(self).spec_world(),
                        old(self).spec_world().storage().contents().insert(
                            old(self).id(),
                            *final(c),
                        ),
                    )
                },
                None => {
                    &&& !old(self).spec_world().storage().contents().contains_key(old(self).id())
                    &&& final(self).is_committed() == old(self).is_committed()
                    &&& updates(
                        old(self).spec_world(),
                        final(self).spec_world(),
                        old(self).spec_world().storage().contents(),
                    )
                },
            },
    {
        let storage = self.world.component_mut::<C>();
        proof {
            old(self).spec_world().lemma_replaced_storage(*final(storage));
        }
        match storage.get_mut(self.id) {
            Some(c) => {
                self.committed = true;
                Some(c)
            },
            None => None,
        }
    }

    /// Attaches `c` to the identifier and hands back the component of type
    /// `C` that it replaces, if any.
    pub fn insert<C: Component>(&mut self, c: C) -> (r: Option<C>) where S: EntityComponent<I, C>
        ensures
            final(self).id() == old(self).id(),
            *final(final(self).world_mut()) == *final(old(self).world_mut()),
            final(self).is_committed(),
            updates(
                old(self).spec_world(),
                final(self).spec_world(),
                old(self).spec_world().storage().contents().insert(old(self).id(), c),
            ),
            r == old(self).spec_world().storage().contents().get(old(self).id()),
    {
        self.commit();
        let storage = self.world.component_mut::<C>();
        proof {
            old(self).spec_world().lemma_replaced_storage(*final(storage));
        }
        storage.insert(self.id, c)
    }

    /// Detaches the component of type `C` from the identifier and hands it
    /// back. Nothing changes when the identifier bears none.
    pub fn remove<C: Component>(&mut self) -> (r: Option<C>) where S: EntityComponent<I, C>
        ensures
            final(self).id() == old(self).id(),
            *final(final(self).world_mut()) == *final(old(self).world_mut()),
            updates(
                old(self).spec_world(),
                final(self).spec_world(),
                old(self).spec_world().storage().contents().remove(old(self).id()),
            ),
            r == old(self).spec_world().storage().contents().get(old(self).id()),
            final(self).is_committed() == (old(self).is_committed() || r is Some),
    {
        let storage = self.world.component_mut::<C>();
        proof {
            old(self).spec_world().lemma_replaced_storage(*final(storage));
        }
        match storage.remove(self.id) {
            Some(prev) => {
                self.commit();
                Some(prev)
            },
            None => None,
        }
    }

    /// The component of type `C` that the identifier bears, made by `f` and
    /// attached first when it bears none.
    pub fn get_or_else<C: Component, F: FnOnce() -> C>(&mut self, f: F) -> (r: &mut C) where
        S: EntityComponent<I, C>,

        requires
            !old(self).spec_world().storage().contents().contains_key(old(self).id())
                ==> f.requires(()),
        ensures
            final(self).id() == old(self).id(),
            *final(final(self).world_mut()) == *final(old(self).world_mut()),
            final(self).is_committed(),
            old(self).spec_world().storage().contents().contains_key(old(self).id()) ==> *r
                == old(self).spec_world().storage().contents()[old(self).id()],
            !old(self).spec_world().storage().contents().contains_key(old(self).id())
                ==> f.ensures((), *r),
            updates(
                old(self).spec_world(),
                final(self).spec_world(),
                old(self).spec_world().storage().contents().insert(old(self).id(), *final(r)),
            ),
    {
        self.commit();
        let storage = self.world.component_mut::<C>();
        proof {
            old(self).spec_world().lemma_replaced_storage(*final(storage));
        }
        storage.get_or_else(self.id, f)
    }

    /// The component of type `C` that the identifier bears, `C::default()`
    /// being attached first when it bears none.
    pub fn get_or_default<C: Component + Default>(&mut self) -> (r: &mut C) where
        S: EntityComponent<I, C>,

        ensures
            final(self).id() == old(self).id(),
            *final(final(self).world_mut()) == *final(old(self).world_mut()),
            final(self).is_committed(),
            old(self).spec_world().storage().contents().contains_key(old(self).id()) ==> *r
                == old(self).spec_world().storage().contents()[old(self).id()],
            !old(self).spec_world().storage().contents().contains_key(old(self).id())
                ==> call_ensures(C::default, (), *r),
            updates(
                old(self).spec_world(),
                final(self).spec_world(),
                old(self).spec_world().storage().contents().insert(old(self).id(), *final(r)),
            ),
    {
        self.commit();
        let storage = self.world.component_mut::<C>();
        proof {
            old(self).spec_world().lemma_replaced_storage(*final(storage));
        }
        storage.get_or_default(self.id)
    }
}

} // verus!
