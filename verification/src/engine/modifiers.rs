//! Attributes: quantities that are derived for an identifier by combining
//! what its components contribute.
use super::world::{
    Component, ComponentRef, ComponentStorage, EntityComponent, EntityStorage, Id,
};
use core::cmp::Ordering;
use std::ops::Add;
use vstd::prelude::*;
use vstd::std_specs::cmp::PartialOrdSpec;
use vstd::std_specs::ops::AddSpec;

verus! {

/// An accumulator that combines the contributions to one attribute into one
/// value.
pub trait Aggregator: Sized {
    type Input;

    type Output;

    /// Whether `modifier` may be fed to the aggregator as it stands.
    spec fn accepts(&self, modifier: Self::Input) -> bool;

    /// The aggregator after `modifier` has been fed to it.
    spec fn fed(self, modifier: Self::Input) -> Self;

    /// The value that the aggregator stands for.
    spec fn aggregate(self) -> Self::Output;

    fn add_modifier(&mut self, modifier: Self::Input)
        requires
            old(self).accepts(modifier),
        ensures
            *final(self) == old(self).fed(modifier),
    ;

    fn get_aggregate(self) -> (out: Self::Output)
        ensures
            out == self.aggregate(),
    ;
}

/// A derived quantity. It names the aggregator that combines the
/// contributions to it; each computation starts from a new one.
pub trait Attribute: Copy {
    type Aggregator: Aggregator;

    /// The aggregator that a computation starts from.
    spec fn fresh_aggregator(&self) -> Self::Aggregator;

    fn new_aggregator(&self) -> (a: Self::Aggregator)
        ensures
            a == self.fresh_aggregator(),
    ;
}

/// An attribute whose computations start from the default value of its
/// aggregator.
pub trait BasicAttribute: Copy {
    type Aggregator: Aggregator + Default;

    /// The default value of the aggregator.
    spec fn default_aggregator() -> Self::Aggregator;

    /// `Default::default` gives the default value and no other.
    proof fn lemma_default_aggregator(a: Self::Aggregator)
        requires
            call_ensures(Self::Aggregator::default, (), a),
        ensures
            a == Self::default_aggregator(),
    ;
}

impl<A: BasicAttribute> Attribute for A {
    type Aggregator = <A as BasicAttribute>::Aggregator;

    open spec fn fresh_aggregator(&self) -> Self::Aggregator {
        A::default_aggregator()
    }

    fn new_aggregator(&self) -> (a: Self::Aggregator) {
        let a = Self::Aggregator::default();
        proof {
            A::lemma_default_aggregator(a);
        }
        a
    }
}

/// How a component type takes part in attribute `A` of the identifiers of
/// kind `I` in world `S`: a component that is present contributes one
/// modifier or none.
pub trait ModifyingComponent<A: Attribute, S, I: Id>: Component + Sized {
    /// What `component`, borne by `id` in `s`, contributes to `attr`, if
    /// anything.
    spec fn modifier(component: &Self, s: &S, id: I, attr: A) -> Option<
        <A::Aggregator as Aggregator>::Input,
    >;

    /// Feeds the contribution of the component, if any, to `aggregator`.
    fn get_modifiers(c: ComponentRef<'_, S, I, Self>, attr: A, aggregator: &mut A::Aggregator)
        requires
            Self::modifier(c.get(), c.world(), c.id(), attr) matches Some(m) ==> old(
                aggregator,
            ).accepts(m),
        ensures
            *final(aggregator) == match Self::modifier(c.get(), c.world(), c.id(), attr) {
                Some(m) => old(aggregator).fed(m),
                None => *old(aggregator),
            },
    ;
}

/// What the component of type `C` of `id` contributes to `attr`: nothing when
/// `id` bears no such component.
pub open spec fn modifier_of<A, S, I, C>(attr: A, s: &S, id: I) -> Option<
    <A::Aggregator as Aggregator>::Input,
> where
    A: Attribute,
    S: EntityStorage<I> + EntityComponent<I, C>,
    I: Id,
    C: ModifyingComponent<A, S, I>,
 {
    if s.storage().contents().contains_key(id) {
        C::modifier(&s.storage().contents()[id], s, id, attr)
    } else {
        None
    }
}

/// `a` after the contribution `m`, if there is one, has been fed to it.
pub open spec fn fed_with<G: Aggregator>(a: G, m: Option<G::Input>) -> G {
    match m {
        Some(input) => a.fed(input),
        None => a,
    }
}

/// Whether the contribution `m`, if there is one, may be fed to `a`.
pub open spec fn accepts_any<G: Aggregator>(a: G, m: Option<G::Input>) -> bool {
    match m {
        Some(input) => a.accepts(input),
        None => true,
    }
}

/// The state of one computation of an attribute: it is taken to each
/// component type that the schema declares for the kind of the identifier.
pub struct AggregationVisitor<A: Attribute, I: Id> {
    pub attr: A,
    pub id: I,
    pub aggregator: A::Aggregator,
}

impl<A: Attribute, I: Id> AggregationVisitor<A, I> {
    /// The state that a computation of `attr` for `id` starts from.
    pub fn new(attr: A, id: I) -> (v: Self)
        ensures
            v.attr == attr,
            v.id == id,
            v.aggregator == attr.fresh_aggregator(),
    {
        AggregationVisitor { attr: attr, id: id, aggregator: attr.new_aggregator() }
    }

    /// Takes the computation to component type `C`: when the identifier
    /// bears a component of that type, its contribution is fed to the
    /// aggregator; when it bears none, nothing happens.
    pub fn visit<S, C>(&mut self, s: &S) where
        S: EntityStorage<I> + EntityComponent<I, C>,
        C: ModifyingComponent<A, S, I>,

        requires
            accepts_any(
                old(self).aggregator,
                modifier_of::<A, S, I, C>(old(self).attr, s, old(self).id),
            ),
        ensures
            final(self).attr == old(self).attr,
            final(self).id == old(self).id,
            final(self).aggregator == fed_with(
                old(self).aggregator,
                modifier_of::<A, S, I, C>(old(self).attr, s, old(self).id),
            ),
    {
        match s.entity(self.id).get_ref::<C>() {
            Some(c) => {
                C::get_modifiers(c, self.attr, &mut self.aggregator);
            },
            None => {},
        }
    }

    /// Ends the computation and gives its result.
    pub fn finish(self) -> (out: <A::Aggregator as Aggregator>::Output)
        ensures
            out == self.aggregator.aggregate(),
    {
        self.aggregator.get_aggregate()
    }
}

/// An attribute that can be computed for the identifiers of kind `I` in
/// world `S`.
pub trait EntityAttribute<S, I: Id>: Attribute {
    /// What the component types that the schema declares for `I` contribute
    /// for `id`, in the order of the declaration: one entry for each type,
    /// `None` where `id` bears no component of the type or the component
    /// takes no part.
    spec fn modifiers(self, s: &S, id: I) -> Seq<Option<<Self::Aggregator as Aggregator>::Input>>;

    /// The attribute of `id`: a new aggregator, fed with every contribution
    /// in the order of the declaration.
    fn compute(self, s: &S, id: I) -> (out: <Self::Aggregator as Aggregator>::Output)
        requires
            accepts_each(self.fresh_aggregator(), self.modifiers(s, id)),
        ensures
            out == fed_each(self.fresh_aggregator(), self.modifiers(s, id)).aggregate(),
    ;
}

/// `a` after the contributions in `modifiers` have been fed to it, first to
/// last.
pub open spec fn fed_each<G: Aggregator>(a: G, modifiers: Seq<Option<G::Input>>) -> G
    decreases modifiers.len(),
{
    if modifiers.len() == 0 {
        a
    } else {
        fed_with(fed_each(a, modifiers.drop_last()), modifiers.last())
    }
}

/// Whether the contributions in `modifiers` may be fed to `a` one after the
/// other, first to last.
pub open spec fn accepts_each<G: Aggregator>(a: G, modifiers: Seq<Option<G::Input>>) -> bool
    decreases modifiers.len(),
{
    if modifiers.len() == 0 {
        true
    } else {
        accepts_each(a, modifiers.drop_last()) && accepts_any(
            fed_each(a, modifiers.drop_last()),
            modifiers.last(),
        )
    }
}

/// Where no component contributes, the attribute is what a new aggregator
/// stands for.
pub proof fn lemma_no_modifiers<G: Aggregator>(a: G, modifiers: Seq<Option<G::Input>>)
    requires
        forall|i: int| 0 <= i < modifiers.len() ==> modifiers[i] is None,
    ensures
        accepts_each(a, modifiers),
        fed_each(a, modifiers) == a,
    decreases modifiers.len(),
{
    if modifiers.len() > 0 {
        lemma_no_modifiers(a, modifiers.drop_last());
    }
}

/// An identifier none of whose components takes part in an attribute has
/// what a new aggregator stands for.
pub proof fn lemma_compute_without_modifiers<A: EntityAttribute<S, I>, S, I: Id>(
    attr: A,
    s: &S,
    id: I,
)
    requires
        forall|i: int| 0 <= i < attr.modifiers(s, id).len() ==> attr.modifiers(s, id)[i] is None,
    ensures
        accepts_each(attr.fresh_aggregator(), attr.modifiers(s, id)),
        fed_each(attr.fresh_aggregator(), attr.modifiers(s, id)).aggregate()
            == attr.fresh_aggregator().aggregate(),
{
    lemma_no_modifiers(attr.fresh_aggregator(), attr.modifiers(s, id));
}

/// Computing an attribute twice for the same identifier in the same world
/// gives the same value twice.
pub proof fn lemma_compute_deterministic<A: EntityAttribute<S, I>, S, I: Id>(
    attr: A,
    s: &S,
    id: I,
    first: <A::Aggregator as Aggregator>::Output,
    second: <A::Aggregator as Aggregator>::Output,
)
    requires
        call_ensures(A::compute, (attr, s, id), first),
        call_ensures(A::compute, (attr, s, id), second),
    ensures
        first == second,
{
}

/// A sum, a maximum and a minimum of no modifiers: the default of the
/// modifiers for the sum, and no value at all for the other two.
pub proof fn lemma_empty_aggregates<M: Copy + Add<Output = M> + Ord>(zero: M)
    ensures
        SumAggregator(zero).aggregate() == zero,
        MaxAggregator::<M>(None).aggregate() is None,
        MinAggregator::<M>(None).aggregate() is None,
{
}

/// The running sum of the modifiers. Its default is the default of `M`.
pub struct SumAggregator<M>(pub M);

impl<M: Default> Default for SumAggregator<M> {
    fn default() -> (s: Self)
        ensures
            call_ensures(M::default, (), s.0),
    {
        SumAggregator(M::default())
    }
}

impl<M: Copy + Add<Output = M>> Aggregator for SumAggregator<M> {
    type Input = M;

    type Output = M;

    /// The sum must be defined: for the integers, it must not overflow.
    open spec fn accepts(&self, m: M) -> bool {
        M::obeys_add_spec() && self.0.add_req(m)
    }

    open spec fn fed(self, m: M) -> Self {
        SumAggregator(self.0.add_spec(m))
    }

    open spec fn aggregate(self) -> M {
        self.0
    }

    fn add_modifier(&mut self, m: M) {
        self.0 = self.0 + m;
    }

    fn get_aggregate(self) -> (out: M) {
        self.0
    }
}

/// The largest modifier seen, or `None` when none was seen. Of two modifiers
/// that are equally large the one seen first is kept.
pub struct MaxAggregator<M>(pub Option<M>);

impl<M> Default for MaxAggregator<M> {
    fn default() -> (s: Self)
        ensures
            s.0 is None,
    {
        MaxAggregator(None)
    }
}

impl<M: Ord> Aggregator for MaxAggregator<M> {
    type Input = M;

    type Output = Option<M>;

    open spec fn accepts(&self, m: M) -> bool {
        M::obeys_partial_cmp_spec()
    }

    /// `m` takes the place of the largest modifier so far only where it is
    /// strictly larger.
    open spec fn fed(self, m: M) -> Self {
        match self.0 {
            Some(best) => if best.partial_cmp_spec(&m) == Some(Ordering::Less) {
                MaxAggregator(Some(m))
            } else {
                self
            },
            None => MaxAggregator(Some(m)),
        }
    }

    open spec fn aggregate(self) -> Option<M> {
        self.0
    }

    fn add_modifier(&mut self, m: M) {
        let replace = match &self.0 {
            Some(best) => best.lt(&m),
            None => true,
        };
        if replace {
            self.0 = Some(m);
        }
    }

    fn get_aggregate(self) -> (out: Option<M>) {
        self.0
    }
}

/// The smallest modifier seen, or `None` when none was seen. Of two modifiers
/// that are equally small the one seen first is kept.
pub struct MinAggregator<M>(pub Option<M>);

impl<M> Default for MinAggregator<M> {
    fn default() -> (s: Self)
        ensures
            s.0 is None,
    {
        MinAggregator(None)
    }
}

impl<M: Ord> Aggregator for MinAggregator<M> {
    type Input = M;

    type Output = Option<M>;

    open spec fn accepts(&self, m: M) -> bool {
        M::obeys_partial_cmp_spec()
    }

    /// `m` takes the place of the smallest modifier so far only where it is
    /// strictly smaller.
    open spec fn fed(self, m: M) -> Self {
        match self.0 {
            Some(best) => if best.partial_cmp_spec(&m) == Some(Ordering::Greater) {
                MinAggregator(Some(m))
            } else {
                self
            },
            None => MinAggregator(Some(m)),
        }
    }

    open spec fn aggregate(self) -> Option<M> {
        self.0
    }

    fn add_modifier(&mut self, m: M) {
        let replace = match &self.0 {
            Some(best) => best.gt(&m),
            None => true,
        };
        if replace {
            self.0 = Some(m);
        }
    }

    fn get_aggregate(self) -> (out: Option<M>) {
        self.0
    }
}

} // verus!
