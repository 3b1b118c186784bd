use component_store::engine::modifiers::{
    AggregationVisitor, Aggregator, Attribute, BasicAttribute, EntityAttribute, MaxAggregator,
    MinAggregator, ModifyingComponent, SumAggregator,
};
use component_store::engine::{
    BTreeStorage, Component, ComponentRef, ComponentStorage, EntityComponent, EntityStorage,
    VisitComponentTypes, VisitComponentTypesMut, World,
};
use component_store::game::{Entity, EntityType, GameWorld};

#[test]
fn max_keeps_the_first_of_equals() {
    let mut max: MaxAggregator<i32> = MaxAggregator::default();
    for m in [3, 5, 5, 2] {
        max.add_modifier(m);
    }
    assert_eq!(max.get_aggregate(), Some(5));
    let none: MaxAggregator<i32> = MaxAggregator::default();
    assert_eq!(none.get_aggregate(), None);
}

#[test]
fn max_replaces_only_on_strict_improvement() {
    let mut max: MaxAggregator<(i32, char)> = MaxAggregator::default();
    max.add_modifier((5, 'a'));
    max.add_modifier((3, 'b'));
    max.add_modifier((5, 'a'));
    max.add_modifier((7, 'c'));
    assert_eq!(max.get_aggregate(), Some((7, 'c')));
}

#[test]
fn min_keeps_the_smallest() {
    let mut min: MinAggregator<i32> = MinAggregator::default();
    for m in [3, 5, -5, 2, -5] {
        min.add_modifier(m);
    }
    assert_eq!(min.get_aggregate(), Some(-5));
    let none: MinAggregator<u8> = MinAggregator::default();
    assert_eq!(none.get_aggregate(), None);
}

#[test]
fn sum_starts_from_the_default() {
    let empty: SumAggregator<i32> = SumAggregator::default();
    assert_eq!(empty.get_aggregate(), 0);
    let mut sum: SumAggregator<i32> = SumAggregator::default();
    for m in [3, 5, -5, 2] {
        sum.add_modifier(m);
    }
    assert_eq!(sum.get_aggregate(), 5);
}

struct Sword(i32);
impl Component for Sword {}
struct Shield(i32);
impl Component for Shield {}
struct Ring(i32);
impl Component for Ring {}

struct Armory {
    swords: BTreeStorage<Entity, Sword>,
    shields: BTreeStorage<Entity, Shield>,
    rings: BTreeStorage<Entity, Ring>,
}

impl World for Armory {
    fn is_empty(&self) -> bool {
        unreachable!()
    }

    fn new() -> Armory {
        Armory { swords: BTreeStorage::new(), shields: BTreeStorage::new(), rings: BTreeStorage::new() }
    }
}

impl EntityStorage<Entity> for Armory {
    fn visit_component_types<V: VisitComponentTypes<Self, Entity>>(&self, v: &mut V) {
        v.visit::<Sword>(self);
        v.visit::<Shield>(self);
        v.visit::<Ring>(self);
    }

    fn visit_component_types_mut<V: VisitComponentTypesMut<Self, Entity>>(&mut self, v: &mut V) {
        v.visit_mut::<Sword>(self);
        v.visit_mut::<Shield>(self);
        v.visit_mut::<Ring>(self);
    }
}

impl EntityComponent<Entity, Sword> for Armory {
    type Storage = BTreeStorage<Entity, Sword>;
    fn storage(&self) -> BTreeStorage<Entity, Sword> {
        unreachable!()
    }
    fn replaced(&self, _: BTreeStorage<Entity, Sword>) -> Armory {
        unreachable!()
    }
    fn lemma_replaced_storage(&self, _: BTreeStorage<Entity, Sword>) {}
    fn lemma_replaced_twice(&self, _: BTreeStorage<Entity, Sword>, _: BTreeStorage<Entity, Sword>) {}
    fn lemma_replaced_same(&self) {}
    fn lemma_empty_storage(&self) {}
    fn borrow(&self) -> &Self::Storage {
        &self.swords
    }
    fn borrow_mut(&mut self) -> &mut Self::Storage {
        &mut self.swords
    }
}

impl EntityComponent<Entity, Shield> for Armory {
    type Storage = BTreeStorage<Entity, Shield>;
    fn storage(&self) -> BTreeStorage<Entity, Shield> {
        unreachable!()
    }
    fn replaced(&self, _: BTreeStorage<Entity, Shield>) -> Armory {
        unreachable!()
    }
    fn lemma_replaced_storage(&self, _: BTreeStorage<Entity, Shield>) {}
    fn lemma_replaced_twice(&self, _: BTreeStorage<Entity, Shield>, _: BTreeStorage<Entity, Shield>) {}
    fn lemma_replaced_same(&self) {}
    fn lemma_empty_storage(&self) {}
    fn borrow(&self) -> &Self::Storage {
        &self.shields
    }
    fn borrow_mut(&mut self) -> &mut Self::Storage {
        &mut self.shields
    }
}

impl EntityComponent<Entity, Ring> for Armory {
    type Storage = BTreeStorage<Entity, Ring>;
    fn storage(&self) -> BTreeStorage<Entity, Ring> {
        unreachable!()
    }
    fn replaced(&self, _: BTreeStorage<Entity, Ring>) -> Armory {
        unreachable!()
    }
    fn lemma_replaced_storage(&self, _: BTreeStorage<Entity, Ring>) {}
    fn lemma_replaced_twice(&self, _: BTreeStorage<Entity, Ring>, _: BTreeStorage<Entity, Ring>) {}
    fn lemma_replaced_same(&self) {}
    fn lemma_empty_storage(&self) {}
    fn borrow(&self) -> &Self::Storage {
        &self.rings
    }
    fn borrow_mut(&mut self) -> &mut Self::Storage {
        &mut self.rings
    }
}

#[derive(Copy, Clone)]
struct Strength;
impl BasicAttribute for Strength {
    type Aggregator = SumAggregator<i32>;
    fn default_aggregator() -> SumAggregator<i32> {
        unreachable!()
    }
    fn lemma_default_aggregator(_: SumAggregator<i32>) {}
}

#[derive(Copy, Clone)]
struct BestBlock;
impl BasicAttribute for BestBlock {
    type Aggregator = MaxAggregator<i32>;
    fn default_aggregator() -> MaxAggregator<i32> {
        unreachable!()
    }
    fn lemma_default_aggregator(_: MaxAggregator<i32>) {}
}

impl ModifyingComponent<Strength, Armory, Entity> for Sword {
    fn modifier(_: &Sword, _: &Armory, _: Entity, _: Strength) -> Option<i32> {
        unreachable!()
    }
    fn get_modifiers(c: ComponentRef<'_, Armory, Entity, Sword>, _: Strength, a: &mut SumAggregator<i32>) {
        a.add_modifier(c.get().0);
    }
}
impl ModifyingComponent<Strength, Armory, Entity> for Shield {
    fn modifier(_: &Shield, _: &Armory, _: Entity, _: Strength) -> Option<i32> {
        unreachable!()
    }
    fn get_modifiers(_: ComponentRef<'_, Armory, Entity, Shield>, _: Strength, _: &mut SumAggregator<i32>) {}
}
impl ModifyingComponent<Strength, Armory, Entity> for Ring {
    fn modifier(_: &Ring, _: &Armory, _: Entity, _: Strength) -> Option<i32> {
        unreachable!()
    }
    fn get_modifiers(c: ComponentRef<'_, Armory, Entity, Ring>, _: Strength, a: &mut SumAggregator<i32>) {
        a.add_modifier(c.get().0);
    }
}
impl ModifyingComponent<BestBlock, Armory, Entity> for Sword {
    fn modifier(_: &Sword, _: &Armory, _: Entity, _: BestBlock) -> Option<i32> {
        unreachable!()
    }
    fn get_modifiers(_: ComponentRef<'_, Armory, Entity, Sword>, _: BestBlock, _: &mut MaxAggregator<i32>) {}
}
impl ModifyingComponent<BestBlock, Armory, Entity> for Shield {
    fn modifier(_: &Shield, _: &Armory, _: Entity, _: BestBlock) -> Option<i32> {
        unreachable!()
    }
    fn get_modifiers(c: ComponentRef<'_, Armory, Entity, Shield>, _: BestBlock, a: &mut MaxAggregator<i32>) {
        a.add_modifier(c.get().0);
    }
}
impl ModifyingComponent<BestBlock, Armory, Entity> for Ring {
    fn modifier(_: &Ring, _: &Armory, _: Entity, _: BestBlock) -> Option<i32> {
        unreachable!()
    }
    fn get_modifiers(c: ComponentRef<'_, Armory, Entity, Ring>, _: BestBlock, a: &mut MaxAggregator<i32>) {
        a.add_modifier(c.get().0 * 2);
    }
}

fn strength(w: &Armory, id: Entity) -> i32 {
    let mut v = AggregationVisitor::new(Strength, id);
    v.visit::<Armory, Sword>(w);
    v.visit::<Armory, Shield>(w);
    v.visit::<Armory, Ring>(w);
    v.finish()
}

fn best_block(w: &Armory, id: Entity) -> Option<i32> {
    let mut v = AggregationVisitor::new(BestBlock, id);
    v.visit::<Armory, Sword>(w);
    v.visit::<Armory, Shield>(w);
    v.visit::<Armory, Ring>(w);
    v.finish()
}

#[test]
fn components_that_take_part_are_aggregated() {
    let mut w = Armory::new();
    w.entity_mut(Entity(1)).insert(Sword(3));
    w.entity_mut(Entity(1)).insert(Shield(4));
    w.entity_mut(Entity(1)).insert(Ring(2));
    w.entity_mut(Entity(2)).insert(Shield(9));
    assert_eq!(strength(&w, Entity(1)), 5);
    assert_eq!(best_block(&w, Entity(1)), Some(4));
    assert_eq!(strength(&w, Entity(2)), 0);
    assert_eq!(best_block(&w, Entity(2)), Some(9));
}

#[test]
fn no_participating_component_gives_the_empty_aggregate() {
    let mut w = Armory::new();
    w.entity_mut(Entity(2)).insert(Sword(3));
    assert_eq!(strength(&w, Entity(7)), 0);
    assert_eq!(best_block(&w, Entity(7)), None);
    assert_eq!(best_block(&w, Entity(2)), None);
}

#[test]
fn computing_twice_gives_the_same() {
    let mut w = Armory::new();
    w.entity_mut(Entity(1)).insert(Sword(3));
    w.entity_mut(Entity(1)).insert(Ring(-8));
    assert_eq!(strength(&w, Entity(1)), strength(&w, Entity(1)));
    assert_eq!(best_block(&w, Entity(1)), best_block(&w, Entity(1)));
    assert_eq!(strength(&w, Entity(1)), -5);
    assert_eq!(best_block(&w, Entity(1)), Some(-16));
}

#[test]
fn the_game_world_has_no_modifiers() {
    let mut w = GameWorld::new();
    w.entity_mut(Entity(1)).insert(EntityType::Sword);
    assert_eq!(Strength.compute(&w, Entity(1)), 0);
    assert_eq!(BestBlock.compute(&w, Entity(1)), None);
    assert_eq!(Strength.compute(&w, Entity(1)), Strength.compute(&w, Entity(1)));
    assert_eq!(Strength.new_aggregator().get_aggregate(), 0);
}

struct Census {
    id: Entity,
    found: Vec<bool>,
}

impl VisitComponentTypes<Armory, Entity> for Census {
    fn visited<C: Component>(self, _: &Armory) -> Census
    where
        Armory: EntityComponent<Entity, C>,
    {
        unreachable!()
    }

    fn visit<C: Component>(&mut self, s: &Armory)
    where
        Armory: EntityComponent<Entity, C>,
    {
        let found = EntityComponent::<Entity, C>::borrow(s).has(self.id);
        self.found.push(found);
    }
}

struct Wipe {
    id: Entity,
    removed: usize,
}

impl VisitComponentTypesMut<Armory, Entity> for Wipe {
    fn visited_mut<C: Component>(self, _: Armory) -> (Wipe, Armory)
    where
        Armory: EntityComponent<Entity, C>,
    {
        unreachable!()
    }

    fn visit_mut<C: Component>(&mut self, s: &mut Armory)
    where
        Armory: EntityComponent<Entity, C>,
    {
        if EntityComponent::<Entity, C>::borrow_mut(s).remove(self.id).is_some() {
            self.removed += 1;
        }
    }
}

#[test]
fn every_declared_component_type_is_visited_in_order() {
    let mut w = Armory::new();
    w.entity_mut(Entity(1)).insert(Shield(4));
    w.entity_mut(Entity(1)).insert(Ring(4));
    let mut census = Census { id: Entity(1), found: vec![] };
    w.visit_component_types(&mut census);
    assert_eq!(census.found, vec![false, true, true]);
    let mut wipe = Wipe { id: Entity(1), removed: 0 };
    w.visit_component_types_mut(&mut wipe);
    assert_eq!(wipe.removed, 2);
    let mut census = Census { id: Entity(1), found: vec![] };
    w.visit_component_types(&mut census);
    assert_eq!(census.found, vec![false, false, false]);
}
