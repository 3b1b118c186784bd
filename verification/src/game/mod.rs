//! The world of the game: what is attached to entities and to positions, and
//! where each entity is.
use crate::engine::modifiers::{
    accepts_any, accepts_each, fed_each, fed_with, modifier_of, AggregationVisitor, Aggregator,
    Attribute, EntityAttribute, ModifyingComponent,
};
use crate::engine::btree_storage::lemma_keys_increasing;
use crate::engine::world::{is_traversal, updates};
use crate::engine::{
    ActionError, ActionResult, BTreeStorage, Component, ComponentRef, ComponentStorage, Direction,
    EntityComponent, EntityStorage, Id, Position, VisitComponentTypes, VisitComponentTypesMut,
    World,
};
use std::collections::BTreeSet;
use vstd::prelude::*;
use vstd::std_specs::btree::spec_btree_keys_iter;
use vstd::std_specs::iter::IteratorSpec;

pub mod entity;
pub mod fov;
pub mod map;
pub mod position;
pub mod rng;
pub mod session;
pub mod stats;

pub use self::entity::{Ai, AiState, Corpse, EntityClass, EntityData, EntityType};
pub use self::fov::{IsVisible, WasVisible};
pub use self::position::Tile;
pub use self::session::Game;
pub use self::stats::{Damage, Exhaustion, Hunger};

verus! {

/// The identifier of an entity: a number that the game hands out once.
#[derive(Debug, Copy, Clone, Hash, PartialEq, Eq, PartialOrd, Ord, Structural)]
pub struct Entity(pub u64);

impl Id for Entity {
    open spec fn key(self) -> u64 {
        self.0
    }

    open spec fn with_key(k: u64) -> Entity {
        Entity(k)
    }

    proof fn lemma_key_of_with_key(k: u64) {
    }

    proof fn lemma_with_key_of_key(id: Entity) {
    }

    fn to_key(self) -> (k: u64) {
        self.0
    }

    fn from_key(k: u64) -> (id: Entity) {
        Entity(k)
    }
}

/// The eight colours of the terminal, in the order of their numbers.
#[derive(Debug, Copy, Clone, PartialEq, Eq, Structural)]
pub enum Color {
    Black,
    Red,
    Green,
    Yellow,
    Blue,
    Magenta,
    Cyan,
    White,
}

/// One character cell of the display.
#[derive(Debug, Copy, Clone, PartialEq, Eq, Structural)]
pub struct Cell {
    pub ch: char,
    pub fg: Color,
    pub bg: Color,
    pub bold: bool,
}

/// Where an entity is: carried by another entity, or lying at a position.
#[derive(Debug, Copy, Clone, PartialEq, Eq, Structural)]
pub enum Location {
    Entity(Entity),
    Position(Position),
}

impl Component for Location {
}

/// Marks the entity that the player controls.
#[derive(Debug, Copy, Clone, PartialEq, Eq, Structural)]
pub struct IsPlayer;

impl Component for IsPlayer {
}

/// The entities that an entity carries or that lie at a position.
pub struct Contents {
    set: BTreeSet<u64>,
}

impl Component for Contents {
}

impl View for Contents {
    type V = Set<Entity>;

    closed spec fn view(&self) -> Set<Entity> {
        Set::new(|e: Entity| self.set@.contains(e.0))
    }
}

impl Default for Contents {
    fn default() -> (c: Contents)
        ensures
            c@ == Set::<Entity>::empty(),
    {
        Contents::new()
    }
}

impl Contents {
    /// Nothing.
    pub fn new() -> (c: Contents)
        ensures
            c@ == Set::<Entity>::empty(),
    {
        let c = Contents { set: BTreeSet::new() };
        assert(c@ =~= Set::<Entity>::empty());
        c
    }

    /// There are finitely many entities in it.
    pub proof fn lemma_finite(&self)
        ensures
            self@.finite(),
    {
        let f = |k: u64| Entity(k);
        assert(self.set@.map(f) =~= self@) by {
            assert forall|e: Entity| self@.contains(e) implies self.set@.map(f).contains(e) by {
                assert(self.set@.contains(e.0) && f(e.0) == e);
            }
        }
        let members = spec_btree_keys_iter(&self.set).remaining().unref();
        vstd::seq_lib::seq_to_set_is_finite(members);
        assert(members.to_set() == self.set@);
        self.set@.lemma_map_finite(f);
    }

    /// Adds `e`; tells whether it was not there before.
    pub fn insert(&mut self, e: Entity) -> (added: bool)
        ensures
            final(self)@ == old(self)@.insert(e),
            added == !old(self)@.contains(e),
    {
        let added = self.set.insert(e.0);
        assert(self@ =~= old(self)@.insert(e));
        added
    }

    /// Takes `e` out; tells whether it was there.
    pub fn remove(&mut self, e: Entity) -> (removed: bool)
        ensures
            final(self)@ == old(self)@.remove(e),
            removed == old(self)@.contains(e),
    {
        let key: u64 = e.0;
        let removed = self.set.remove(&key);
        assert(self@ =~= old(self)@.remove(e));
        removed
    }

    pub fn contains(&self, e: Entity) -> (b: bool)
        ensures
            b == self@.contains(e),
    {
        let key: u64 = e.0;
        self.set.contains(&key)
    }

    pub fn is_empty(&self) -> (b: bool)
        ensures
            b == (self@ == Set::<Entity>::empty()),
    {
        let b = self.set.is_empty();
        proof {
            if b {
                assert(self@ =~= Set::<Entity>::empty());
            } else {
                let k = choose|k: u64| self.set@.contains(k);
                assert(self@.contains(Entity(k)));
            }
        }
        b
    }

    /// The entities in it, by increasing number.
    pub fn entities(&self) -> (r: Vec<Entity>)
        ensures
            is_traversal(r@, self@),
    {
        let mut r: Vec<Entity> = Vec::new();
        let ghost all = spec_btree_keys_iter(&self.set).remaining();
        for k in it: self.set.iter()
            invariant
                it.seq() == all,
                r@.len() == it.index(),
                forall|i: int| 0 <= i < r@.len() ==> r@[i] == Entity(*all[i]),
        {
            r.push(Entity(*k));
        }
        proof {
            lemma_keys_increasing(all);
            assert(all.unref().to_set() == self.set@);
            assert forall|e: Entity| r@.contains(e) <==> self@.contains(e) by {
                if r@.contains(e) {
                    let i = choose|i: int| 0 <= i < r@.len() && r@[i] == e;
                    assert(all.unref()[i] == e.0);
                    assert(all.unref().to_set().contains(e.0));
                }
                if self@.contains(e) {
                    assert(all.unref().to_set().contains(e.0));
                    let i = choose|i: int| 0 <= i < all.unref().len() && all.unref()[i] == e.0;
                    assert(r@[i] == e);
                }
            }
        }
        r
    }
}

/// Every storage of the game: seven component types for entities, four for
/// positions, in the order in which they are visited.
pub struct GameWorld {
    /// For entities: what kind of thing each entity is.
    pub entity_types: BTreeStorage<Entity, EntityType>,
    /// For entities: where each entity is.
    pub locations: BTreeStorage<Entity, Location>,
    /// For entities: what each entity carries.
    pub carried: BTreeStorage<Entity, Contents>,
    /// For entities: which entity the player controls.
    pub players: BTreeStorage<Entity, IsPlayer>,
    /// For entities: the damage that each actor has taken.
    pub damages: BTreeStorage<Entity, Damage>,
    /// For entities: what each corpse was.
    pub corpses: BTreeStorage<Entity, Corpse>,
    /// For entities: what each actor is up to.
    pub ai_states: BTreeStorage<Entity, AiState>,
    /// For positions: what lies at each position.
    pub lying: BTreeStorage<Position, Contents>,
    /// For positions: the terrain.
    pub tiles: BTreeStorage<Position, Tile>,
    /// For positions: what is in a line of sight of the player.
    pub visible: BTreeStorage<Position, IsVisible>,
    /// For positions: the terrain as the player remembers it.
    pub remembered: BTreeStorage<Position, WasVisible>,
}

impl World for GameWorld {
    open spec fn is_empty(&self) -> bool {
        &&& self.entity_types.contents() == Map::<Entity, EntityType>::empty()
        &&& self.locations.contents() == Map::<Entity, Location>::empty()
        &&& self.carried.contents() == Map::<Entity, Contents>::empty()
        &&& self.players.contents() == Map::<Entity, IsPlayer>::empty()
        &&& self.damages.contents() == Map::<Entity, Damage>::empty()
        &&& self.corpses.contents() == Map::<Entity, Corpse>::empty()
        &&& self.ai_states.contents() == Map::<Entity, AiState>::empty()
        &&& self.lying.contents() == Map::<Position, Contents>::empty()
        &&& self.tiles.contents() == Map::<Position, Tile>::empty()
        &&& self.visible.contents() == Map::<Position, IsVisible>::empty()
        &&& self.remembered.contents() == Map::<Position, WasVisible>::empty()
    }

    fn new() -> (w: GameWorld) {
        GameWorld {
            entity_types: BTreeStorage::new(),
            locations: BTreeStorage::new(),
            carried: BTreeStorage::new(),
            players: BTreeStorage::new(),
            damages: BTreeStorage::new(),
            corpses: BTreeStorage::new(),
            ai_states: BTreeStorage::new(),
            lying: BTreeStorage::new(),
            tiles: BTreeStorage::new(),
            visible: BTreeStorage::new(),
            remembered: BTreeStorage::new(),
        }
    }
}

impl EntityComponent<Entity, EntityType> for GameWorld {
    type Storage = BTreeStorage<Entity, EntityType>;

    open spec fn storage(&self) -> BTreeStorage<Entity, EntityType> {
        self.entity_types
    }

    open spec fn replaced(&self, s: BTreeStorage<Entity, EntityType>) -> GameWorld {
        GameWorld { entity_types: s, ..*self }
    }

    proof fn lemma_replaced_storage(&self, s: BTreeStorage<Entity, EntityType>) {
    }

    proof fn lemma_replaced_twice(&self, first: BTreeStorage<Entity, EntityType>, second: BTreeStorage<Entity, EntityType>) {
    }

    proof fn lemma_replaced_same(&self) {
    }

    proof fn lemma_empty_storage(&self) {
    }

    fn borrow(&self) -> (r: &BTreeStorage<Entity, EntityType>) {
        &self.entity_types
    }

    fn borrow_mut(&mut self) -> (r: &mut BTreeStorage<Entity, EntityType>) {
        &mut self.entity_types
    }
}

impl EntityComponent<Entity, Location> for GameWorld {
    type Storage = BTreeStorage<Entity, Location>;

    open spec fn storage(&self) -> BTreeStorage<Entity, Location> {
        self.locations
    }

    open spec fn replaced(&self, s: BTreeStorage<Entity, Location>) -> GameWorld {
        GameWorld { locations: s, ..*self }
    }

    proof fn lemma_replaced_storage(&self, s: BTreeStorage<Entity, Location>) {
    }

    proof fn lemma_replaced_twice(&self, first: BTreeStorage<Entity, Location>, second: BTreeStorage<Entity, Location>) {
    }

    proof fn lemma_replaced_same(&self) {
    }

    proof fn lemma_empty_storage(&self) {
    }

    fn borrow(&self) -> (r: &BTreeStorage<Entity, Location>) {
        &self.locations
    }

    fn borrow_mut(&mut self) -> (r: &mut BTreeStorage<Entity, Location>) {
        &mut self.locations
    }
}

impl EntityComponent<Entity, Contents> for GameWorld {
    type Storage = BTreeStorage<Entity, Contents>;

    open spec fn storage(&self) -> BTreeStorage<Entity, Contents> {
        self.carried
    }

    open spec fn replaced(&self, s: BTreeStorage<Entity, Contents>) -> GameWorld {
        GameWorld { carried: s, ..*self }
    }

    proof fn lemma_replaced_storage(&self, s: BTreeStorage<Entity, Contents>) {
    }

    proof fn lemma_replaced_twice(&self, first: BTreeStorage<Entity, Contents>, second: BTreeStorage<Entity, Contents>) {
    }

    proof fn lemma_replaced_same(&self) {
    }

    proof fn lemma_empty_storage(&self) {
    }

    fn borrow(&self) -> (r: &BTreeStorage<Entity, Contents>) {
        &self.carried
    }

    fn borrow_mut(&mut self) -> (r: &mut BTreeStorage<Entity, Contents>) {
        &mut self.carried
    }
}

impl EntityComponent<Entity, IsPlayer> for GameWorld {
    type Storage = BTreeStorage<Entity, IsPlayer>;

    open spec fn storage(&self) -> BTreeStorage<Entity, IsPlayer> {
        self.players
    }

    open spec fn replaced(&self, s: BTreeStorage<Entity, IsPlayer>) -> GameWorld {
        GameWorld { players: s, ..*self }
    }

    proof fn lemma_replaced_storage(&self, s: BTreeStorage<Entity, IsPlayer>) {
    }

    proof fn lemma_replaced_twice(&self, first: BTreeStorage<Entity, IsPlayer>, second: BTreeStorage<Entity, IsPlayer>) {
    }

    proof fn lemma_replaced_same(&self) {
    }

    proof fn lemma_empty_storage(&self) {
    }

    fn borrow(&self) -> (r: &BTreeStorage<Entity, IsPlayer>) {
        &self.players
    }

    fn borrow_mut(&mut self) -> (r: &mut BTreeStorage<Entity, IsPlayer>) {
        &mut self.players
    }
}

impl EntityComponent<Entity, Damage> for GameWorld {
    type Storage = BTreeStorage<Entity, Damage>;

    open spec fn storage(&self) -> BTreeStorage<Entity, Damage> {
        self.damages
    }

    open spec fn replaced(&self, s: BTreeStorage<Entity, Damage>) -> GameWorld {
        GameWorld { damages: s, ..*self }
    }

    proof fn lemma_replaced_storage(&self, s: BTreeStorage<Entity, Damage>) {
    }

    proof fn lemma_replaced_twice(&self, first: BTreeStorage<Entity, Damage>, second: BTreeStorage<Entity, Damage>) {
    }

    proof fn lemma_replaced_same(&self) {
    }

    proof fn lemma_empty_storage(&self) {
    }

    fn borrow(&self) -> (r: &BTreeStorage<Entity, Damage>) {
        &self.damages
    }

    fn borrow_mut(&mut self) -> (r: &mut BTreeStorage<Entity, Damage>) {
        &mut self.damages
    }
}

impl EntityComponent<Entity, Corpse> for GameWorld {
    type Storage = BTreeStorage<Entity, Corpse>;

    open spec fn storage(&self) -> BTreeStorage<Entity, Corpse> {
        self.corpses
    }

    open spec fn replaced(&self, s: BTreeStorage<Entity, Corpse>) -> GameWorld {
        GameWorld { corpses: s, ..*self }
    }

    proof fn lemma_replaced_storage(&self, s: BTreeStorage<Entity, Corpse>) {
    }

    proof fn lemma_replaced_twice(&self, first: BTreeStorage<Entity, Corpse>, second: BTreeStorage<Entity, Corpse>) {
    }

    proof fn lemma_replaced_same(&self) {
    }

    proof fn lemma_empty_storage(&self) {
    }

    fn borrow(&self) -> (r: &BTreeStorage<Entity, Corpse>) {
        &self.corpses
    }

    fn borrow_mut(&mut self) -> (r: &mut BTreeStorage<Entity, Corpse>) {
        &mut self.corpses
    }
}

impl EntityComponent<Entity, AiState> for GameWorld {
    type Storage = BTreeStorage<Entity, AiState>;

    open spec fn storage(&self) -> BTreeStorage<Entity, AiState> {
        self.ai_states
    }

    open spec fn replaced(&self, s: BTreeStorage<Entity, AiState>) -> GameWorld {
        GameWorld { ai_states: s, ..*self }
    }

    proof fn lemma_replaced_storage(&self, s: BTreeStorage<Entity, AiState>) {
    }

    proof fn lemma_replaced_twice(&self, first: BTreeStorage<Entity, AiState>, second: BTreeStorage<Entity, AiState>) {
    }

    proof fn lemma_replaced_same(&self) {
    }

    proof fn lemma_empty_storage(&self) {
    }

    fn borrow(&self) -> (r: &BTreeStorage<Entity, AiState>) {
        &self.ai_states
    }

    fn borrow_mut(&mut self) -> (r: &mut BTreeStorage<Entity, AiState>) {
        &mut self.ai_states
    }
}

impl EntityComponent<Position, Contents> for GameWorld {
    type Storage = BTreeStorage<Position, Contents>;

    open spec fn storage(&self) -> BTreeStorage<Position, Contents> {
        self.lying
    }

    open spec fn replaced(&self, s: BTreeStorage<Position, Contents>) -> GameWorld {
        GameWorld { lying: s, ..*self }
    }

    proof fn lemma_replaced_storage(&self, s: BTreeStorage<Position, Contents>) {
    }

    proof fn lemma_replaced_twice(&self, first: BTreeStorage<Position, Contents>, second: BTreeStorage<Position, Contents>) {
    }

    proof fn lemma_replaced_same(&self) {
    }

    proof fn lemma_empty_storage(&self) {
    }

    fn borrow(&self) -> (r: &BTreeStorage<Position, Contents>) {
        &self.lying
    }

    fn borrow_mut(&mut self) -> (r: &mut BTreeStorage<Position, Contents>) {
        &mut self.lying
    }
}

impl EntityComponent<Position, Tile> for GameWorld {
    type Storage = BTreeStorage<Position, Tile>;

    open spec fn storage(&self) -> BTreeStorage<Position, Tile> {
        self.tiles
    }

    open spec fn replaced(&self, s: BTreeStorage<Position, Tile>) -> GameWorld {
        GameWorld { tiles: s, ..*self }
    }

    proof fn lemma_replaced_storage(&self, s: BTreeStorage<Position, Tile>) {
    }

    proof fn lemma_replaced_twice(&self, first: BTreeStorage<Position, Tile>, second: BTreeStorage<Position, Tile>) {
    }

    proof fn lemma_replaced_same(&self) {
    }

    proof fn lemma_empty_storage(&self) {
    }

    fn borrow(&self) -> (r: &BTreeStorage<Position, Tile>) {
        &self.tiles
    }

    fn borrow_mut(&mut self) -> (r: &mut BTreeStorage<Position, Tile>) {
        &mut self.tiles
    }
}

impl EntityComponent<Position, IsVisible> for GameWorld {
    type Storage = BTreeStorage<Position, IsVisible>;

    open spec fn storage(&self) -> BTreeStorage<Position, IsVisible> {
        self.visible
    }

    open spec fn replaced(&self, s: BTreeStorage<Position, IsVisible>) -> GameWorld {
        GameWorld { visible: s, ..*self }
    }

    proof fn lemma_replaced_storage(&self, s: BTreeStorage<Position, IsVisible>) {
    }

    proof fn lemma_replaced_twice(&self, first: BTreeStorage<Position, IsVisible>, second: BTreeStorage<Position, IsVisible>) {
    }

    proof fn lemma_replaced_same(&self) {
    }

    proof fn lemma_empty_storage(&self) {
    }

    fn borrow(&self) -> (r: &BTreeStorage<Position, IsVisible>) {
        &self.visible
    }

    fn borrow_mut(&mut self) -> (r: &mut BTreeStorage<Position, IsVisible>) {
        &mut self.visible
    }
}

impl EntityComponent<Position, WasVisible> for GameWorld {
    type Storage = BTreeStorage<Position, WasVisible>;

    open spec fn storage(&self) -> BTreeStorage<Position, WasVisible> {
        self.remembered
    }

    open spec fn replaced(&self, s: BTreeStorage<Position, WasVisible>) -> GameWorld {
        GameWorld { remembered: s, ..*self }
    }

    proof fn lemma_replaced_storage(&self, s: BTreeStorage<Position, WasVisible>) {
    }

    proof fn lemma_replaced_twice(&self, first: BTreeStorage<Position, WasVisible>, second: BTreeStorage<Position, WasVisible>) {
    }

    proof fn lemma_replaced_same(&self) {
    }

    proof fn lemma_empty_storage(&self) {
    }

    fn borrow(&self) -> (r: &BTreeStorage<Position, WasVisible>) {
        &self.remembered
    }

    fn borrow_mut(&mut self) -> (r: &mut BTreeStorage<Position, WasVisible>) {
        &mut self.remembered
    }
}

impl EntityStorage<Entity> for GameWorld {
    fn visit_component_types<V: VisitComponentTypes<Self, Entity>>(&self, v: &mut V)
        ensures
            *final(v) == old(v).visited::<EntityType>(self).visited::<Location>(self).visited::<Contents>(self).visited::<IsPlayer>(self).visited::<Damage>(self).visited::<Corpse>(self).visited::<AiState>(self),
    {
        v.visit::<EntityType>(self);
        v.visit::<Location>(self);
        v.visit::<Contents>(self);
        v.visit::<IsPlayer>(self);
        v.visit::<Damage>(self);
        v.visit::<Corpse>(self);
        v.visit::<AiState>(self);
    }

    fn visit_component_types_mut<V: VisitComponentTypesMut<Self, Entity>>(&mut self, v: &mut V)
        ensures
            (*final(v), *final(self)) == ({
                let (v1, s1) = old(v).visited_mut::<EntityType>(*old(self));
                let (v2, s2) = v1.visited_mut::<Location>(s1);
                let (v3, s3) = v2.visited_mut::<Contents>(s2);
                let (v4, s4) = v3.visited_mut::<IsPlayer>(s3);
                let (v5, s5) = v4.visited_mut::<Damage>(s4);
                let (v6, s6) = v5.visited_mut::<Corpse>(s5);
                v6.visited_mut::<AiState>(s6)
            }),
    {
        v.visit_mut::<EntityType>(self);
        v.visit_mut::<Location>(self);
        v.visit_mut::<Contents>(self);
        v.visit_mut::<IsPlayer>(self);
        v.visit_mut::<Damage>(self);
        v.visit_mut::<Corpse>(self);
        v.visit_mut::<AiState>(self);
    }
}

impl EntityStorage<Position> for GameWorld {
    fn visit_component_types<V: VisitComponentTypes<Self, Position>>(&self, v: &mut V)
        ensures
            *final(v) == old(v).visited::<Contents>(self).visited::<Tile>(self).visited::<IsVisible>(self).visited::<WasVisible>(self),
    {
        v.visit::<Contents>(self);
        v.visit::<Tile>(self);
        v.visit::<IsVisible>(self);
        v.visit::<WasVisible>(self);
    }

    fn visit_component_types_mut<V: VisitComponentTypesMut<Self, Position>>(&mut self, v: &mut V)
        ensures
            (*final(v), *final(self)) == ({
                let (v1, s1) = old(v).visited_mut::<Contents>(*old(self));
                let (v2, s2) = v1.visited_mut::<Tile>(s1);
                let (v3, s3) = v2.visited_mut::<IsVisible>(s2);
                v3.visited_mut::<WasVisible>(s3)
            }),
    {
        v.visit_mut::<Contents>(self);
        v.visit_mut::<Tile>(self);
        v.visit_mut::<IsVisible>(self);
        v.visit_mut::<WasVisible>(self);
    }
}

/// No component of the game takes part in any attribute by itself.
impl<A: Attribute> ModifyingComponent<A, GameWorld, Entity> for EntityType {
    open spec fn modifier(component: &EntityType, s: &GameWorld, id: Entity, attr: A) -> Option<
        <A::Aggregator as Aggregator>::Input,
    > {
        None
    }

    fn get_modifiers(
        c: ComponentRef<'_, GameWorld, Entity, EntityType>,
        attr: A,
        aggregator: &mut A::Aggregator,
    ) {
    }
}

impl<A: Attribute> ModifyingComponent<A, GameWorld, Entity> for Location {
    open spec fn modifier(component: &Location, s: &GameWorld, id: Entity, attr: A) -> Option<
        <A::Aggregator as Aggregator>::Input,
    > {
        None
    }

    fn get_modifiers(
        c: ComponentRef<'_, GameWorld, Entity, Location>,
        attr: A,
        aggregator: &mut A::Aggregator,
    ) {
    }
}

impl<A: Attribute> ModifyingComponent<A, GameWorld, Entity> for Contents {
    open spec fn modifier(component: &Contents, s: &GameWorld, id: Entity, attr: A) -> Option<
        <A::Aggregator as Aggregator>::Input,
    > {
        None
    }

    fn get_modifiers(
        c: ComponentRef<'_, GameWorld, Entity, Contents>,
        attr: A,
        aggregator: &mut A::Aggregator,
    ) {
    }
}

impl<A: Attribute> ModifyingComponent<A, GameWorld, Entity> for IsPlayer {
    open spec fn modifier(component: &IsPlayer, s: &GameWorld, id: Entity, attr: A) -> Option<
        <A::Aggregator as Aggregator>::Input,
    > {
        None
    }

    fn get_modifiers(
        c: ComponentRef<'_, GameWorld, Entity, IsPlayer>,
        attr: A,
        aggregator: &mut A::Aggregator,
    ) {
    }
}

impl<A: Attribute> ModifyingComponent<A, GameWorld, Entity> for Damage {
    open spec fn modifier(component: &Damage, s: &GameWorld, id: Entity, attr: A) -> Option<
        <A::Aggregator as Aggregator>::Input,
    > {
        None
    }

    fn get_modifiers(
        c: ComponentRef<'_, GameWorld, Entity, Damage>,
        attr: A,
        aggregator: &mut A::Aggregator,
    ) {
    }
}

impl<A: Attribute> ModifyingComponent<A, GameWorld, Entity> for Corpse {
    open spec fn modifier(component: &Corpse, s: &GameWorld, id: Entity, attr: A) -> Option<
        <A::Aggregator as Aggregator>::Input,
    > {
        None
    }

    fn get_modifiers(
        c: ComponentRef<'_, GameWorld, Entity, Corpse>,
        attr: A,
        aggregator: &mut A::Aggregator,
    ) {
    }
}

impl<A: Attribute> ModifyingComponent<A, GameWorld, Entity> for AiState {
    open spec fn modifier(component: &AiState, s: &GameWorld, id: Entity, attr: A) -> Option<
        <A::Aggregator as Aggregator>::Input,
    > {
        None
    }

    fn get_modifiers(
        c: ComponentRef<'_, GameWorld, Entity, AiState>,
        attr: A,
        aggregator: &mut A::Aggregator,
    ) {
    }
}

impl<A: Attribute> ModifyingComponent<A, GameWorld, Position> for Contents {
    open spec fn modifier(component: &Contents, s: &GameWorld, id: Position, attr: A) -> Option<
        <A::Aggregator as Aggregator>::Input,
    > {
        None
    }

    fn get_modifiers(
        c: ComponentRef<'_, GameWorld, Position, Contents>,
        attr: A,
        aggregator: &mut A::Aggregator,
    ) {
    }
}

impl<A: Attribute> ModifyingComponent<A, GameWorld, Position> for Tile {
    open spec fn modifier(component: &Tile, s: &GameWorld, id: Position, attr: A) -> Option<
        <A::Aggregator as Aggregator>::Input,
    > {
        None
    }

    fn get_modifiers(
        c: ComponentRef<'_, GameWorld, Position, Tile>,
        attr: A,
        aggregator: &mut A::Aggregator,
    ) {
    }
}

impl<A: Attribute> ModifyingComponent<A, GameWorld, Position> for IsVisible {
    open spec fn modifier(component: &IsVisible, s: &GameWorld, id: Position, attr: A) -> Option<
        <A::Aggregator as Aggregator>::Input,
    > {
        None
    }

    fn get_modifiers(
        c: ComponentRef<'_, GameWorld, Position, IsVisible>,
        attr: A,
        aggregator: &mut A::Aggregator,
    ) {
    }
}

impl<A: Attribute> ModifyingComponent<A, GameWorld, Position> for WasVisible {
    open spec fn modifier(component: &WasVisible, s: &GameWorld, id: Position, attr: A) -> Option<
        <A::Aggregator as Aggregator>::Input,
    > {
        None
    }

    fn get_modifiers(
        c: ComponentRef<'_, GameWorld, Position, WasVisible>,
        attr: A,
        aggregator: &mut A::Aggregator,
    ) {
    }
}

impl<A: Attribute> EntityAttribute<GameWorld, Entity> for A {
    open spec fn modifiers(self, s: &GameWorld, id: Entity) -> Seq<
        Option<<A::Aggregator as Aggregator>::Input>,
    > {
        seq![
            modifier_of::<A, GameWorld, Entity, EntityType>(self, s, id),
            modifier_of::<A, GameWorld, Entity, Location>(self, s, id),
            modifier_of::<A, GameWorld, Entity, Contents>(self, s, id),
            modifier_of::<A, GameWorld, Entity, IsPlayer>(self, s, id),
            modifier_of::<A, GameWorld, Entity, Damage>(self, s, id),
            modifier_of::<A, GameWorld, Entity, Corpse>(self, s, id),
            modifier_of::<A, GameWorld, Entity, AiState>(self, s, id),
        ]
    }

    /// No component of the game takes part in any attribute: every
    /// attribute is what a new aggregator stands for.
    fn compute(self, s: &GameWorld, id: Entity) -> (out: <A::Aggregator as Aggregator>::Output)
        ensures
            out == self.fresh_aggregator().aggregate(),
    {
        let ghost modifiers = self.modifiers(s, id);
        proof {
            reveal_with_fuel(fed_each, 8);
            reveal_with_fuel(accepts_each, 8);
            assert(modifiers.take(7).drop_last() =~= modifiers.take(6));
            assert(modifiers.take(6).drop_last() =~= modifiers.take(5));
            assert(modifiers.take(5).drop_last() =~= modifiers.take(4));
            assert(modifiers.take(4).drop_last() =~= modifiers.take(3));
            assert(modifiers.take(3).drop_last() =~= modifiers.take(2));
            assert(modifiers.take(2).drop_last() =~= modifiers.take(1));
            assert(modifiers.take(1).drop_last() =~= modifiers.take(0));
            assert(modifiers.take(7) =~= modifiers);
        }
        let mut visitor = AggregationVisitor::new(self, id);
        visitor.visit::<GameWorld, EntityType>(s);
        assert(visitor.aggregator == fed_each(self.fresh_aggregator(), modifiers.take(1)));
        visitor.visit::<GameWorld, Location>(s);
        assert(visitor.aggregator == fed_each(self.fresh_aggregator(), modifiers.take(2)));
        visitor.visit::<GameWorld, Contents>(s);
        assert(visitor.aggregator == fed_each(self.fresh_aggregator(), modifiers.take(3)));
        visitor.visit::<GameWorld, IsPlayer>(s);
        assert(visitor.aggregator == fed_each(self.fresh_aggregator(), modifiers.take(4)));
        visitor.visit::<GameWorld, Damage>(s);
        assert(visitor.aggregator == fed_each(self.fresh_aggregator(), modifiers.take(5)));
        visitor.visit::<GameWorld, Corpse>(s);
        assert(visitor.aggregator == fed_each(self.fresh_aggregator(), modifiers.take(6)));
        visitor.visit::<GameWorld, AiState>(s);
        assert(visitor.aggregator == fed_each(self.fresh_aggregator(), modifiers.take(7)));
        visitor.finish()
    }
}

impl<A: Attribute> EntityAttribute<GameWorld, Position> for A {
    open spec fn modifiers(self, s: &GameWorld, id: Position) -> Seq<
        Option<<A::Aggregator as Aggregator>::Input>,
    > {
        seq![
            modifier_of::<A, GameWorld, Position, Contents>(self, s, id),
            modifier_of::<A, GameWorld, Position, Tile>(self, s, id),
            modifier_of::<A, GameWorld, Position, IsVisible>(self, s, id),
            modifier_of::<A, GameWorld, Position, WasVisible>(self, s, id),
        ]
    }

    /// No component of the game takes part in any attribute: every
    /// attribute is what a new aggregator stands for.
    fn compute(self, s: &GameWorld, id: Position) -> (out: <A::Aggregator as Aggregator>::Output)
        ensures
            out == self.fresh_aggregator().aggregate(),
    {
        let ghost modifiers = self.modifiers(s, id);
        proof {
            reveal_with_fuel(fed_each, 5);
            reveal_with_fuel(accepts_each, 5);
            assert(modifiers.take(4).drop_last() =~= modifiers.take(3));
            assert(modifiers.take(3).drop_last() =~= modifiers.take(2));
            assert(modifiers.take(2).drop_last() =~= modifiers.take(1));
            assert(modifiers.take(1).drop_last() =~= modifiers.take(0));
            assert(modifiers.take(4) =~= modifiers);
        }
        let mut visitor = AggregationVisitor::new(self, id);
        visitor.visit::<GameWorld, Contents>(s);
        assert(visitor.aggregator == fed_each(self.fresh_aggregator(), modifiers.take(1)));
        visitor.visit::<GameWorld, Tile>(s);
        assert(visitor.aggregator == fed_each(self.fresh_aggregator(), modifiers.take(2)));
        visitor.visit::<GameWorld, IsVisible>(s);
        assert(visitor.aggregator == fed_each(self.fresh_aggregator(), modifiers.take(3)));
        visitor.visit::<GameWorld, WasVisible>(s);
        assert(visitor.aggregator == fed_each(self.fresh_aggregator(), modifiers.take(4)));
        visitor.finish()
    }
}

/// The entities that each identifier holds, where `m` is a storage of
/// contents.
pub open spec fn held<I: Id>(m: Map<I, Contents>) -> Map<I, Set<Entity>> {
    m.map_values(|c: Contents| c@)
}

/// `held` after `entity` has left `location`. A location that holds nothing
/// any more has no contents at all afterwards; one that had no contents is
/// left alone.
pub open spec fn without_entity<I: Id>(
    held: Map<I, Set<Entity>>,
    location: I,
    entity: Entity,
) -> Map<I, Set<Entity>> {
    if !held.contains_key(location) {
        held
    } else if held[location].remove(entity) == Set::<Entity>::empty() {
        held.remove(location)
    } else {
        held.insert(location, held[location].remove(entity))
    }
}

/// `held` after `entity` has arrived at `location`.
pub open spec fn with_entity<I: Id>(
    held: Map<I, Set<Entity>>,
    location: I,
    entity: Entity,
) -> Map<I, Set<Entity>> {
    if held.contains_key(location) {
        held.insert(location, held[location].insert(entity))
    } else {
        held.insert(location, Set::<Entity>::empty().insert(entity))
    }
}

/// What the identifiers of kind `I` hold in `w`.
pub open spec fn held_in<I: Id>(w: GameWorld) -> Map<I, Set<Entity>> where
    GameWorld: EntityComponent<I, Contents>,
 {
    held(EntityComponent::<I, Contents>::storage(&w).contents())
}

/// What the entities carry after `id` has left `from`.
pub open spec fn carried_without(
    carried: Map<Entity, Set<Entity>>,
    from: Option<Location>,
    id: Entity,
) -> Map<Entity, Set<Entity>> {
    match from {
        Some(Location::Entity(e)) => without_entity(carried, e, id),
        _ => carried,
    }
}

/// What lies at the positions after `id` has left `from`.
pub open spec fn lying_without(
    lying: Map<Position, Set<Entity>>,
    from: Option<Location>,
    id: Entity,
) -> Map<Position, Set<Entity>> {
    match from {
        Some(Location::Position(p)) => without_entity(lying, p, id),
        _ => lying,
    }
}

/// What the entities carry after `id` has arrived at `to`.
pub open spec fn carried_with(
    carried: Map<Entity, Set<Entity>>,
    to: Location,
    id: Entity,
) -> Map<Entity, Set<Entity>> {
    match to {
        Location::Entity(e) => with_entity(carried, e, id),
        Location::Position(_) => carried,
    }
}

/// What lies at the positions after `id` has arrived at `to`.
pub open spec fn lying_with(
    lying: Map<Position, Set<Entity>>,
    to: Location,
    id: Entity,
) -> Map<Position, Set<Entity>> {
    match to {
        Location::Position(p) => with_entity(lying, p, id),
        Location::Entity(_) => lying,
    }
}

/// What a world holds, storage by storage.
#[verifier::ext_equal]
pub struct WorldView {
    pub entity_types: Map<Entity, EntityType>,
    pub locations: Map<Entity, Location>,
    pub carried: Map<Entity, Set<Entity>>,
    pub players: Map<Entity, IsPlayer>,
    pub damages: Map<Entity, Damage>,
    pub corpses: Map<Entity, Corpse>,
    pub ai_states: Map<Entity, AiState>,
    pub lying: Map<Position, Set<Entity>>,
    pub tiles: Map<Position, Tile>,
    pub visible: Map<Position, IsVisible>,
    pub remembered: Map<Position, WasVisible>,
}

impl View for GameWorld {
    type V = WorldView;

    open spec fn view(&self) -> WorldView {
        WorldView {
            entity_types: self.entity_types.contents(),
            locations: self.locations.contents(),
            carried: held(self.carried.contents()),
            players: self.players.contents(),
            damages: self.damages.contents(),
            corpses: self.corpses.contents(),
            ai_states: self.ai_states.contents(),
            lying: held(self.lying.contents()),
            tiles: self.tiles.contents(),
            visible: self.visible.contents(),
            remembered: self.remembered.contents(),
        }
    }
}

impl WorldView {
    /// The world after `id` has been taken from where it was and put at `l`.
    pub open spec fn moved(self, id: Entity, l: Location) -> WorldView {
        let from = self.locations.get(id);
        WorldView {
            locations: self.locations.insert(id, l),
            carried: carried_with(carried_without(self.carried, from, id), l, id),
            lying: lying_with(lying_without(self.lying, from, id), l, id),
            ..self
        }
    }

    /// The world after `id` has been taken from where it was.
    pub open spec fn taken(self, id: Entity) -> WorldView {
        let from = self.locations.get(id);
        WorldView {
            locations: self.locations.remove(id),
            carried: carried_without(self.carried, from, id),
            lying: lying_without(self.lying, from, id),
            ..self
        }
    }
}

impl WorldView {
    /// The world after `id` has been killed in turn `turn`: it is a corpse
    /// that remembers what it was, if it was anything, and it acts no more.
    pub open spec fn killed(self, id: Entity, turn: i32) -> WorldView {
        WorldView {
            entity_types: self.entity_types.insert(id, EntityType::Corpse),
            corpses: match self.entity_types.get(id) {
                Some(t) => self.corpses.insert(id, Corpse { turn_created: turn, original_type: t }),
                None => self.corpses,
            },
            ai_states: self.ai_states.remove(id),
            ..self
        }
    }

    /// The damage that `target` has taken once `damage` has been added to
    /// it: the sum, wrapped into an `i8`, and 0 where that is negative.
    pub open spec fn damage_after(self, target: Entity, damage: i8) -> i8 {
        let before = match self.damages.get(target) {
            Some(d) => d.0,
            None => 0i8,
        };
        let sum = before.wrapping_add(damage);
        if sum < 0 {
            0i8
        } else {
            sum
        }
    }

    /// The world after `target` has taken `damage` in turn `turn`. Only
    /// actors take damage; one that has taken as much as its health dies.
    pub open spec fn damaged(self, target: Entity, damage: i8, turn: i32) -> WorldView {
        match self.entity_types.get(target) {
            Some(t) => match t.class() {
                EntityClass::Actor { max_health, .. } => {
                    let total = self.damage_after(target, damage);
                    let hurt = WorldView {
                        damages: self.damages.insert(target, Damage(total)),
                        ..self
                    };
                    if total >= max_health {
                        hurt.killed(target, turn)
                    } else {
                        hurt
                    }
                },
                _ => self,
            },
            None => self,
        }
    }

    /// The world after a new entity `id` of type `t` has been put at `p`.
    pub open spec fn placed(self, id: Entity, t: EntityType, p: Position) -> WorldView {
        let marked = if t == EntityType::Player {
            WorldView { players: self.players.insert(id, IsPlayer), ..self }
        } else if t.class() is Actor {
            WorldView { ai_states: self.ai_states.insert(id, AiState::Waiting), ..self }
        } else {
            self
        };
        WorldView { entity_types: marked.entity_types.insert(id, t), ..marked }.moved(
            id,
            Location::Position(p),
        )
    }
}

impl GameWorld {
    /// Where each entity is.
    pub open spec fn location_of(&self) -> Map<Entity, Location> {
        self.locations.contents()
    }

    /// What each entity carries.
    pub open spec fn carried_by(&self) -> Map<Entity, Set<Entity>> {
        held(self.carried.contents())
    }

    /// What lies at each position.
    pub open spec fn lying_at(&self) -> Map<Position, Set<Entity>> {
        held(self.lying.contents())
    }

    /// Whether `other` differs from this world at most in where the entities
    /// are and in what the entities and the positions hold.
    pub open spec fn same_but_locations(&self, other: GameWorld) -> bool {
        other == (GameWorld {
            locations: other.locations,
            carried: other.carried,
            lying: other.lying,
            ..*self
        })
    }

    /// Takes `entity` out of what `location` holds. A location that holds
    /// nothing any more loses its contents altogether.
    pub fn remove_from_contents<I: Id>(&mut self, entity: Entity, location: I) where
        GameWorld: EntityStorage<I> + EntityComponent<I, Contents>,

        ensures
            *final(self) == old(self).replaced(
                EntityComponent::<I, Contents>::storage(final(self)),
            ),
            held_in::<I>(*final(self)) == without_entity(
                held_in::<I>(*old(self)),
                location,
                entity,
            ),
    {
        let ghost before = held_in::<I>(*self);
        let is_empty = match self.entity_mut(location).get_mut::<Contents>() {
            Some(c) => {
                c.remove(entity);
                Some(c.is_empty())
            },
            None => None,
        };
        proof {
            if before.contains_key(location) {
                assert(held_in::<I>(*self) =~~= before.insert(
                    location,
                    before[location].remove(entity),
                ));
            } else {
                assert(held_in::<I>(*self) =~~= before);
            }
            EntityComponent::<I, Contents>::lemma_replaced_storage(
                old(self),
                EntityComponent::<I, Contents>::storage(self),
            );
        }
        if is_empty == Some(true) {
            let ghost between = *self;
            let _ = self.entity_mut(location).remove::<Contents>();
            proof {
                assert(held_in::<I>(*self) =~~= before.remove(location));
                EntityComponent::<I, Contents>::lemma_replaced_twice(
                    old(self),
                    EntityComponent::<I, Contents>::storage(&between),
                    EntityComponent::<I, Contents>::storage(self),
                );
            }
        }
    }

    /// Takes `id` out of the world: it is nowhere afterwards, and what held
    /// it holds it no more. Fails, and changes nothing, where `id` was
    /// nowhere to begin with.
    pub fn remove_location(&mut self, id: Entity) -> (r: ActionResult<Location>)
        ensures
            r == match old(self).location_of().get(id) {
                Some(l) => Ok::<Location, ActionError>(l),
                None => Err::<Location, ActionError>(ActionError::Failed),
            },
            final(self).location_of() == old(self).location_of().remove(id),
            final(self).carried_by() == carried_without(
                old(self).carried_by(),
                old(self).location_of().get(id),
                id,
            ),
            final(self).lying_at() == lying_without(
                old(self).lying_at(),
                old(self).location_of().get(id),
                id,
            ),
            old(self).same_but_locations(*final(self)),
            final(self)@ == old(self)@.taken(id),
    {
        let old_location = self.entity_mut(id).remove::<Location>();
        match old_location {
            Some(Location::Entity(e)) => {
                self.remove_from_contents(id, e);
            },
            Some(Location::Position(p)) => {
                self.remove_from_contents(id, p);
            },
            None => {},
        }
        assert(self@ =~= old(self)@.taken(id));
        match old_location {
            Some(l) => Ok(l),
            None => Err(ActionError::Failed),
        }
    }

    /// Puts `id` at `l` and hands back where it was before. What held it
    /// holds it no more, and `l` holds it afterwards.
    pub fn set_location(&mut self, id: Entity, l: Location) -> (r: Option<Location>)
        ensures
            r == old(self).location_of().get(id),
            final(self).location_of() == old(self).location_of().insert(id, l),
            final(self).carried_by() == carried_with(
                carried_without(old(self).carried_by(), r, id),
                l,
                id,
            ),
            final(self).lying_at() == lying_with(
                lying_without(old(self).lying_at(), r, id),
                l,
                id,
            ),
            old(self).same_but_locations(*final(self)),
            final(self)@ == old(self)@.moved(id, l),
    {
        let old_location = self.entity_mut(id).insert(l);
        match old_location {
            Some(Location::Entity(e)) => {
                self.remove_from_contents(id, e);
            },
            Some(Location::Position(p)) => {
                self.remove_from_contents(id, p);
            },
            None => {},
        }
        let ghost carried = self.carried_by();
        let ghost lying = self.lying_at();
        match l {
            Location::Entity(e) => {
                self.entity_mut(e).get_or_else::<Contents, _>(Contents::new).insert(id);
                assert(self.carried_by() =~~= with_entity(carried, e, id));
            },
            Location::Position(p) => {
                self.entity_mut(p).get_or_else::<Contents, _>(Contents::new).insert(id);
                assert(self.lying_at() =~~= with_entity(lying, p, id));
            },
        }
        assert(self@ =~= old(self)@.moved(id, l));
        old_location
    }
}

/// What the player can do in one turn.
#[derive(Debug, Copy, Clone, PartialEq, Eq, Structural)]
pub enum Action {
    Wait,
    Move(Direction),
    EatHerb,
    ReadScroll,
    GetCorpse,
    DropCorpse,
    ThrowRock(Position),
    FireBow(Direction),
}

/// A rectangle of positions, its borders included.
#[derive(Debug, Copy, Clone, PartialEq, Eq, Structural)]
pub struct Rect {
    pub min_x: i32,
    pub max_x: i32,
    pub min_y: i32,
    pub max_y: i32,
}

impl Rect {
    /// Whether `pos` lies in the rectangle.
    pub open spec fn covers(&self, pos: Position) -> bool {
        self.min_x <= pos.x <= self.max_x && self.min_y <= pos.y <= self.max_y
    }

    /// The smallest rectangle that holds this one and `pos`.
    pub open spec fn extended(self, pos: Position) -> Rect {
        Rect {
            min_x: if pos.x < self.min_x {
                pos.x
            } else {
                self.min_x
            },
            max_x: if pos.x > self.max_x {
                pos.x
            } else {
                self.max_x
            },
            min_y: if pos.y < self.min_y {
                pos.y
            } else {
                self.min_y
            },
            max_y: if pos.y > self.max_y {
                pos.y
            } else {
                self.max_y
            },
        }
    }

    /// Grows the rectangle as little as it takes to hold `pos`.
    pub fn extend(&mut self, pos: Position)
        ensures
            *final(self) == old(self).extended(pos),
    {
        if pos.x < self.min_x {
            self.min_x = pos.x;
        }
        if pos.x > self.max_x {
            self.max_x = pos.x;
        }
        if pos.y < self.min_y {
            self.min_y = pos.y;
        }
        if pos.y > self.max_y {
            self.max_y = pos.y;
        }
    }
}

impl From<Position> for Rect {
    /// The rectangle that holds `pos` and nothing else.
    fn from(pos: Position) -> (r: Rect) {
        Rect { min_x: pos.x, max_x: pos.x, min_y: pos.y, max_y: pos.y }
    }
}

impl vstd::std_specs::convert::FromSpecImpl<Position> for Rect {
    open spec fn obeys_from_spec() -> bool {
        true
    }

    open spec fn from_spec(pos: Position) -> Rect {
        Rect { min_x: pos.x, max_x: pos.x, min_y: pos.y, max_y: pos.y }
    }
}

/// Whether `r` is the smallest rectangle that holds `origin` and every
/// position in `others`: it holds them all, and each of its borders runs
/// through one of them.
pub open spec fn is_bounding(r: Rect, origin: Position, others: Set<Position>) -> bool {
    &&& r.covers(origin)
    &&& forall|p: Position| others.contains(p) ==> r.covers(p)
    &&& r.min_x == origin.x || exists|p: Position| others.contains(p) && p.x == r.min_x
    &&& r.max_x == origin.x || exists|p: Position| others.contains(p) && p.x == r.max_x
    &&& r.min_y == origin.y || exists|p: Position| others.contains(p) && p.y == r.min_y
    &&& r.max_y == origin.y || exists|p: Position| others.contains(p) && p.y == r.max_y
}

/// Extending the smallest rectangle around some positions by one more
/// gives the smallest rectangle around them all.
pub proof fn lemma_bounding_extended(
    r: Rect,
    origin: Position,
    others: Set<Position>,
    pos: Position,
)
    requires
        is_bounding(r, origin, others),
    ensures
        is_bounding(r.extended(pos), origin, others.insert(pos)),
{
    let grown = r.extended(pos);
    let all = others.insert(pos);
    assert(all.contains(pos));
    if grown.min_x != origin.x && pos.x >= r.min_x {
        let p = choose|p: Position| others.contains(p) && p.x == r.min_x;
        assert(all.contains(p) && p.x == grown.min_x);
    }
    if grown.max_x != origin.x && pos.x <= r.max_x {
        let p = choose|p: Position| others.contains(p) && p.x == r.max_x;
        assert(all.contains(p) && p.x == grown.max_x);
    }
    if grown.min_y != origin.y && pos.y >= r.min_y {
        let p = choose|p: Position| others.contains(p) && p.y == r.min_y;
        assert(all.contains(p) && p.y == grown.min_y);
    }
    if grown.max_y != origin.y && pos.y <= r.max_y {
        let p = choose|p: Position| others.contains(p) && p.y == r.max_y;
        assert(all.contains(p) && p.y == grown.max_y);
    }
}

/// What the status line shows of the player.
#[derive(Debug, Copy, Clone, PartialEq, Eq, Structural)]
pub struct PlayerStatus {
    pub health: i8,
    pub max_health: i8,
    pub has_bow: bool,
    pub has_sword: bool,
    pub arrows: i32,
    pub herbs: i32,
    pub rocks: i32,
    pub corpses: i32,
    pub diamonds: i32,
    pub recall_turns: Option<i32>,
}

} // verus!
