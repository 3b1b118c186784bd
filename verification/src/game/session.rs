//! One game in progress: the world, the random numbers and the turn count.
use super::entity::{turn_frame, AiState, Corpse, EntityClass, EntityType};
use super::fov::{lemma_fov_updated_frame, update_fov, IsVisible, WasVisible};
use super::position::Tile;
use super::stats::Damage;
use super::{
    is_bounding, lemma_bounding_extended, Action, Cell, Color, Contents, WorldView, Entity, GameWorld, IsPlayer, Location, PlayerStatus, Rect,
};
use crate::engine::world::{
    first_id, is_traversal, lemma_first_id, lemma_first_of_traversal, lemma_first_wanted,
    lemma_key_injective, lemma_traversal_of, traversal_of, Iterate,
};
use crate::engine::{
    ActionError, ActionResult, ComponentStorage, Direction, EntityStorage, Id, Position,
    QueryResult, World,
};
use super::rng::{choose_direction, gen_range};
use crate::engine::ALL_DIRECTIONS;
use rand::StdRng;
use std::collections::BTreeMap;
use vstd::prelude::*;

verus! {

impl WorldView {
    /// The entity that the player controls: the first that is marked so.
    pub open spec fn player(self) -> QueryResult<Entity> {
        match first_id(self.players.dom()) {
            Some(id) => Ok(id),
            None => Err(()),
        }
    }

    /// Where the player lies.
    pub open spec fn player_position(self) -> QueryResult<Position> {
        match self.player() {
            Ok(id) => self.position_of(id),
            Err(_) => Err(()),
        }
    }

    /// The tile at `pos`: wall where the position has none.
    pub open spec fn tile(self, pos: Position) -> Tile {
        match self.tiles.get(pos) {
            Some(tile) => tile,
            None => Tile::Wall,
        }
    }

    /// The position that `id` lies at. An entity that is carried, or that is
    /// nowhere, lies at no position.
    pub open spec fn position_of(self, id: Entity) -> QueryResult<Position> {
        match self.locations.get(id) {
            Some(Location::Position(p)) => Ok(p),
            _ => Err(()),
        }
    }

    /// Whether `id` is marked as controlled by the player.
    pub open spec fn is_player(self, id: Entity) -> bool {
        self.players.contains_key(id)
    }

    /// The type of `id`, if it has one.
    pub open spec fn type_of(self, id: Entity) -> Option<EntityType> {
        self.entity_types.get(id)
    }

    /// How far the player sees: the range of its type, or 0 where there is
    /// no player, or the player has no type or is no actor.
    pub open spec fn player_fov_range(self) -> i8 {
        match self.player() {
            Ok(id) => match self.type_of(id) {
                Some(t) => match t.class() {
                    EntityClass::Actor { fov_range, .. } => fov_range,
                    _ => 0i8,
                },
                None => 0i8,
            },
            Err(_) => 0i8,
        }
    }

    /// The position that `id` lies at, directly or in what carries it,
    /// looking through at most `steps` carriers.
    pub open spec fn located(self, id: Entity, steps: nat) -> QueryResult<Position>
        decreases steps,
    {
        if steps == 0 {
            Err(())
        } else {
            match self.locations.get(id) {
                Some(Location::Position(p)) => Ok(p),
                Some(Location::Entity(e)) => self.located(e, (steps - 1) as nat),
                None => Err(()),
            }
        }
    }

    /// Whether `id` is of a type that acts.
    pub open spec fn is_actor(self, id: Entity) -> bool {
        match self.type_of(id) {
            Some(t) => t.class() is Actor,
            None => false,
        }
    }

    /// The first actor that lies at `pos`.
    pub open spec fn actor_at(self, pos: Position) -> QueryResult<Entity> {
        match self.lying.get(pos) {
            Some(entities) => match first_id(entities.filter(|id: Entity| self.is_actor(id))) {
                Some(id) => Ok(id),
                None => Err(()),
            },
            None => Err(()),
        }
    }

    /// The first of `entities` that is of type `t`.
    pub open spec fn first_of_type(self, entities: Set<Entity>, t: EntityType) -> QueryResult<
        Entity,
    > {
        match first_id(entities.filter(|id: Entity| self.type_of(id) == Some(t))) {
            Some(id) => Ok(id),
            None => Err(()),
        }
    }

    /// The first thing of type `t` that the player carries.
    pub open spec fn find_item(self, t: EntityType) -> QueryResult<Entity> {
        match self.player() {
            Ok(player) => match self.carried.get(player) {
                Some(inventory) => self.first_of_type(inventory, t),
                None => Err(()),
            },
            Err(_) => Err(()),
        }
    }

    /// The first corpse that lies where the player lies.
    pub open spec fn find_corpse(self) -> QueryResult<Entity> {
        match self.player_position() {
            Ok(pos) => match self.lying.get(pos) {
                Some(entities) => self.first_of_type(entities, EntityType::Corpse),
                None => Err(()),
            },
            Err(_) => Err(()),
        }
    }

    /// How many of `entities` are of type `t`; counting stops at the largest
    /// `i32`.
    pub open spec fn count_of_type(self, entities: Set<Entity>, t: EntityType) -> i32 {
        let n = entities.filter(|id: Entity| self.type_of(id) == Some(t)).len();
        if n > i32::MAX {
            i32::MAX
        } else {
            n as i32
        }
    }

    /// How many things of type `t` the player carries.
    pub open spec fn inventory_count(self, t: EntityType) -> i32 {
        match self.player() {
            Ok(player) => match self.carried.get(player) {
                Some(inventory) => self.count_of_type(inventory, t),
                None => 0i32,
            },
            Err(_) => 0i32,
        }
    }

    /// The positions that the player has in view: those in a line of sight
    /// that are no farther away than the player sees.
    pub open spec fn in_view(self) -> Set<Position> {
        Set::new(
            |p: Position|
                self.visible.contains_key(p)
                    && self.visible[p].0 <= self.player_fov_range(),
        )
    }

    /// Which of the entities `ids`, taken first to last, is shown.
    pub open spec fn shown(self, ids: Seq<Entity>) -> Option<EntityType>
        decreases ids.len(),
    {
        if ids.len() == 0 {
            None
        } else {
            let before = self.shown(ids.drop_last());
            match self.type_of(ids.last()) {
                Some(t) => shown_of(before, t),
                None => before,
            }
        }
    }

    /// How `pos` is displayed. A position in view shows its tile, or in bold
    /// the entity that `shown` picks of those that lie there, in its own
    /// colour if it has one and on the background of the tile. A position out
    /// of view shows the tile that is remembered there, and an empty cell
    /// where none is.
    pub open spec fn render(self, pos: Position) -> Cell {
        let in_view = match self.visible.get(pos) {
            Some(visible) => visible.0 <= self.player_fov_range(),
            None => false,
        };
        if in_view {
            let cell = self.tile(pos).render();
            let data = match self.lying.get(pos) {
                Some(entities) => self.shown(traversal_of(entities)),
                None => None,
            };
            match data {
                Some(t) => Cell {
                    ch: t.ch(),
                    fg: match t.color() {
                        Some(color) => color,
                        None => cell.fg,
                    },
                    bg: cell.bg,
                    bold: true,
                },
                None => cell,
            }
        } else {
            match self.remembered.get(pos) {
                Some(memory) => memory.0.render_memory(),
                None => Cell { ch: ' ', fg: Color::Black, bg: Color::Black, bold: false },
            }
        }
    }

    /// What an attack of `attacker` on `target` with `damage` makes of the
    /// world, and how it ends: the player and the others attack each other,
    /// never their own kind.
    pub open spec fn attack_entity(self, attacker: Entity, target: Entity, damage: i8, turn: i32) -> (
        WorldView,
        ActionResult<()>,
    ) {
        if self.is_player(attacker) == self.is_player(target) {
            (self, Err(ActionError::Failed))
        } else {
            (self.damaged(target, damage, turn), Ok(()))
        }
    }

    /// What an attack of `attacker` on the first actor at `pos` makes of the
    /// world, and how it ends.
    pub open spec fn attack_position(self, attacker: Entity, pos: Position, damage: i8, turn: i32) -> (
        WorldView,
        ActionResult<()>,
    ) {
        match self.actor_at(pos) {
            Ok(target) => self.attack_entity(attacker, target, damage, turn),
            Err(_) => (self, Err(ActionError::Failed)),
        }
    }

    /// The damage that `attacker` does when it bumps into another: that of
    /// its type, or 3 for a player that carries a sword. Only actors do
    /// damage.
    pub open spec fn bump_damage(self, attacker: Entity) -> ActionResult<i8> {
        match self.type_of(attacker) {
            Some(t) => match t.class() {
                EntityClass::Actor { damage, .. } => Ok(
                    if self.is_player(attacker) && self.find_item(EntityType::Sword)
                        is Ok {
                        3i8
                    } else {
                        damage
                    },
                ),
                _ => Err(ActionError::Failed),
            },
            None => Err(ActionError::Failed),
        }
    }

    /// What it makes of the world, and how it ends, when `attacker` bumps
    /// into `target`.
    pub open spec fn bump_attack(self, attacker: Entity, target: Entity, turn: i32) -> (
        WorldView,
        ActionResult<()>,
    ) {
        match self.bump_damage(attacker) {
            Ok(damage) => self.attack_entity(attacker, target, damage, turn),
            Err(e) => (self, Err(e)),
        }
    }

    /// What a step of `id` in direction `dir` makes of the world, and how it
    /// ends. The step fails where `id` lies at no position or the tile ahead
    /// cannot be walked on; it turns into a bump where an actor is in the
    /// way.
    pub open spec fn move_entity(self, id: Entity, dir: Direction, turn: i32) -> (
        WorldView,
        ActionResult<()>,
    ) {
        match self.position_of(id) {
            Ok(pos) => {
                let new_pos = pos.step(dir);
                if !self.tile(new_pos).is_walkable() {
                    (self, Err(ActionError::Failed))
                } else {
                    match self.actor_at(new_pos) {
                        Ok(target) => self.bump_attack(id, target, turn),
                        Err(_) => (self.moved(id, Location::Position(new_pos)), Ok(())),
                    }
                }
            },
            Err(_) => (self, Err(ActionError::Failed)),
        }
    }

    /// What it makes of the world, and how it ends, when the player uses up
    /// a thing of type `t`: the first such thing that the player carries is
    /// nowhere afterwards.
    pub open spec fn consume_item(self, t: EntityType) -> (WorldView, ActionResult<()>) {
        match self.find_item(t) {
            Ok(item) => (self.taken(item), Ok(())),
            Err(_) => (self, Err(ActionError::Failed)),
        }
    }

    /// The world after the player, who is `player`, has picked up those of
    /// `items`, taken first to last, that are picked up without asking.
    pub open spec fn picked_up(self, items: Seq<Entity>, player: Entity) -> WorldView
        decreases items.len(),
    {
        if items.len() == 0 {
            self
        } else {
            let before = self.picked_up(items.drop_last(), player);
            match self.type_of(items.last()) {
                Some(t) => if is_picked_up(t) {
                    before.moved(items.last(), Location::Entity(player))
                } else {
                    before
                },
                None => before,
            }
        }
    }

    /// What it makes of the world, and how it ends, when the player picks up
    /// what lies where it lies. Fails where there is no player or it lies at
    /// no position.
    pub open spec fn auto_pickup(self) -> (WorldView, QueryResult<()>) {
        match (self.player(), self.player_position()) {
            (Ok(player), Ok(pos)) => match self.lying.get(pos) {
                Some(entities) => (self.picked_up(traversal_of(entities), player), Ok(())),
                None => (self, Ok(())),
            },
            _ => (self, Err(())),
        }
    }

    /// What it makes of the world when `actor` tries to go to `new_pos`, and
    /// whether it gets there: it does unless it lies there already, the tile
    /// there cannot be walked on, or an actor is in the way.
    pub open spec fn move_to(self, actor: Entity, new_pos: Position) -> (WorldView, bool) {
        if self.locations.get(actor) != Some(Location::Position(new_pos))
            && self.tile(new_pos).is_walkable() && self.actor_at(
            new_pos,
        ) is Err {
            (self.moved(actor, Location::Position(new_pos)), true)
        } else {
            (self, false)
        }
    }
}

/// A game in progress.
pub struct Game {
    pub world: GameWorld,
    /// The number of the next entity that is made.
    pub next_id: u64,
    pub rand: StdRng,
    /// The turns that are left until the scroll takes the player home, once
    /// it has been read.
    pub recall_turns: Option<i32>,
    /// How far the smell of a corpse has to travel to each position, by the
    /// key of the position.
    pub smell_strength: BTreeMap<u64, i32>,
    pub current_turn: i32,
}

impl Game {
    /// The entity that the player controls: the first that is marked so.
    pub open spec fn spec_player(&self) -> QueryResult<Entity> {
        self.world@.player()
    }

    /// Where the player lies.
    pub open spec fn spec_player_position(&self) -> QueryResult<Position> {
        self.world@.player_position()
    }

    /// The tile at `pos`: wall where the position has none.
    pub open spec fn spec_get_tile(&self, pos: Position) -> Tile {
        self.world@.tile(pos)
    }

    /// The position that `id` lies at. An entity that is carried, or that is
    /// nowhere, lies at no position.
    pub open spec fn spec_entity_position(&self, id: Entity) -> QueryResult<Position> {
        self.world@.position_of(id)
    }

    /// Whether `id` is marked as controlled by the player.
    pub open spec fn spec_is_player(&self, id: Entity) -> bool {
        self.world@.is_player(id)
    }

    /// The first entity that is marked as controlled by the player, if any.
    #[verifier::when_used_as_spec(spec_player)]
    pub fn player(&self) -> (r: QueryResult<Entity>)
        ensures
            r == self.spec_player(),
    {
        let mut ids = self.world.players.ids();
        proof {
            let dom = self.world.players.contents().dom();
            lemma_first_of_traversal(ids.remaining(), dom);
            lemma_first_id(
                if ids.remaining().len() > 0 {
                    Some(ids.remaining()[0])
                } else {
                    None
                },
                dom,
            );
        }
        match ids.next() {
            Some(id) => Ok(id),
            None => Err(()),
        }
    }

    #[verifier::when_used_as_spec(spec_get_tile)]
    pub fn get_tile(&self, pos: Position) -> (tile: Tile)
        ensures
            tile == self.spec_get_tile(pos),
    {
        match self.world.entity(pos).get::<Tile>() {
            Some(tile) => *tile,
            None => Tile::Wall,
        }
    }

    #[verifier::when_used_as_spec(spec_entity_position)]
    pub fn entity_position(&self, id: Entity) -> (r: QueryResult<Position>)
        ensures
            r == self.spec_entity_position(id),
    {
        match self.world.entity(id).get::<Location>() {
            Some(Location::Position(p)) => Ok(*p),
            _ => Err(()),
        }
    }

    #[verifier::when_used_as_spec(spec_is_player)]
    pub fn is_player(&self, id: Entity) -> (b: bool)
        ensures
            b == self.spec_is_player(id),
    {
        self.world.entity(id).has::<IsPlayer>()
    }

    #[verifier::when_used_as_spec(spec_player_position)]
    pub fn player_position(&self) -> (r: QueryResult<Position>)
        ensures
            r == self.spec_player_position(),
    {
        match self.player() {
            Ok(id) => self.entity_position(id),
            Err(_) => Err(()),
        }
    }

    /// The type of `id`, if it has one.
    pub open spec fn type_of(&self, id: Entity) -> Option<EntityType> {
        self.world@.type_of(id)
    }

    /// How far the player sees: the range of its type, or 0 where there is
    /// no player, or the player has no type or is no actor.
    pub open spec fn spec_player_fov_range(&self) -> i8 {
        self.world@.player_fov_range()
    }

    #[verifier::when_used_as_spec(spec_player_fov_range)]
    pub fn player_fov_range(&self) -> (range: i8)
        ensures
            range == self.spec_player_fov_range(),
    {
        match self.player() {
            Ok(id) => match self.world.entity(id).get::<EntityType>() {
                Some(t) => match t.data().class {
                    EntityClass::Actor { fov_range, .. } => fov_range,
                    _ => 0,
                },
                None => 0,
            },
            Err(_) => 0,
        }
    }

    /// The position that `id` lies at, directly or in what carries it,
    /// looking through at most `steps` carriers.
    pub open spec fn located(&self, id: Entity, steps: nat) -> QueryResult<Position> {
        self.world@.located(id, steps)
    }

    /// The position that `id` lies at, directly or in what carries it. The
    /// search gives up after 32 carriers.
    pub fn locate_entity(&self, id: Entity) -> (r: QueryResult<Position>)
        ensures
            r == self.located(id, 32),
    {
        let mut at = id;
        let mut left: u32 = 32;
        while left > 0
            invariant
                self.located(id, 32) == self.located(at, left as nat),
            decreases left,
        {
            match self.world.entity(at).get::<Location>() {
                Some(Location::Entity(e)) => {
                    at = *e;
                },
                Some(Location::Position(p)) => {
                    return Ok(*p);
                },
                None => {
                    return Err(());
                },
            }
            left = left - 1;
        }
        Err(())
    }

    /// Whether `id` is of a type that acts.
    pub open spec fn is_actor(&self, id: Entity) -> bool {
        self.world@.is_actor(id)
    }

    /// The first actor that lies at `pos`.
    pub open spec fn spec_get_actor_by_position(&self, pos: Position) -> QueryResult<Entity> {
        self.world@.actor_at(pos)
    }

    #[verifier::when_used_as_spec(spec_get_actor_by_position)]
    pub fn get_actor_by_position(&self, pos: Position) -> (r: QueryResult<Entity>)
        ensures
            r == self.spec_get_actor_by_position(pos),
    {
        match self.world.entity(pos).get::<Contents>() {
            Some(contents) => {
                let ids = contents.entities();
                let ghost view = self.world@;
                let ghost wanted = |id: Entity| view.is_actor(id);
                let mut i: usize = 0;
                while i < ids.len()
                    invariant
                        i <= ids.len(),
                        is_traversal(ids@, contents@),
                        self.world.lying_at().get(pos) == Some(contents@),
                        view == self.world@,
                        wanted == |id: Entity| view.is_actor(id),
                        forall|j: int| 0 <= j < i ==> !wanted(#[trigger] ids@[j]),
                    decreases ids.len() - i,
                {
                    let id = ids[i];
                    let found = match self.world.entity(id).get::<EntityType>() {
                        Some(t) => t.data().is_actor(),
                        None => false,
                    };
                    if found {
                        proof {
                            lemma_first_wanted(ids@, contents@, wanted, i as int);
                        }
                        return Ok(id);
                    }
                    i = i + 1;
                }
                proof {
                    lemma_first_wanted(ids@, contents@, wanted, i as int);
                }
                Err(())
            },
            None => Err(()),
        }
    }

    /// The first of `entities` that is of type `t`.
    pub open spec fn first_of_type(&self, entities: Set<Entity>, t: EntityType) -> QueryResult<
        Entity,
    > {
        self.world@.first_of_type(entities, t)
    }

    /// The first entity in `contents` that is of type `t`.
    pub fn find_in(&self, contents: &Contents, t: EntityType) -> (r: QueryResult<Entity>)
        ensures
            r == self.first_of_type(contents@, t),
    {
        let ids = contents.entities();
        let ghost view = self.world@;
        let ghost wanted = |id: Entity| view.type_of(id) == Some(t);
        let mut i: usize = 0;
        while i < ids.len()
            invariant
                i <= ids.len(),
                is_traversal(ids@, contents@),
                view == self.world@,
                wanted == |id: Entity| view.type_of(id) == Some(t),
                forall|j: int| 0 <= j < i ==> !wanted(#[trigger] ids@[j]),
            decreases ids.len() - i,
        {
            let id = ids[i];
            let found = match self.world.entity(id).get::<EntityType>() {
                Some(other) => *other == t,
                None => false,
            };
            if found {
                proof {
                    lemma_first_wanted(ids@, contents@, wanted, i as int);
                }
                return Ok(id);
            }
            i = i + 1;
        }
        proof {
            lemma_first_wanted(ids@, contents@, wanted, i as int);
        }
        Err(())
    }

    /// The first thing of type `t` that the player carries.
    pub open spec fn spec_find_item(&self, t: EntityType) -> QueryResult<Entity> {
        self.world@.find_item(t)
    }

    #[verifier::when_used_as_spec(spec_find_item)]
    pub fn find_item(&self, t: EntityType) -> (r: QueryResult<Entity>)
        ensures
            r == self.spec_find_item(t),
    {
        match self.player() {
            Ok(player) => match self.world.entity(player).get::<Contents>() {
                Some(inventory) => self.find_in(inventory, t),
                None => Err(()),
            },
            Err(_) => Err(()),
        }
    }

    /// The first corpse that lies where the player lies.
    pub open spec fn spec_find_corpse(&self) -> QueryResult<Entity> {
        self.world@.find_corpse()
    }

    #[verifier::when_used_as_spec(spec_find_corpse)]
    pub fn find_corpse(&self) -> (r: QueryResult<Entity>)
        ensures
            r == self.spec_find_corpse(),
    {
        match self.player_position() {
            Ok(pos) => match self.world.entity(pos).get::<Contents>() {
                Some(contents) => self.find_in(contents, EntityType::Corpse),
                None => Err(()),
            },
            Err(_) => Err(()),
        }
    }

    /// How many of `entities` are of type `t`; counting stops at the largest
    /// `i32`.
    pub open spec fn count_of_type(&self, entities: Set<Entity>, t: EntityType) -> i32 {
        self.world@.count_of_type(entities, t)
    }

    /// How many things of type `t` the player carries.
    pub open spec fn spec_inventory_count(&self, t: EntityType) -> i32 {
        self.world@.inventory_count(t)
    }

    /// How many entities in `contents` are of type `t`.
    pub fn count_in(&self, contents: &Contents, t: EntityType) -> (n: i32)
        ensures
            n == self.count_of_type(contents@, t),
    {
        let ids = contents.entities();
        let ghost view = self.world@;
        let ghost wanted = |id: Entity| view.type_of(id) == Some(t);
        let ghost mut seen = Set::<Entity>::empty();
        let mut count: usize = 0;
        let mut i: usize = 0;
        while i < ids.len()
            invariant
                i <= ids.len(),
                count <= i,
                is_traversal(ids@, contents@),
                view == self.world@,
                wanted == |id: Entity| view.type_of(id) == Some(t),
                seen.finite(),
                count == seen.len(),
                forall|e: Entity|
                    seen.contains(e) <==> wanted(e) && exists|j: int|
                        0 <= j < i && ids@[j] == e,
            decreases ids.len() - i,
        {
            let id = ids[i];
            let found = match self.world.entity(id).get::<EntityType>() {
                Some(other) => *other == t,
                None => false,
            };
            if found {
                proof {
                    if seen.contains(id) {
                        let j = choose|j: int| 0 <= j < i && ids@[j] == id;
                        assert(ids@[j].key() < ids@[i as int].key());
                    }
                    seen = seen.insert(id);
                }
                count = count + 1;
            }
            i = i + 1;
        }
        proof {
            assert(seen =~= contents@.filter(wanted)) by {
                assert forall|e: Entity| seen.contains(e) <==> contents@.filter(wanted).contains(
                    e,
                ) by {
                    if seen.contains(e) {
                        let j = choose|j: int| 0 <= j < i && ids@[j] == e;
                        assert(ids@.contains(e));
                    }
                    if contents@.filter(wanted).contains(e) {
                        assert(ids@.contains(e));
                        let j = choose|j: int| 0 <= j < ids@.len() && ids@[j] == e;
                    }
                }
            }
        }
        if count > 0x7fff_ffff {
            i32::MAX
        } else {
            count as i32
        }
    }

    #[verifier::when_used_as_spec(spec_inventory_count)]
    pub fn inventory_count(&self, t: EntityType) -> (n: i32)
        ensures
            n == self.spec_inventory_count(t),
    {
        match self.player() {
            Ok(player) => match self.world.entity(player).get::<Contents>() {
                Some(inventory) => self.count_in(inventory, t),
                None => 0,
            },
            Err(_) => 0,
        }
    }

    /// What the status line shows: `None` where there is no player. The
    /// health is what the damage taken leaves of the health of a player,
    /// wrapped into an `i8`.
    pub open spec fn spec_player_status(&self) -> Option<PlayerStatus> {
        match self.spec_player() {
            Ok(player) => {
                let damage = match self.world.damages.contents().get(player) {
                    Some(d) => d.0,
                    None => 0i8,
                };
                Some(
                    PlayerStatus {
                        max_health: 10,
                        health: 10i8.wrapping_sub(damage),
                        has_bow: self.spec_inventory_count(EntityType::Bow) > 0,
                        has_sword: self.spec_inventory_count(EntityType::Sword) > 0,
                        arrows: self.spec_inventory_count(EntityType::Arrow),
                        herbs: self.spec_inventory_count(EntityType::Herb),
                        rocks: self.spec_inventory_count(EntityType::Rock),
                        corpses: self.spec_inventory_count(EntityType::Corpse),
                        diamonds: self.spec_inventory_count(EntityType::Diamond),
                        recall_turns: self.recall_turns,
                    },
                )
            },
            Err(_) => None,
        }
    }

    #[verifier::when_used_as_spec(spec_player_status)]
    pub fn player_status(&self) -> (status: Option<PlayerStatus>)
        ensures
            status == self.spec_player_status(),
    {
        match self.player() {
            Ok(player) => {
                let max_health: i8 = match EntityType::Player.data().class {
                    EntityClass::Actor { max_health, .. } => max_health,
                    _ => 0,
                };
                let damage: i8 = match self.world.entity(player).get::<Damage>() {
                    Some(d) => d.0,
                    None => 0,
                };
                Some(
                    PlayerStatus {
                        max_health: max_health,
                        health: max_health.wrapping_sub(damage),
                        has_bow: self.inventory_count(EntityType::Bow) > 0,
                        has_sword: self.inventory_count(EntityType::Sword) > 0,
                        arrows: self.inventory_count(EntityType::Arrow),
                        herbs: self.inventory_count(EntityType::Herb),
                        rocks: self.inventory_count(EntityType::Rock),
                        corpses: self.inventory_count(EntityType::Corpse),
                        diamonds: self.inventory_count(EntityType::Diamond),
                        recall_turns: self.recall_turns,
                    },
                )
            },
            Err(_) => None,
        }
    }

    /// The positions that the player has in view: those in a line of sight
    /// that are no farther away than the player sees.
    pub open spec fn in_view(&self) -> Set<Position> {
        self.world@.in_view()
    }

    /// The smallest rectangle that holds the position of the player and
    /// every position in view. Fails where the player lies at no position.
    pub fn fov_bounding_rect(&self) -> (r: QueryResult<Rect>)
        ensures
            match r {
                Ok(rect) => self.spec_player_position() is Ok && is_bounding(
                    rect,
                    self.spec_player_position()->Ok_0,
                    self.in_view(),
                ),
                Err(_) => self.spec_player_position() is Err,
            },
    {
        let origin = match self.player_position() {
            Ok(pos) => pos,
            Err(_) => {
                return Err(());
            },
        };
        let fov_range = self.player_fov_range();
        let mut rect = Rect::from(origin);
        let mut it = self.world.visible.iter();
        let ghost all = it.remaining();
        let ghost mut done: int = 0;
        let ghost mut seen = Set::<Position>::empty();
        loop
            invariant
                fov_range == self.spec_player_fov_range(),
                0 <= done <= all.len(),
                it.remaining() == all.skip(done),
                is_traversal(
                    all.map_values(|e: (Position, IsVisible)| e.0),
                    self.world.visible.contents().dom(),
                ),
                forall|i: int|
                    0 <= i < all.len() ==> self.world.visible.contents().contains_key(
                        (#[trigger] all[i]).0,
                    ) && all[i].1 == self.world.visible.contents()[all[i].0],
                is_bounding(rect, origin, seen),
                forall|p: Position|
                    seen.contains(p) <==> self.in_view().contains(p) && exists|i: int|
                        0 <= i < done && all[i].0 == p,
            ensures
                is_bounding(rect, origin, self.in_view()),
            decreases all.len() - done,
        {
            match it.next() {
                Some((pos, visible)) => {
                    proof {
                        let ids = all.map_values(|e: (Position, IsVisible)| e.0);
                        assert(ids[done] == pos);
                        assert(ids.contains(pos));
                        assert(all[done].0 == pos);
                    }
                    if visible.0 <= fov_range {
                        proof {
                            lemma_bounding_extended(rect, origin, seen, pos);
                            seen = seen.insert(pos);
                        }
                        rect.extend(pos);
                    }
                    proof {
                        assert(all.skip(done).drop_first() =~= all.skip(done + 1));
                        done = done + 1;
                    }
                },
                None => {
                    proof {
                        assert(seen =~= self.in_view()) by {
                            assert forall|p: Position| self.in_view().contains(
                                p,
                            ) implies seen.contains(p) by {
                                let ids = all.map_values(|e: (Position, IsVisible)| e.0);
                                assert(ids.contains(p));
                                let i = choose|i: int| 0 <= i < ids.len() && ids[i] == p;
                                assert(all[i].0 == p);
                            }
                        }
                    }
                    break ;
                },
            }
        }
        Ok(rect)
    }

    /// Which of the entities `ids`, taken first to last, is shown.
    pub open spec fn shown(&self, ids: Seq<Entity>) -> Option<EntityType> {
        self.world@.shown(ids)
    }

    /// How `pos` is displayed. A position in view shows its tile, or in bold
    /// the entity that `shown` picks of those that lie there, in its own
    /// colour if it has one and on the background of the tile. A position out
    /// of view shows the tile that is remembered there, and an empty cell
    /// where none is.
    pub open spec fn spec_render(&self, pos: Position) -> Cell {
        self.world@.render(pos)
    }

    #[verifier::when_used_as_spec(spec_render)]
    pub fn render(&self, pos: Position) -> (cell: Cell)
        ensures
            cell == self.spec_render(pos),
    {
        let mut cell = Cell { ch: ' ', fg: Color::Black, bg: Color::Black, bold: false };
        match self.world.entity(pos).get::<WasVisible>() {
            Some(memory) => {
                cell = memory.0.render_memory();
            },
            None => {},
        }
        let in_view = match self.world.entity(pos).get::<IsVisible>() {
            Some(visible) => visible.0 <= self.player_fov_range(),
            None => false,
        };
        if in_view {
            cell = self.get_tile(pos).render();
            let mut data: Option<EntityType> = None;
            match self.world.entity(pos).get::<Contents>() {
                Some(contents) => {
                    let ids = contents.entities();
                    proof {
                        lemma_traversal_of(ids@, contents@);
                    }
                    let mut i: usize = 0;
                    while i < ids.len()
                        invariant
                            i <= ids.len(),
                            data == self.shown(ids@.take(i as int)),
                        decreases ids.len() - i,
                    {
                        proof {
                            assert(ids@.take(i + 1).drop_last() =~= ids@.take(i as int));
                        }
                        match self.world.entity(ids[i]).get::<EntityType>() {
                            Some(t) => {
                                data = show(data, *t);
                            },
                            None => {},
                        }
                        i = i + 1;
                    }
                    proof {
                        assert(ids@.take(ids@.len() as int) =~= ids@);
                    }
                },
                None => {},
            }
            match data {
                Some(t) => {
                    let d = t.data();
                    cell =
                    Cell {
                        ch: d.ch,
                        fg: match d.color {
                            Some(color) => color,
                            None => cell.fg,
                        },
                        bg: cell.bg,
                        bold: true,
                    };
                },
                None => {},
            }
        }
        cell
    }

    /// Whether `other` differs from this game in its world only.
    pub open spec fn same_but_world(&self, other: Game) -> bool {
        &&& other.next_id == self.next_id
        &&& other.rand == self.rand
        &&& other.recall_turns == self.recall_turns
        &&& other.smell_strength == self.smell_strength
        &&& other.current_turn == self.current_turn
    }

    /// Whether `other` differs from this game at most in the state of its
    /// random numbers and in its world.
    pub open spec fn same_but_rand(&self, other: Game) -> bool {
        &&& other.next_id == self.next_id
        &&& other.recall_turns == self.recall_turns
        &&& other.smell_strength == self.smell_strength
        &&& other.current_turn == self.current_turn
    }

    /// Turns `id` into a corpse.
    pub fn kill_entity(&mut self, id: Entity)
        ensures
            final(self).world@ == old(self).world@.killed(id, old(self).current_turn),
            old(self).same_but_world(*final(self)),
    {
        let old_type = self.world.entity_mut(id).insert(EntityType::Corpse);
        match old_type {
            Some(corpse_type) => {
                self.world.entity_mut(id).insert(
                    Corpse { turn_created: self.current_turn, original_type: corpse_type },
                );
            },
            None => {},
        }
        let _ = self.world.entity_mut(id).remove::<AiState>();
        assert(self.world@ =~= old(self).world@.killed(id, old(self).current_turn));
    }

    /// Adds `damage` to what `target` has taken, and kills it where that is
    /// as much as its health.
    pub fn add_damage(&mut self, target: Entity, damage: i8)
        ensures
            final(self).world@ == old(self).world@.damaged(
                target,
                damage,
                old(self).current_turn,
            ),
            old(self).same_but_world(*final(self)),
    {
        let max_health: i8 = match self.world.entity(target).get::<EntityType>() {
            Some(t) => match t.data().class {
                EntityClass::Actor { max_health, .. } => max_health,
                _ => {
                    return ;
                },
            },
            None => {
                return ;
            },
        };
        let total_damage: i8 = {
            let mut target_entity = self.world.entity_mut(target);
            let target_damage = target_entity.get_or_default::<Damage>();
            target_damage.0 = target_damage.0.wrapping_add(damage);
            if target_damage.0 < 0 {
                target_damage.0 = 0;
            }
            target_damage.0
        };
        proof {
            let hurt = WorldView {
                damages: old(self).world@.damages.insert(target, Damage(total_damage)),
                ..old(self).world@
            };
            assert(self.world@ =~= hurt);
        }
        if total_damage >= max_health {
            self.kill_entity(target);
        }
    }

    /// Makes a new entity of type `t` and puts it at `p`.
    pub fn put_entity(&mut self, t: EntityType, p: Position)
        requires
            old(self).next_id < u64::MAX,
        ensures
            final(self).world@ == old(self).world@.placed(Entity(old(self).next_id), t, p),
            final(self).next_id == old(self).next_id + 1,
            final(self).rand == old(self).rand,
            final(self).recall_turns == old(self).recall_turns,
            final(self).smell_strength == old(self).smell_strength,
            final(self).current_turn == old(self).current_turn,
    {
        let id = Entity(self.next_id);
        self.next_id = self.next_id + 1;
        if t == EntityType::Player {
            self.world.entity_mut(id).insert(IsPlayer);
        } else if t.data().is_actor() {
            self.world.entity_mut(id).insert(AiState::Waiting);
        }
        self.world.entity_mut(id).insert(t);
        self.world.set_location(id, Location::Position(p));
        assert(self.world@ =~= old(self).world@.placed(id, t, p));
    }

    /// What an attack of `attacker` on `target` with `damage` makes of the
    /// world, and how it ends: the player and the others attack each other,
    /// never their own kind.
    pub open spec fn spec_attack_entity(&self, attacker: Entity, target: Entity, damage: i8) -> (
        WorldView,
        ActionResult<()>,
    ) {
        self.world@.attack_entity(attacker, target, damage, self.current_turn)
    }

    pub fn attack_entity(&mut self, attacker: Entity, target: Entity, damage: i8) -> (r:
        ActionResult<()>)
        ensures
            (final(self).world@, r) == old(self).spec_attack_entity(attacker, target, damage),
            old(self).same_but_world(*final(self)),
    {
        if self.is_player(attacker) == self.is_player(target) {
            self.world.err()
        } else {
            self.add_damage(target, damage);
            Ok(())
        }
    }

    /// What an attack of `attacker` on the first actor at `pos` makes of the
    /// world, and how it ends.
    pub open spec fn spec_attack_position(&self, attacker: Entity, pos: Position, damage: i8) -> (
        WorldView,
        ActionResult<()>,
    ) {
        self.world@.attack_position(attacker, pos, damage, self.current_turn)
    }

    pub fn attack_position(&mut self, attacker: Entity, pos: Position, damage: i8) -> (r:
        ActionResult<()>)
        ensures
            (final(self).world@, r) == old(self).spec_attack_position(attacker, pos, damage),
            old(self).same_but_world(*final(self)),
    {
        match self.get_actor_by_position(pos) {
            Ok(target) => self.attack_entity(attacker, target, damage),
            Err(absent) => Err(ActionError::from(absent)),
        }
    }

    /// The damage that `attacker` does when it bumps into another: that of
    /// its type, or 3 for a player that carries a sword. Only actors do
    /// damage.
    pub open spec fn spec_bump_damage(&self, attacker: Entity) -> ActionResult<i8> {
        self.world@.bump_damage(attacker)
    }

    #[verifier::when_used_as_spec(spec_bump_damage)]
    pub fn bump_damage(&self, attacker: Entity) -> (r: ActionResult<i8>)
        ensures
            r == self.spec_bump_damage(attacker),
    {
        match self.world.entity(attacker).get::<EntityType>() {
            Some(t) => match t.data().class {
                EntityClass::Actor { damage, .. } => Ok(
                    if self.is_player(attacker) && self.find_item(EntityType::Sword).is_ok() {
                        3
                    } else {
                        damage
                    },
                ),
                _ => self.world.err(),
            },
            None => Err(ActionError::from(())),
        }
    }

    /// What it makes of the world, and how it ends, when `attacker` bumps
    /// into `target`.
    pub open spec fn spec_bump_attack(&self, attacker: Entity, target: Entity) -> (
        WorldView,
        ActionResult<()>,
    ) {
        self.world@.bump_attack(attacker, target, self.current_turn)
    }

    pub fn bump_attack(&mut self, attacker: Entity, target: Entity) -> (r: ActionResult<()>)
        ensures
            (final(self).world@, r) == old(self).spec_bump_attack(attacker, target),
            old(self).same_but_world(*final(self)),
    {
        match self.bump_damage(attacker) {
            Ok(damage) => self.attack_entity(attacker, target, damage),
            Err(e) => Err(e),
        }
    }

    /// What a step of `id` in direction `dir` makes of the world, and how it
    /// ends. The step fails where `id` lies at no position or the tile ahead
    /// cannot be walked on; it turns into a bump where an actor is in the
    /// way.
    pub open spec fn spec_move_entity(&self, id: Entity, dir: Direction) -> (
        WorldView,
        ActionResult<()>,
    ) {
        self.world@.move_entity(id, dir, self.current_turn)
    }

    pub fn move_entity(&mut self, id: Entity, dir: Direction) -> (r: ActionResult<()>)
        ensures
            (final(self).world@, r) == old(self).spec_move_entity(id, dir),
            old(self).same_but_world(*final(self)),
    {
        let pos = match self.entity_position(id) {
            Ok(pos) => pos,
            Err(absent) => {
                return Err(ActionError::from(absent));
            },
        };
        let new_pos = pos.step(dir);
        if !self.get_tile(new_pos).is_walkable() {
            return self.world.err();
        }
        match self.get_actor_by_position(new_pos) {
            Ok(target) => self.bump_attack(id, target),
            Err(_) => {
                self.world.set_location(id, Location::Position(new_pos));
                Ok(())
            },
        }
    }

    /// What it makes of the world, and how it ends, when the player uses up
    /// a thing of type `t`: the first such thing that the player carries is
    /// nowhere afterwards.
    pub open spec fn spec_consume_item(&self, t: EntityType) -> (WorldView, ActionResult<()>) {
        self.world@.consume_item(t)
    }

    pub fn consume_item(&mut self, t: EntityType) -> (r: ActionResult<()>)
        ensures
            (final(self).world@, r) == old(self).spec_consume_item(t),
            old(self).same_but_world(*final(self)),
    {
        match self.find_item(t) {
            Ok(item) => {
                let _ = self.world.remove_location(item);
                Ok(())
            },
            Err(absent) => Err(ActionError::from(absent)),
        }
    }

    /// The world after the player, who is `player`, has picked up those of
    /// `items`, taken first to last, that are picked up without asking.
    pub open spec fn picked_up(&self, items: Seq<Entity>, player: Entity) -> WorldView {
        self.world@.picked_up(items, player)
    }

    /// What it makes of the world, and how it ends, when the player picks up
    /// what lies where it lies. Fails where there is no player or it lies at
    /// no position.
    pub open spec fn spec_auto_pickup(&self) -> (WorldView, QueryResult<()>) {
        self.world@.auto_pickup()
    }

    pub fn auto_pickup(&mut self) -> (r: QueryResult<()>)
        ensures
            (final(self).world@, r) == old(self).spec_auto_pickup(),
            old(self).same_but_world(*final(self)),
    {
        let player = match self.player() {
            Ok(player) => player,
            Err(_) => {
                return Err(());
            },
        };
        let pos = match self.player_position() {
            Ok(pos) => pos,
            Err(_) => {
                return Err(());
            },
        };
        let ids = match self.world.entity(pos).get::<Contents>() {
            Some(contents) => {
                let ids = contents.entities();
                proof {
                    lemma_traversal_of(ids@, contents@);
                }
                ids
            },
            None => {
                return Ok(());
            },
        };
        let mut i: usize = 0;
        while i < ids.len()
            invariant
                i <= ids.len(),
                self.world@ == old(self).picked_up(ids@.take(i as int), player),
                self.world@.entity_types == old(self).world@.entity_types,
                old(self).same_but_world(*self),
            decreases ids.len() - i,
        {
            proof {
                assert(ids@.take(i + 1).drop_last() =~= ids@.take(i as int));
            }
            let item = ids[i];
            let wanted = match self.world.entity(item).get::<EntityType>() {
                Some(t) => picks_up(*t),
                None => false,
            };
            if wanted {
                self.world.set_location(item, Location::Entity(player));
            }
            i = i + 1;
        }
        proof {
            assert(ids@.take(ids@.len() as int) =~= ids@);
        }
        Ok(())
    }
}

/// Whether the player picks up a thing of type `t` without being asked.
pub open spec fn is_picked_up(t: EntityType) -> bool {
    t == EntityType::Sword || t == EntityType::Bow || t == EntityType::Arrow || t
        == EntityType::Rock || t == EntityType::Herb || t == EntityType::Diamond
}

#[verifier::when_used_as_spec(is_picked_up)]
pub fn picks_up(t: EntityType) -> (b: bool)
    ensures
        b == is_picked_up(t),
{
    t == EntityType::Sword || t == EntityType::Bow || t == EntityType::Arrow || t
        == EntityType::Rock || t == EntityType::Herb || t == EntityType::Diamond

}

/// Which of two things that lie at the same position is shown, where `shown`
/// was picked so far and `new` comes after it: an actor before an item, the
/// first of two actors, and of two items the one with the lower display
/// priority, or the first where the priorities are the same.
pub open spec fn shown_of(shown: Option<EntityType>, new: EntityType) -> Option<EntityType> {
    match shown {
        Some(old) => match (old.class(), new.class()) {
            (EntityClass::Actor { .. }, _) => shown,
            (
                EntityClass::Item { display_priority: old_priority },
                EntityClass::Item { display_priority: new_priority },
            ) => if old_priority <= new_priority {
                shown
            } else {
                Some(new)
            },
            _ => Some(new),
        },
        None => Some(new),
    }
}

#[verifier::when_used_as_spec(shown_of)]
pub fn show(shown: Option<EntityType>, new: EntityType) -> (r: Option<EntityType>)
    ensures
        r == shown_of(shown, new),
{
    match shown {
        Some(old) => match (old.data().class, new.data().class) {
            (EntityClass::Actor { .. }, _) => shown,
            (
                EntityClass::Item { display_priority: old_priority },
                EntityClass::Item { display_priority: new_priority },
            ) => if old_priority <= new_priority {
                shown
            } else {
                Some(new)
            },
            _ => Some(new),
        },
        None => Some(new),
    }
}

impl Game {
    /// What it makes of the world when `actor` tries to go to `new_pos`, and
    /// whether it gets there: it does unless it lies there already, the tile
    /// there cannot be walked on, or an actor is in the way.
    pub open spec fn spec_move_to(&self, actor: Entity, new_pos: Position) -> (WorldView, bool) {
        self.world@.move_to(actor, new_pos)
    }

    pub fn move_to(&mut self, actor: Entity, new_pos: Position) -> (moved: bool)
        ensures
            (final(self).world@, moved) == old(self).spec_move_to(actor, new_pos),
            old(self).same_but_world(*final(self)),
    {
        let there = match self.world.entity(actor).get::<Location>() {
            Some(Location::Position(p)) => *p == new_pos,
            _ => false,
        };
        if there {
            return false;
        }
        if self.get_tile(new_pos).is_walkable() {
            if self.get_actor_by_position(new_pos).is_err() {
                self.world.set_location(actor, Location::Position(new_pos));
                return true;
            }
        }
        false
    }

    /// How strongly `pos` smells, if it smells at all.
    pub open spec fn spec_smell_at(&self, pos: Position) -> Option<i32> {
        self.smell_strength@.get(pos.key())
    }

    #[verifier::when_used_as_spec(spec_smell_at)]
    pub fn smell_at(&self, pos: Position) -> (smell: Option<i32>)
        ensures
            smell == self.spec_smell_at(pos),
    {
        let key: u64 = pos.to_key();
        match self.smell_strength.get(&key) {
            Some(smell) => Some(*smell),
            None => None,
        }
    }
}

impl WorldView {
    /// Whether `pos` smells of anything: it does where it has a tile that
    /// is no wall, and where a corpse lies, directly or in what carries it.
    pub open spec fn smells(self, pos: Position) -> bool {
        ||| self.tiles.contains_key(pos) && self.tiles[pos] != Tile::Wall
        ||| exists|id: Entity| self.corpses.contains_key(id) && self.located(id, 32) == Ok::<
            Position,
            (),
        >(pos)
    }
}

/// The smaller of two smells, where either may be missing.
pub open spec fn spec_fainter(so_far: Option<i32>, found: Option<i32>) -> Option<i32> {
    match (so_far, found) {
        (Some(a), Some(b)) => Some(
            if b < a {
                b
            } else {
                a
            },
        ),
        (Some(a), None) => Some(a),
        (None, b) => b,
    }
}

#[verifier::when_used_as_spec(spec_fainter)]
pub fn fainter(so_far: Option<i32>, found: Option<i32>) -> (r: Option<i32>)
    ensures
        r == spec_fainter(so_far, found),
{
    match (so_far, found) {
        (Some(a), Some(b)) => Some(
            if b < a {
                b
            } else {
                a
            },
        ),
        (Some(a), None) => Some(a),
        (None, b) => b,
    }
}

/// How strongly a corpse that was made in turn `created` smells in turn
/// `turn`: of its age in turns, wrapped into an `i32`, divided by 20 and
/// rounded towards 0.
pub open spec fn spec_corpse_smell(turn: i32, created: i32) -> i32 {
    let age = turn.wrapping_sub(created);
    if age >= 0 {
        (age / 20) as i32
    } else {
        (-((-age) / 20)) as i32
    }
}

#[verifier::when_used_as_spec(spec_corpse_smell)]
pub fn corpse_smell(turn: i32, created: i32) -> (strength: i32)
    ensures
        strength == spec_corpse_smell(turn, created),
{
    let age: i64 = turn.wrapping_sub(created) as i64;
    if age >= 0 {
        (age / 20) as i32
    } else {
        (-((-age) / 20)) as i32
    }
}

/// How many neighbours a tile takes its smell from: none for a wall, one for
/// water, two for other ground.
pub open spec fn draws(tile: Tile) -> int {
    match tile {
        Tile::Wall => 0,
        Tile::ShallowWater | Tile::DeepWater => 1,
        _ => 2,
    }
}

/// The smell in `smells` of the neighbour of `pos` in direction `dir`.
pub open spec fn smell_beside(
    smells: Map<u64, i32>,
    pos: Position,
    dir: Option<Direction>,
) -> Option<i32> {
    match dir {
        Some(dir) => smells.get(pos.step(dir).key()),
        None => None,
    }
}

/// How strongly the ground at `pos` smells when `smells` is how things
/// smelt before and `first` and `second` are the directions that were
/// drawn: one more than the faintest of the neighbours that it takes its
/// smell from, and as strongly as can be where none of them smells.
pub open spec fn ground_smell(
    smells: Map<u64, i32>,
    pos: Position,
    tile: Tile,
    first: Option<Direction>,
    second: Option<Direction>,
) -> i32 {
    let one = spec_fainter(None, smell_beside(smells, pos, first));
    let faintest = if draws(tile) > 1 {
        spec_fainter(one, smell_beside(smells, pos, second))
    } else {
        one
    };
    match faintest {
        Some(smell) => if smell == i32::MAX {
            i32::MAX
        } else {
            (smell + 1) as i32
        },
        None => i32::MAX,
    }
}

/// How the ground smells, by the key of the position: every tile but the
/// walls.
pub open spec fn ground_smells(
    tiles: Map<Position, Tile>,
    smells: Map<u64, i32>,
    first: Option<Direction>,
    second: Option<Direction>,
) -> Map<u64, i32> {
    Map::new(
        |k: u64|
            tiles.contains_key(Position::with_key(k)) && tiles[Position::with_key(k)]
                != Tile::Wall,
        |k: u64|
            ground_smell(
                smells,
                Position::with_key(k),
                tiles[Position::with_key(k)],
                first,
                second,
            ),
    )
}

impl WorldView {
    /// `smells` with the smell of the corpse `id` added in turn `turn`: where
    /// the corpse lies, directly or in what carries it, it smells of its age
    /// in turns divided by 20, unless the position smells fainter anyway.
    pub open spec fn with_corpse_smell(
        self,
        smells: Map<u64, i32>,
        id: Entity,
        corpse: Corpse,
        turn: i32,
    ) -> Map<u64, i32> {
        match self.located(id, 32) {
            Ok(pos) => {
                let strength = corpse_smell(turn, corpse.turn_created);
                smells.insert(
                    pos.key(),
                    match smells.get(pos.key()) {
                        Some(smell) => if smell < strength {
                            smell
                        } else {
                            strength
                        },
                        None => strength,
                    },
                )
            },
            Err(_) => smells,
        }
    }

    /// `smells` with the smells of the corpses `ids` added, first to last.
    pub open spec fn with_corpse_smells(
        self,
        smells: Map<u64, i32>,
        ids: Seq<Entity>,
        turn: i32,
    ) -> Map<u64, i32>
        decreases ids.len(),
    {
        if ids.len() == 0 {
            smells
        } else {
            self.with_corpse_smell(
                self.with_corpse_smells(smells, ids.drop_last(), turn),
                ids.last(),
                self.corpses[ids.last()],
                turn,
            )
        }
    }

    /// How everything smells in turn `turn` when `smells` is how things
    /// smelt before and `first` and `second` are the directions that were
    /// drawn: the ground, and the corpses on top of that.
    pub open spec fn smells_after(
        self,
        smells: Map<u64, i32>,
        turn: i32,
        first: Option<Direction>,
        second: Option<Direction>,
    ) -> Map<u64, i32> {
        self.with_corpse_smells(
            ground_smells(self.tiles, smells, first, second),
            traversal_of(self.corpses.dom()),
            turn,
        )
    }
}

impl Game {
    /// Works out anew how strongly each position smells, from two
    /// directions that are drawn from a copy of the random numbers of the
    /// game: the game's own stay as they are, and so does the world. Walls
    /// without a corpse do not smell.
    pub fn update_smells(&mut self)
        ensures
            final(self).world == old(self).world,
            old(self).same_but_rand(
                Game { smell_strength: old(self).smell_strength, ..*final(self) },
            ),
            final(self).rand == old(self).rand,
            exists|first: Option<Direction>, second: Option<Direction>|
                final(self).smell_strength@ == old(self).world@.smells_after(
                    old(self).smell_strength@,
                    old(self).current_turn,
                    first,
                    second,
                ),
            forall|pos: Position|
                final(self).spec_smell_at(pos) is Some <==> old(self).world@.smells(pos),
    {
        let mut rand = self.rand;
        let first = choose_direction(&mut rand, &ALL_DIRECTIONS);
        let second = choose_direction(&mut rand, &ALL_DIRECTIONS);
        self.update_smells_with(first, second);
    }

    /// Works out anew how strongly each position smells, where `first` and
    /// `second` are the directions of the neighbours that the ground takes
    /// its smell from.
    pub fn update_smells_with(&mut self, first: Option<Direction>, second: Option<Direction>)
        ensures
            final(self).world == old(self).world,
            old(self).same_but_rand(
                Game { smell_strength: old(self).smell_strength, ..*final(self) },
            ),
            final(self).rand == old(self).rand,
            final(self).smell_strength@ == old(self).world@.smells_after(
                old(self).smell_strength@,
                old(self).current_turn,
                first,
                second,
            ),
            forall|pos: Position|
                final(self).spec_smell_at(pos) is Some <==> old(self).world@.smells(pos),
    {
        let mut updated: BTreeMap<u64, i32> = BTreeMap::new();
        let ghost view = self.world@;
        let ghost before = self.smell_strength@;
        let ghost turn = self.current_turn;
        let mut tiles = self.world.tiles.iter();
        let ghost all = tiles.remaining();
        let ghost mut done: int = 0;
        proof {
            crate::engine::world::lemma_traversal_len(
                all.map_values(|e: (Position, Tile)| e.0),
                view.tiles.dom(),
            );
        }
        loop
            invariant
                view == self.world@,
                before == self.smell_strength@,
                0 <= done <= all.len(),
                tiles.remaining() == all.skip(done),
                is_traversal(all.map_values(|e: (Position, Tile)| e.0), view.tiles.dom()),
                forall|i: int|
                    0 <= i < all.len() ==> view.tiles.contains_key((#[trigger] all[i]).0)
                        && all[i].1 == view.tiles[all[i].0],
                forall|pos: Position|
                    updated@.contains_key(pos.key()) <==> exists|i: int|
                        0 <= i < done && (#[trigger] all[i]).0 == pos && all[i].1 != Tile::Wall,
                forall|i: int|
                    0 <= i < done && (#[trigger] all[i]).1 != Tile::Wall ==> updated@[all[i].0.key()]
                        == ground_smell(before, all[i].0, all[i].1, first, second),
            ensures
                updated@ == ground_smells(view.tiles, before, first, second),
                forall|pos: Position|
                    updated@.contains_key(pos.key()) <==> view.tiles.contains_key(pos)
                        && view.tiles[pos] != Tile::Wall,
            decreases all.len() - done,
        {
            match tiles.next() {
                Some((pos, tile)) => {
                    proof {
                        assert(all[done].0 == pos && all[done].1 == *tile);
                        assert forall|i: int| 0 <= i < done implies (#[trigger] all[i]).0.key()
                            != pos.key() by {
                            let ids = all.map_values(|e: (Position, Tile)| e.0);
                            assert(ids[i].key() < ids[done].key());
                        }
                    }
                    let more: bool = match tile {
                        Tile::Wall => false,
                        _ => true,
                    };
                    if more {
                        let twice: bool = match tile {
                            Tile::ShallowWater | Tile::DeepWater => false,
                            _ => true,
                        };
                        let mut faintest: Option<i32> = None;
                        match first {
                            Some(dir) => {
                                faintest = fainter(faintest, self.smell_at(pos.step(dir)));
                            },
                            None => {},
                        }
                        if twice {
                            match second {
                                Some(dir) => {
                                    faintest = fainter(faintest, self.smell_at(pos.step(dir)));
                                },
                                None => {},
                            }
                        }
                        let strength: i32 = match faintest {
                            Some(smell) => if smell == i32::MAX {
                                i32::MAX
                            } else {
                                smell + 1
                            },
                            None => i32::MAX,
                        };
                        assert(strength == ground_smell(before, pos, *tile, first, second));
                        updated.insert(pos.to_key(), strength);
                        proof {
                            assert forall|other: Position|
                                other.key() == pos.key() implies other == pos by {
                                lemma_key_injective(other, pos);
                            }
                        }
                    }
                    proof {
                        assert(all.skip(done).drop_first() =~= all.skip(done + 1));
                        done = done + 1;
                    }
                },
                None => {
                    proof {
                        assert forall|pos: Position|
                            view.tiles.contains_key(pos) && view.tiles[pos]
                                != Tile::Wall implies updated@.contains_key(pos.key()) by {
                            let ids = all.map_values(|e: (Position, Tile)| e.0);
                            assert(ids.contains(pos));
                            let i = choose|i: int| 0 <= i < ids.len() && ids[i] == pos;
                            assert(all[i].0 == pos);
                        }
                        let ground = ground_smells(view.tiles, before, first, second);
                        assert forall|k: u64| updated@.contains_key(k) <==> ground.contains_key(
                            k,
                        ) by {
                            Position::lemma_key_of_with_key(k);
                        }
                        assert forall|k: u64| updated@.contains_key(k) implies updated@[k]
                            == ground[k] by {
                            Position::lemma_key_of_with_key(k);
                            let pos = Position::with_key(k);
                            let i = choose|i: int|
                                0 <= i < done && (#[trigger] all[i]).0 == pos && all[i].1
                                    != Tile::Wall;
                        }
                        assert(updated@ =~= ground);
                    }
                    break ;
                },
            }
        }
        let mut corpses = self.world.corpses.iter();
        let ghost bodies = corpses.remaining();
        let ghost ids = bodies.map_values(|e: (Entity, Corpse)| e.0);
        let ghost ground = updated@;
        let ghost mut seen: int = 0;
        proof {
            lemma_traversal_of(ids, view.corpses.dom());
        }
        loop
            invariant
                view == self.world@,
                turn == self.current_turn,
                0 <= seen <= bodies.len(),
                corpses.remaining() == bodies.skip(seen),
                ids == bodies.map_values(|e: (Entity, Corpse)| e.0),
                is_traversal(ids, view.corpses.dom()),
                forall|i: int|
                    0 <= i < bodies.len() ==> view.corpses.contains_key((#[trigger] bodies[i]).0)
                        && bodies[i].1 == view.corpses[bodies[i].0],
                updated@ == view.with_corpse_smells(ground, ids.take(seen), turn),
                forall|pos: Position|
                    updated@.contains_key(pos.key()) <==> (view.tiles.contains_key(pos)
                        && view.tiles[pos] != Tile::Wall) || exists|i: int|
                        0 <= i < seen && view.located((#[trigger] bodies[i]).0, 32) == Ok::<
                            Position,
                            (),
                        >(pos),
            ensures
                updated@ == view.with_corpse_smells(ground, ids, turn),
                forall|pos: Position| updated@.contains_key(pos.key()) <==> view.smells(pos),
            decreases bodies.len() - seen,
        {
            match corpses.next() {
                Some((id, corpse)) => {
                    proof {
                        assert(bodies[seen].0 == id && bodies[seen].1 == *corpse);
                        assert(ids.take(seen + 1).drop_last() =~= ids.take(seen));
                        assert(ids.take(seen + 1).last() == id);
                    }
                    let ghost so_far = updated@;
                    match self.locate_entity(id) {
                        Ok(pos) => {
                            let strength: i32 = corpse_smell(
                                self.current_turn,
                                corpse.turn_created,
                            );
                            let key: u64 = pos.to_key();
                            let fainter: i32 = match updated.get(&key) {
                                Some(smell) => if *smell < strength {
                                    *smell
                                } else {
                                    strength
                                },
                                None => strength,
                            };
                            updated.insert(key, fainter);
                            proof {
                                assert forall|other: Position|
                                    other.key() == pos.key() implies other == pos by {
                                    lemma_key_injective(other, pos);
                                }
                            }
                        },
                        Err(_) => {},
                    }
                    proof {
                        assert(updated@ =~= view.with_corpse_smell(so_far, id, *corpse, turn));
                        assert(bodies.skip(seen).drop_first() =~= bodies.skip(seen + 1));
                        seen = seen + 1;
                    }
                },
                None => {
                    proof {
                        assert(ids.take(seen) =~= ids);
                        assert forall|pos: Position| view.smells(pos) implies updated@.contains_key(
                            pos.key(),
                        ) by {
                            if !(view.tiles.contains_key(pos) && view.tiles[pos] != Tile::Wall) {
                                let id = choose|id: Entity|
                                    view.corpses.contains_key(id) && view.located(id, 32) == Ok::<
                                        Position,
                                        (),
                                    >(pos);
                                assert(ids.contains(id));
                                let i = choose|i: int| 0 <= i < ids.len() && ids[i] == id;
                                assert(bodies[i].0 == id);
                            }
                        }
                        assert forall|pos: Position| updated@.contains_key(
                            pos.key(),
                        ) implies view.smells(pos) by {
                            if !(view.tiles.contains_key(pos) && view.tiles[pos] != Tile::Wall) {
                                let i = choose|i: int|
                                    0 <= i < seen && view.located((#[trigger] bodies[i]).0, 32)
                                        == Ok::<Position, ()>(pos);
                                assert(ids[i] == bodies[i].0);
                                assert(ids.contains(bodies[i].0));
                            }
                        }
                    }
                    break ;
                },
            }
        }
        self.smell_strength = updated;
    }
}

impl WorldView {
    /// The world after an arrow of `player` has flown from `pos` in
    /// direction `dir` for at most `left` more steps: it stops at the first
    /// position that blocks the view, and it hits the first actor in its way
    /// that the player can attack.
    pub open spec fn shot(
        self,
        player: Entity,
        pos: Position,
        dir: Direction,
        left: nat,
        turn: i32,
    ) -> WorldView
        decreases left,
    {
        if left == 0 {
            self
        } else {
            let next = pos.step(dir);
            if self.tile(next).is_obstructed() {
                self
            } else {
                let (hit, r) = self.attack_position(player, next, 2, turn);
                if r is Ok {
                    hit
                } else {
                    self.shot(player, next, dir, (left - 1) as nat, turn)
                }
            }
        }
    }

    /// What `action` of the player, who is `player` and lies at
    /// `player_pos`, makes of the world in turn `turn`, and how it ends. An
    /// action that fails leaves the world as it is.
    pub open spec fn acted(
        self,
        player: Entity,
        player_pos: Position,
        action: Action,
        turn: i32,
    ) -> (WorldView, ActionResult<()>) {
        match action {
            Action::Wait => (self, Ok(())),
            Action::ReadScroll => (self, Ok(())),
            Action::Move(dir) => {
                let (w, r) = self.move_entity(player, dir, turn);
                if r is Ok {
                    (w.auto_pickup().0, Ok(()))
                } else {
                    (self, r)
                }
            },
            Action::EatHerb => {
                let (w, r) = self.consume_item(EntityType::Herb);
                if r is Ok {
                    (w.damaged(player, -1i8, turn), Ok(()))
                } else {
                    (self, r)
                }
            },
            Action::GetCorpse => match self.find_corpse() {
                Ok(corpse) => (self.moved(corpse, Location::Entity(player)), Ok(())),
                Err(_) => (self, Err(ActionError::Failed)),
            },
            Action::DropCorpse => match self.find_item(EntityType::Corpse) {
                Ok(corpse) => (self.moved(corpse, Location::Position(player_pos)), Ok(())),
                Err(_) => (self, Err(ActionError::Failed)),
            },
            Action::ThrowRock(pos) => match (self.visible.get(pos), self.find_item(EntityType::Rock)) {
                (Some(visible), Ok(rock)) => if visible.0 > self.player_fov_range() {
                    (self, Err(ActionError::Failed))
                } else {
                    let (w, r) = self.attack_position(player, pos, 1, turn);
                    if r is Ok {
                        (w.taken(rock), Ok(()))
                    } else {
                        (self, r)
                    }
                },
                _ => (self, Err(ActionError::Failed)),
            },
            Action::FireBow(dir) => if self.find_item(EntityType::Bow) is Ok {
                let (w, r) = self.consume_item(EntityType::Arrow);
                if r is Ok {
                    (w.shot(player, player_pos, dir, 8, turn), Ok(()))
                } else {
                    (self, r)
                }
            } else {
                (self, Err(ActionError::Failed))
            },
        }
    }
}

impl Game {
    /// Carries out `action` of the player, who is `player` and lies at
    /// `player_pos`. Reading the scroll starts the count of the turns until
    /// the player is taken home, which is drawn from 20 to 29.
    pub fn act(&mut self, player: Entity, player_pos: Position, action: Action) -> (r:
        ActionResult<()>)
        ensures
            (final(self).world@, r) == old(self).world@.acted(
                player,
                player_pos,
                action,
                old(self).current_turn,
            ),
            final(self).next_id == old(self).next_id,
            final(self).smell_strength == old(self).smell_strength,
            final(self).current_turn == old(self).current_turn,
            action != Action::ReadScroll ==> final(self).recall_turns == old(self).recall_turns
                && final(self).rand == old(self).rand,
            action == Action::ReadScroll ==> (final(self).recall_turns matches Some(turns)
                && 20 <= turns < 30),
    {
        match action {
            Action::Wait => Ok(()),
            Action::Move(dir) => {
                match self.move_entity(player, dir) {
                    Ok(_) => {
                        let _ = self.auto_pickup();
                        Ok(())
                    },
                    Err(e) => Err(e),
                }
            },
            Action::EatHerb => {
                match self.consume_item(EntityType::Herb) {
                    Ok(_) => {
                        self.add_damage(player, -1);
                        Ok(())
                    },
                    Err(e) => Err(e),
                }
            },
            Action::ReadScroll => {
                self.recall_turns = Some(gen_range(&mut self.rand, 20, 30));
                Ok(())
            },
            Action::GetCorpse => {
                match self.find_corpse() {
                    Ok(corpse) => {
                        self.world.set_location(corpse, Location::Entity(player));
                        Ok(())
                    },
                    Err(absent) => Err(ActionError::from(absent)),
                }
            },
            Action::DropCorpse => {
                match self.find_item(EntityType::Corpse) {
                    Ok(corpse) => {
                        self.world.set_location(corpse, Location::Position(player_pos));
                        Ok(())
                    },
                    Err(absent) => Err(ActionError::from(absent)),
                }
            },
            Action::ThrowRock(pos) => {
                let dist: i8 = match self.world.entity(pos).get::<IsVisible>() {
                    Some(visible) => visible.0,
                    None => {
                        return Err(ActionError::from(()));
                    },
                };
                if dist > self.player_fov_range() {
                    return self.world.err();
                }
                let rock = match self.find_item(EntityType::Rock) {
                    Ok(rock) => rock,
                    Err(absent) => {
                        return Err(ActionError::from(absent));
                    },
                };
                match self.attack_position(player, pos, 1) {
                    Ok(_) => {
                        let _ = self.world.remove_location(rock);
                        Ok(())
                    },
                    Err(e) => Err(e),
                }
            },
            Action::FireBow(dir) => {
                if self.find_item(EntityType::Bow).is_err() {
                    return Err(ActionError::from(()));
                }
                match self.consume_item(EntityType::Arrow) {
                    Ok(_) => {},
                    Err(e) => {
                        return Err(e);
                    },
                }
                let ghost loaded = self.world@;
                let ghost turn = self.current_turn;
                let mut pos = player_pos;
                let mut left: u8 = 8;
                while left > 0
                    invariant_except_break
                        loaded.shot(player, player_pos, dir, 8, turn) == self.world@.shot(
                            player,
                            pos,
                            dir,
                            left as nat,
                            turn,
                        ),
                    invariant
                        turn == self.current_turn,
                        old(self).same_but_world(*self),
                    ensures
                        self.world@ == loaded.shot(player, player_pos, dir, 8, turn),
                    decreases left,
                {
                    pos = pos.step(dir);
                    if self.get_tile(pos).is_obstructed() {
                        break ;
                    }
                    if self.attack_position(player, pos, 2).is_ok() {
                        break ;
                    }
                    left = left - 1;
                }
                Ok(())
            },
        }
    }
}

/// Whether two worlds have the same terrain and the same entities marked
/// as controlled by the player.
pub open spec fn same_ground(a: WorldView, b: WorldView) -> bool {
    a.players == b.players && a.tiles == b.tiles
}

/// Picking things up changes neither the terrain nor who the player is.
pub proof fn lemma_picked_up_ground(w: WorldView, items: Seq<Entity>, player: Entity)
    ensures
        same_ground(w, w.picked_up(items, player)),
        w.picked_up(items, player).entity_types == w.entity_types,
    decreases items.len(),
{
    if items.len() > 0 {
        lemma_picked_up_ground(w, items.drop_last(), player);
    }
}

/// An arrow changes neither the terrain nor who the player is.
pub proof fn lemma_shot_ground(
    w: WorldView,
    player: Entity,
    pos: Position,
    dir: Direction,
    left: nat,
    turn: i32,
)
    ensures
        same_ground(w, w.shot(player, pos, dir, left, turn)),
    decreases left,
{
    if left > 0 {
        lemma_shot_ground(w, player, pos.step(dir), dir, (left - 1) as nat, turn);
    }
}

/// No action of the player changes the terrain or who the player is.
pub proof fn lemma_acted_ground(
    w: WorldView,
    player: Entity,
    player_pos: Position,
    action: Action,
    turn: i32,
)
    ensures
        same_ground(w, w.acted(player, player_pos, action, turn).0),
{
    match action {
        Action::Move(dir) => {
            let (moved, r) = w.move_entity(player, dir, turn);
            if r is Ok {
                match (moved.player(), moved.player_position()) {
                    (Ok(p), Ok(pos)) => match moved.lying.get(pos) {
                        Some(entities) => {
                            lemma_picked_up_ground(moved, traversal_of(entities), p);
                        },
                        None => {},
                    },
                    _ => {},
                }
            }
        },
        Action::FireBow(dir) => {
            let (loaded, r) = w.consume_item(EntityType::Arrow);
            lemma_shot_ground(loaded, player, player_pos, dir, 8, turn);
        },
        _ => {},
    }
}

impl Game {
    /// One turn of the game: the action of the player, then the turn of
    /// every actor that acts by itself, in the order of their numbers. Then
    /// the scroll counts down, and takes the player out of the world when it
    /// reaches 0; the lines of sight and the smells are worked out anew, and
    /// the turn count goes up. A turn that the player cannot take, because
    /// there is no player, it lies at no position or the action fails, does
    /// not take place.
    #[verifier::rlimit(50)]
    pub fn take_turn(&mut self, action: Action) -> (r: ActionResult<()>)
        requires
            old(self).current_turn < i32::MAX,
            old(self).recall_turns matches Some(turns) ==> turns > i32::MIN,
        ensures
            r == match (old(self).spec_player(), old(self).spec_player_position()) {
                (Ok(player), Ok(pos)) => old(self).world@.acted(
                    player,
                    pos,
                    action,
                    old(self).current_turn,
                ).1,
                _ => Err::<(), ActionError>(ActionError::Failed),
            },
            final(self).next_id == old(self).next_id,
            same_ground(old(self).world@, final(self).world@),
            r is Err ==> final(self).world@ == old(self).world@,
            r is Err ==> old(self).same_but_world(*final(self)),
            r is Ok ==> final(self).current_turn == old(self).current_turn + 1,
            r is Ok ==> forall|pos: Position|
                final(self).spec_smell_at(pos) is Some <==> final(self).world@.smells(pos),
            r is Ok && action != Action::ReadScroll ==> final(self).recall_turns == match old(self)
                .recall_turns {
                Some(turns) => Some((turns - 1) as i32),
                None => None,
            },
            r is Ok && action == Action::ReadScroll ==> (final(self).recall_turns matches Some(
                turns,
            ) && 19 <= turns < 29),
    {
        let player = match self.player() {
            Ok(player) => player,
            Err(absent) => {
                return Err(ActionError::from(absent));
            },
        };
        let player_pos = match self.player_position() {
            Ok(pos) => pos,
            Err(absent) => {
                return Err(ActionError::from(absent));
            },
        };
        proof {
            lemma_acted_ground(self.world@, player, player_pos, action, self.current_turn);
        }
        match self.act(player, player_pos, action) {
            Ok(_) => {},
            Err(e) => {
                return Err(e);
            },
        }
        proof {
            lemma_fov_updated_frame(*self);
        }
        update_fov(self);
        let ghost start = *self;
        let creatures: Vec<Entity> = self.world.ai_states.ids().collect();
        let mut i: usize = 0;
        while i < creatures.len()
            invariant
                i <= creatures.len(),
                turn_frame(start, *self),
            decreases creatures.len() - i,
        {
            let id = creatures[i];
            let state = match self.world.entity(id).get::<AiState>() {
                Some(state) => Some(*state),
                None => None,
            };
            match state {
                Some(state) => {
                    let new_state = state.take_turn(self, id);
                    match self.world.entity_mut(id).get_mut::<AiState>() {
                        Some(slot) => {
                            *slot = new_state;
                        },
                        None => {},
                    }
                },
                None => {},
            }
            i = i + 1;
        }
        match self.recall_turns {
            Some(turns) => {
                self.recall_turns = Some(turns - 1);
                if turns - 1 == 0 {
                    let _ = self.world.remove_location(player);
                }
            },
            None => {},
        }
        proof {
            lemma_fov_updated_frame(*self);
        }
        update_fov(self);
        self.update_smells();
        self.current_turn = self.current_turn + 1;
        Ok(())
    }
}

} // verus!
