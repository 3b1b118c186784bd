//! The kinds of things that populate the world.
use super::rng::{choose_direction, gen_range};
use super::session::Game;
use super::fov::IsVisible;
use super::{Color, Entity, Location, WorldView};
use crate::engine::{
    Component, ComponentStorage, Direction, EntityStorage, Id, Position, ALL_DIRECTIONS,
};
use vstd::prelude::*;

verus! {

/// What an entity type is: a thing that lies around, or something that acts.
#[derive(Debug, Copy, Clone, PartialEq, Eq, Structural)]
pub enum EntityClass {
    Item { display_priority: i8 },
    Actor {
        max_health: i8,
        max_stamina: i8,
        max_satiation: i16,
        fov_range: i8,
        damage: i8,
        smelling: i32,
        ai: Option<Ai>,
    },
}

/// How an actor that is not the player behaves.
#[derive(Debug, Copy, Clone, PartialEq, Eq, Structural)]
pub struct Ai {
    pub attack: bool,
    pub flee: bool,
    pub wanders: bool,
}

/// What is known of every entity of one type.
#[derive(Debug, Copy, Clone)]
pub struct EntityData {
    pub name: &'static str,
    pub ch: char,
    pub color: Option<Color>,
    pub class: EntityClass,
}

impl EntityData {
    pub open spec fn spec_is_item(&self) -> bool {
        self.class is Item
    }

    pub open spec fn spec_is_actor(&self) -> bool {
        self.class is Actor
    }

    #[verifier::when_used_as_spec(spec_is_item)]
    pub fn is_item(&self) -> (b: bool)
        ensures
            b == self.spec_is_item(),
    {
        match self.class {
            EntityClass::Item { .. } => true,
            _ => false,
        }
    }

    #[verifier::when_used_as_spec(spec_is_actor)]
    pub fn is_actor(&self) -> (b: bool)
        ensures
            b == self.spec_is_actor(),
    {
        match self.class {
            EntityClass::Actor { .. } => true,
            _ => false,
        }
    }
}

/// The types of entities.
#[derive(Debug, Copy, Clone, PartialEq, Eq, Structural)]
pub enum EntityType {
    Skeleton,
    /// Can be thrown.
    Rock,
    /// Can be eaten to heal.
    Herb,
    /// Fired by the bow.
    Arrow,
    /// What the player is after.
    Diamond,
    /// Makes bumping into others hurt more.
    Sword,
    /// Fires arrows.
    Bow,
    /// Can be dropped to attract monsters.
    Corpse,
    /// Not an item of the world: stands for the scroll in the status line.
    Scroll,
    Rat,
    Deer,
    Wolf,
    Dragon,
    Player,
}

impl Component for EntityType {
}

impl EntityType {
    /// The class of the entities of this type.
    pub open spec fn class(&self) -> EntityClass {
        match self {
            EntityType::Skeleton => EntityClass::Item { display_priority: 10 },
            EntityType::Rock => EntityClass::Item { display_priority: 9 },
            EntityType::Herb => EntityClass::Item { display_priority: 7 },
            EntityType::Arrow => EntityClass::Item { display_priority: 6 },
            EntityType::Diamond => EntityClass::Item { display_priority: 5 },
            EntityType::Sword => EntityClass::Item { display_priority: 3 },
            EntityType::Bow => EntityClass::Item { display_priority: 2 },
            EntityType::Corpse => EntityClass::Item { display_priority: 1 },
            EntityType::Scroll => EntityClass::Item { display_priority: 0 },
            EntityType::Rat => EntityClass::Actor {
                max_health: 2,
                max_stamina: 2,
                max_satiation: 10,
                fov_range: 3,
                damage: 1,
                smelling: 40,
                ai: Some(Ai { attack: true, flee: true, wanders: true }),
            },
            EntityType::Deer => EntityClass::Actor {
                max_health: 5,
                max_stamina: 5,
                max_satiation: 40,
                fov_range: 4,
                damage: 0,
                smelling: 12,
                ai: Some(Ai { attack: false, flee: true, wanders: true }),
            },
            EntityType::Wolf => EntityClass::Actor {
                max_health: 5,
                max_stamina: 5,
                max_satiation: 40,
                fov_range: 4,
                damage: 2,
                smelling: 24,
                ai: Some(Ai { attack: true, flee: false, wanders: true }),
            },
            EntityType::Dragon => EntityClass::Actor {
                max_health: 15,
                max_stamina: 10,
                max_satiation: 200,
                fov_range: 5,
                damage: 3,
                smelling: 16,
                ai: Some(Ai { attack: true, flee: true, wanders: false }),
            },
            EntityType::Player => EntityClass::Actor {
                max_health: 10,
                max_stamina: 10,
                max_satiation: 100,
                fov_range: 4,
                damage: 1,
                smelling: 8,
                ai: None,
            },
        }
    }

    /// The character that stands for the entities of this type.
    pub open spec fn ch(&self) -> char {
        match self {
            EntityType::Skeleton => '%',
            EntityType::Rock => '*',
            EntityType::Herb => '+',
            EntityType::Arrow => '/',
            EntityType::Diamond => '*',
            EntityType::Sword => '|',
            EntityType::Bow => '}',
            EntityType::Corpse => '%',
            EntityType::Scroll => '?',
            EntityType::Rat => 'r',
            EntityType::Deer => 'd',
            EntityType::Wolf => 'w',
            EntityType::Dragon => 'D',
            EntityType::Player => '@',
        }
    }

    /// The colour of the entities of this type; the player has none of its
    /// own.
    pub open spec fn color(&self) -> Option<Color> {
        match self {
            EntityType::Skeleton => Some(Color::White),
            EntityType::Rock => Some(Color::White),
            EntityType::Herb => Some(Color::Green),
            EntityType::Arrow => Some(Color::Yellow),
            EntityType::Diamond => Some(Color::Cyan),
            EntityType::Sword => Some(Color::White),
            EntityType::Bow => Some(Color::Yellow),
            EntityType::Corpse => Some(Color::Red),
            EntityType::Scroll => Some(Color::White),
            EntityType::Rat => Some(Color::White),
            EntityType::Deer => Some(Color::Yellow),
            EntityType::Wolf => Some(Color::White),
            EntityType::Dragon => Some(Color::Green),
            EntityType::Player => None,
        }
    }

    /// The name of the entities of this type.
    pub open spec fn name(&self) -> &'static str {
        match self {
            EntityType::Skeleton => "skeleton",
            EntityType::Rock => "rock",
            EntityType::Herb => "healing herbs",
            EntityType::Arrow => "arrow",
            EntityType::Diamond => "diamond",
            EntityType::Sword => "sword",
            EntityType::Bow => "bow",
            EntityType::Corpse => "corpse",
            EntityType::Scroll => "scroll",
            EntityType::Rat => "rat",
            EntityType::Deer => "deer",
            EntityType::Wolf => "wolf",
            EntityType::Dragon => "dragon",
            EntityType::Player => "player",
        }
    }

    /// What is known of the entities of this type.
    pub fn data(&self) -> (d: EntityData)
        ensures
            d.name == self.name(),
            d.ch == self.ch(),
            d.color == self.color(),
            d.class == self.class(),
    {
        match self {
            EntityType::Skeleton => EntityData {
                name: "skeleton",
                ch: '%',
                color: Some(Color::White),
                class: EntityClass::Item { display_priority: 10 },
            },
            EntityType::Rock => EntityData {
                name: "rock",
                ch: '*',
                color: Some(Color::White),
                class: EntityClass::Item { display_priority: 9 },
            },
            EntityType::Herb => EntityData {
                name: "healing herbs",
                ch: '+',
                color: Some(Color::Green),
                class: EntityClass::Item { display_priority: 7 },
            },
            EntityType::Arrow => EntityData {
                name: "arrow",
                ch: '/',
                color: Some(Color::Yellow),
                class: EntityClass::Item { display_priority: 6 },
            },
            EntityType::Diamond => EntityData {
                name: "diamond",
                ch: '*',
                color: Some(Color::Cyan),
                class: EntityClass::Item { display_priority: 5 },
            },
            EntityType::Sword => EntityData {
                name: "sword",
                ch: '|',
                color: Some(Color::White),
                class: EntityClass::Item { display_priority: 3 },
            },
            EntityType::Bow => EntityData {
                name: "bow",
                ch: '}',
                color: Some(Color::Yellow),
                class: EntityClass::Item { display_priority: 2 },
            },
            EntityType::Corpse => EntityData {
                name: "corpse",
                ch: '%',
                color: Some(Color::Red),
                class: EntityClass::Item { display_priority: 1 },
            },
            EntityType::Scroll => EntityData {
                name: "scroll",
                ch: '?',
                color: Some(Color::White),
                class: EntityClass::Item { display_priority: 0 },
            },
            EntityType::Rat => EntityData {
                name: "rat",
                ch: 'r',
                color: Some(Color::White),
                class: EntityClass::Actor {
                    max_health: 2,
                    max_stamina: 2,
                    max_satiation: 10,
                    fov_range: 3,
                    damage: 1,
                    smelling: 40,
                    ai: Some(Ai { attack: true, flee: true, wanders: true }),
                },
            },
            EntityType::Deer => EntityData {
                name: "deer",
                ch: 'd',
                color: Some(Color::Yellow),
                class: EntityClass::Actor {
                    max_health: 5,
                    max_stamina: 5,
                    max_satiation: 40,
                    fov_range: 4,
                    damage: 0,
                    smelling: 12,
                    ai: Some(Ai { attack: false, flee: true, wanders: true }),
                },
            },
            EntityType::Wolf => EntityData {
                name: "wolf",
                ch: 'w',
                color: Some(Color::White),
                class: EntityClass::Actor {
                    max_health: 5,
                    max_stamina: 5,
                    max_satiation: 40,
                    fov_range: 4,
                    damage: 2,
                    smelling: 24,
                    ai: Some(Ai { attack: true, flee: false, wanders: true }),
                },
            },
            EntityType::Dragon => EntityData {
                name: "dragon",
                ch: 'D',
                color: Some(Color::Green),
                class: EntityClass::Actor {
                    max_health: 15,
                    max_stamina: 10,
                    max_satiation: 200,
                    fov_range: 5,
                    damage: 3,
                    smelling: 16,
                    ai: Some(Ai { attack: true, flee: true, wanders: false }),
                },
            },
            EntityType::Player => EntityData {
                name: "player",
                ch: '@',
                color: None,
                class: EntityClass::Actor {
                    max_health: 10,
                    max_stamina: 10,
                    max_satiation: 100,
                    fov_range: 4,
                    damage: 1,
                    smelling: 8,
                    ai: None,
                },
            },
        }
    }
}

/// What is left of an actor that was killed.
#[derive(Debug, Copy, Clone, PartialEq, Eq, Structural)]
pub struct Corpse {
    pub turn_created: i32,
    pub original_type: EntityType,
}

impl Component for Corpse {
}

/// What an actor that is not the player is up to.
#[derive(Debug, Copy, Clone, PartialEq, Eq, Structural)]
pub enum AiState {
    Waiting,
    Wandering(Position),
    Fleeing(Entity, Position),
    Hunting(Entity, Position),
}

impl Component for AiState {
}

/// -1, 0 or 1 as `v` is negative, zero or positive.
pub open spec fn sign(v: int) -> int {
    if v < 0 {
        -1
    } else if v > 0 {
        1
    } else {
        0
    }
}

/// How far `to` is from `from` along the axis on which it is farther.
pub open spec fn reach(from: Position, to: Position) -> int {
    let ax = vstd::math::abs(to.x - from.x) as int;
    let ay = vstd::math::abs(to.y - from.y) as int;
    if ay >= ax {
        ay
    } else {
        ax
    }
}

/// The neighbour of `from` that a step towards `to` leads to when `roll` has
/// been drawn. The step goes along the axis on which `to` is farther, and
/// along the other one as well unless `roll` is at least the distance on
/// that one.
pub open spec fn spec_step_from(from: Position, to: Position, roll: int) -> Position {
    let dx = to.x - from.x;
    let dy = to.y - from.y;
    let ax = vstd::math::abs(dx) as int;
    let ay = vstd::math::abs(dy) as int;
    if ay >= ax {
        if roll >= ax {
            Position { x: from.x, y: (from.y + sign(dy)) as i32 }
        } else {
            Position { x: (from.x + sign(dx)) as i32, y: (from.y + sign(dy)) as i32 }
        }
    } else {
        if roll >= ay {
            Position { x: (from.x + sign(dx)) as i32, y: from.y }
        } else {
            Position { x: (from.x + sign(dx)) as i32, y: (from.y + sign(dy)) as i32 }
        }
    }
}

pub fn step_from(from: Position, to: Position, roll: i32) -> (r: Position)
    ensures
        r == spec_step_from(from, to, roll as int),
{
    let dx: i64 = to.x as i64 - from.x as i64;
    let dy: i64 = to.y as i64 - from.y as i64;
    let ax: i64 = if dx < 0 {
        -dx
    } else {
        dx
    };
    let ay: i64 = if dy < 0 {
        -dy
    } else {
        dy
    };
    let sx: i32 = if dx < 0 {
        -1
    } else if dx > 0 {
        1
    } else {
        0
    };
    let sy: i32 = if dy < 0 {
        -1
    } else if dy > 0 {
        1
    } else {
        0
    };
    if ay >= ax {
        if roll as i64 >= ax {
            Position { x: from.x, y: from.y + sy }
        } else {
            Position { x: from.x + sx, y: from.y + sy }
        }
    } else {
        if roll as i64 >= ay {
            Position { x: from.x + sx, y: from.y }
        } else {
            Position { x: from.x + sx, y: from.y + sy }
        }
    }
}

/// The number below which the roll of a step from `from` towards `to` is
/// drawn: the distance along the axis on which `to` is farther, and the
/// largest `i32` where that is more.
pub fn roll_bound(from: Position, to: Position) -> (bound: i32)
    ensures
        bound == if reach(from, to) > i32::MAX {
            i32::MAX as int
        } else {
            reach(from, to)
        },
        from != to ==> bound >= 1,
{
    let dx: i64 = to.x as i64 - from.x as i64;
    let dy: i64 = to.y as i64 - from.y as i64;
    let ax: i64 = if dx < 0 {
        -dx
    } else {
        dx
    };
    let ay: i64 = if dy < 0 {
        -dy
    } else {
        dy
    };
    let far: i64 = if ay >= ax {
        ay
    } else {
        ax
    };
    if far > 0x7fff_ffff {
        i32::MAX
    } else {
        far as i32
    }
}

/// Where a step of `actor` towards `pos` leads: to a neighbour of where it
/// lies that is nearer to `pos`, picked by a roll, or straight to `pos`
/// where `actor` lies at no position or is there already. Nothing moves.
pub fn step_towards(g: &mut Game, actor: Entity, pos: Position) -> (r: Position)
    ensures
        final(g).world == old(g).world,
        old(g).same_but_rand(*final(g)),
        match old(g).spec_entity_position(actor) {
            Ok(from) => if from != pos {
                exists|roll: int|
                    0 <= roll < reach(from, pos) && r == spec_step_from(from, pos, roll)
            } else {
                r == pos
            },
            Err(_) => r == pos,
        },
{
    match g.entity_position(actor) {
        Ok(from) => {
            if from != pos {
                let roll = gen_range(&mut g.rand, 0, roll_bound(from, pos));
                step_from(from, pos, roll)
            } else {
                pos
            }
        },
        Err(_) => pos,
    }
}

/// Whether a step of `actor` towards `pos` may lead to `target` in world
/// `w`.
pub open spec fn steps_in(w: WorldView, actor: Entity, pos: Position, target: Position) -> bool {
    match w.position_of(actor) {
        Ok(from) => if from != pos {
            exists|roll: int|
                0 <= roll < reach(from, pos) && target == spec_step_from(from, pos, roll)
        } else {
            target == pos
        },
        Err(_) => target == pos,
    }
}

/// Whether a step of `actor` towards `pos` may lead to `target`.
pub open spec fn steps_towards(g: Game, actor: Entity, pos: Position, target: Position) -> bool {
    steps_in(g.world@, actor, pos, target)
}

/// Whether `actor` may try a step towards `pos` in world `w`, with `after`
/// for the world that comes of it and `moved` telling whether the step was
/// taken.
pub open spec fn travels(
    w: WorldView,
    actor: Entity,
    pos: Position,
    after: WorldView,
    moved: bool,
) -> bool {
    exists|target: Position|
        #[trigger] steps_in(w, actor, pos, target) && (after, moved) == w.move_to(actor, target)
}

/// Whether `after` may come of `w` when `actor` tries steps towards
/// neighbours that are drawn: the first that can be taken is taken, and
/// `actor` stays where it is only if it lies at no position or some step
/// could not be taken.
pub open spec fn strays(w: WorldView, actor: Entity, after: WorldView) -> bool {
    match w.position_of(actor) {
        Ok(pos) => {
            ||| after == w && exists|dir: Direction, target: Position|
                #[trigger] steps_in(w, actor, pos.step(dir), target) && !w.move_to(actor, target).1
            ||| exists|dir: Direction, target: Position|
                #[trigger] steps_in(w, actor, pos.step(dir), target) && w.move_to(actor, target)
                    == (after, true)
        },
        Err(_) => after == w,
    }
}

/// Makes `actor` take one step towards `pos`, if it can; tells whether it
/// moved. The step is picked by a roll; whether it is taken is what
/// `move_to` says of where it leads.
pub fn move_towards(g: &mut Game, actor: Entity, pos: Position) -> (moved: bool)
    ensures
        old(g).same_but_rand(*final(g)),
        exists|target: Position|
            steps_towards(*old(g), actor, pos, target) && (final(g).world@, moved) == old(
                g,
            ).spec_move_to(actor, target),
        travels(old(g).world@, actor, pos, final(g).world@, moved),
{
    let new_pos = step_towards(g, actor, pos);
    let ghost stepped = *g;
    let moved = g.move_to(actor, new_pos);
    proof {
        assert(steps_towards(*old(g), actor, pos, new_pos));
        assert(stepped.spec_move_to(actor, new_pos) == old(g).spec_move_to(actor, new_pos));
        assert(steps_in(old(g).world@, actor, pos, new_pos));
    }
    moved
}

/// Whether a step of `actor`, which lies at `pos`, towards one of its
/// neighbours may be tried and end as `moved` says: taken or not.
pub open spec fn tries_neighbour(g: Game, actor: Entity, pos: Position, moved: bool) -> bool {
    exists|dir: Direction, target: Position|
        #[trigger] steps_towards(g, actor, pos.step(dir), target) && g.spec_move_to(
            actor,
            target,
        ).1 == moved
}

/// Makes `actor` take one step towards a neighbour that is drawn: up to
/// eight are drawn, and the first step that can be taken is taken. It stays
/// where it is only if it lies at no position or each of the eight steps
/// could not be taken.
pub fn move_randomly(g: &mut Game, actor: Entity)
    ensures
        old(g).same_but_rand(*final(g)),
        final(g).world@ == old(g).world@ || exists|target: Position|
            final(g).world@ == old(g).world@.moved(actor, Location::Position(target)),
        match old(g).spec_entity_position(actor) {
            Ok(pos) => {
                ||| final(g).world@ == old(g).world@ && tries_neighbour(*old(g), actor, pos, false)
                ||| exists|dir: Direction, target: Position|
                    #[trigger] steps_towards(*old(g), actor, pos.step(dir), target) && old(
                        g,
                    ).spec_move_to(
                        actor,
                        target,
                    ) == (final(g).world@, true)
            },
            Err(_) => final(g).world@ == old(g).world@,
        },
        strays(old(g).world@, actor, final(g).world@),
{
    let actor_pos = match g.entity_position(actor) {
        Ok(pos) => pos,
        Err(_) => {
            return ;
        },
    };
    let mut tries: u8 = 0;
    while tries < 8
        invariant
            tries <= 8,
            g.world@ == old(g).world@,
            old(g).same_but_rand(*g),
            old(g).spec_entity_position(actor) == Ok::<Position, ()>(actor_pos),
            tries > 0 ==> tries_neighbour(*old(g), actor, actor_pos, false),
        decreases 8 - tries,
    {
        let dir = match choose_direction(&mut g.rand, &ALL_DIRECTIONS) {
            Some(dir) => dir,
            None => {
                assert(false);
                return ;
            },
        };
        let ghost before = *g;
        let moved = move_towards(g, actor, actor_pos.step(dir));
        proof {
            let target = choose|target: Position|
                steps_towards(before, actor, actor_pos.step(dir), target) && (g.world@, moved)
                    == before.spec_move_to(actor, target);
            assert(steps_towards(*old(g), actor, actor_pos.step(dir), target));
            assert(old(g).spec_move_to(actor, target) == (g.world@, moved));
            assert(steps_in(old(g).world@, actor, actor_pos.step(dir), target));
        }
        if moved {
            return ;
        }
        tries = tries + 1;
    }
}

/// The square of the distance between `a` and `b`.
pub fn distance_sq(a: Position, b: Position) -> (d: i128)
    ensures
        d == (a.x - b.x) * (a.x - b.x) + (a.y - b.y) * (a.y - b.y),
{
    let dx: i128 = a.x as i128 - b.x as i128;
    let dy: i128 = a.y as i128 - b.y as i128;
    assert(dx * dx <= 0x1_0000_0000 * 0x1_0000_0000 && dx * dx >= 0) by (nonlinear_arith)
        requires
            -0x1_0000_0000 <= dx <= 0x1_0000_0000,
    ;
    assert(dy * dy <= 0x1_0000_0000 * 0x1_0000_0000 && dy * dy >= 0) by (nonlinear_arith)
        requires
            -0x1_0000_0000 <= dy <= 0x1_0000_0000,
    ;
    dx * dx + dy * dy
}

/// The player and its position as an actor at `actor_pos` that sees
/// `fov_range` far makes them out: it does where its own position is in a
/// line of sight of the player, no farther than it sees, and the player
/// lies at a position.
pub open spec fn spec_sees_player(g: Game, actor_pos: Position, fov_range: i8) -> Option<
    (Entity, Position),
> {
    g.world@.sees_player(actor_pos, fov_range)
}

impl WorldView {
    /// The player and its position as an actor at `actor_pos` that sees
    /// `fov_range` far makes them out in this world.
    pub open spec fn sees_player(self, actor_pos: Position, fov_range: i8) -> Option<
        (Entity, Position),
    > {
        match self.visible.get(actor_pos) {
            Some(visible) => if visible.0 <= fov_range {
                match (self.player(), self.player_position()) {
                    (Ok(id), Ok(pos)) => Some((id, pos)),
                    _ => None,
                }
            } else {
                None
            },
            None => None,
        }
    }
}

pub fn sees_player(g: &Game, actor_pos: Position, fov_range: i8) -> (r: Option<(Entity, Position)>)
    ensures
        r == spec_sees_player(*g, actor_pos, fov_range),
{
    let near = match g.world.entity(actor_pos).get::<IsVisible>() {
        Some(visible) => visible.0 <= fov_range,
        None => false,
    };
    if near {
        match g.player() {
            Ok(id) => match g.entity_position(id) {
                Ok(pos) => Some((id, pos)),
                Err(_) => None,
            },
            Err(_) => None,
        }
    } else {
        None
    }
}

/// What the turn of an actor leaves alone, whatever it does: which entity
/// the player controls, the terrain, what the player sees and remembers, the
/// turn count, the scroll, the smells and the number of the next entity.
pub open spec fn turn_frame(before: Game, after: Game) -> bool {
    &&& before.same_but_rand(after)
    &&& after.world@.players == before.world@.players
    &&& after.world@.tiles == before.world@.tiles
    &&& after.world@.visible == before.world@.visible
    &&& after.world@.remembered == before.world@.remembered
}

/// Three steps from `pos` in direction `dir`.
pub fn three_steps(pos: Position, dir: Direction) -> (r: Position)
    ensures
        r == pos.step(dir).step(dir).step(dir),
{
    pos.step(dir).step(dir).step(dir)
}

/// What is known of `actor` if it acts by itself: where it lies, how far it
/// sees, how faint a smell it still makes out, and how it behaves. Nothing
/// where it has no type, lies at no position or is of a type that does not
/// act by itself.
pub open spec fn acting(w: WorldView, actor: Entity) -> Option<(Position, i8, i32, Ai)> {
    match (w.type_of(actor), w.position_of(actor)) {
        (Some(t), Ok(pos)) => match t.class() {
            EntityClass::Actor { fov_range, smelling, ai: Some(ai), .. } => Some(
                (pos, fov_range, smelling, ai),
            ),
            _ => None,
        },
        _ => None,
    }
}

/// Where an actor at `from` wanders to when these four numbers are drawn.
pub open spec fn roamed(from: Position, east: i32, west: i32, south: i32, north: i32) -> Position {
    Position {
        x: from.x.wrapping_add(east).wrapping_sub(west),
        y: from.y.wrapping_add(south).wrapping_sub(north),
    }
}

/// Whether `next` is what an actor at `from` that sees `fov_range` far may
/// wander off to: a position that is less than twice as far away, along
/// each axis, as the actor sees.
pub open spec fn roams(from: Position, fov_range: i8, next: AiState) -> bool {
    exists|east: i32, west: i32, south: i32, north: i32|
        {
            &&& 0 <= east < 2 * fov_range
            &&& 0 <= west < 2 * fov_range
            &&& 0 <= south < 2 * fov_range
            &&& 0 <= north < 2 * fov_range
            &&& next == AiState::Wandering(#[trigger] roamed(from, east, west, south, north))
        }
}

/// Whether `next` is what an actor at `from` may do that follows its nose:
/// where it smells something, no fainter than it makes out, and a
/// neighbouring position smells less far from a corpse, one that attacks
/// wanders three steps that way, and one that only flees three steps the
/// other way.
pub open spec fn follows_smell(
    smells: Map<u64, i32>,
    from: Position,
    smelling: i32,
    ai: Ai,
    next: AiState,
) -> bool {
    &&& smells.contains_key(from.key())
    &&& smells[from.key()] <= smelling
    &&& ai.attack || ai.flee
    &&& exists|dir: Direction|
        {
            &&& #[trigger] smells.contains_key(from.step(dir).key())
            &&& smells[from.step(dir).key()] < smells[from.key()]
            &&& next == AiState::Wandering(
                if ai.attack {
                    from.step(dir).step(dir).step(dir)
                } else {
                    from.step(dir.reverse()).step(dir.reverse()).step(dir.reverse())
                },
            )
        }
}

/// Whether `next` is what an actor in state `state` may be up to once it has
/// moved. One that has the player in sight, `seen`, hunts it or flees from
/// it. Else it may follow its nose; and where it does not, one that waits
/// wanders off, and any other goes on as before.
pub open spec fn settles(
    seen: Option<(Entity, Position)>,
    smells: Map<u64, i32>,
    from: Position,
    fov_range: i8,
    smelling: i32,
    ai: Ai,
    state: AiState,
    next: AiState,
) -> bool {
    match seen {
        Some((player, player_pos)) if ai.attack || ai.flee => Some(next) == state.spec_on_sight(
            ai,
            player,
            player_pos,
        ),
        _ => {
            ||| follows_smell(smells, from, smelling, ai, next)
            ||| if state == AiState::Waiting {
                roams(from, fov_range, next)
            } else {
                next == state
            }
        },
    }
}

/// The state of an actor that flees from `id` once it has moved away from
/// `pos`, where it was at `from` before: it flees from where it sees `id`
/// now, if that is the player in sight; else it waits once it is four times
/// as far away as it sees, and goes on fleeing until then.
pub open spec fn fled(
    seen: Option<(Entity, Position)>,
    from: Position,
    fov_range: i8,
    id: Entity,
    pos: Position,
) -> AiState {
    if seen matches Some((player, player_pos)) && player == id {
        AiState::Fleeing(id, seen.unwrap().1)
    } else if (from.x - pos.x) * (from.x - pos.x) + (from.y - pos.y) * (from.y - pos.y) > 16
        * fov_range * fov_range {
        AiState::Waiting
    } else {
        AiState::Fleeing(id, pos)
    }
}

/// The position that lies as far from `from` as `pos` does, on the other
/// side.
pub open spec fn spec_away(from: Position, pos: Position) -> Position {
    Position {
        x: from.x.wrapping_mul(2).wrapping_sub(pos.x),
        y: from.y.wrapping_mul(2).wrapping_sub(pos.y),
    }
}

/// Whether the turn of `actor` in state `state` may make `after` of world
/// `w` and leave the actor in state `next`, where `smells` is how things
/// smell and `turn` is the turn count.
///
/// What cannot act does nothing. One that waits stays where it is. One that
/// wanders takes a step towards where it wanders to, and waits once it
/// cannot get on. One that flees takes a step away, or any step where it
/// cannot. One that hunts bumps into what it hunts where that is beside it,
/// and else takes a step towards where it saw it last, or any step where it
/// cannot; it waits once it is there.
pub open spec fn turns(
    w: WorldView,
    smells: Map<u64, i32>,
    turn: i32,
    state: AiState,
    actor: Entity,
    after: WorldView,
    next: AiState,
) -> bool {
    match acting(w, actor) {
        None => after == w && next == state,
        Some((from, fov_range, smelling, ai)) => {
            let seen = w.sees_player(from, fov_range);
            match state {
                AiState::Waiting => after == w && settles(
                    seen,
                    smells,
                    from,
                    fov_range,
                    smelling,
                    ai,
                    state,
                    next,
                ),
                AiState::Wandering(pos) => exists|moved: bool|
                    #[trigger] travels(w, actor, pos, after, moved) && settles(
                        seen,
                        smells,
                        from,
                        fov_range,
                        smelling,
                        ai,
                        if !moved && ai.wanders {
                            AiState::Waiting
                        } else {
                            state
                        },
                        next,
                    ),
                AiState::Fleeing(id, pos) => {
                    ||| travels(w, actor, spec_away(from, pos), after, true) && next == fled(
                        seen,
                        from,
                        fov_range,
                        id,
                        pos,
                    )
                    ||| travels(w, actor, spec_away(from, pos), w, false) && strays(w, actor, after)
                        && next == state
                },
                AiState::Hunting(id, pos) => if w.position_of(id) is Ok && (from.x - w.position_of(
                    id,
                )->Ok_0.x) * (from.x - w.position_of(id)->Ok_0.x) + (from.y - w.position_of(
                    id,
                )->Ok_0.y) * (from.y - w.position_of(id)->Ok_0.y) < 4 {
                    after == w.bump_attack(actor, id, turn).0 && next == state
                } else {
                    ||| travels(w, actor, pos, after, true) && settles(
                        seen,
                        smells,
                        from,
                        fov_range,
                        smelling,
                        ai,
                        state,
                        next,
                    )
                    ||| travels(w, actor, pos, w, false) && if pos == from {
                        after == w && settles(
                            seen,
                            smells,
                            from,
                            fov_range,
                            smelling,
                            ai,
                            AiState::Waiting,
                            next,
                        )
                    } else {
                        strays(w, actor, after) && settles(
                            seen,
                            smells,
                            from,
                            fov_range,
                            smelling,
                            ai,
                            state,
                            next,
                        )
                    }
                },
            }
        },
    }
}

impl AiState {
    /// What an actor that has seen the player at `player_pos` does next: one
    /// that attacks hunts the player, one that flees but does not attack
    /// flees from it, and any other goes on as before.
    pub open spec fn spec_on_sight(
        self,
        ai: Ai,
        player: Entity,
        player_pos: Position,
    ) -> Option<AiState> {
        if ai.attack {
            Some(AiState::Hunting(player, player_pos))
        } else if ai.flee {
            Some(AiState::Fleeing(player, player_pos))
        } else {
            None
        }
    }

    #[verifier::when_used_as_spec(spec_on_sight)]
    pub fn on_sight(self, ai: Ai, player: Entity, player_pos: Position) -> (r: Option<AiState>)
        ensures
            r == self.spec_on_sight(ai, player, player_pos),
    {
        if ai.attack {
            Some(AiState::Hunting(player, player_pos))
        } else if ai.flee {
            Some(AiState::Fleeing(player, player_pos))
        } else {
            None
        }
    }

    /// What an actor at `from` is up to once it has moved and is in this
    /// state, where `seen` is the player if the actor has it in sight.
    /// Nothing moves.
    pub fn settle(
        self,
        g: &mut Game,
        from: Position,
        fov_range: i8,
        smelling: i32,
        ai: Ai,
        seen: Option<(Entity, Position)>,
    ) -> (next: AiState)
        requires
            fov_range > 0,
        ensures
            final(g).world == old(g).world,
            old(g).same_but_rand(*final(g)),
            settles(seen, old(g).smell_strength@, from, fov_range, smelling, ai, self, next),
    {
        match seen {
            Some((player_id, player_pos)) => {
                match self.on_sight(ai, player_id, player_pos) {
                    Some(next) => {
                        return next;
                    },
                    None => {},
                }
            },
            None => {},
        }
        match g.smell_at(from) {
            Some(smell) => {
                if smell <= smelling {
                    let mut found: Option<Direction> = None;
                    let mut tries: u8 = 0;
                    while tries < 2 && found.is_none()
                        invariant
                            tries <= 2,
                            g.world == old(g).world,
                            old(g).same_but_rand(*g),
                            old(g).spec_smell_at(from) == Some(smell),
                            found matches Some(dir) ==> old(g).smell_strength@.contains_key(
                                from.step(dir).key(),
                            ) && old(g).smell_strength@[from.step(dir).key()] < smell,
                        decreases 2 - tries,
                    {
                        tries = tries + 1;
                        match choose_direction(&mut g.rand, &ALL_DIRECTIONS) {
                            Some(dir) => {
                                match g.smell_at(from.step(dir)) {
                                    Some(dir_smell) => {
                                        if dir_smell < smell {
                                            found = Some(dir);
                                        }
                                    },
                                    None => {},
                                }
                            },
                            None => {},
                        }
                    }
                    match found {
                        Some(dir) => {
                            if ai.attack {
                                return AiState::Wandering(three_steps(from, dir));
                            } else if ai.flee {
                                return AiState::Wandering(three_steps(from, dir.reverse()));
                            }
                        },
                        None => {},
                    }
                }
            },
            None => {},
        }
        match self {
            AiState::Waiting => {
                let fov: i32 = fov_range as i32;
                let east = gen_range(&mut g.rand, 0, 2 * fov);
                let west = gen_range(&mut g.rand, 0, 2 * fov);
                let south = gen_range(&mut g.rand, 0, 2 * fov);
                let north = gen_range(&mut g.rand, 0, 2 * fov);
                let to = Position {
                    x: from.x.wrapping_add(east).wrapping_sub(west),
                    y: from.y.wrapping_add(south).wrapping_sub(north),
                };
                assert(to == roamed(from, east, west, south, north));
                AiState::Wandering(to)
            },
            _ => self,
        }
    }

    /// The turn of `actor`, which is in this state: it moves or attacks as
    /// the state has it, and the state that it is in afterwards is handed
    /// back. Nothing happens where `actor` has no type, lies at no position,
    /// or is of a type that does not act by itself.
    pub fn take_turn(self, g: &mut Game, actor: Entity) -> (next: AiState)
        ensures
            turn_frame(*old(g), *final(g)),
            turns(
                old(g).world@,
                old(g).smell_strength@,
                old(g).current_turn,
                self,
                actor,
                final(g).world@,
                next,
            ),
    {
        let actor_type = match g.world.entity(actor).get::<EntityType>() {
            Some(t) => *t,
            None => {
                return self;
            },
        };
        let actor_pos = match g.entity_position(actor) {
            Ok(pos) => pos,
            Err(_) => {
                return self;
            },
        };
        let (fov_range, smelling, ai) = match actor_type.data().class {
            EntityClass::Actor { fov_range, smelling, ai: Some(ai), .. } => (
                fov_range,
                smelling,
                ai,
            ),
            _ => {
                return self;
            },
        };
        assert(3 <= fov_range <= 5);
        assert(acting(old(g).world@, actor) == Some((actor_pos, fov_range, smelling, ai)));
        let player = sees_player(g, actor_pos, fov_range);
        let fov: i32 = fov_range as i32;
        match self {
            AiState::Waiting => self.settle(g, actor_pos, fov_range, smelling, ai, player),
            AiState::Wandering(pos) => {
                let moved = move_towards(g, actor, pos);
                let state = if !moved && ai.wanders {
                    AiState::Waiting
                } else {
                    self
                };
                state.settle(g, actor_pos, fov_range, smelling, ai, player)
            },
            AiState::Fleeing(id, pos) => {
                let away = Position {
                    x: actor_pos.x.wrapping_mul(2).wrapping_sub(pos.x),
                    y: actor_pos.y.wrapping_mul(2).wrapping_sub(pos.y),
                };
                let moved = move_towards(g, actor, away);
                if !moved {
                    assert(g.world@ == old(g).world@);
                    move_randomly(g, actor);
                    self
                } else {
                    match player {
                        Some((player_id, player_pos)) => {
                            if player_id == id {
                                return AiState::Fleeing(id, player_pos);
                            }
                        },
                        None => {},
                    }
                    if distance_sq(actor_pos, pos) > 16 * (fov as i128) * (fov as i128) {
                        return AiState::Waiting;
                    }
                    self
                }
            },
            AiState::Hunting(id, pos) => {
                match g.entity_position(id) {
                    Ok(target_pos) => {
                        if distance_sq(actor_pos, target_pos) < 4 {
                            let _ = g.bump_attack(actor, id);
                            return self;
                        }
                    },
                    Err(_) => {},
                }
                let moved = move_towards(g, actor, pos);
                if moved {
                    self.settle(g, actor_pos, fov_range, smelling, ai, player)
                } else if pos == actor_pos {
                    assert(g.world@ == old(g).world@);
                    AiState::Waiting.settle(g, actor_pos, fov_range, smelling, ai, player)
                } else {
                    assert(g.world@ == old(g).world@);
                    move_randomly(g, actor);
                    self.settle(g, actor_pos, fov_range, smelling, ai, player)
                }
            },
        }
    }
}

} // verus!
