use component_store::engine::{
    ActionError, ComponentStorage, Direction, EntityStorage, Id, Position, World,
};
use component_store::game::entity::{distance_sq, roll_bound, step_from};
use component_store::game::fov::{add_offset, update_fov};
use component_store::game::{
    Action, AiState, Cell, Color, Contents, Corpse, Damage, Entity, EntityType, Game, GameWorld,
    IsPlayer, IsVisible, Location, PlayerStatus, Rect, Tile, WasVisible,
};
use rand::{SeedableRng, StdRng};
use std::collections::BTreeMap;

fn pos(x: i32, y: i32) -> Position {
    Position { x, y }
}

fn game() -> Game {
    Game {
        world: GameWorld::new(),
        next_id: 1,
        rand: StdRng::from_seed(&[11usize]),
        recall_turns: None,
        smell_strength: BTreeMap::new(),
        current_turn: 0,
    }
}

fn floor(g: &mut Game, from: i32, to: i32) {
    for x in from..=to {
        for y in from..=to {
            g.world.entity_mut(pos(x, y)).insert(Tile::Ground);
        }
    }
}

fn damage_of(g: &Game, e: Entity) -> Option<i8> {
    g.world.entity(e).get::<Damage>().map(|d| d.0)
}

#[test]
fn a_game_without_a_player() {
    let mut g = game();
    assert_eq!(g.player(), Err(()));
    assert_eq!(g.player_position(), Err(()));
    assert_eq!(g.player_status(), None);
    assert_eq!(g.player_fov_range(), 0);
    assert!(g.fov_bounding_rect().is_err());
    assert!(g.take_turn(Action::Wait) == Err(ActionError::Failed));
    assert_eq!(g.current_turn, 0);
    assert_eq!(g.get_tile(pos(0, 0)), Tile::Wall);
}

#[test]
fn entities_are_numbered_as_they_are_put() {
    let mut g = game();
    g.put_entity(EntityType::Player, pos(0, 0));
    g.put_entity(EntityType::Rat, pos(1, 0));
    g.put_entity(EntityType::Rock, pos(1, 0));
    assert_eq!(g.next_id, 4);
    assert_eq!(g.player(), Ok(Entity(1)));
    assert!(g.is_player(Entity(1)));
    assert!(!g.is_player(Entity(2)));
    assert_eq!(g.player_position(), Ok(pos(0, 0)));
    assert_eq!(g.entity_position(Entity(3)), Ok(pos(1, 0)));
    assert_eq!(g.world.entity(Entity(2)).get::<AiState>(), Some(&AiState::Waiting));
    assert!(!g.world.entity(Entity(1)).has::<AiState>());
    assert!(!g.world.entity(Entity(3)).has::<AiState>());
    assert_eq!(g.world.entity(Entity(3)).get::<EntityType>(), Some(&EntityType::Rock));
    assert_eq!(g.player_fov_range(), 4);
}

#[test]
fn the_first_marked_entity_is_the_player() {
    let mut g = game();
    g.world.entity_mut(Entity(9)).insert(IsPlayer);
    g.world.entity_mut(Entity(4)).insert(IsPlayer);
    assert_eq!(g.player(), Ok(Entity(4)));
    assert_eq!(g.player_position(), Err(()));
    assert_eq!(g.player_fov_range(), 0);
}

#[test]
fn carried_things_are_located_through_their_carrier() {
    let mut g = game();
    g.put_entity(EntityType::Player, pos(2, 2));
    g.put_entity(EntityType::Bow, pos(5, 5));
    g.put_entity(EntityType::Arrow, pos(5, 5));
    g.world.set_location(Entity(2), Location::Entity(Entity(1)));
    g.world.set_location(Entity(3), Location::Entity(Entity(2)));
    assert_eq!(g.entity_position(Entity(2)), Err(()));
    assert_eq!(g.locate_entity(Entity(3)), Ok(pos(2, 2)));
    assert_eq!(g.locate_entity(Entity(1)), Ok(pos(2, 2)));
    assert_eq!(g.locate_entity(Entity(8)), Err(()));
    g.world.set_location(Entity(1), Location::Entity(Entity(3)));
    assert_eq!(g.locate_entity(Entity(3)), Err(()));
}

#[test]
fn the_first_actor_at_a_position_is_found() {
    let mut g = game();
    g.put_entity(EntityType::Rock, pos(1, 1));
    assert_eq!(g.get_actor_by_position(pos(1, 1)), Err(()));
    g.put_entity(EntityType::Wolf, pos(1, 1));
    g.put_entity(EntityType::Rat, pos(1, 1));
    assert_eq!(g.get_actor_by_position(pos(1, 1)), Ok(Entity(2)));
    assert_eq!(g.get_actor_by_position(pos(1, 2)), Err(()));
}

#[test]
fn the_inventory_is_counted() {
    let mut g = game();
    g.put_entity(EntityType::Player, pos(0, 0));
    for t in [EntityType::Arrow, EntityType::Bow, EntityType::Arrow, EntityType::Diamond] {
        let id = Entity(g.next_id);
        g.put_entity(t, pos(0, 0));
        g.world.set_location(id, Location::Entity(Entity(1)));
    }
    g.put_entity(EntityType::Arrow, pos(0, 0));
    g.put_entity(EntityType::Corpse, pos(0, 0));
    g.world.entity_mut(Entity(1)).insert(Damage(3));
    assert_eq!(g.inventory_count(EntityType::Arrow), 2);
    assert_eq!(g.inventory_count(EntityType::Rock), 0);
    assert_eq!(g.find_item(EntityType::Arrow), Ok(Entity(2)));
    assert_eq!(g.find_item(EntityType::Sword), Err(()));
    assert_eq!(g.find_corpse(), Ok(Entity(7)));
    assert_eq!(
        g.player_status(),
        Some(PlayerStatus {
            health: 7,
            max_health: 10,
            has_bow: true,
            has_sword: false,
            arrows: 2,
            herbs: 0,
            rocks: 0,
            corpses: 0,
            diamonds: 1,
            recall_turns: None,
        })
    );
}

#[test]
fn what_is_shown_at_a_position() {
    let mut g = game();
    let blank = Cell { ch: ' ', fg: Color::Black, bg: Color::Black, bold: false };
    g.put_entity(EntityType::Player, pos(0, 0));
    g.world.entity_mut(pos(0, 0)).insert(Tile::ShortGrass);
    g.world.entity_mut(pos(1, 0)).insert(Tile::DeepWater);
    assert_eq!(g.render(pos(1, 0)), blank);
    g.world.entity_mut(pos(1, 0)).insert(WasVisible(Tile::Tree));
    assert_eq!(g.render(pos(1, 0)), Tile::Tree.render_memory());
    g.world.entity_mut(pos(1, 0)).insert(IsVisible(5));
    assert_eq!(g.render(pos(1, 0)), Tile::Tree.render_memory());
    g.world.entity_mut(pos(1, 0)).insert(IsVisible(4));
    assert_eq!(g.render(pos(1, 0)), Tile::DeepWater.render());
    g.put_entity(EntityType::Rock, pos(1, 0));
    assert_eq!(
        g.render(pos(1, 0)),
        Cell { ch: '*', fg: Color::White, bg: Color::Blue, bold: true }
    );
    g.put_entity(EntityType::Diamond, pos(1, 0));
    g.put_entity(EntityType::Skeleton, pos(1, 0));
    assert_eq!(
        g.render(pos(1, 0)),
        Cell { ch: '*', fg: Color::Cyan, bg: Color::Blue, bold: true }
    );
    g.put_entity(EntityType::Deer, pos(1, 0));
    g.put_entity(EntityType::Scroll, pos(1, 0));
    g.put_entity(EntityType::Wolf, pos(1, 0));
    assert_eq!(
        g.render(pos(1, 0)),
        Cell { ch: 'd', fg: Color::Yellow, bg: Color::Blue, bold: true }
    );
    g.world.entity_mut(pos(0, 0)).insert(IsVisible(0));
    assert_eq!(
        g.render(pos(0, 0)),
        Cell { ch: '@', fg: Color::Green, bg: Color::Black, bold: true }
    );
}

#[test]
fn the_bounding_rectangle_holds_what_is_in_view() {
    let mut g = game();
    g.put_entity(EntityType::Player, pos(0, 0));
    assert!(g.fov_bounding_rect() == Ok(Rect { min_x: 0, max_x: 0, min_y: 0, max_y: 0 }));
    g.world.entity_mut(pos(3, -2)).insert(IsVisible(4));
    g.world.entity_mut(pos(-1, 7)).insert(IsVisible(1));
    g.world.entity_mut(pos(-9, 9)).insert(IsVisible(5));
    assert!(g.fov_bounding_rect() == Ok(Rect { min_x: -1, max_x: 3, min_y: -2, max_y: 7 }));
}

#[test]
fn killing_leaves_a_corpse() {
    let mut g = game();
    g.current_turn = 17;
    g.put_entity(EntityType::Rat, pos(0, 0));
    g.kill_entity(Entity(1));
    assert_eq!(g.world.entity(Entity(1)).get::<EntityType>(), Some(&EntityType::Corpse));
    assert_eq!(
        g.world.entity(Entity(1)).get::<Corpse>(),
        Some(&Corpse { turn_created: 17, original_type: EntityType::Rat })
    );
    assert!(!g.world.entity(Entity(1)).has::<AiState>());
    g.kill_entity(Entity(5));
    assert_eq!(g.world.entity(Entity(5)).get::<EntityType>(), Some(&EntityType::Corpse));
    assert!(!g.world.entity(Entity(5)).has::<Corpse>());
}

#[test]
fn damage_adds_up_and_kills() {
    let mut g = game();
    g.put_entity(EntityType::Wolf, pos(0, 0));
    g.put_entity(EntityType::Rock, pos(0, 0));
    g.add_damage(Entity(1), 3);
    assert_eq!(damage_of(&g, Entity(1)), Some(3));
    g.add_damage(Entity(1), -5);
    assert_eq!(damage_of(&g, Entity(1)), Some(0));
    g.add_damage(Entity(1), 4);
    assert_eq!(g.world.entity(Entity(1)).get::<EntityType>(), Some(&EntityType::Wolf));
    g.add_damage(Entity(1), 1);
    assert_eq!(damage_of(&g, Entity(1)), Some(5));
    assert_eq!(g.world.entity(Entity(1)).get::<EntityType>(), Some(&EntityType::Corpse));
    g.add_damage(Entity(2), 4);
    assert_eq!(damage_of(&g, Entity(2)), None);
    g.add_damage(Entity(9), 4);
    assert_eq!(damage_of(&g, Entity(9)), None);
}

#[test]
fn only_the_player_and_the_others_attack_each_other() {
    let mut g = game();
    g.put_entity(EntityType::Player, pos(0, 0));
    g.put_entity(EntityType::Wolf, pos(1, 0));
    g.put_entity(EntityType::Rat, pos(2, 0));
    g.put_entity(EntityType::Rock, pos(3, 0));
    assert!(g.attack_entity(Entity(2), Entity(3), 1) == Err(ActionError::Failed));
    assert_eq!(damage_of(&g, Entity(3)), None);
    assert!(g.attack_entity(Entity(1), Entity(1), 1) == Err(ActionError::Failed));
    assert!(g.attack_entity(Entity(1), Entity(2), 2) == Ok(()));
    assert_eq!(damage_of(&g, Entity(2)), Some(2));
    assert!(g.attack_position(Entity(3), pos(0, 0), 4) == Ok(()));
    assert_eq!(damage_of(&g, Entity(1)), Some(4));
    assert!(g.attack_position(Entity(1), pos(3, 0), 4) == Err(ActionError::Failed));
    assert!(g.attack_position(Entity(1), pos(7, 7), 4) == Err(ActionError::Failed));
    assert!(g.bump_damage(Entity(1)) == Ok(1));
    assert!(g.bump_damage(Entity(2)) == Ok(2));
    assert!(g.bump_damage(Entity(4)) == Err(ActionError::Failed));
    assert!(g.bump_damage(Entity(8)) == Err(ActionError::Failed));
    g.put_entity(EntityType::Sword, pos(0, 0));
    g.world.set_location(Entity(5), Location::Entity(Entity(1)));
    assert!(g.bump_damage(Entity(1)) == Ok(3));
    assert!(g.bump_attack(Entity(1), Entity(3)) == Ok(()));
    assert_eq!(damage_of(&g, Entity(3)), Some(3));
    assert_eq!(g.world.entity(Entity(3)).get::<EntityType>(), Some(&EntityType::Corpse));
    assert!(g.bump_attack(Entity(4), Entity(1)) == Err(ActionError::Failed));
}

#[test]
fn moving_steps_bumps_or_fails() {
    let mut g = game();
    floor(&mut g, 0, 2);
    g.world.entity_mut(pos(0, 1)).insert(Tile::DeepWater);
    g.put_entity(EntityType::Player, pos(0, 0));
    g.put_entity(EntityType::Rat, pos(2, 0));
    g.put_entity(EntityType::Rock, pos(1, 1));
    assert!(g.move_entity(Entity(1), Direction::West) == Err(ActionError::Failed));
    assert!(g.move_entity(Entity(1), Direction::South) == Err(ActionError::Failed));
    assert!(g.move_entity(Entity(3), Direction::East) == Ok(()));
    assert_eq!(g.entity_position(Entity(3)), Ok(pos(2, 1)));
    assert!(g.move_entity(Entity(9), Direction::East) == Err(ActionError::Failed));
    assert!(g.move_entity(Entity(1), Direction::East) == Ok(()));
    assert_eq!(g.player_position(), Ok(pos(1, 0)));
    assert!(g.move_entity(Entity(1), Direction::East) == Ok(()));
    assert_eq!(g.player_position(), Ok(pos(1, 0)));
    assert_eq!(damage_of(&g, Entity(2)), Some(1));
    assert!(g.move_to(Entity(1), pos(2, 2)));
    assert!(!g.move_to(Entity(1), pos(2, 2)));
    assert!(!g.move_to(Entity(1), pos(2, 0)));
    assert!(!g.move_to(Entity(1), pos(0, 1)));
    assert_eq!(g.player_position(), Ok(pos(2, 2)));
}

#[test]
fn things_are_picked_up_and_used_up() {
    let mut g = game();
    floor(&mut g, 0, 1);
    g.put_entity(EntityType::Player, pos(0, 0));
    for t in [
        EntityType::Herb,
        EntityType::Skeleton,
        EntityType::Sword,
        EntityType::Corpse,
        EntityType::Herb,
        EntityType::Rat,
    ] {
        g.put_entity(t, pos(0, 0));
    }
    g.put_entity(EntityType::Rock, pos(1, 1));
    assert_eq!(g.auto_pickup(), Ok(()));
    assert_eq!(g.inventory_count(EntityType::Herb), 2);
    assert_eq!(g.inventory_count(EntityType::Sword), 1);
    assert_eq!(g.inventory_count(EntityType::Skeleton), 0);
    assert_eq!(g.inventory_count(EntityType::Rock), 0);
    assert_eq!(
        g.world.entity(pos(0, 0)).get::<Contents>().unwrap().entities(),
        vec![Entity(1), Entity(3), Entity(5), Entity(7)]
    );
    assert!(g.consume_item(EntityType::Herb) == Ok(()));
    assert_eq!(g.find_item(EntityType::Herb), Ok(Entity(6)));
    assert!(!g.world.entity(Entity(2)).has::<Location>());
    assert!(g.consume_item(EntityType::Herb) == Ok(()));
    assert!(g.consume_item(EntityType::Herb) == Err(ActionError::Failed));
    assert!(g.consume_item(EntityType::Sword) == Ok(()));
    assert!(!g.world.entity(Entity(1)).has::<Contents>());
}

#[test]
fn walls_all_around_block_the_view() {
    let mut g = game();
    g.put_entity(EntityType::Player, pos(10, 10));
    g.world.entity_mut(pos(40, 40)).insert(IsVisible(1));
    update_fov(&mut g);
    assert_eq!(g.world.visible.count(), 9);
    assert_eq!(g.world.remembered.count(), 9);
    assert_eq!(g.world.entity(pos(10, 10)).get::<IsVisible>(), Some(&IsVisible(0)));
    for d in component_store::engine::ALL_DIRECTIONS {
        let p = pos(10, 10).step(d);
        assert_eq!(g.world.entity(p).get::<IsVisible>(), Some(&IsVisible(1)));
        assert_eq!(g.world.entity(p).get::<WasVisible>(), Some(&WasVisible(Tile::Wall)));
    }
    assert!(!g.world.entity(pos(40, 40)).has::<IsVisible>());
    assert!(!g.world.entity(pos(12, 10)).has::<IsVisible>());
}

#[test]
fn open_ground_is_seen_five_positions_far() {
    let mut g = game();
    floor(&mut g, -8, 8);
    g.put_entity(EntityType::Player, pos(0, 0));
    update_fov(&mut g);
    let seen = |x: i32, y: i32| g.world.entity(pos(x, y)).get::<IsVisible>().map(|v| v.0);
    assert_eq!(seen(0, 0), Some(0));
    for (x, y, d) in [
        (1, 0, 1),
        (5, 0, 5),
        (1, 1, 1),
        (2, 2, 3),
        (3, 3, 4),
        (2, 1, 2),
        (3, 1, 3),
        (4, 1, 4),
        (5, 1, 5),
        (3, 2, 4),
        (4, 3, 5),
        (4, 2, 5),
    ] {
        for (a, b) in [(x, y), (y, x), (-x, y), (-y, x), (x, -y), (y, -x), (-x, -y), (-y, -x)] {
            assert_eq!(seen(a, b), Some(d));
        }
    }
    assert_eq!(seen(6, 0), None);
    assert_eq!(seen(4, 4), None);
    assert_eq!(seen(5, 2), None);
    assert_eq!(g.world.visible.count(), 1 + 4 * 5 + 4 * 3 + 8 * 7);
    assert_eq!(g.world.entity(pos(4, 1)).get::<WasVisible>(), Some(&WasVisible(Tile::Ground)));
    assert!(!g.world.entity(pos(5, 0)).has::<WasVisible>());
    assert!(!g.world.entity(pos(5, 1)).has::<WasVisible>());
}

#[test]
fn a_tree_casts_a_shadow() {
    let mut g = game();
    floor(&mut g, -8, 8);
    g.world.entity_mut(pos(2, 0)).insert(Tile::Tree);
    g.put_entity(EntityType::Player, pos(0, 0));
    update_fov(&mut g);
    let seen = |x: i32, y: i32| g.world.entity(pos(x, y)).get::<IsVisible>().map(|v| v.0);
    assert_eq!(seen(1, 0), Some(1));
    assert_eq!(seen(2, 0), Some(2));
    assert_eq!(seen(3, 0), None);
    assert_eq!(seen(5, 0), None);
    assert_eq!(seen(3, 1), Some(3));
    assert_eq!(seen(4, 1), Some(4));
    assert_eq!(seen(5, 1), None);
    assert_eq!(seen(-5, 0), Some(5));
    assert_eq!(g.world.entity(pos(2, 0)).get::<WasVisible>(), Some(&WasVisible(Tile::Tree)));
}

#[test]
fn offsets_and_distances() {
    assert_eq!(add_offset(pos(3, 4), -5, 2), pos(-2, 6));
    assert_eq!(add_offset(pos(i32::MAX, 0), 1, 0), pos(i32::MIN, 0));
    assert_eq!(distance_sq(pos(0, 0), pos(3, -4)), 25);
    assert_eq!(distance_sq(pos(i32::MIN, 0), pos(i32::MAX, 0)), (u32::MAX as i128) * (u32::MAX as i128));
}

#[test]
fn a_step_towards_a_target() {
    assert_eq!(roll_bound(pos(0, 0), pos(5, 2)), 5);
    assert_eq!(roll_bound(pos(0, 0), pos(-1, -7)), 7);
    assert_eq!(roll_bound(pos(i32::MIN, 0), pos(i32::MAX, 0)), i32::MAX);
    assert_eq!(step_from(pos(0, 0), pos(5, 2), 0), pos(1, 1));
    assert_eq!(step_from(pos(0, 0), pos(5, 2), 1), pos(1, 1));
    assert_eq!(step_from(pos(0, 0), pos(5, 2), 2), pos(1, 0));
    assert_eq!(step_from(pos(0, 0), pos(5, 2), 4), pos(1, 0));
    assert_eq!(step_from(pos(0, 0), pos(0, -3), 0), pos(0, -1));
    assert_eq!(step_from(pos(0, 0), pos(-2, 2), 1), pos(-1, 1));
    assert_eq!(step_from(pos(0, 0), pos(-2, 2), 2), pos(0, 1));
    assert_eq!(step_from(pos(4, 4), pos(3, 9), 0), pos(3, 5));
    assert_eq!(step_from(pos(4, 4), pos(3, 9), 1), pos(4, 5));
}
