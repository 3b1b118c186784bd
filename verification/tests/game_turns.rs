use component_store::engine::world::Iterate;
use component_store::engine::{
    ActionError, ComponentStorage, Direction, EntityStorage, Id, Position, World,
    ALL_DIRECTIONS,
};
use component_store::game::entity::{move_randomly, move_towards, sees_player, step_towards};
use component_store::game::map::{
    add_feature, add_feature_at, add_river, create_ground, find_map_edge, init_game, is_land,
    place_hoard, place_player, pop_max, put_entities, rand_position, randomly_place,
    select_position, Feature, Hoard, TerrainFeature,
};
use component_store::game::{
    Action, AiState, Corpse, Damage, Entity, EntityType, Game, GameWorld, IsVisible, Location,
    Tile,
};
use rand::{SeedableRng, StdRng};
use std::collections::BTreeMap;

fn pos(x: i32, y: i32) -> Position {
    Position { x, y }
}

fn game() -> Game {
    Game {
        world: GameWorld::new(),
        next_id: 1,
        rand: StdRng::from_seed(&[5usize]),
        recall_turns: None,
        smell_strength: BTreeMap::new(),
        current_turn: 0,
    }
}

fn floor(g: &mut Game, from: i32, to: i32) {
    for x in from..=to {
        for y in from..=to {
            g.world.entity_mut(pos(x, y)).insert(Tile::Ground);
        }
    }
}

fn carry(g: &mut Game, t: EntityType) -> Entity {
    let id = Entity(g.next_id);
    let player = g.player().unwrap();
    g.put_entity(t, pos(0, 0));
    g.world.set_location(id, Location::Entity(player));
    id
}

fn damage_of(g: &Game, e: Entity) -> Option<i8> {
    g.world.entity(e).get::<Damage>().map(|d| d.0)
}

#[test]
fn waiting_takes_a_turn() {
    let mut g = game();
    floor(&mut g, -2, 2);
    g.put_entity(EntityType::Player, pos(0, 0));
    assert!(g.take_turn(Action::Wait) == Ok(()));
    assert_eq!(g.current_turn, 1);
    assert_eq!(g.recall_turns, None);
    assert_eq!(g.player_position(), Ok(pos(0, 0)));
    assert_eq!(g.world.entity(pos(0, 0)).get::<IsVisible>(), Some(&IsVisible(0)));
    assert_eq!(g.smell_at(pos(1, 1)), Some(i32::MAX));
    assert_eq!(g.smell_at(pos(3, 3)), None);
}

#[test]
fn a_move_that_fails_takes_no_turn() {
    let mut g = game();
    floor(&mut g, 0, 2);
    g.put_entity(EntityType::Player, pos(0, 0));
    assert!(g.take_turn(Action::Move(Direction::North)) == Err(ActionError::Failed));
    assert_eq!(g.current_turn, 0);
    assert_eq!(g.world.visible.count(), 0);
    assert!(g.take_turn(Action::Move(Direction::SouthEast)) == Ok(()));
    assert_eq!(g.current_turn, 1);
    assert_eq!(g.player_position(), Ok(pos(1, 1)));
    assert!(g.take_turn(Action::EatHerb) == Err(ActionError::Failed));
    assert!(g.take_turn(Action::GetCorpse) == Err(ActionError::Failed));
    assert!(g.take_turn(Action::DropCorpse) == Err(ActionError::Failed));
    assert!(g.take_turn(Action::ThrowRock(pos(1, 2))) == Err(ActionError::Failed));
    assert!(g.take_turn(Action::FireBow(Direction::East)) == Err(ActionError::Failed));
    assert_eq!(g.current_turn, 1);
}

#[test]
fn moving_picks_things_up() {
    let mut g = game();
    floor(&mut g, 0, 2);
    g.put_entity(EntityType::Player, pos(0, 0));
    g.put_entity(EntityType::Diamond, pos(1, 0));
    g.put_entity(EntityType::Skeleton, pos(1, 0));
    assert!(g.take_turn(Action::Move(Direction::East)) == Ok(()));
    assert_eq!(g.inventory_count(EntityType::Diamond), 1);
    assert_eq!(g.entity_position(Entity(3)), Ok(pos(1, 0)));
}

#[test]
fn a_herb_heals() {
    let mut g = game();
    floor(&mut g, 0, 0);
    g.put_entity(EntityType::Player, pos(0, 0));
    let herb = carry(&mut g, EntityType::Herb);
    g.world.entity_mut(Entity(1)).insert(Damage(3));
    assert!(g.take_turn(Action::EatHerb) == Ok(()));
    assert_eq!(damage_of(&g, Entity(1)), Some(2));
    assert!(!g.world.entity(herb).has::<Location>());
    assert_eq!(g.inventory_count(EntityType::Herb), 0);
}

#[test]
fn the_scroll_counts_down_and_takes_the_player_away() {
    let mut g = game();
    floor(&mut g, 0, 0);
    g.put_entity(EntityType::Player, pos(0, 0));
    assert!(g.take_turn(Action::ReadScroll) == Ok(()));
    let turns = g.recall_turns.unwrap();
    assert!(19 <= turns && turns < 29);
    assert!(g.take_turn(Action::Wait) == Ok(()));
    assert_eq!(g.recall_turns, Some(turns - 1));
    g.recall_turns = Some(1);
    assert!(g.take_turn(Action::Wait) == Ok(()));
    assert_eq!(g.recall_turns, Some(0));
    assert_eq!(g.player(), Ok(Entity(1)));
    assert_eq!(g.player_position(), Err(()));
    assert_eq!(g.world.visible.count(), 0);
    assert!(g.take_turn(Action::Wait) == Err(ActionError::Failed));
}

#[test]
fn corpses_are_taken_and_dropped() {
    let mut g = game();
    floor(&mut g, 0, 0);
    g.put_entity(EntityType::Player, pos(0, 0));
    g.put_entity(EntityType::Corpse, pos(0, 0));
    assert!(g.take_turn(Action::GetCorpse) == Ok(()));
    assert_eq!(g.inventory_count(EntityType::Corpse), 1);
    assert_eq!(g.find_corpse(), Err(()));
    assert!(g.take_turn(Action::DropCorpse) == Ok(()));
    assert_eq!(g.inventory_count(EntityType::Corpse), 0);
    assert_eq!(g.find_corpse(), Ok(Entity(2)));
}

#[test]
fn a_rock_hits_what_is_in_view() {
    let mut g = game();
    floor(&mut g, -6, 6);
    g.put_entity(EntityType::Player, pos(0, 0));
    let rock = carry(&mut g, EntityType::Rock);
    g.put_entity(EntityType::Deer, pos(3, 0));
    g.world.entity_mut(Entity(3)).remove::<AiState>();
    assert!(g.take_turn(Action::ThrowRock(pos(3, 0))) == Err(ActionError::Failed));
    assert_eq!(g.inventory_count(EntityType::Rock), 1);
    assert!(g.take_turn(Action::Wait) == Ok(()));
    assert!(g.take_turn(Action::ThrowRock(pos(2, 0))) == Err(ActionError::Failed));
    assert!(g.take_turn(Action::ThrowRock(pos(5, 0))) == Err(ActionError::Failed));
    assert!(g.take_turn(Action::ThrowRock(pos(3, 0))) == Ok(()));
    assert_eq!(damage_of(&g, Entity(3)), Some(1));
    assert_eq!(g.inventory_count(EntityType::Rock), 0);
    assert!(!g.world.entity(rock).has::<Location>());
}

#[test]
fn an_arrow_flies_until_it_hits() {
    let mut g = game();
    floor(&mut g, -9, 9);
    g.put_entity(EntityType::Player, pos(0, 0));
    carry(&mut g, EntityType::Bow);
    carry(&mut g, EntityType::Arrow);
    carry(&mut g, EntityType::Arrow);
    carry(&mut g, EntityType::Arrow);
    g.put_entity(EntityType::Wolf, pos(0, 4));
    g.put_entity(EntityType::Wolf, pos(0, 6));
    g.put_entity(EntityType::Wolf, pos(-9, 0));
    for id in [6, 7, 8] {
        g.world.entity_mut(Entity(id)).remove::<AiState>();
    }
    assert!(g.take_turn(Action::FireBow(Direction::South)) == Ok(()));
    assert_eq!(damage_of(&g, Entity(6)), Some(2));
    assert_eq!(damage_of(&g, Entity(7)), None);
    assert_eq!(g.inventory_count(EntityType::Arrow), 2);
    assert!(g.take_turn(Action::FireBow(Direction::West)) == Ok(()));
    assert_eq!(damage_of(&g, Entity(8)), None);
    g.world.entity_mut(pos(0, 2)).insert(Tile::Tree);
    assert!(g.take_turn(Action::FireBow(Direction::South)) == Ok(()));
    assert_eq!(damage_of(&g, Entity(6)), Some(2));
    assert_eq!(g.inventory_count(EntityType::Arrow), 0);
    assert!(g.take_turn(Action::FireBow(Direction::South)) == Err(ActionError::Failed));
}

#[test]
fn smells_spread_from_corpses() {
    let mut g = game();
    floor(&mut g, 0, 2);
    g.world.entity_mut(pos(1, 1)).insert(Tile::ShallowWater);
    g.world.entity_mut(pos(2, 2)).insert(Tile::Wall);
    g.world.entity_mut(pos(0, 2)).insert(Tile::Wall);
    g.put_entity(EntityType::Rat, pos(2, 2));
    g.put_entity(EntityType::Rock, pos(5, 5));
    g.world.set_location(Entity(2), Location::Entity(Entity(1)));
    g.world.entity_mut(Entity(1)).insert(Corpse { turn_created: 3, original_type: EntityType::Rat });
    g.world.entity_mut(Entity(2)).insert(Corpse { turn_created: 3, original_type: EntityType::Deer });
    g.world.entity_mut(Entity(9)).insert(Corpse { turn_created: 3, original_type: EntityType::Deer });
    g.current_turn = 3 + 47;
    g.update_smells();
    assert_eq!(g.smell_at(pos(2, 2)), Some(2));
    assert_eq!(g.smell_at(pos(0, 2)), None);
    assert_eq!(g.smell_at(pos(5, 5)), None);
    assert_eq!(g.smell_at(pos(0, 0)), Some(i32::MAX));
    assert_eq!(g.smell_strength.len(), 8);
    for _ in 0..40 {
        g.update_smells();
    }
    assert_eq!(g.smell_at(pos(2, 2)), Some(2));
    for p in [pos(0, 0), pos(1, 1), pos(1, 2), pos(2, 1)] {
        assert!(g.smell_at(p).unwrap() >= 3);
    }
    assert_eq!(g.smell_at(pos(0, 2)), None);
}

#[test]
fn actors_step_towards_their_target() {
    let mut g = game();
    floor(&mut g, 0, 9);
    g.put_entity(EntityType::Rat, pos(0, 0));
    for _ in 0..20 {
        let next = step_towards(&mut g, Entity(1), pos(5, 2));
        assert!(next == pos(1, 0) || next == pos(1, 1));
    }
    assert_eq!(step_towards(&mut g, Entity(1), pos(0, 0)), pos(0, 0));
    assert_eq!(step_towards(&mut g, Entity(7), pos(4, 4)), pos(4, 4));
    assert_eq!(g.entity_position(Entity(1)), Ok(pos(0, 0)));
    assert!(move_towards(&mut g, Entity(1), pos(0, 7)));
    assert_eq!(g.entity_position(Entity(1)), Ok(pos(0, 1)));
    assert!(!move_towards(&mut g, Entity(1), pos(0, 1)));
    assert!(!move_towards(&mut g, Entity(1), pos(-3, 1)));
    g.put_entity(EntityType::Deer, pos(0, 2));
    assert!(!move_towards(&mut g, Entity(1), pos(0, 5)));
    assert_eq!(g.entity_position(Entity(1)), Ok(pos(0, 1)));
    move_randomly(&mut g, Entity(1));
    let moved = g.entity_position(Entity(1)).unwrap();
    assert!(ALL_DIRECTIONS.iter().any(|d| pos(0, 1).step(*d) == moved) || moved == pos(0, 1));
    assert!(g.get_tile(moved).is_walkable());
}

#[test]
fn actors_notice_the_player() {
    let mut g = game();
    floor(&mut g, -6, 6);
    g.put_entity(EntityType::Player, pos(0, 0));
    g.put_entity(EntityType::Wolf, pos(3, 0));
    g.put_entity(EntityType::Deer, pos(0, 4));
    g.put_entity(EntityType::Rat, pos(0, -4));
    assert_eq!(sees_player(&g, pos(3, 0), 4), None);
    component_store::game::fov::update_fov(&mut g);
    assert_eq!(sees_player(&g, pos(3, 0), 4), Some((Entity(1), pos(0, 0))));
    assert_eq!(sees_player(&g, pos(3, 0), 2), None);
    assert_eq!(sees_player(&g, pos(6, 6), 4), None);
    assert_eq!(AiState::Waiting.take_turn(&mut g, Entity(2)), AiState::Hunting(Entity(1), pos(0, 0)));
    assert_eq!(AiState::Waiting.take_turn(&mut g, Entity(3)), AiState::Fleeing(Entity(1), pos(0, 0)));
    let rat = AiState::Waiting.take_turn(&mut g, Entity(4));
    assert!(matches!(rat, AiState::Wandering(_)));
    assert_eq!(g.entity_position(Entity(2)), Ok(pos(3, 0)));
    let next = AiState::Hunting(Entity(1), pos(0, 0)).take_turn(&mut g, Entity(2));
    assert_eq!(next, AiState::Hunting(Entity(1), pos(0, 0)));
    assert_eq!(g.entity_position(Entity(2)), Ok(pos(2, 0)));
    AiState::Hunting(Entity(1), pos(0, 0)).take_turn(&mut g, Entity(2));
    assert_eq!(g.entity_position(Entity(2)), Ok(pos(1, 0)));
    assert_eq!(damage_of(&g, Entity(1)), None);
    AiState::Hunting(Entity(1), pos(0, 0)).take_turn(&mut g, Entity(2));
    assert_eq!(g.entity_position(Entity(2)), Ok(pos(1, 0)));
    assert_eq!(damage_of(&g, Entity(1)), Some(2));
    let fled = AiState::Fleeing(Entity(1), pos(0, 0)).take_turn(&mut g, Entity(3));
    assert_eq!(fled, AiState::Fleeing(Entity(1), pos(0, 0)));
    assert_eq!(g.entity_position(Entity(3)), Ok(pos(0, 5)));
}

#[test]
fn what_cannot_act_keeps_its_state() {
    let mut g = game();
    floor(&mut g, 0, 3);
    g.put_entity(EntityType::Rock, pos(0, 0));
    g.put_entity(EntityType::Player, pos(1, 1));
    g.put_entity(EntityType::Rat, pos(2, 2));
    g.world.remove_location(Entity(3)).unwrap();
    let state = AiState::Wandering(pos(3, 3));
    assert_eq!(state.take_turn(&mut g, Entity(1)), state);
    assert_eq!(state.take_turn(&mut g, Entity(2)), state);
    assert_eq!(state.take_turn(&mut g, Entity(3)), state);
    assert_eq!(state.take_turn(&mut g, Entity(8)), state);
    assert_eq!(g.entity_position(Entity(1)), Ok(pos(0, 0)));
    assert_eq!(g.entity_position(Entity(2)), Ok(pos(1, 1)));
}

#[test]
fn the_queue_gives_the_highest_priority_first() {
    let mut q = vec![(0, pos(1, 1)), (-3, pos(0, 0)), (2, pos(-1, 4)), (2, pos(-1, 5)), (2, pos(-2, 9))];
    assert_eq!(pop_max(&mut q), Some((2, pos(-1, 5))));
    assert_eq!(pop_max(&mut q), Some((2, pos(-1, 4))));
    assert_eq!(pop_max(&mut q), Some((2, pos(-2, 9))));
    assert_eq!(pop_max(&mut q), Some((0, pos(1, 1))));
    assert_eq!(pop_max(&mut q), Some((-3, pos(0, 0))));
    assert_eq!(pop_max(&mut q), None);
}

#[test]
fn features_take_over_the_right_tiles() {
    let lake = TerrainFeature::Lake(8, 2);
    let meadow = TerrainFeature::Meadow(6, 3);
    let river = TerrainFeature::RiverSegment;
    assert_eq!(lake.size(), 8);
    assert_eq!(meadow.size(), 6);
    assert_eq!(TerrainFeature::Tree.size(), 2);
    assert_eq!(river.size(), 2);
    assert!(lake.can_overwrite(Tile::BoringGround));
    assert!(!lake.can_overwrite(Tile::Ground));
    assert!(meadow.can_overwrite(Tile::Ground));
    assert!(!meadow.can_overwrite(Tile::ShallowWater));
    assert!(river.can_overwrite(Tile::Wall));
    assert!(river.can_overwrite(Tile::ShallowWater));
    assert!(!river.can_overwrite(Tile::DeepWater));
    assert!(!TerrainFeature::Tree.can_overwrite(Tile::Tree));
    let mut rand = StdRng::from_seed(&[3usize]);
    for distance in 0..10 {
        let (tile, growth) = lake.pick_tile(distance, &mut rand);
        if distance < 4 {
            assert_eq!(tile, Tile::DeepWater);
            assert!(1 <= growth && growth < 3);
        } else {
            assert_eq!(tile, Tile::ShallowWater);
            assert!(1 <= growth && growth < 8);
        }
        let (tile, growth) = TerrainFeature::Tree.pick_tile(distance, &mut rand);
        assert_eq!(tile == Tile::Tree, distance == 0);
        assert!(1 <= growth && growth < 3);
        assert_eq!(river.pick_tile(distance, &mut rand), (Tile::ShallowWater, 2));
        let (tile, growth) = meadow.pick_tile(distance, &mut rand);
        assert!(tile == Tile::Ground || tile == Tile::ShortGrass || tile == Tile::LongGrass);
        assert!(1 <= growth && growth < 5);
    }
}

#[test]
fn the_ground_is_laid_and_features_grow_on_it() {
    let mut g = game();
    create_ground(&mut g);
    assert!(g.world.tiles.count() >= 4000);
    assert_eq!(g.get_tile(pos(0, 0)), Tile::BoringGround);
    let ground = g.world.tiles.count();
    for _ in 0..20 {
        let p = rand_position(&mut g);
        assert!(g.world.entity(p).has::<Tile>());
        if let Some(p) = select_position(&mut g) {
            assert!(is_land(g.get_tile(p)));
        }
    }
    let edge = find_map_edge(&mut g).unwrap();
    assert!(g.world.entity(edge).has::<Tile>());
    assert!(component_store::engine::ORTHOGONAL_DIRECTIONS
        .iter()
        .any(|d| g.get_tile(edge.step(*d)) == Tile::Wall));
    add_feature_at(&mut g, Feature::Terrain(TerrainFeature::Lake(6, 2)), Some(pos(0, 0)));
    assert_eq!(g.get_tile(pos(0, 0)), Tile::DeepWater);
    assert_eq!(g.world.tiles.count(), ground);
    add_feature_at(&mut g, Feature::Terrain(TerrainFeature::Tree), Some(pos(0, 0)));
    assert_eq!(g.get_tile(pos(0, 0)), Tile::DeepWater);
    place_player(&mut g);
    let player = g.player_position().unwrap();
    assert!(is_land(g.get_tile(player)));
    assert!(ALL_DIRECTIONS.iter().all(|d| g.get_tile(player.step(*d)) != Tile::Wall));
    assert_eq!(g.next_id, 2);
}

#[test]
fn a_new_game_is_made_from_its_seed() {
    let a = Game::new(7);
    let b = Game::new(7);
    let c = Game::new(8);
    assert_eq!(a.current_turn, 0);
    assert_eq!(a.recall_turns, None);
    assert!(a.world.tiles.count() >= 4000);
    assert_eq!(a.player(), Ok(Entity(1)));
    assert_eq!(a.world.players.count(), 1);
    assert!(a.next_id > 100 && a.next_id <= 201);
    assert!(a.world.visible.count() >= 9);
    assert_eq!(a.next_id, b.next_id);
    assert_eq!(a.player_position(), b.player_position());
    assert_eq!(a.world.tiles.count(), b.world.tiles.count());
    let mut same = true;
    for x in -40..40 {
        for y in -40..40 {
            assert_eq!(a.get_tile(pos(x, y)), b.get_tile(pos(x, y)));
            assert_eq!(a.render(pos(x, y)), b.render(pos(x, y)));
            same = same && a.get_tile(pos(x, y)) == c.get_tile(pos(x, y));
        }
    }
    assert!(!same);
    let status = a.player_status().unwrap();
    assert_eq!(status.health, 10);
    assert_eq!(status.diamonds, 0);
    let mut diamonds = 0;
    let mut ids = a.world.entity_types.ids();
    while let Some(id) = ids.next() {
        if a.world.entity(id).get::<EntityType>() == Some(&EntityType::Diamond) {
            diamonds += 1;
        }
    }
    assert!(30 <= diamonds && diamonds <= 36);
}

#[test]
fn a_game_can_be_played() {
    let mut g = Game::new(1);
    let mut taken = 0;
    for i in 0..40 {
        let action = match i % 5 {
            0 => Action::Wait,
            1 => Action::Move(Direction::East),
            2 => Action::Move(Direction::South),
            3 => Action::Move(Direction::NorthWest),
            _ => Action::GetCorpse,
        };
        if g.take_turn(action) == Ok(()) {
            taken += 1;
        }
        assert_eq!(g.current_turn, taken);
        assert_eq!(g.player(), Ok(Entity(1)));
    }
    assert!(taken >= 8);
    let mut init = game();
    init.next_id = 50;
    init_game(&mut init);
    assert!(init.next_id > 50 && init.next_id <= 250);
    assert_eq!(init.world.visible.count(), 0);
}

fn count_of(g: &Game, t: EntityType) -> usize {
    let mut n = 0;
    let mut ids = g.world.entity_types.ids();
    while let Some(id) = ids.next() {
        if g.world.entity(id).get::<EntityType>() == Some(&t) {
            n += 1;
        }
    }
    n
}

fn tiles_of(g: &Game) -> Vec<(Position, Tile)> {
    let mut out = vec![];
    let mut it = g.world.tiles.iter();
    while let Some((p, t)) = it.next() {
        out.push((p, *t));
    }
    out
}

#[test]
fn entities_are_put_where_they_are_told() {
    let mut g = game();
    floor(&mut g, 0, 1);
    g.next_id = 5;
    put_entities(&mut g, EntityType::Rock, pos(1, 1), 3);
    assert_eq!(g.next_id, 8);
    for id in 5..8 {
        assert_eq!(g.entity_position(Entity(id)), Ok(pos(1, 1)));
        assert_eq!(g.world.entity(Entity(id)).get::<EntityType>(), Some(&EntityType::Rock));
    }
    put_entities(&mut g, EntityType::Rock, pos(1, 1), 0);
    put_entities(&mut g, EntityType::Rock, pos(1, 1), -2);
    assert_eq!(g.next_id, 8);
    assert_eq!(count_of(&g, EntityType::Rock), 3);
}

#[test]
fn land_is_found_where_there_is_nothing_else() {
    let mut g = game();
    floor(&mut g, 0, 3);
    for _ in 0..20 {
        let p = select_position(&mut g).unwrap();
        assert!(g.world.entity(p).has::<Tile>());
    }
    randomly_place(&mut g, EntityType::Herb, 7);
    assert_eq!(g.next_id, 8);
    assert_eq!(count_of(&g, EntityType::Herb), 7);
    for id in 1..8 {
        assert!(is_land(g.get_tile(g.entity_position(Entity(id)).unwrap())));
    }
    let mut sea = game();
    sea.world.entity_mut(pos(0, 0)).insert(Tile::DeepWater);
    sea.world.entity_mut(pos(0, 1)).insert(Tile::Tree);
    assert_eq!(select_position(&mut sea), None);
    randomly_place(&mut sea, EntityType::Herb, 7);
    assert_eq!(sea.next_id, 1);
    assert_eq!(place_hoard(&mut sea, Hoard::Lair), 0);
    assert_eq!(sea.next_id, 1);
    assert_eq!(sea.world.entity_types.count(), 0);
}

#[test]
fn hoards_hold_what_belongs_to_them() {
    for (hoard, extra) in [(Hoard::Archer, 1), (Hoard::Knight, 1), (Hoard::Lair, 1), (Hoard::Bones, 0)] {
        for seed in 0..6 {
            let mut g = game();
            g.rand = StdRng::from_seed(&[seed as usize]);
            floor(&mut g, 0, 2);
            let diamonds = place_hoard(&mut g, hoard) as usize;
            assert_eq!(g.world.entity(Entity(1)).get::<EntityType>(), Some(&EntityType::Skeleton));
            let at = g.entity_position(Entity(1)).unwrap();
            assert_eq!(count_of(&g, EntityType::Skeleton), 1);
            assert_eq!(count_of(&g, EntityType::Diamond), diamonds);
            let herbs = count_of(&g, EntityType::Herb);
            let arrows = count_of(&g, EntityType::Arrow);
            let swords = count_of(&g, EntityType::Sword);
            let bows = count_of(&g, EntityType::Bow);
            let dragons = count_of(&g, EntityType::Dragon);
            match hoard {
                Hoard::Archer => {
                    assert!(herbs == 0 && (1..3).contains(&diamonds) && (3..5).contains(&arrows));
                    assert!(swords == 0 && bows == 1 && dragons == 0);
                    assert_eq!(g.world.entity(Entity(g.next_id - 1)).get::<EntityType>(), Some(&EntityType::Bow));
                }
                Hoard::Knight => {
                    assert!(herbs < 2 && (1..3).contains(&diamonds) && arrows == 0);
                    assert!(swords == 1 && bows == 0 && dragons == 0);
                }
                Hoard::Lair => {
                    assert!(herbs == 0 && (2..5).contains(&diamonds) && arrows < 3);
                    assert!(swords == 0 && bows == 0 && dragons == 1);
                    assert_eq!(g.world.entity(Entity(g.next_id - 1)).get::<EntityType>(), Some(&EntityType::Dragon));
                }
                Hoard::Bones => {
                    assert!(herbs == 0 && diamonds < 2 && arrows == 0 && swords == 0 && bows == 0);
                }
            }
            assert_eq!(g.next_id as usize, 2 + herbs + diamonds + arrows + swords + bows + dragons);
            assert!(extra <= swords + bows + dragons);
            for id in 1..g.next_id {
                assert_eq!(g.entity_position(Entity(id)), Ok(at));
            }
        }
    }
}

#[test]
fn a_free_actor_always_finds_a_step() {
    for seed in 0..10 {
        let mut g = game();
        g.rand = StdRng::from_seed(&[seed as usize]);
        floor(&mut g, -1, 1);
        g.put_entity(EntityType::Rat, pos(0, 0));
        move_randomly(&mut g, Entity(1));
        let at = g.entity_position(Entity(1)).unwrap();
        assert!(at != pos(0, 0));
        assert!(ALL_DIRECTIONS.iter().any(|d| pos(0, 0).step(*d) == at));
    }
    let mut g = game();
    g.world.entity_mut(pos(0, 0)).insert(Tile::Ground);
    g.put_entity(EntityType::Rat, pos(0, 0));
    move_randomly(&mut g, Entity(1));
    assert_eq!(g.entity_position(Entity(1)), Ok(pos(0, 0)));
    move_randomly(&mut g, Entity(5));
    assert_eq!(g.world.locations.count(), 1);
}

#[test]
fn a_waiting_actor_wanders_off() {
    for seed in 0..10 {
        let mut g = game();
        g.rand = StdRng::from_seed(&[seed as usize]);
        floor(&mut g, -1, 1);
        g.put_entity(EntityType::Wolf, pos(0, 0));
        match AiState::Waiting.take_turn(&mut g, Entity(1)) {
            AiState::Wandering(to) => {
                assert!(-8 < to.x && to.x < 8 && -8 < to.y && to.y < 8);
            }
            _ => panic!("a wolf that waits wanders off"),
        }
        assert_eq!(g.entity_position(Entity(1)), Ok(pos(0, 0)));
        g.smell_strength.insert(pos(0, 0).to_key(), 9);
        for d in ALL_DIRECTIONS {
            g.smell_strength.insert(pos(0, 0).step(d).to_key(), 8);
        }
        match AiState::Wandering(pos(0, 0)).take_turn(&mut g, Entity(1)) {
            AiState::Wandering(to) => {
                assert!(ALL_DIRECTIONS.iter().any(|d| pos(0, 0).step(*d).step(*d).step(*d) == to));
            }
            _ => panic!("a wolf follows its nose"),
        }
    }
}

#[test]
fn features_start_where_they_can() {
    let mut g = game();
    for x in 0..6 {
        for y in 0..6 {
            g.world.entity_mut(pos(x, y)).insert(Tile::BoringGround);
        }
    }
    g.world.entity_mut(pos(5, 5)).insert(Tile::Ground);
    let before = tiles_of(&g);
    add_feature_at(&mut g, Feature::Terrain(TerrainFeature::Lake(3, 1)), Some(pos(5, 5)));
    add_feature_at(&mut g, Feature::Trees(-1, 3, 2), Some(pos(0, 0)));
    add_feature_at(&mut g, Feature::Terrain(TerrainFeature::Tree), Some(pos(9, 9)));
    add_river(&mut g, pos(9, 9), pos(0, 0));
    add_river(&mut g, pos(2, 2), pos(2, 2));
    assert_eq!(tiles_of(&g), before);
    add_feature_at(&mut g, Feature::Trees(4, 3, 2), Some(pos(0, 0)));
    assert_eq!(g.get_tile(pos(0, 0)), Tile::Ground);
    add_feature_at(&mut g, Feature::Terrain(TerrainFeature::Tree), Some(pos(5, 0)));
    let tree = g.get_tile(pos(5, 0));
    assert!(tree == Tile::Tree || tree == Tile::Ground);
    let mut wild = game();
    for x in 0..4 {
        wild.world.entity_mut(pos(x, 0)).insert(Tile::BoringGround);
    }
    add_feature(&mut wild, Feature::Terrain(TerrainFeature::Meadow(2, 1)));
    assert!(tiles_of(&wild).iter().any(|(_, t)| *t != Tile::BoringGround));
    assert!(tiles_of(&wild).iter().all(|(_, t)| {
        [Tile::BoringGround, Tile::Ground, Tile::ShortGrass, Tile::LongGrass].contains(t)
    }));
    add_river(&mut wild, pos(0, 0), pos(3, 0));
    assert!(tiles_of(&wild).iter().all(|(_, t)| {
        [Tile::BoringGround, Tile::Ground, Tile::ShortGrass, Tile::LongGrass, Tile::ShallowWater]
            .contains(t)
    }));
}
