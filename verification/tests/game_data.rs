use component_store::engine::{ActionError, ComponentStorage, EntityStorage, Position, World};
use component_store::game::{
    Ai, Cell, Color, Contents, Entity, EntityClass, EntityType, GameWorld, Location, Rect, Tile,
};

fn pos(x: i32, y: i32) -> Position {
    Position { x, y }
}

fn held(w: &GameWorld, e: Entity) -> Vec<Entity> {
    match w.entity(e).get::<Contents>() {
        Some(c) => c.entities(),
        None => vec![],
    }
}

fn lying(w: &GameWorld, p: Position) -> Vec<Entity> {
    match w.entity(p).get::<Contents>() {
        Some(c) => c.entities(),
        None => vec![],
    }
}

#[test]
fn tiles_render_as_they_should() {
    let cell = |ch, fg, bg| Cell { ch, fg, bg, bold: false };
    assert_eq!(Tile::Wall.render(), cell('#', Color::Black, Color::Yellow));
    assert_eq!(Tile::Ground.render(), cell('.', Color::Yellow, Color::Black));
    assert_eq!(Tile::BoringGround.render(), cell('.', Color::Yellow, Color::Black));
    assert_eq!(Tile::ShallowWater.render(), cell('=', Color::Cyan, Color::Black));
    assert_eq!(Tile::DeepWater.render(), cell('=', Color::Cyan, Color::Blue));
    assert_eq!(Tile::ShortGrass.render(), cell('.', Color::Green, Color::Black));
    assert_eq!(Tile::LongGrass.render(), cell('"', Color::Green, Color::Black));
    assert_eq!(Tile::Tree.render(), cell('#', Color::Green, Color::Black));
}

#[test]
fn remembered_tiles_lose_their_colour() {
    let cell = |ch, fg, bg| Cell { ch, fg, bg, bold: false };
    assert_eq!(Tile::Wall.render_memory(), cell('#', Color::Black, Color::White));
    assert_eq!(Tile::DeepWater.render_memory(), cell('=', Color::Black, Color::White));
    assert_eq!(Tile::Ground.render_memory(), cell('.', Color::White, Color::Black));
    assert_eq!(Tile::Tree.render_memory(), cell('#', Color::White, Color::Black));
    assert_eq!(Tile::LongGrass.render_memory(), cell('"', Color::White, Color::Black));
}

#[test]
fn walls_water_and_trees_are_in_the_way() {
    let all = [
        Tile::Wall,
        Tile::BoringGround,
        Tile::Ground,
        Tile::ShallowWater,
        Tile::DeepWater,
        Tile::ShortGrass,
        Tile::LongGrass,
        Tile::Tree,
    ];
    let walkable: Vec<bool> = all.iter().map(|t| t.is_walkable()).collect();
    assert_eq!(walkable, vec![false, true, true, true, false, true, true, false]);
    let obstructed: Vec<bool> = all.iter().map(|t| t.is_obstructed()).collect();
    assert_eq!(obstructed, vec![true, false, false, false, false, false, false, true]);
}

#[test]
fn entity_types_have_their_data() {
    let rock = EntityType::Rock.data();
    assert_eq!(rock.name, "rock");
    assert_eq!(rock.ch, '*');
    assert_eq!(rock.color, Some(Color::White));
    assert_eq!(rock.class, EntityClass::Item { display_priority: 9 });
    assert!(rock.is_item());
    assert!(!rock.is_actor());
    let wolf = EntityType::Wolf.data();
    assert_eq!(wolf.name, "wolf");
    assert!(wolf.is_actor());
    assert!(!wolf.is_item());
    assert_eq!(
        wolf.class,
        EntityClass::Actor {
            max_health: 5,
            max_stamina: 5,
            max_satiation: 40,
            fov_range: 4,
            damage: 2,
            smelling: 24,
            ai: Some(Ai { attack: true, flee: false, wanders: true }),
        }
    );
    let player = EntityType::Player.data();
    assert_eq!(player.ch, '@');
    assert_eq!(player.color, None);
    assert_eq!(EntityType::Herb.data().name, "healing herbs");
    assert_eq!(EntityType::Dragon.data().ch, 'D');
    assert_eq!(EntityType::Scroll.data().class, EntityClass::Item { display_priority: 0 });
}

#[test]
fn contents_are_a_set_in_order() {
    let mut c = Contents::new();
    assert!(c.is_empty());
    assert!(c.insert(Entity(5)));
    assert!(c.insert(Entity(2)));
    assert!(!c.insert(Entity(5)));
    assert!(c.insert(Entity(9)));
    assert!(c.contains(Entity(2)));
    assert!(!c.contains(Entity(3)));
    assert_eq!(c.entities(), vec![Entity(2), Entity(5), Entity(9)]);
    assert!(c.remove(Entity(5)));
    assert!(!c.remove(Entity(5)));
    assert!(!c.is_empty());
    assert_eq!(c.entities(), vec![Entity(2), Entity(9)]);
    assert!(Contents::default().is_empty());
}

#[test]
fn set_location_keeps_both_directions_in_step() {
    let mut w = GameWorld::new();
    assert_eq!(w.set_location(Entity(1), Location::Position(pos(3, 4))), None);
    assert_eq!(w.set_location(Entity(2), Location::Position(pos(3, 4))), None);
    assert_eq!(lying(&w, pos(3, 4)), vec![Entity(1), Entity(2)]);
    assert_eq!(w.entity(Entity(1)).get::<Location>(), Some(&Location::Position(pos(3, 4))));
    assert_eq!(
        w.set_location(Entity(1), Location::Entity(Entity(2))),
        Some(Location::Position(pos(3, 4)))
    );
    assert_eq!(lying(&w, pos(3, 4)), vec![Entity(2)]);
    assert_eq!(held(&w, Entity(2)), vec![Entity(1)]);
    assert_eq!(
        w.set_location(Entity(2), Location::Position(pos(0, 0))),
        Some(Location::Position(pos(3, 4)))
    );
    assert!(!w.entity(pos(3, 4)).has::<Contents>());
    assert_eq!(lying(&w, pos(0, 0)), vec![Entity(2)]);
    assert_eq!(w.lying.count(), 1);
    assert_eq!(w.carried.count(), 1);
    assert_eq!(
        w.set_location(Entity(2), Location::Position(pos(0, 0))),
        Some(Location::Position(pos(0, 0)))
    );
    assert_eq!(lying(&w, pos(0, 0)), vec![Entity(2)]);
}

#[test]
fn remove_location_takes_an_entity_out() {
    let mut w = GameWorld::new();
    assert!(w.remove_location(Entity(1)) == Err(ActionError::Failed));
    w.set_location(Entity(1), Location::Position(pos(1, 1)));
    w.set_location(Entity(2), Location::Entity(Entity(1)));
    assert!(w.remove_location(Entity(2)) == Ok(Location::Entity(Entity(1))));
    assert!(!w.entity(Entity(1)).has::<Contents>());
    assert!(!w.entity(Entity(2)).has::<Location>());
    assert!(w.remove_location(Entity(1)) == Ok(Location::Position(pos(1, 1))));
    assert_eq!(w.lying.count(), 0);
    assert_eq!(w.locations.count(), 0);
    assert!(w.remove_location(Entity(1)) == Err(ActionError::Failed));
}

#[test]
fn remove_from_contents_drops_empty_contents() {
    let mut w = GameWorld::new();
    w.set_location(Entity(1), Location::Position(pos(1, 1)));
    w.set_location(Entity(2), Location::Position(pos(1, 1)));
    w.remove_from_contents(Entity(7), pos(1, 1));
    assert_eq!(lying(&w, pos(1, 1)), vec![Entity(1), Entity(2)]);
    w.remove_from_contents(Entity(1), pos(1, 1));
    assert_eq!(lying(&w, pos(1, 1)), vec![Entity(2)]);
    w.remove_from_contents(Entity(2), pos(1, 1));
    assert!(!w.entity(pos(1, 1)).has::<Contents>());
    w.remove_from_contents(Entity(2), pos(5, 5));
    w.remove_from_contents(Entity(2), Entity(5));
    assert_eq!(w.lying.count(), 0);
    assert_eq!(w.carried.count(), 0);
}

#[test]
fn a_rectangle_grows_to_hold_a_position() {
    let mut r = Rect::from(pos(2, -3));
    assert_eq!(r, Rect { min_x: 2, max_x: 2, min_y: -3, max_y: -3 });
    r.extend(pos(5, -4));
    assert_eq!(r, Rect { min_x: 2, max_x: 5, min_y: -4, max_y: -3 });
    r.extend(pos(3, -3));
    assert_eq!(r, Rect { min_x: 2, max_x: 5, min_y: -4, max_y: -3 });
    r.extend(pos(-1, 9));
    assert_eq!(r, Rect { min_x: -1, max_x: 5, min_y: -4, max_y: 9 });
}
