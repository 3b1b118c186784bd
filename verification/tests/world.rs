use component_store::engine::macros::hlist::{Cons, Get, Nil};
use component_store::engine::{
    ActionError, ActionResult, ComponentStorage, EntityComponent, EntityStorage, Position, World,
};
use component_store::game::{Contents, Damage, Entity, GameWorld, IsVisible, Tile};

fn pos(x: i32, y: i32) -> Position {
    Position { x, y }
}

#[test]
fn world_replace_and_restore() {
    let mut w = GameWorld::new();
    assert_eq!(w.entity_mut(pos(1, 1)).insert(Tile::Wall), None);
    assert_eq!(w.entity_mut(pos(1, 1)).insert(Tile::Ground), Some(Tile::Wall));
    assert_eq!(w.entity(pos(1, 1)).get::<Tile>(), Some(&Tile::Ground));
    assert_eq!(w.entity_mut(pos(1, 1)).remove::<Tile>(), Some(Tile::Ground));
    assert_eq!(w.entity(pos(1, 1)).get::<Tile>(), None);
    assert_eq!(w.entity_mut(pos(1, 1)).remove::<Tile>(), None);
}

#[test]
fn a_new_world_is_empty() {
    let w = GameWorld::new();
    assert_eq!(w.tiles.count(), 0);
    assert_eq!(w.locations.count(), 0);
    assert_eq!(w.entity_types.count(), 0);
    assert_eq!(w.carried.count(), 0);
    assert_eq!(w.lying.count(), 0);
    assert!(!w.entity(Entity(1)).has::<Damage>());
    assert!(!w.entity(pos(0, 0)).has::<Tile>());
}

#[test]
fn entity_ref_reads_one_identifier() {
    let mut w = GameWorld::new();
    w.entity_mut(Entity(5)).insert(Damage(3));
    w.entity_mut(Entity(6)).insert(Damage(4));
    let e = w.entity(Entity(5));
    assert_eq!(e.id(), Entity(5));
    assert!(e.has::<Damage>());
    assert!(!e.has::<Contents>());
    assert_eq!(e.get::<Damage>(), Some(&Damage(3)));
    assert_eq!(e.world().damages.count(), 2);
    let copy = e;
    assert_eq!(copy.get::<Damage>(), e.get::<Damage>());
}

#[test]
fn component_ref_leads_back_to_its_entity() {
    let mut w = GameWorld::new();
    w.entity_mut(pos(2, 3)).insert(Tile::Tree);
    w.entity_mut(pos(2, 3)).insert(IsVisible(2));
    let c = w.entity(pos(2, 3)).get_ref::<Tile>().unwrap();
    assert_eq!(*c.get(), Tile::Tree);
    assert_eq!(c.id(), pos(2, 3));
    assert_eq!(c.entity().get::<IsVisible>(), Some(&IsVisible(2)));
    assert_eq!(c.world().tiles.count(), 1);
    assert!(w.entity(pos(9, 9)).get_ref::<Tile>().is_none());
}

#[test]
fn entity_mut_changes_and_commits() {
    let mut w = GameWorld::new();
    {
        let mut e = w.entity_mut(Entity(1));
        assert!(!e.committed);
        assert_eq!(e.id(), Entity(1));
        assert!(!e.has::<Damage>());
        assert!(e.get::<Damage>().is_none());
        assert!(e.get_mut::<Damage>().is_none());
        assert!(!e.committed);
        assert_eq!(e.remove::<Damage>(), None);
        assert!(!e.committed);
        assert_eq!(e.insert(Damage(2)), None);
        assert!(e.committed);
        assert_eq!(e.as_ref().get::<Damage>(), Some(&Damage(2)));
        assert_eq!(e.world().damages.count(), 1);
    }
    {
        let mut e = w.entity_mut(Entity(1));
        e.get_mut::<Damage>().unwrap().0 = 9;
        assert!(e.committed);
    }
    {
        let mut e = w.entity_mut(Entity(1));
        assert_eq!(e.remove::<Damage>(), Some(Damage(9)));
        assert!(e.committed);
    }
    {
        let mut e = w.entity_mut(Entity(2));
        e.commit();
        assert!(e.committed);
        e.get_or_default::<Damage>().0 += 1;
        e.get_or_default::<Damage>().0 += 1;
        assert_eq!(*e.get_or_else(|| Damage(50)), Damage(2));
    }
    assert_eq!(w.entity(Entity(2)).get::<Damage>(), Some(&Damage(2)));
    assert_eq!(*w.entity_mut(Entity(3)).get_or_else(|| Damage(50)), Damage(50));
    assert_eq!(w.damages.count(), 2);
}

#[test]
fn storages_are_reached_by_type() {
    let mut w = GameWorld::new();
    EntityStorage::<Position>::component_mut::<Tile>(&mut w).insert(pos(0, 0), Tile::Wall);
    assert_eq!(EntityStorage::<Position>::component::<Tile>(&w).count(), 1);
    assert_eq!(EntityComponent::<Position, Tile>::borrow(&w).get(pos(0, 0)), Some(&Tile::Wall));
    EntityComponent::<Position, Tile>::borrow_mut(&mut w).clear();
    assert_eq!(w.tiles.count(), 0);
}

#[test]
fn the_same_component_type_for_two_kinds_is_kept_apart() {
    let mut w = GameWorld::new();
    w.entity_mut(Entity(1)).get_or_else::<Contents, _>(Contents::new).insert(Entity(7));
    assert!(w.entity(Entity(1)).has::<Contents>());
    assert_eq!(w.carried.count(), 1);
    assert_eq!(w.lying.count(), 0);
    w.entity_mut(pos(1, 0)).get_or_else::<Contents, _>(Contents::new).insert(Entity(8));
    assert_eq!(w.lying.count(), 1);
    assert!(w.entity(pos(1, 0)).get::<Contents>().unwrap().contains(Entity(8)));
    assert!(!w.entity(pos(1, 0)).get::<Contents>().unwrap().contains(Entity(7)));
}

#[test]
fn the_world_reports_failure() {
    let w = GameWorld::new();
    let r: ActionResult<u8> = w.err();
    assert!(r == Err(ActionError::Failed));
    assert!(ActionError::from(()) == ActionError::Failed);
    assert!(ActionError::Failed != ActionError::InCheckOnlyMode);
}

#[test]
fn list_elements_are_found_by_type() {
    let mut list = Cons(1u8, Cons("two", Cons(3.5f64, Nil)));
    let first: &u8 = list.get();
    assert_eq!(*first, 1);
    let second: &&str = list.get();
    assert_eq!(*second, "two");
    let third: &f64 = list.get();
    assert_eq!(*third, 3.5);
    {
        let second: &mut &str = list.get_mut();
        *second = "deux";
    }
    {
        let first: &mut u8 = list.get_mut();
        *first += 1;
    }
    assert_eq!(list.0, 2);
    assert_eq!((list.1).0, "deux");
}
