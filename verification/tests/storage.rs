use component_store::engine::btree_storage::{IdsMap, IterMap, IterMutMap};
use component_store::engine::world::Iterate;
use component_store::engine::{BTreeStorage, ComponentStorage, Position};
use component_store::game::{Damage, Entity, Tile};

fn pos(x: i32, y: i32) -> Position {
    Position { x, y }
}

fn keys(s: &BTreeStorage<Position, Tile>) -> Vec<Position> {
    let mut ids: IdsMap<Position, Tile> = s.ids();
    let mut out = vec![];
    while let Some(id) = ids.next() {
        out.push(id);
    }
    out
}

#[test]
fn replace_and_restore() {
    let mut s: BTreeStorage<Position, Tile> = BTreeStorage::new();
    assert_eq!(s.count(), 0);
    assert_eq!(s.insert(pos(1, 1), Tile::Wall), None);
    assert_eq!(s.insert(pos(1, 1), Tile::Ground), Some(Tile::Wall));
    assert_eq!(s.get(pos(1, 1)), Some(&Tile::Ground));
    assert_eq!(s.remove(pos(1, 1)), Some(Tile::Ground));
    assert_eq!(s.get(pos(1, 1)), None);
    assert_eq!(s.count(), 0);
}

#[test]
fn second_insert_hands_back_the_first_value() {
    for (a, b) in [(Tile::Tree, Tile::Wall), (Tile::Wall, Tile::Wall), (Tile::DeepWater, Tile::Ground)] {
        let mut s: BTreeStorage<Entity, Tile> = BTreeStorage::new();
        s.insert(Entity(9), a);
        assert_eq!(s.insert(Entity(9), b), Some(a));
        assert_eq!(s.get(Entity(9)), Some(&b));
        assert_eq!(s.count(), 1);
    }
}

#[test]
fn removing_what_is_absent_changes_nothing() {
    let mut s: BTreeStorage<Position, Tile> = BTreeStorage::new();
    s.insert(pos(0, 0), Tile::Ground);
    s.insert(pos(5, 5), Tile::Tree);
    assert_eq!(s.remove(pos(7, 7)), None);
    assert_eq!(s.count(), 2);
    assert_eq!(s.get(pos(0, 0)), Some(&Tile::Ground));
    assert_eq!(s.get(pos(5, 5)), Some(&Tile::Tree));
}

#[test]
fn has_tells_what_is_stored() {
    let mut s: BTreeStorage<Entity, Tile> = BTreeStorage::default();
    assert!(!s.has(Entity(1)));
    s.insert(Entity(1), Tile::Wall);
    assert!(s.has(Entity(1)));
    assert!(!s.has(Entity(2)));
    s.remove(Entity(1));
    assert!(!s.has(Entity(1)));
}

#[test]
fn count_matches_the_traversal_and_keys_increase() {
    let mut s: BTreeStorage<Position, Tile> = BTreeStorage::new();
    let ops = [
        (3, -2, true),
        (-5, 9, true),
        (3, -2, true),
        (0, 0, true),
        (-5, 9, false),
        (i32::MIN, 4, true),
        (i32::MAX, -4, true),
        (8, 8, false),
        (0, -1, true),
    ];
    for (x, y, insert) in ops {
        if insert {
            s.insert(pos(x, y), Tile::Ground);
        } else {
            s.remove(pos(x, y));
        }
        let ids = keys(&s);
        assert_eq!(ids.len(), s.count());
        for w in ids.windows(2) {
            assert!(w[0] < w[1]);
        }
    }
    assert_eq!(
        keys(&s),
        vec![pos(i32::MIN, 4), pos(0, -1), pos(0, 0), pos(3, -2), pos(i32::MAX, -4)]
    );
}

#[test]
fn get_or_else_leaves_what_is_there() {
    let mut s: BTreeStorage<Position, Tile> = BTreeStorage::new();
    s.insert(pos(2, 2), Tile::Tree);
    let mut calls = 0;
    {
        let t = s.get_or_else(pos(2, 2), || {
            calls += 1;
            Tile::Wall
        });
        assert_eq!(*t, Tile::Tree);
    }
    assert_eq!(calls, 0);
    assert_eq!(s.get(pos(2, 2)), Some(&Tile::Tree));
    assert_eq!(s.count(), 1);
}

#[test]
fn get_or_else_makes_what_is_missing_once() {
    let mut s: BTreeStorage<Position, Tile> = BTreeStorage::new();
    let mut calls = 0;
    {
        let t = s.get_or_else(pos(2, 2), || {
            calls += 1;
            Tile::ShortGrass
        });
        assert_eq!(*t, Tile::ShortGrass);
        *t = Tile::LongGrass;
    }
    assert_eq!(calls, 1);
    assert_eq!(s.get(pos(2, 2)), Some(&Tile::LongGrass));
    assert_eq!(s.count(), 1);
}

#[test]
fn get_or_default_uses_the_default() {
    let mut s: BTreeStorage<Entity, Damage> = BTreeStorage::new();
    assert_eq!(*s.get_or_default(Entity(4)), Damage(0));
    s.get_or_default(Entity(4)).0 = 7;
    assert_eq!(*s.get_or_default(Entity(4)), Damage(7));
}

#[test]
fn get_mut_changes_the_stored_value() {
    let mut s: BTreeStorage<Entity, Tile> = BTreeStorage::new();
    assert!(s.get_mut(Entity(3)).is_none());
    s.insert(Entity(3), Tile::Wall);
    s.insert(Entity(4), Tile::Tree);
    match s.get_mut(Entity(3)) {
        Some(t) => {
            assert_eq!(*t, Tile::Wall);
            *t = Tile::DeepWater;
        }
        None => panic!("the component is there"),
    }
    assert_eq!(s.get(Entity(3)), Some(&Tile::DeepWater));
    assert_eq!(s.get(Entity(4)), Some(&Tile::Tree));
    assert_eq!(s.count(), 2);
}

#[test]
fn clear_removes_everything() {
    let mut s: BTreeStorage<Entity, Tile> = BTreeStorage::new();
    for i in 0..10 {
        s.insert(Entity(i), Tile::Ground);
    }
    assert_eq!(s.count(), 10);
    s.clear();
    assert_eq!(s.count(), 0);
    assert!(!s.has(Entity(3)));
    assert!(s.ids().next().is_none());
}

#[test]
fn iter_yields_pairs_in_key_order() {
    let mut s: BTreeStorage<Entity, Tile> = BTreeStorage::new();
    s.insert(Entity(30), Tile::Tree);
    s.insert(Entity(10), Tile::Wall);
    s.insert(Entity(20), Tile::Ground);
    let mut it: IterMap<Entity, Tile> = s.iter();
    assert_eq!(it.size_hint(), (3, Some(3)));
    assert_eq!(it.next(), Some((Entity(10), &Tile::Wall)));
    assert_eq!(it.next(), Some((Entity(20), &Tile::Ground)));
    assert_eq!(it.size_hint(), (1, Some(1)));
    assert_eq!(it.next(), Some((Entity(30), &Tile::Tree)));
    assert_eq!(it.next(), None);
    assert_eq!(it.next(), None);
}

#[test]
fn ids_can_be_collected() {
    let mut s: BTreeStorage<Entity, Tile> = BTreeStorage::new();
    s.insert(Entity(u64::MAX), Tile::Tree);
    s.insert(Entity(0), Tile::Wall);
    s.insert(Entity(77), Tile::Ground);
    let mut ids = s.ids();
    assert_eq!(ids.size_hint(), (3, Some(3)));
    assert_eq!(ids.next(), Some(Entity(0)));
    assert_eq!(ids.collect(), vec![Entity(77), Entity(u64::MAX)]);
}

#[test]
fn iter_mut_lends_each_value_in_key_order() {
    let mut s: BTreeStorage<Entity, Tile> = BTreeStorage::new();
    s.insert(Entity(2), Tile::Wall);
    s.insert(Entity(1), Tile::Wall);
    s.insert(Entity(3), Tile::Tree);
    let mut seen = vec![];
    {
        let mut it: IterMutMap<Entity, Tile> = s.iter_mut();
        assert_eq!(it.size_hint(), (3, Some(3)));
        while let Some((id, tile)) = it.next() {
            seen.push(id);
            if *tile == Tile::Wall {
                *tile = Tile::Ground;
            }
        }
    }
    assert_eq!(seen, vec![Entity(1), Entity(2), Entity(3)]);
    assert_eq!(s.get(Entity(1)), Some(&Tile::Ground));
    assert_eq!(s.get(Entity(2)), Some(&Tile::Ground));
    assert_eq!(s.get(Entity(3)), Some(&Tile::Tree));
    assert_eq!(s.count(), 3);
}
