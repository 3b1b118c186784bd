use component_store::engine::{
    Direction, Id, Position, ALL_DIRECTIONS, DIAGONAL_DIRECTIONS, ORTHOGONAL_DIRECTIONS,
};

#[test]
fn step_north_then_east() {
    let p = Position { x: 0, y: 0 };
    assert_eq!(p.step(Direction::North).step(Direction::East), Position { x: 1, y: -1 });
}

#[test]
fn each_direction_steps_by_one() {
    let p = Position { x: 10, y: -4 };
    assert_eq!(p.step(Direction::North), Position { x: 10, y: -5 });
    assert_eq!(p.step(Direction::NorthEast), Position { x: 11, y: -5 });
    assert_eq!(p.step(Direction::East), Position { x: 11, y: -4 });
    assert_eq!(p.step(Direction::SouthEast), Position { x: 11, y: -3 });
    assert_eq!(p.step(Direction::South), Position { x: 10, y: -3 });
    assert_eq!(p.step(Direction::SouthWest), Position { x: 9, y: -3 });
    assert_eq!(p.step(Direction::West), Position { x: 9, y: -4 });
    assert_eq!(p.step(Direction::NorthWest), Position { x: 9, y: -5 });
}

#[test]
fn step_and_reverse_lead_back() {
    let corners = [
        Position { x: 0, y: 0 },
        Position { x: -7, y: 12 },
        Position { x: i32::MAX, y: i32::MAX },
        Position { x: i32::MIN, y: i32::MIN },
        Position { x: i32::MAX, y: i32::MIN },
    ];
    for p in corners {
        for d in ALL_DIRECTIONS {
            assert_eq!(p.step(d).step(d.reverse()), p);
            assert_ne!(p.step(d), p);
        }
    }
}

#[test]
fn step_wraps_at_the_limits() {
    let p = Position { x: i32::MAX, y: i32::MIN };
    assert_eq!(p.step(Direction::East), Position { x: i32::MIN, y: i32::MIN });
    assert_eq!(p.step(Direction::North), Position { x: i32::MAX, y: i32::MAX });
}

#[test]
fn reverse_is_an_involution() {
    assert_eq!(Direction::North.reverse(), Direction::South);
    assert_eq!(Direction::NorthEast.reverse(), Direction::SouthWest);
    assert_eq!(Direction::East.reverse(), Direction::West);
    assert_eq!(Direction::SouthEast.reverse(), Direction::NorthWest);
    for d in ALL_DIRECTIONS {
        assert_eq!(d.reverse().reverse(), d);
        assert_ne!(d.reverse(), d);
    }
}

#[test]
fn orthogonal_and_diagonal_directions() {
    for d in ORTHOGONAL_DIRECTIONS {
        assert!(d.is_orthogonal());
    }
    for d in DIAGONAL_DIRECTIONS {
        assert!(!d.is_orthogonal());
    }
    assert_eq!(ALL_DIRECTIONS.len(), 8);
    assert_eq!(ALL_DIRECTIONS.iter().filter(|d| d.is_orthogonal()).count(), 4);
}

#[test]
fn position_keys_follow_the_order_of_positions() {
    let ps = [
        Position { x: i32::MIN, y: i32::MIN },
        Position { x: -1, y: i32::MAX },
        Position { x: 0, y: -1 },
        Position { x: 0, y: 0 },
        Position { x: 0, y: 1 },
        Position { x: 1, y: i32::MIN },
        Position { x: i32::MAX, y: i32::MAX },
    ];
    for i in 0..ps.len() {
        assert_eq!(Position::from_key(ps[i].to_key()), ps[i]);
        for j in 0..ps.len() {
            assert_eq!(ps[i].to_key() < ps[j].to_key(), ps[i] < ps[j]);
        }
    }
    assert_eq!(Position { x: i32::MIN, y: i32::MIN }.to_key(), 0);
    assert_eq!(Position { x: 0, y: 0 }.to_key(), 0x8000_0000_8000_0000);
    assert_eq!(Position { x: i32::MAX, y: i32::MAX }.to_key(), u64::MAX);
}
