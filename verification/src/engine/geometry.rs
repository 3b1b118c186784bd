//! Grid positions and the eight compass directions.
use super::world::Id;
use vstd::prelude::*;

verus! {

/// One of the eight compass directions. North is towards smaller `y`, east
/// towards larger `x`.
#[derive(Debug, Copy, Clone, Hash, PartialEq, Eq, Structural)]
pub enum Direction {
    North,
    NorthEast,
    East,
    SouthEast,
    South,
    SouthWest,
    West,
    NorthWest,
}

/// Every direction, clockwise from north.
pub const ALL_DIRECTIONS: [Direction; 8] = [
    Direction::North,
    Direction::NorthEast,
    Direction::East,
    Direction::SouthEast,
    Direction::South,
    Direction::SouthWest,
    Direction::West,
    Direction::NorthWest,
];

/// The directions along one axis, clockwise from north.
pub const ORTHOGONAL_DIRECTIONS: [Direction; 4] = [
    Direction::North,
    Direction::East,
    Direction::South,
    Direction::West,
];

/// The directions along both axes, clockwise from north-east.
pub const DIAGONAL_DIRECTIONS: [Direction; 4] = [
    Direction::NorthEast,
    Direction::SouthEast,
    Direction::SouthWest,
    Direction::NorthWest,
];

impl Direction {
    /// How far one step in this direction moves along `x`.
    pub open spec fn dx(self) -> int {
        match self {
            Direction::North | Direction::South => 0,
            Direction::NorthEast | Direction::East | Direction::SouthEast => 1,
            Direction::SouthWest | Direction::West | Direction::NorthWest => -1,
        }
    }

    /// How far one step in this direction moves along `y`.
    pub open spec fn dy(self) -> int {
        match self {
            Direction::East | Direction::West => 0,
            Direction::SouthEast | Direction::South | Direction::SouthWest => 1,
            Direction::NorthWest | Direction::North | Direction::NorthEast => -1,
        }
    }

    /// The direction that undoes a step in this one.
    pub open spec fn spec_reverse(self) -> Direction {
        match self {
            Direction::North => Direction::South,
            Direction::NorthEast => Direction::SouthWest,
            Direction::East => Direction::West,
            Direction::SouthEast => Direction::NorthWest,
            Direction::South => Direction::North,
            Direction::SouthWest => Direction::NorthEast,
            Direction::West => Direction::East,
            Direction::NorthWest => Direction::SouthEast,
        }
    }

    /// Whether a step in this direction moves along one axis only.
    pub open spec fn spec_is_orthogonal(&self) -> bool {
        self.dx() == 0 || self.dy() == 0
    }

    /// The opposite direction: it moves as far along each axis, the other way.
    #[verifier::when_used_as_spec(spec_reverse)]
    pub fn reverse(self) -> (r: Direction)
        ensures
            r == self.spec_reverse(),
            r.dx() == -self.dx(),
            r.dy() == -self.dy(),
    {
        match self {
            Direction::North => Direction::South,
            Direction::NorthEast => Direction::SouthWest,
            Direction::East => Direction::West,
            Direction::SouthEast => Direction::NorthWest,
            Direction::South => Direction::North,
            Direction::SouthWest => Direction::NorthEast,
            Direction::West => Direction::East,
            Direction::NorthWest => Direction::SouthEast,
        }
    }

    #[verifier::when_used_as_spec(spec_is_orthogonal)]
    pub fn is_orthogonal(&self) -> (b: bool)
        ensures
            b == self.spec_is_orthogonal(),
    {
        *self == Direction::North || *self == Direction::East || *self == Direction::South
            || *self == Direction::West
    }
}

/// Reversing a direction twice gives the direction back, and a direction is
/// never its own reverse.
pub proof fn lemma_reverse_involution(d: Direction)
    ensures
        d.reverse().reverse() == d,
        d.reverse() != d,
        d.reverse().is_orthogonal() == d.is_orthogonal(),
{
}

/// The three lists of directions hold what their names say: every direction,
/// the orthogonal ones, and the others.
pub proof fn lemma_direction_lists(d: Direction)
    ensures
        ALL_DIRECTIONS@.contains(d),
        ORTHOGONAL_DIRECTIONS@.contains(d) <==> d.is_orthogonal(),
        DIAGONAL_DIRECTIONS@.contains(d) <==> !d.is_orthogonal(),
{
    assert(ALL_DIRECTIONS@[0] == Direction::North);
    assert(ALL_DIRECTIONS@[1] == Direction::NorthEast);
    assert(ALL_DIRECTIONS@[2] == Direction::East);
    assert(ALL_DIRECTIONS@[3] == Direction::SouthEast);
    assert(ALL_DIRECTIONS@[4] == Direction::South);
    assert(ALL_DIRECTIONS@[5] == Direction::SouthWest);
    assert(ALL_DIRECTIONS@[6] == Direction::West);
    assert(ALL_DIRECTIONS@[7] == Direction::NorthWest);
    assert(ORTHOGONAL_DIRECTIONS@[0] == Direction::North);
    assert(ORTHOGONAL_DIRECTIONS@[1] == Direction::East);
    assert(ORTHOGONAL_DIRECTIONS@[2] == Direction::South);
    assert(ORTHOGONAL_DIRECTIONS@[3] == Direction::West);
    assert(DIAGONAL_DIRECTIONS@[0] == Direction::NorthEast);
    assert(DIAGONAL_DIRECTIONS@[1] == Direction::SouthEast);
    assert(DIAGONAL_DIRECTIONS@[2] == Direction::SouthWest);
    assert(DIAGONAL_DIRECTIONS@[3] == Direction::NorthWest);
}

/// A cell of the grid. Positions are ordered by `x`, then by `y`.
#[derive(Debug, Copy, Clone, Hash, PartialEq, Eq, PartialOrd, Ord, Structural)]
pub struct Position {
    pub x: i32,
    pub y: i32,
}

/// `v` brought into the range of `i32` by adding or taking away 2^32 once.
pub open spec fn wrap_coordinate(v: int) -> i32 {
    if v > i32::MAX {
        (v - 0x1_0000_0000) as i32
    } else if v < i32::MIN {
        (v + 0x1_0000_0000) as i32
    } else {
        v as i32
    }
}

impl Position {
    /// The neighbouring position in direction `d`. The grid wraps around at
    /// the limits of `i32`.
    pub open spec fn spec_step(self, d: Direction) -> Position {
        Position { x: wrap_coordinate(self.x + d.dx()), y: wrap_coordinate(self.y + d.dy()) }
    }

    /// Positions in the order in which storages traverse them.
    pub open spec fn precedes(self, other: Position) -> bool {
        self.x < other.x || (self.x == other.x && self.y < other.y)
    }

    #[verifier::when_used_as_spec(spec_step)]
    pub fn step(self, d: Direction) -> (r: Position)
        ensures
            r == self.spec_step(d),
            i32::MIN <= self.x + d.dx() <= i32::MAX ==> r.x == self.x + d.dx(),
            i32::MIN <= self.y + d.dy() <= i32::MAX ==> r.y == self.y + d.dy(),
    {
        match d {
            Direction::North => Position { x: self.x, y: self.y.wrapping_sub(1) },
            Direction::NorthEast => Position {
                x: self.x.wrapping_add(1),
                y: self.y.wrapping_sub(1),
            },
            Direction::East => Position { x: self.x.wrapping_add(1), y: self.y },
            Direction::SouthEast => Position {
                x: self.x.wrapping_add(1),
                y: self.y.wrapping_add(1),
            },
            Direction::South => Position { x: self.x, y: self.y.wrapping_add(1) },
            Direction::SouthWest => Position {
                x: self.x.wrapping_sub(1),
                y: self.y.wrapping_add(1),
            },
            Direction::West => Position { x: self.x.wrapping_sub(1), y: self.y },
            Direction::NorthWest => Position {
                x: self.x.wrapping_sub(1),
                y: self.y.wrapping_sub(1),
            },
        }
    }
}

/// A step in a direction followed by a step in its reverse leads back to
/// where it started, from every position.
pub proof fn lemma_step_reverse(p: Position, d: Direction)
    ensures
        p.step(d).step(d.reverse()) == p,
{
}

impl Id for Position {
    open spec fn key(self) -> u64 {
        ((self.x + 0x8000_0000) * 0x1_0000_0000 + (self.y + 0x8000_0000)) as u64
    }

    open spec fn with_key(k: u64) -> Position {
        Position {
            x: (k / 0x1_0000_0000 - 0x8000_0000) as i32,
            y: (k % 0x1_0000_0000 - 0x8000_0000) as i32,
        }
    }

    proof fn lemma_key_of_with_key(k: u64) {
    }

    proof fn lemma_with_key_of_key(id: Position) {
    }

    fn to_key(self) -> (k: u64) {
        let column: u64 = (self.x as i64 + 0x8000_0000) as u64;
        let row: u64 = (self.y as i64 + 0x8000_0000) as u64;
        column * 0x1_0000_0000 + row
    }

    fn from_key(k: u64) -> (id: Position) {
        let column: u64 = k / 0x1_0000_0000;
        let row: u64 = k % 0x1_0000_0000;
        Position { x: (column as i64 - 0x8000_0000) as i32, y: (row as i64 - 0x8000_0000) as i32 }
    }
}

/// The keys of positions are ordered as the positions are: by `x`, then by
/// `y`.
pub proof fn lemma_position_key_order(a: Position, b: Position)
    ensures
        a.key() < b.key() <==> a.precedes(b),
{
}

} // verus!
