//! What the player sees and remembers.
use super::position::Tile;
use super::session::Game;
use super::WorldView;
use crate::engine::geometry::wrap_coordinate;
use crate::engine::{Component, ComponentStorage, EntityStorage, Position};
use vstd::prelude::*;

verus! {

/// Marks a position that lies in a line of sight of the player, with its
/// distance from the player.
#[derive(Debug, Copy, Clone, PartialEq, Eq, Structural)]
pub struct IsVisible(pub i8);

impl Component for IsVisible {
}

/// The tile that the player remembers at a position.
#[derive(Debug, Copy, Clone, PartialEq, Eq, Structural)]
pub struct WasVisible(pub Tile);

impl Component for WasVisible {
}

/// The position that lies `x` to the east and `y` to the south of `pos`. The
/// grid wraps around at the limits of `i32`.
pub open spec fn spec_add_offset(pos: Position, x: i32, y: i32) -> Position {
    Position { x: wrap_coordinate(pos.x + x), y: wrap_coordinate(pos.y + y) }
}

#[verifier::when_used_as_spec(spec_add_offset)]
pub fn add_offset(pos: Position, x: i32, y: i32) -> (r: Position)
    ensures
        r == spec_add_offset(pos, x, y),
        i32::MIN <= pos.x + x <= i32::MAX ==> r.x == pos.x + x,
        i32::MIN <= pos.y + y <= i32::MAX ==> r.y == pos.y + y,
{
    Position { x: pos.x.wrapping_add(x), y: pos.y.wrapping_add(y) }
}

/// The tile at `pos` in `tiles`: wall where the position has none.
pub open spec fn tile_at(tiles: Map<Position, Tile>, pos: Position) -> Tile {
    match tiles.get(pos) {
        Some(tile) => tile,
        None => Tile::Wall,
    }
}

/// Whether the tile at `pos` blocks the view.
pub open spec fn blocked(tiles: Map<Position, Tile>, pos: Position) -> bool {
    tile_at(tiles, pos).is_obstructed()
}

pub fn is_obstructed(game: &Game, pos: Position) -> (b: bool)
    ensures
        b == blocked(game.world@.tiles, pos),
{
    game.get_tile(pos).is_obstructed()
}

pub fn not_obstructed(game: &Game, pos: Position) -> (b: bool)
    ensures
        b == !blocked(game.world@.tiles, pos),
{
    !is_obstructed(game, pos)
}

/// Whether none of `positions` blocks the view.
pub fn none_obstructed(game: &Game, positions: &[Position]) -> (b: bool)
    ensures
        b == forall|i: int| 0 <= i < positions@.len() ==> !blocked(game.world@.tiles, positions@[i]),
{
    let mut i: usize = 0;
    while i < positions.len()
        invariant
            i <= positions@.len(),
            forall|j: int| 0 <= j < i ==> !blocked(game.world@.tiles, positions@[j]),
        decreases positions@.len() - i,
    {
        if is_obstructed(game, positions[i]) {
            return false;
        }
        i = i + 1;
    }
    true
}

/// The world after `pos` has been marked as in a line of sight at
/// `distance`: its tile is remembered as well where the player sees as far
/// as that.
pub open spec fn marked(w: WorldView, pos: Position, distance: i8, view_distance: i8) -> WorldView {
    WorldView {
        visible: w.visible.insert(pos, IsVisible(distance)),
        remembered: if view_distance >= distance {
            w.remembered.insert(pos, WasVisible(tile_at(w.tiles, pos)))
        } else {
            w.remembered
        },
        ..w
    }
}

pub fn insert(game: &mut Game, pos: Position, distance: i8, view_distance: i8)
    ensures
        final(game).world@ == marked(old(game).world@, pos, distance, view_distance),
        old(game).same_but_world(*final(game)),
{
    if view_distance >= distance {
        let tile = game.get_tile(pos);
        game.world.entity_mut(pos).insert(WasVisible(tile));
    }
    game.world.entity_mut(pos).insert(IsVisible(distance));
    assert(game.world@ =~= marked(old(game).world@, pos, distance, view_distance));
}

/// The position that lies `x` ahead and `y` to the side of `origin` as seen
/// in `quadrant`: each quadrant is a quarter turn on from the one before.
pub open spec fn turned(origin: Position, quadrant: int, x: int, y: int) -> Position {
    if quadrant == 0 {
        spec_add_offset(origin, x as i32, y as i32)
    } else if quadrant == 1 {
        spec_add_offset(origin, (-y) as i32, x as i32)
    } else if quadrant == 2 {
        spec_add_offset(origin, (-x) as i32, (-y) as i32)
    } else {
        spec_add_offset(origin, y as i32, (-x) as i32)
    }
}

/// As `turned`, with ahead and to the side changing places unless
/// `reflected`.
pub open spec fn flipped(
    origin: Position,
    quadrant: int,
    reflected: bool,
    x: int,
    y: int,
) -> Position {
    if reflected {
        turned(origin, quadrant, x, y)
    } else {
        turned(origin, quadrant, y, x)
    }
}

pub fn turn(origin: Position, quadrant: u8, x: i32, y: i32) -> (r: Position)
    requires
        quadrant < 4,
        -8 <= x <= 8,
        -8 <= y <= 8,
    ensures
        r == turned(origin, quadrant as int, x as int, y as int),
{
    if quadrant == 0 {
        add_offset(origin, x, y)
    } else if quadrant == 1 {
        add_offset(origin, -y, x)
    } else if quadrant == 2 {
        add_offset(origin, -x, -y)
    } else {
        add_offset(origin, y, -x)
    }
}

pub fn flip(origin: Position, quadrant: u8, reflected: bool, x: i32, y: i32) -> (r: Position)
    requires
        quadrant < 4,
        -8 <= x <= 8,
        -8 <= y <= 8,
    ensures
        r == flipped(origin, quadrant as int, reflected, x as int, y as int),
{
    if reflected {
        turn(origin, quadrant, x, y)
    } else {
        turn(origin, quadrant, y, x)
    }
}

/// `marks` with those of the straight line of sight of a quadrant added,
/// from distance `dist` on: the line reaches 5 positions far and ends at the
/// first position that blocks the view, which is still marked.
pub open spec fn ray_marks(
    marks: Seq<(Position, i8)>,
    tiles: Map<Position, Tile>,
    origin: Position,
    quadrant: int,
    dist: int,
) -> Seq<(Position, i8)>
    decreases 6 - dist,
{
    if dist < 1 || dist >= 6 {
        marks
    } else {
        let pos = turned(origin, quadrant, dist, 0);
        let more = marks.push((pos, dist as i8));
        if blocked(tiles, pos) {
            more
        } else {
            ray_marks(more, tiles, origin, quadrant, dist + 1)
        }
    }
}

/// `marks` with those of the diagonal line of sight of a quadrant added: it
/// reaches 3 positions far, at distances 1, 3 and 4, and ends at the first
/// position that blocks the view, which is still marked.
pub open spec fn diagonal_marks(
    marks: Seq<(Position, i8)>,
    tiles: Map<Position, Tile>,
    origin: Position,
    quadrant: int,
) -> Seq<(Position, i8)> {
    let first = turned(origin, quadrant, 1, 1);
    let second = turned(origin, quadrant, 2, 2);
    let third = turned(origin, quadrant, 3, 3);
    let one = marks.push((first, 1i8));
    if blocked(tiles, first) {
        one
    } else {
        let two = one.push((second, 3i8));
        if blocked(tiles, second) {
            two
        } else {
            two.push((third, 4i8))
        }
    }
}

/// `marks` with those added that lie between the straight and the diagonal
/// line of sight on one side of a quadrant. A position is marked where the
/// positions that the view has to pass on its way are free.
pub open spec fn side_marks(
    marks: Seq<(Position, i8)>,
    tiles: Map<Position, Tile>,
    origin: Position,
    quadrant: int,
    reflected: bool,
) -> Seq<(Position, i8)> {
    let at = |x: int, y: int| flipped(origin, quadrant, reflected, x, y);
    let free = |x: int, y: int| !blocked(tiles, flipped(origin, quadrant, reflected, x, y));
    let m1 = if free(1, 0) || free(1, 1) {
        marks.push((at(2, 1), 2i8))
    } else {
        marks
    };
    let m2 = if free(1, 0) && free(2, 1) {
        let near = m1.push((at(3, 1), 3i8));
        if free(3, 1) && (free(1, 1) || free(2, 0)) {
            near.push((at(4, 1), 4i8))
        } else {
            near
        }
    } else if free(1, 0) && free(2, 0) && free(3, 0) && free(3, 1) {
        m1.push((at(4, 1), 4i8))
    } else {
        m1
    };
    let m3 = if free(1, 0) && free(2, 0) && free(3, 1) && free(4, 1) && (free(2, 1) || free(
        3,
        0,
    )) {
        m2.push((at(5, 1), 5i8))
    } else {
        m2
    };
    let m4 = if free(1, 1) && free(2, 1) {
        let near = m3.push((at(3, 2), 4i8));
        if free(2, 2) && free(3, 2) {
            near.push((at(4, 3), 5i8))
        } else {
            near
        }
    } else {
        m3
    };
    if free(2, 1) && ((free(1, 0) && free(3, 1)) || (free(1, 1) && free(3, 2))) {
        m4.push((at(4, 2), 5i8))
    } else {
        m4
    }
}

/// `marks` with those of one quadrant added: the straight line, the
/// diagonal, and the two sides between them.
pub open spec fn quadrant_marks(
    marks: Seq<(Position, i8)>,
    tiles: Map<Position, Tile>,
    origin: Position,
    quadrant: int,
) -> Seq<(Position, i8)> {
    side_marks(
        side_marks(
            diagonal_marks(ray_marks(marks, tiles, origin, quadrant, 1), tiles, origin, quadrant),
            tiles,
            origin,
            quadrant,
            true,
        ),
        tiles,
        origin,
        quadrant,
        false,
    )
}

/// The positions in a line of sight from `origin`, each with its distance,
/// in the order in which they are marked: `origin` itself, then the four
/// quadrants.
pub open spec fn fov_marks(tiles: Map<Position, Tile>, origin: Position) -> Seq<(Position, i8)> {
    quadrant_marks(
        quadrant_marks(
            quadrant_marks(quadrant_marks(seq![(origin, 0i8)], tiles, origin, 0), tiles, origin, 1),
            tiles,
            origin,
            2,
        ),
        tiles,
        origin,
        3,
    )
}

/// Adds the marks of one quadrant to `marks`.
pub fn add_quadrant_marks(
    game: &Game,
    origin: Position,
    quadrant: u8,
    marks: &mut Vec<(Position, i8)>,
)
    requires
        quadrant < 4,
    ensures
        final(marks)@ == quadrant_marks(old(marks)@, game.world@.tiles, origin, quadrant as int),
{
    let ghost tiles = game.world@.tiles;
    let mut dist: i8 = 1;
    while dist < 6
        invariant_except_break
            ray_marks(old(marks)@, tiles, origin, quadrant as int, 1) == ray_marks(
                marks@,
                tiles,
                origin,
                quadrant as int,
                dist as int,
            ),
        invariant
            1 <= dist <= 6,
            quadrant < 4,
            tiles == game.world@.tiles,
        ensures
            marks@ == ray_marks(old(marks)@, tiles, origin, quadrant as int, 1),
        decreases 6 - dist,
    {
        let pos = turn(origin, quadrant, dist as i32, 0);
        marks.push((pos, dist));
        if is_obstructed(game, pos) {
            break ;
        }
        dist = dist + 1;
    }
    let first = turn(origin, quadrant, 1, 1);
    marks.push((first, 1));
    if !is_obstructed(game, first) {
        let second = turn(origin, quadrant, 2, 2);
        marks.push((second, 3));
        if !is_obstructed(game, second) {
            marks.push((turn(origin, quadrant, 3, 3), 4));
        }
    }
    add_side_marks(game, origin, quadrant, true, marks);
    add_side_marks(game, origin, quadrant, false, marks);
}

/// Adds the marks of one side of a quadrant to `marks`.
pub fn add_side_marks(
    game: &Game,
    origin: Position,
    quadrant: u8,
    reflected: bool,
    marks: &mut Vec<(Position, i8)>,
)
    requires
        quadrant < 4,
    ensures
        final(marks)@ == side_marks(
            old(marks)@,
            game.world@.tiles,
            origin,
            quadrant as int,
            reflected,
        ),
{
    let free10 = not_obstructed(game, flip(origin, quadrant, reflected, 1, 0));
    let free11 = not_obstructed(game, flip(origin, quadrant, reflected, 1, 1));
    let free20 = not_obstructed(game, flip(origin, quadrant, reflected, 2, 0));
    let free21 = not_obstructed(game, flip(origin, quadrant, reflected, 2, 1));
    let free22 = not_obstructed(game, flip(origin, quadrant, reflected, 2, 2));
    let free30 = not_obstructed(game, flip(origin, quadrant, reflected, 3, 0));
    let free31 = not_obstructed(game, flip(origin, quadrant, reflected, 3, 1));
    let free32 = not_obstructed(game, flip(origin, quadrant, reflected, 3, 2));
    let free41 = not_obstructed(game, flip(origin, quadrant, reflected, 4, 1));
    if free10 || free11 {
        marks.push((flip(origin, quadrant, reflected, 2, 1), 2));
    }
    if free10 && free21 {
        marks.push((flip(origin, quadrant, reflected, 3, 1), 3));
        if free31 && (free11 || free20) {
            marks.push((flip(origin, quadrant, reflected, 4, 1), 4));
        }
    } else if free10 && free20 && free30 && free31 {
        marks.push((flip(origin, quadrant, reflected, 4, 1), 4));
    }
    if free10 && free20 && free31 && free41 && (free21 || free30) {
        marks.push((flip(origin, quadrant, reflected, 5, 1), 5));
    }
    if free11 && free21 {
        marks.push((flip(origin, quadrant, reflected, 3, 2), 4));
        if free22 && free32 {
            marks.push((flip(origin, quadrant, reflected, 4, 3), 5));
        }
    }
    if free21 && ((free10 && free31) || (free11 && free32)) {
        marks.push((flip(origin, quadrant, reflected, 4, 2), 5));
    }
}

/// The world after `marks` have been made, first to last.
pub open spec fn all_marked(
    w: WorldView,
    marks: Seq<(Position, i8)>,
    view_distance: i8,
) -> WorldView
    decreases marks.len(),
{
    if marks.len() == 0 {
        w
    } else {
        marked(
            all_marked(w, marks.drop_last(), view_distance),
            marks.last().0,
            marks.last().1,
            view_distance,
        )
    }
}

/// The world of `game` with the lines of sight of the player worked out
/// anew: what was in a line of sight is so no more, and where the player
/// lies at a position, the positions in a line of sight from there are
/// marked.
pub open spec fn fov_updated(game: Game) -> WorldView {
    let cleared = WorldView { visible: Map::<Position, IsVisible>::empty(), ..game.world@ };
    match game.spec_player_position() {
        Ok(origin) => all_marked(
            cleared,
            fov_marks(cleared.tiles, origin),
            game.spec_player_fov_range(),
        ),
        Err(_) => cleared,
    }
}

/// Marking changes nothing but what is in a line of sight and what is
/// remembered.
pub proof fn lemma_all_marked_frame(w: WorldView, marks: Seq<(Position, i8)>, view_distance: i8)
    ensures
        all_marked(w, marks, view_distance) == (WorldView {
            visible: all_marked(w, marks, view_distance).visible,
            remembered: all_marked(w, marks, view_distance).remembered,
            ..w
        }),
    decreases marks.len(),
{
    if marks.len() > 0 {
        lemma_all_marked_frame(w, marks.drop_last(), view_distance);
    }
}

/// Working out the lines of sight changes nothing but what is in a line of
/// sight and what is remembered.
pub proof fn lemma_fov_updated_frame(game: Game)
    ensures
        fov_updated(game) == (WorldView {
            visible: fov_updated(game).visible,
            remembered: fov_updated(game).remembered,
            ..game.world@
        }),
{
    let cleared = WorldView { visible: Map::<Position, IsVisible>::empty(), ..game.world@ };
    match game.spec_player_position() {
        Ok(origin) => {
            lemma_all_marked_frame(
                cleared,
                fov_marks(cleared.tiles, origin),
                game.spec_player_fov_range(),
            );
        },
        Err(_) => {},
    }
}

pub fn update_fov(game: &mut Game)
    ensures
        final(game).world@ == fov_updated(*old(game)),
        old(game).same_but_world(*final(game)),
{
    game.world.visible.clear();
    let ghost cleared = game.world@;
    assert(cleared =~= WorldView {
        visible: Map::<Position, IsVisible>::empty(),
        ..old(game).world@
    });
    let origin = match game.player_position() {
        Ok(origin) => origin,
        Err(_) => {
            return ;
        },
    };
    let view_distance = game.player_fov_range();
    let mut marks: Vec<(Position, i8)> = Vec::new();
    marks.push((origin, 0));
    assert(marks@ =~= seq![(origin, 0i8)]);
    add_quadrant_marks(game, origin, 0, &mut marks);
    add_quadrant_marks(game, origin, 1, &mut marks);
    add_quadrant_marks(game, origin, 2, &mut marks);
    add_quadrant_marks(game, origin, 3, &mut marks);
    let mut i: usize = 0;
    while i < marks.len()
        invariant
            i <= marks.len(),
            game.world@ == all_marked(cleared, marks@.take(i as int), view_distance),
            old(game).same_but_world(*game),
        decreases marks.len() - i,
    {
        proof {
            assert(marks@.take(i + 1).drop_last() =~= marks@.take(i as int));
        }
        let (pos, distance) = marks[i];
        insert(game, pos, distance, view_distance);
        i = i + 1;
    }
    proof {
        assert(marks@.take(marks@.len() as int) =~= marks@);
    }
}

} // verus!
