//! The making of the map: ground, lakes, a river, trees and meadows, and
//! what populates them.
use super::entity::{distance_sq, EntityType};
use super::position::Tile;
use super::fov::{lemma_fov_updated_frame, update_fov};
use super::rng::{gen_index, gen_range, seeded};
use super::session::Game;
use super::{Entity, GameWorld, WorldView};
use crate::engine::world::Iterate;
use crate::engine::{
    ComponentStorage, Direction, EntityStorage, Id, Position, World, ALL_DIRECTIONS,
    ORTHOGONAL_DIRECTIONS,
};
use rand::StdRng;
use std::collections::{BTreeMap, HashMap, HashSet};
use vstd::prelude::*;

verus! {

/// A feature of the terrain that grows from one position outwards and turns
/// the ground that it reaches into tiles of its own.
#[derive(Debug, Copy, Clone, PartialEq, Eq, Structural)]
pub enum TerrainFeature {
    /// A meadow of a size; the second number says how rare long grass is.
    Meadow(i32, i32),
    /// A lake of a size; the second number says how small the deep part is.
    Lake(i32, i32),
    /// One tree on a patch of ground.
    Tree,
    /// A stretch of shallow water.
    RiverSegment,
}

impl TerrainFeature {
    /// Whether the numbers of the feature are such that it can be made: a
    /// size and a rarity are at least 1.
    pub open spec fn well_formed(&self) -> bool {
        match self {
            TerrainFeature::Meadow(size, rarity) => *size >= 1 && *rarity >= 1,
            TerrainFeature::Lake(size, shallows) => *size >= 1 && *shallows >= 1,
            _ => true,
        }
    }

    /// How far from its start the feature reaches.
    pub open spec fn spec_size(&self) -> i32 {
        match self {
            TerrainFeature::Meadow(size, _) => *size,
            TerrainFeature::Lake(size, _) => *size,
            TerrainFeature::Tree => 2i32,
            TerrainFeature::RiverSegment => 2i32,
        }
    }

    #[verifier::when_used_as_spec(spec_size)]
    pub fn size(&self) -> (s: i32)
        ensures
            s == self.spec_size(),
    {
        match self {
            TerrainFeature::Meadow(size, _) => *size,
            TerrainFeature::Lake(size, _) => *size,
            TerrainFeature::Tree => 2,
            TerrainFeature::RiverSegment => 2,
        }
    }

    /// Which tiles the feature takes over: ground that nothing has claimed,
    /// for all of them; a meadow any ground, and a river shallow water and
    /// walls as well.
    pub open spec fn spec_can_overwrite(&self, t: Tile) -> bool {
        match self {
            TerrainFeature::Meadow(_, _) => t == Tile::BoringGround || t == Tile::Ground,
            TerrainFeature::RiverSegment => t == Tile::BoringGround || t == Tile::ShallowWater || t
                == Tile::Wall,
            _ => t == Tile::BoringGround,
        }
    }

    #[verifier::when_used_as_spec(spec_can_overwrite)]
    pub fn can_overwrite(&self, t: Tile) -> (b: bool)
        ensures
            b == self.spec_can_overwrite(t),
    {
        match self {
            TerrainFeature::Meadow(_, _) => t == Tile::BoringGround || t == Tile::Ground,
            TerrainFeature::RiverSegment => t == Tile::BoringGround || t == Tile::ShallowWater || t
                == Tile::Wall,
            _ => t == Tile::BoringGround,
        }
    }

    /// Whether the feature may put `tile` at distance `distance` from its
    /// start, and grow on from there by `growth`.
    pub open spec fn may_pick(&self, distance: i32, tile: Tile, growth: i32) -> bool {
        match self {
            TerrainFeature::Meadow(_, _) => (tile == Tile::Ground && 3 <= growth < 5) || ((tile
                == Tile::ShortGrass || tile == Tile::LongGrass) && 1 <= growth < 3),
            TerrainFeature::Lake(size, shallows) => if *size / *shallows < *size - distance {
                tile == Tile::DeepWater && 1 <= growth < 3
            } else {
                tile == Tile::ShallowWater && 1 <= growth < 8
            },
            TerrainFeature::Tree => if distance == 0 {
                tile == Tile::Tree && growth == 1
            } else {
                tile == Tile::Ground && 1 <= growth < 3
            },
            TerrainFeature::RiverSegment => tile == Tile::ShallowWater && growth == 2,
        }
    }

    /// Draws the tile that the feature puts at distance `distance` from its
    /// start, and by how much it grows on from there.
    pub fn pick_tile(&self, distance: i32, rand: &mut StdRng) -> (r: (Tile, i32))
        requires
            self.well_formed(),
        ensures
            self.may_pick(distance, r.0, r.1),
    {
        match *self {
            TerrainFeature::Meadow(size, rarity) => {
                let near: i64 = gen_range(rand, 0, size) as i64 + (size / 2) as i64;
                let far: i64 = distance as i64;
                if near < far {
                    (Tile::Ground, gen_range(rand, 3, 5))
                } else if gen_range(rand, 0, rarity) != 0 || gen_range(rand, 0, size)
                    < distance {
                    (Tile::ShortGrass, gen_range(rand, 1, 3))
                } else {
                    (Tile::LongGrass, gen_range(rand, 1, 3))
                }
            },
            TerrainFeature::Lake(size, shallows) => {
                let deep: i64 = (size / shallows) as i64;
                let rim: i64 = size as i64 - distance as i64;
                if deep < rim {
                    (Tile::DeepWater, gen_range(rand, 1, 3))
                } else {
                    (Tile::ShallowWater, gen_range(rand, 1, 8))
                }
            },
            TerrainFeature::Tree => {
                if distance == 0 {
                    (Tile::Tree, 1)
                } else {
                    (Tile::Ground, gen_range(rand, 1, 3))
                }
            },
            TerrainFeature::RiverSegment => (Tile::ShallowWater, gen_range(rand, 2, 3)),
        }
    }
}

/// Whether `after` has a tile wherever `before` has one, and differs from
/// it in the terrain only.
pub open spec fn grown(before: WorldView, after: WorldView) -> bool {
    &&& after == WorldView { tiles: after.tiles, ..before }
    &&& forall|pos: Position| before.tiles.contains_key(pos) ==> after.tiles.contains_key(pos)
}

/// Whether `after` is `before` but for tiles that `f` has changed: each of
/// them was a tile that the feature changes and is one that it makes.
pub open spec fn changed_by(f: Feature, before: WorldView, after: WorldView) -> bool {
    &&& grown(before, after)
    &&& forall|pos: Position|
        #![trigger after.tile(pos)]
        #![trigger before.tile(pos)]
        after.tile(pos) == before.tile(pos) || (f.takes(before.tile(pos)) && f.makes(
            after.tile(pos),
        ))
}

/// What a feature has changed and then changed again, it has changed.
pub proof fn lemma_changed_again(f: Feature, first: WorldView, second: WorldView, third: WorldView)
    requires
        changed_by(f, first, second),
        changed_by(f, second, third),
    ensures
        changed_by(f, first, third),
{
    assert forall|pos: Position|
        #![trigger third.tile(pos)]
        #![trigger first.tile(pos)]
        third.tile(pos) == first.tile(pos) || (f.takes(first.tile(pos)) && f.makes(
            third.tile(pos),
        )) by {
        let between = second.tile(pos);
    }
}

/// What a feature has changed that grows within another, the other has
/// changed.
pub proof fn lemma_changed_within(inner: Feature, outer: Feature, before: WorldView, after: WorldView)
    requires
        changed_by(inner, before, after),
        forall|tile: Tile| inner.takes(tile) ==> outer.takes(tile),
        forall|tile: Tile| inner.makes(tile) ==> outer.makes(tile),
    ensures
        changed_by(outer, before, after),
{
    assert forall|pos: Position|
        #![trigger after.tile(pos)]
        #![trigger before.tile(pos)]
        after.tile(pos) == before.tile(pos) || (outer.takes(before.tile(pos)) && outer.makes(
            after.tile(pos),
        )) by {
        if after.tile(pos) != before.tile(pos) {
            assert(inner.takes(before.tile(pos)) && inner.makes(after.tile(pos)));
        }
    }
}

/// Whether `after` is `before` but for the terrain, which has grown, and the
/// random numbers.
pub open spec fn terrain_made(before: Game, after: Game) -> bool {
    &&& before.same_but_rand(after)
    &&& grown(before.world@, after.world@)
}

/// Draws a position that has a tile.
pub fn rand_position(g: &mut Game) -> (pos: Position)
    requires
        old(g).world@.tiles.dom().len() > 0,
    ensures
        final(g).world == old(g).world,
        old(g).same_but_rand(*final(g)),
        old(g).world@.tiles.contains_key(pos),
{
    let count = g.world.tiles.count();
    let index = gen_index(&mut g.rand, 0, count);
    let mut ids = g.world.tiles.ids();
    let ghost all = ids.remaining();
    proof {
        crate::engine::world::lemma_traversal_len(all, g.world@.tiles.dom());
    }
    let mut skipped: usize = 0;
    while skipped < index
        invariant
            skipped <= index < all.len(),
            ids.remaining() == all.skip(skipped as int),
        decreases index - skipped,
    {
        let _ = ids.next();
        proof {
            assert(all.skip(skipped as int).drop_first() =~= all.skip(skipped + 1));
        }
        skipped = skipped + 1;
    }
    match ids.next() {
        Some(pos) => {
            proof {
                assert(all.contains(all[index as int]));
            }
            pos
        },
        None => Position { x: 0, y: 0 },
    }
}

/// Whether `a` comes before `b` when the positions that a feature has
/// reached wait for their turn: by priority, then by position.
pub open spec fn waits_behind(a: (i32, Position), b: (i32, Position)) -> bool {
    a.0 < b.0 || (a.0 == b.0 && (a.1.precedes(b.1) || a.1 == b.1))
}

/// Takes the entry out of `queue` that is first in line: the one with the
/// highest priority, and of those the last position.
pub fn pop_max(queue: &mut Vec<(i32, Position)>) -> (r: Option<(i32, Position)>)
    ensures
        r is None <==> old(queue)@.len() == 0,
        r is None ==> final(queue)@ == old(queue)@,
        r matches Some(entry) ==> exists|i: int|
            0 <= i < old(queue)@.len() && old(queue)@[i] == entry && final(queue)@ == old(
                queue,
            )@.remove(i),
        r matches Some(entry) ==> forall|i: int|
            0 <= i < old(queue)@.len() ==> waits_behind(#[trigger] old(queue)@[i], entry),
{
    if queue.len() == 0 {
        return None;
    }
    let mut best: usize = 0;
    let mut i: usize = 1;
    while i < queue.len()
        invariant
            1 <= i <= queue@.len(),
            best < i,
            queue@ == old(queue)@,
            forall|j: int| 0 <= j < i ==> waits_behind(#[trigger] queue@[j], queue@[best as int]),
        decreases queue@.len() - i,
    {
        let (priority, pos) = queue[i];
        let (top_priority, top_pos) = queue[best];
        if priority > top_priority || (priority == top_priority && (pos.x > top_pos.x || (pos.x
            == top_pos.x && pos.y >= top_pos.y))) {
            best = i;
        }
        i = i + 1;
    }
    Some(queue.remove(best))
}

/// A river on its way from where it starts to `end`. It notes the order in
/// which it reaches the positions, and once it reaches `end` it digs its bed
/// back along that order.
pub struct River {
    pub end: Position,
    pub order: HashMap<u64, i32>,
    pub max_distance: i32,
    pub done: bool,
}

/// Something that grows over the map from one position outwards.
pub enum Feature {
    Terrain(TerrainFeature),
    /// A wood: its reach, how near to its start trees begin to stand, and
    /// how rare they are.
    Trees(i32, i32, i32),
    River(River),
}

impl Feature {
    /// Whether the numbers of the feature are such that it can be made.
    pub open spec fn well_formed(&self) -> bool {
        match self {
            Feature::Terrain(terrain) => terrain.well_formed(),
            Feature::Trees(_, clearing, rarity) => *clearing >= 1 && *rarity >= 1,
            Feature::River(_) => true,
        }
    }

    /// How many kinds of features may grow within this one.
    pub open spec fn rank(&self) -> nat {
        match self {
            Feature::Terrain(_) => 0,
            _ => 1,
        }
    }

    /// Whether `other` is the same feature as this one, further on its way
    /// or not.
    pub open spec fn same_feature(&self, other: Feature) -> bool {
        match (*self, other) {
            (Feature::Terrain(a), Feature::Terrain(b)) => a == b,
            (Feature::Trees(a, b, c), Feature::Trees(d, e, f)) => a == d && b == e && c == f,
            (Feature::River(a), Feature::River(b)) => a.end == b.end,
            _ => false,
        }
    }

    /// Whether the feature, or what grows within it, changes a tile like
    /// `tile`.
    pub open spec fn takes(&self, tile: Tile) -> bool {
        match self {
            Feature::Terrain(terrain) => terrain.can_overwrite(tile),
            Feature::Trees(_, _, _) => tile == Tile::BoringGround,
            Feature::River(_) => TerrainFeature::RiverSegment.can_overwrite(tile),
        }
    }

    /// Whether the feature, or what grows within it, may leave `tile` where
    /// it has changed a tile.
    pub open spec fn makes(&self, tile: Tile) -> bool {
        match self {
            Feature::Terrain(terrain) => exists|distance: i32, growth: i32|
                terrain.may_pick(distance, tile, growth),
            Feature::Trees(_, _, _) => tile == Tile::Ground || tile == Tile::Tree,
            Feature::River(_) => tile == Tile::ShallowWater,
        }
    }

    /// Whether the feature may leave `tile` at the position that it starts
    /// from, once it has taken that over.
    pub open spec fn begins_with(&self, tile: Tile) -> bool {
        match self {
            Feature::Terrain(terrain) => exists|growth: i32| terrain.may_pick(0, tile, growth),
            Feature::Trees(_, _, _) => tile == Tile::Ground,
            Feature::River(_) => true,
        }
    }

    /// Whether the feature takes over `pos` when it reaches it at distance
    /// `dist` in world `w`, and grows on from there.
    pub open spec fn takes_at(&self, w: WorldView, pos: Position, dist: i32) -> bool {
        match self {
            Feature::Terrain(terrain) => dist <= terrain.size() && terrain.can_overwrite(
                w.tile(pos),
            ),
            Feature::Trees(reach, _, _) => dist <= *reach && w.tile(pos) == Tile::BoringGround,
            Feature::River(river) => !river.done && pos != river.end && (w.tile(pos)
                == Tile::ShallowWater || w.tile(pos) == Tile::DeepWater || w.tile(pos)
                == Tile::BoringGround),
        }
    }

    /// Whether nothing at all happens when the feature reaches `pos` at
    /// distance `dist` in world `w`.
    pub open spec fn leaves_alone(&self, w: WorldView, pos: Position, dist: i32) -> bool {
        match self {
            Feature::River(river) => river.done || w.tile(pos) == Tile::Wall || (pos != river.end
                && !self.takes_at(w, pos, dist)) || (pos == river.end && river.order@.len() == 0),
            _ => !self.takes_at(w, pos, dist),
        }
    }

    /// Whether `after` is as done as this feature is once it has reached
    /// `pos` in world `w`: a river is done once it has reached its end.
    pub open spec fn done_after(&self, after: Feature, w: WorldView, pos: Position) -> bool {
        match (*self, after) {
            (Feature::River(here), Feature::River(there)) => there.done == (here.done || (w.tile(
                pos,
            ) != Tile::Wall && pos == here.end)),
            _ => true,
        }
    }

    /// What taking over `pos` at distance `dist` makes of the world, and by
    /// how much the feature grows on from there. A terrain feature puts a
    /// tile of its own there. A wood puts ground there, or beyond its
    /// clearing perhaps a tree. A river changes nothing yet: it goes on
    /// faster through water than over ground.
    pub open spec fn grows(
        &self,
        before: WorldView,
        after: WorldView,
        pos: Position,
        dist: i32,
        growth: i32,
    ) -> bool {
        match self {
            Feature::Terrain(terrain) => {
                &&& terrain.may_pick(dist, after.tile(pos), growth)
                &&& after == WorldView { tiles: before.tiles.insert(pos, after.tile(pos)), ..before }
            },
            Feature::Trees(_, clearing, _) => {
                &&& 0 <= growth < *clearing
                &&& after.tile(pos) == Tile::Ground || after.tile(pos) == Tile::Tree
                &&& dist <= *clearing ==> after == WorldView {
                    tiles: before.tiles.insert(pos, Tile::Ground),
                    ..before
                }
            },
            Feature::River(_) => {
                &&& after == before
                &&& if before.tile(pos) == Tile::BoringGround {
                    1 <= growth < 3
                } else {
                    growth == -1
                }
            },
        }
    }

    /// Tries to take over `pos`, which the feature has reached at distance
    /// `dist`. Where it does, the result is by how much the feature grows on
    /// from there; `None` where it does not. A river that reaches its end
    /// digs its bed and is done.
    pub fn overwrite(&mut self, g: &mut Game, pos: Position, dist: i32) -> (r: Option<i32>)
        requires
            old(self).well_formed(),
        ensures
            final(self).well_formed(),
            final(self).rank() == old(self).rank(),
            old(self).same_feature(*final(self)),
            terrain_made(*old(g), *final(g)),
            changed_by(*old(self), old(g).world@, final(g).world@),
            r is Some <==> old(self).takes_at(old(g).world@, pos, dist),
            r matches Some(growth) ==> old(self).grows(
                old(g).world@,
                final(g).world@,
                pos,
                dist,
                growth,
            ),
            old(self).leaves_alone(old(g).world@, pos, dist) ==> final(g).world@ == old(g).world@,
            old(self).done_after(*final(self), old(g).world@, pos),
        decreases old(self).rank(), 0nat,
    {
        match self {
            Feature::Terrain(terrain) => {
                if dist > terrain.size() || !terrain.can_overwrite(g.get_tile(pos)) {
                    return None;
                }
                let (tile, growth) = terrain.pick_tile(dist, &mut g.rand);
                g.world.entity_mut(pos).insert(tile);
                proof {
                    assert(g.world@ =~= WorldView {
                        tiles: old(g).world@.tiles.insert(pos, tile),
                        ..old(g).world@
                    });
                    assert(grown(old(g).world@, g.world@));
                    assert(terrain.may_pick(dist, tile, growth));
                    assert(old(self).makes(tile));
                }
                Some(growth)
            },
            Feature::Trees(reach, clearing, rarity) => {
                if dist > *reach || g.get_tile(pos) != Tile::BoringGround {
                    return None;
                }
                if dist > *clearing && gen_range(&mut g.rand, 0, *rarity) == 0 {
                    let ghost tree = Feature::Terrain(TerrainFeature::Tree);
                    add_feature_at(g, Feature::Terrain(TerrainFeature::Tree), Some(pos));
                    proof {
                        lemma_changed_within(tree, *old(self), old(g).world@, g.world@);
                        assert(tree.takes_at(old(g).world@, pos, 0));
                    }
                } else {
                    g.world.entity_mut(pos).insert(Tile::Ground);
                    proof {
                        assert(g.world@ =~= WorldView {
                            tiles: old(g).world@.tiles.insert(pos, Tile::Ground),
                            ..old(g).world@
                        });
                        assert(grown(old(g).world@, g.world@));
                    }
                }
                Some(gen_range(&mut g.rand, 0, *clearing))
            },
            Feature::River(river) => {
                if river.done {
                    return None;
                }
                let tile = g.get_tile(pos);
                if tile == Tile::Wall {
                    return None;
                }
                if dist > river.max_distance {
                    river.max_distance = dist;
                }
                river.max_distance = river.max_distance.wrapping_add(1);
                let reached: usize = river.order.len();
                let count: i32 = if reached > 0x7fff_fffe {
                    0x7fff_fffe
                } else {
                    reached as i32
                };
                if pos == river.end {
                    river.order.insert(pos.to_key(), count);
                    let mut cur_order: i32 = count;
                    let mut cur_pos = river.end;
                    while cur_order > 0
                        invariant
                            old(self).rank() == 1,
                            *old(self) is River,
                            count <= 0x7fff_fffe,
                            cur_order <= count,
                            count == 0 ==> g.world@ == old(g).world@,
                            terrain_made(*old(g), *g),
                            changed_by(*old(self), old(g).world@, g.world@),
                        decreases
                                (if cur_order > 0 {
                                    cur_order as nat
                                } else {
                                    0nat
                                }),
                    {
                        let new_pos = lowest_neighbour(river, cur_pos, count);
                        let ghost dug = g.world@;
                        let ghost segment = Feature::Terrain(TerrainFeature::RiverSegment);
                        add_feature_at(
                            g,
                            Feature::Terrain(TerrainFeature::RiverSegment),
                            Some(new_pos),
                        );
                        proof {
                            lemma_changed_within(segment, *old(self), dug, g.world@);
                            lemma_changed_again(*old(self), old(g).world@, dug, g.world@);
                        }
                        let key: u64 = new_pos.to_key();
                        let new_order: i32 = match river.order.get(&key) {
                            Some(order) => *order,
                            None => cur_order,
                        };
                        if new_order >= cur_order {
                            break ;
                        }
                        cur_order = new_order;
                        cur_pos = new_pos;
                    }
                    river.done = true;
                    None
                } else if tile == Tile::ShallowWater || tile == Tile::DeepWater {
                    river.order.insert(pos.to_key(), count);
                    Some(-1)
                } else if tile == Tile::BoringGround {
                    river.order.insert(pos.to_key(), count);
                    Some(gen_range(&mut g.rand, 1, 3))
                } else {
                    None
                }
            },
        }
    }
}

/// The neighbour of `pos` that the river reached first, any that it did not
/// reach counting as reached after the `count` positions that it did. Of
/// two that it reached at the same time, the first clockwise from north.
pub fn lowest_neighbour(river: &River, pos: Position, count: i32) -> (r: Position)
    requires
        count < i32::MAX,
    ensures
        exists|d: Direction| r == pos.step(d),
{
    let mut best = pos.step(Direction::North);
    let mut best_order: i32 = count + 1;
    let mut i: usize = 0;
    while i < 8
        invariant
            i <= 8,
            count < i32::MAX,
            exists|d: Direction| best == pos.step(d),
        decreases 8 - i,
    {
        let dir = ALL_DIRECTIONS[i];
        let next = pos.step(dir);
        let key: u64 = next.to_key();
        let order: i32 = match river.order.get(&key) {
            Some(order) => *order,
            None => count + 1,
        };
        if i == 0 || order < best_order {
            best = next;
            best_order = order;
        }
        i = i + 1;
    }
    best
}

/// Whether `f`, which is no river, has started from a position that was
/// drawn, or has not started at all: it starts from a position that it
/// takes over, and it does not start only where some position has a tile
/// that it does not take over.
pub open spec fn begun_somewhere(f: Feature, before: WorldView, after: WorldView) -> bool {
    ||| after == before && exists|pos: Position|
        #[trigger] before.tiles.contains_key(pos) && !f.takes_at(before, pos, 0)
    ||| exists|pos: Position|
        #[trigger] before.tiles.contains_key(pos) && f.takes_at(before, pos, 0) && f.begins_with(
            after.tile(pos),
        )
}

/// Lets `f` grow from `pos`, or from a position that is drawn where `pos`
/// is `None`: up to ten are tried until the feature takes one. From there
/// the feature spreads to the neighbours of what it has taken over, the
/// farthest-growing first: always along the axes, and two times in five
/// across them. What it changes, it changes once, and the start stays as
/// it was made.
pub fn add_feature_at(g: &mut Game, f: Feature, pos: Option<Position>)
    requires
        f.well_formed(),
        pos is None ==> old(g).world@.tiles.dom().len() > 0,
    ensures
        terrain_made(*old(g), *final(g)),
        old(g).world@.tiles.dom().len() > 0 ==> final(g).world@.tiles.dom().len() > 0,
        changed_by(f, old(g).world@, final(g).world@),
        pos matches Some(start) ==> {
            &&& f.takes_at(old(g).world@, start, 0) ==> f.begins_with(final(g).world@.tile(start))
            &&& f.leaves_alone(old(g).world@, start, 0) ==> final(g).world@ == old(g).world@
        },
        pos is None && !(f is River) ==> begun_somewhere(f, old(g).world@, final(g).world@),
    decreases f.rank(), 1nat,
{
    proof {
        old(g).world.tiles.lemma_contents_finite();
    }
    let mut feature = f;
    let mut queue: Vec<(i32, Position)> = Vec::new();
    let mut visited: HashSet<u64> = HashSet::new();
    let ghost mut begun: Option<Position> = None;
    let ghost mut made: Tile = Tile::Wall;
    match pos {
        Some(pos) => {
            match feature.overwrite(g, pos, 0) {
                Some(growth) => {
                    queue.push((0i32.wrapping_sub(growth), pos));
                    visited.insert(pos.to_key());
                    proof {
                        begun = Some(pos);
                        made = g.world@.tile(pos);
                    }
                },
                None => {},
            }
        },
        None => {
            let mut tries: u8 = 0;
            while tries < 10
                invariant_except_break
                    visited@ == Set::<u64>::empty(),
                    queue@.len() == 0,
                    begun is None,
                    !(f is River) ==> g.world@ == old(g).world@,
                    !(f is River) && tries > 0 ==> exists|other: Position|
                        #[trigger] old(g).world@.tiles.contains_key(other) && !f.takes_at(
                            old(g).world@,
                            other,
                            0,
                        ),
                invariant
                    tries <= 10,
                    pos is None,
                    feature.well_formed(),
                    feature.rank() == f.rank(),
                    f.same_feature(feature),
                    terrain_made(*old(g), *g),
                    changed_by(f, old(g).world@, g.world@),
                    old(g).world@.tiles.dom().len() > 0,
                    visited@.finite(),
                ensures
                    tries > 0 || begun is Some,
                    begun is None ==> {
                        &&& queue@.len() == 0
                        &&& pos matches Some(start) ==> !f.takes_at(old(g).world@, start, 0) && (
                        f.leaves_alone(old(g).world@, start, 0) ==> g.world@ == old(g).world@)
                        &&& pos is None && !(f is River) ==> g.world@ == old(g).world@ && exists|
                            other: Position,
                        |
                            #[trigger] old(g).world@.tiles.contains_key(other) && !f.takes_at(
                                old(g).world@,
                                other,
                                0,
                            )
                    },
                    begun matches Some(start) ==> {
                        &&& pos matches Some(given) ==> given == start
                        &&& pos is Some || !(f is River) ==> f.takes_at(old(g).world@, start, 0)
                        &&& pos is None && !(f is River) ==> old(g).world@.tiles.contains_key(start)
                        &&& visited@.contains(start.key())
                        &&& f.begins_with(made)
                        &&& f is River || g.world@.tile(start) == made
                    },
                decreases 10 - tries,
            {
                proof {
                    old(g).world.tiles.lemma_contents_finite();
                    g.world.tiles.lemma_contents_finite();
                    lemma_grown_not_empty(old(g).world@, g.world@);
                }
                let ghost tried = g.world@;
                let pos = rand_position(g);
                match feature.overwrite(g, pos, 0) {
                    Some(growth) => {
                        queue.push((0i32.wrapping_sub(growth), pos));
                        visited.insert(pos.to_key());
                        proof {
                            lemma_changed_again(f, old(g).world@, tried, g.world@);
                            begun = Some(pos);
                            made = g.world@.tile(pos);
                            if !(f is River) {
                                assert(tried == old(g).world@);
                                assert(old(g).world@.tiles.contains_key(pos));
                                assert(f.takes_at(old(g).world@, pos, 0));
                                assert(f.grows(tried, g.world@, pos, 0, growth));
                                assert(f.begins_with(made));
                            }
                        }
                        break ;
                    },
                    None => {
                        proof {
                            lemma_changed_again(f, old(g).world@, tried, g.world@);
                        }
                    },
                }
                tries = tries + 1;
            }
        },
    }
    loop
        invariant
            feature.well_formed(),
            feature.rank() == f.rank(),
            f.same_feature(feature),
            terrain_made(*old(g), *g),
            changed_by(f, old(g).world@, g.world@),
            visited@.finite(),
            begun is None ==> {
                &&& queue@.len() == 0
                &&& pos matches Some(start) ==> !f.takes_at(old(g).world@, start, 0) && (
                f.leaves_alone(old(g).world@, start, 0) ==> g.world@ == old(g).world@)
                &&& pos is None && !(f is River) ==> g.world@ == old(g).world@ && exists|
                    other: Position,
                |
                    #[trigger] old(g).world@.tiles.contains_key(other) && !f.takes_at(
                        old(g).world@,
                        other,
                        0,
                    )
            },
            begun matches Some(start) ==> {
                &&& pos matches Some(given) ==> given == start
                &&& pos is Some || !(f is River) ==> f.takes_at(old(g).world@, start, 0)
                &&& pos is None && !(f is River) ==> old(g).world@.tiles.contains_key(start)
                &&& visited@.contains(start.key())
                &&& f.begins_with(made)
                &&& f is River || g.world@.tile(start) == made
            },
        decreases usize::MAX - visited@.len(), queue@.len(),
    {
        let reached: usize = visited.len();
        let ghost waiting = queue@.len();
        let (priority, from) = match pop_max(&mut queue) {
            Some(entry) => entry,
            None => {
                break ;
            },
        };
        let mut i: usize = 0;
        while i < 8
            invariant
                i <= 8,
                feature.well_formed(),
                feature.rank() == f.rank(),
                f.same_feature(feature),
                terrain_made(*old(g), *g),
                changed_by(f, old(g).world@, g.world@),
                visited@.finite(),
                visited@.len() >= reached,
                queue@.len() + 1 + reached <= waiting + visited@.len(),
                begun is Some,
                begun matches Some(start) ==> {
                    &&& pos matches Some(given) ==> given == start
                    &&& pos is Some || !(f is River) ==> f.takes_at(old(g).world@, start, 0)
                    &&& pos is None && !(f is River) ==> old(g).world@.tiles.contains_key(start)
                    &&& visited@.contains(start.key())
                    &&& f.begins_with(made)
                    &&& f is River || g.world@.tile(start) == made
                },
            decreases 8 - i,
        {
            let dir = ALL_DIRECTIONS[i];
            let next_pos = from.step(dir);
            let key: u64 = next_pos.to_key();
            if !visited.contains(&key) && (dir.is_orthogonal() || gen_range(&mut g.rand, 0, 5)
                < 2) {
                let ghost spread = g.world@;
                match feature.overwrite(g, next_pos, 0i32.wrapping_sub(priority)) {
                    Some(growth) => {
                        queue.push((priority.wrapping_sub(growth), next_pos));
                    },
                    None => {},
                }
                proof {
                    lemma_changed_again(f, old(g).world@, spread, g.world@);
                    let start = begun->0;
                    assert(start != next_pos);
                }
                visited.insert(key);
            }
            i = i + 1;
        }
        let reached_now: usize = visited.len();
    }
    proof {
        g.world.tiles.lemma_contents_finite();
        if old(g).world@.tiles.dom().len() > 0 {
            lemma_grown_not_empty(old(g).world@, g.world@);
        }
        if begun is Some {
            let start = begun->0;
            if !(f is River) {
                assert(f.begins_with(g.world@.tile(start)));
            }
        }
    }
}

/// A world that has grown from one that has tiles has tiles.
pub proof fn lemma_grown_not_empty(before: WorldView, after: WorldView)
    requires
        grown(before, after),
        before.tiles.dom().finite(),
        after.tiles.dom().finite(),
        before.tiles.dom().len() > 0,
    ensures
        after.tiles.dom().len() > 0,
{
    let pos = before.tiles.dom().choose();
    assert(after.tiles.dom().contains(pos));
    if after.tiles.dom().len() == 0 {
        assert(after.tiles.dom() =~= Set::<Position>::empty());
    }
}

/// Lets `f` grow from a position that is drawn.
pub fn add_feature(g: &mut Game, f: Feature)
    requires
        f.well_formed(),
        old(g).world@.tiles.dom().len() > 0,
    ensures
        terrain_made(*old(g), *final(g)),
        final(g).world@.tiles.dom().len() > 0,
        changed_by(f, old(g).world@, final(g).world@),
        !(f is River) ==> begun_somewhere(f, old(g).world@, final(g).world@),
{
    add_feature_at(g, f, None);
}

/// Lays the ground: 4000 positions of unclaimed ground that spread from the
/// middle of the grid, always along the axes, and two times in five across
/// them.
pub fn create_ground(g: &mut Game)
    ensures
        terrain_made(*old(g), *final(g)),
        final(g).world@.tiles.contains_key(Position { x: 0, y: 0 }),
        final(g).world@.tiles.dom().len() > 0,
{
    let mut queue: Vec<(i32, Position)> = Vec::new();
    let mut visited: HashSet<u64> = HashSet::new();
    let initial_pos = Position { x: 0, y: 0 };
    g.world.entity_mut(initial_pos).insert(Tile::BoringGround);
    assert(grown(old(g).world@, g.world@));
    queue.push((0, initial_pos));
    visited.insert(initial_pos.to_key());
    loop
        invariant
            terrain_made(*old(g), *g),
            g.world@.tiles.contains_key(Position { x: 0, y: 0 }),
            visited@.finite(),
        decreases usize::MAX - visited@.len(), queue@.len(),
    {
        let reached: usize = visited.len();
        if reached >= 4000 {
            break ;
        }
        let ghost waiting = queue@.len();
        let (priority, pos) = match pop_max(&mut queue) {
            Some(entry) => entry,
            None => {
                break ;
            },
        };
        let mut i: usize = 0;
        while i < 8
            invariant
                i <= 8,
                terrain_made(*old(g), *g),
                g.world@.tiles.contains_key(Position { x: 0, y: 0 }),
                visited@.finite(),
                visited@.len() >= reached,
                queue@.len() + 1 + reached <= waiting + visited@.len(),
            decreases 8 - i,
        {
            let dir = ALL_DIRECTIONS[i];
            let next_pos = pos.step(dir);
            let key: u64 = next_pos.to_key();
            if !visited.contains(&key) && (dir.is_orthogonal() || gen_range(&mut g.rand, 0, 5)
                < 2) {
                let ghost before = g.world@;
                g.world.entity_mut(next_pos).insert(Tile::BoringGround);
                assert(grown(before, g.world@));
                let next_priority = priority.wrapping_sub(gen_range(&mut g.rand, 0, 3));
                queue.push((next_priority, next_pos));
                visited.insert(key);
            }
            i = i + 1;
        }
        let reached_now: usize = visited.len();
    }
    proof {
        g.world.tiles.lemma_contents_finite();
        if g.world@.tiles.dom().len() == 0 {
            assert(g.world@.tiles.dom() =~= Set::<Position>::empty());
        }
    }
}

/// Whether `pos` is at the edge of the map: it has a tile, and beside it,
/// along an axis, is a wall.
pub open spec fn is_edge(w: WorldView, pos: Position) -> bool {
    w.tiles.contains_key(pos) && exists|k: int|
        0 <= k < 4 && w.tile(pos.step(#[trigger] ORTHOGONAL_DIRECTIONS@[k])) == Tile::Wall
}

/// Draws a position at the edge of the map, if the map has an edge. Each
/// such position has the same chance for each wall beside it.
#[verifier::rlimit(50)]
pub fn find_map_edge(g: &mut Game) -> (r: Option<Position>)
    ensures
        final(g).world@ == old(g).world@,
        old(g).same_but_rand(*final(g)),
        r matches Some(pos) ==> is_edge(old(g).world@, pos),
        r is None ==> forall|pos: Position| !is_edge(old(g).world@, pos),
{
    let mut count: i32 = 0;
    let mut map_edge: Option<Position> = None;
    let positions: Vec<Position> = g.world.tiles.ids().collect();
    let ghost view = g.world@;
    let mut i: usize = 0;
    while i < positions.len()
        invariant
            i <= positions@.len(),
            0 <= count,
            g.world == old(g).world,
            view == old(g).world@,
            old(g).same_but_rand(*g),
            crate::engine::world::is_traversal(positions@, view.tiles.dom()),
            map_edge matches Some(pos) ==> is_edge(view, pos),
            map_edge is None <==> count == 0,
            count == 0 ==> forall|j: int| 0 <= j < i ==> !is_edge(view, #[trigger] positions@[j]),
        decreases positions@.len() - i,
    {
        let pos = positions[i];
        proof {
            assert(positions@.contains(pos));
        }
        let mut d: usize = 0;
        while d < 4
            invariant
                d <= 4,
                0 <= count,
                g.world == old(g).world,
                view == old(g).world@,
                old(g).same_but_rand(*g),
                view.tiles.contains_key(pos),
                map_edge matches Some(pos) ==> is_edge(view, pos),
                map_edge is None <==> count == 0,
                count == 0 ==> forall|k: int|
                    0 <= k < d ==> view.tile(pos.step(#[trigger] ORTHOGONAL_DIRECTIONS@[k]))
                        != Tile::Wall,
                i < positions@.len(),
                count == 0 ==> forall|j: int|
                    0 <= j < i ==> !is_edge(view, #[trigger] positions@[j]),
            decreases 4 - d,
        {
            let dir = ORTHOGONAL_DIRECTIONS[d];
            if g.get_tile(pos.step(dir)) == Tile::Wall {
                if count < i32::MAX {
                    count = count + 1;
                }
                if gen_range(&mut g.rand, 0, count) == 0 {
                    map_edge = Some(pos);
                }
            }
            d = d + 1;
        }
        i = i + 1;
    }
    proof {
        if map_edge is None {
            assert forall|pos: Position| !is_edge(view, pos) by {
                if view.tiles.contains_key(pos) {
                    assert(positions@.contains(pos));
                    let j = choose|j: int| 0 <= j < positions@.len() && positions@[j] == pos;
                }
            }
        }
    }
    map_edge
}

/// Whether `after` is `before` but for the bed that a river has dug: what
/// was unclaimed ground, shallow water or wall may have turned into shallow
/// water, and nothing else has changed.
pub open spec fn river_dug(before: WorldView, after: WorldView) -> bool {
    &&& grown(before, after)
    &&& forall|pos: Position|
        #![trigger after.tile(pos)]
        #![trigger before.tile(pos)]
        after.tile(pos) == before.tile(pos) || (TerrainFeature::RiverSegment.can_overwrite(
            before.tile(pos),
        ) && after.tile(pos) == Tile::ShallowWater)
}

/// Lets a river run from `start` to `end`: it spreads from `start` over
/// unclaimed ground and water, and once it reaches `end` it digs its bed
/// back along the way that it came. Nothing happens where `start` is a wall
/// or is `end` itself.
pub fn add_river(g: &mut Game, start: Position, end: Position)
    ensures
        terrain_made(*old(g), *final(g)),
        old(g).world@.tiles.dom().len() > 0 ==> final(g).world@.tiles.dom().len() > 0,
        river_dug(old(g).world@, final(g).world@),
        old(g).world@.tile(start) == Tile::Wall || start == end ==> final(g).world@ == old(
            g,
        ).world@,
{
    let river = River { end: end, order: HashMap::new(), max_distance: 0, done: false };
    let ghost feature = Feature::River(river);
    add_feature_at(g, Feature::River(river), Some(start));
    proof {
        assert(changed_by(feature, old(g).world@, g.world@));
        assert forall|pos: Position|
            #![trigger g.world@.tile(pos)]
            #![trigger old(g).world@.tile(pos)]
            g.world@.tile(pos) == old(g).world@.tile(pos) || (
            TerrainFeature::RiverSegment.can_overwrite(old(g).world@.tile(pos)) && g.world@.tile(
                pos,
            ) == Tile::ShallowWater) by {
            if g.world@.tile(pos) != old(g).world@.tile(pos) {
                assert(feature.takes(old(g).world@.tile(pos)) && feature.makes(
                    g.world@.tile(pos),
                ));
            }
        }
    }
}

/// Whether a tile is land that things can be put on.
pub open spec fn spec_is_land(tile: Tile) -> bool {
    tile == Tile::Ground || tile == Tile::BoringGround || tile == Tile::ShortGrass || tile
        == Tile::LongGrass
}

#[verifier::when_used_as_spec(spec_is_land)]
pub fn is_land(tile: Tile) -> (b: bool)
    ensures
        b == spec_is_land(tile),
{
    tile == Tile::Ground || tile == Tile::BoringGround || tile == Tile::ShortGrass || tile
        == Tile::LongGrass
}

/// Whether some tile of `tiles` is not land.
pub open spec fn has_other_than_land(tiles: Map<Position, Tile>) -> bool {
    exists|pos: Position| #[trigger] tiles.contains_key(pos) && !is_land(tiles[pos])
}

/// Draws a position on land: up to ten positions that have a tile are drawn,
/// and the first that is land is the result. There is none only where each
/// of the ten was something else.
pub fn select_position(g: &mut Game) -> (r: Option<Position>)
    requires
        old(g).world@.tiles.dom().len() > 0,
    ensures
        final(g).world == old(g).world,
        old(g).same_but_rand(*final(g)),
        r matches Some(pos) ==> old(g).world@.tiles.contains_key(pos) && is_land(
            old(g).world@.tile(pos),
        ),
        r is None ==> has_other_than_land(old(g).world@.tiles),
{
    let mut tries: u8 = 0;
    while tries < 10
        invariant
            tries <= 10,
            g.world == old(g).world,
            old(g).same_but_rand(*g),
            old(g).world@.tiles.dom().len() > 0,
            tries > 0 ==> has_other_than_land(old(g).world@.tiles),
        decreases 10 - tries,
    {
        let pos = rand_position(g);
        if is_land(g.get_tile(pos)) {
            return Some(pos);
        }
        assert(old(g).world@.tiles.contains_key(pos) && !is_land(old(g).world@.tiles[pos]));
        tries = tries + 1;
    }
    None
}

/// Whether `after` is `before` with at most `at_most` entities more, on the
/// same terrain.
pub open spec fn populated(before: Game, after: Game, at_most: int) -> bool {
    &&& before.next_id <= after.next_id <= before.next_id + at_most
    &&& after.world@.tiles == before.world@.tiles
    &&& after.recall_turns == before.recall_turns
    &&& after.smell_strength == before.smell_strength
    &&& after.current_turn == before.current_turn
}

/// Whether `pos` is a place for the player: land with no wall around it.
pub fn is_open_land(g: &Game, pos: Position) -> (b: bool)
    ensures
        b == (is_land(g.world@.tile(pos)) && forall|d: Direction|
            g.world@.tile(pos.step(d)) != Tile::Wall),
{
    if !is_land(g.get_tile(pos)) {
        return false;
    }
    let mut i: usize = 0;
    while i < 8
        invariant
            i <= 8,
            forall|j: int| 0 <= j < i ==> g.world@.tile(pos.step(ALL_DIRECTIONS@[j])) != Tile::Wall,
        decreases 8 - i,
    {
        if g.get_tile(pos.step(ALL_DIRECTIONS[i])) == Tile::Wall {
            return false;
        }
        i = i + 1;
    }
    proof {
        assert forall|d: Direction| g.world@.tile(pos.step(d)) != Tile::Wall by {
            crate::engine::geometry::lemma_direction_lists(d);
            let j = choose|j: int| 0 <= j < ALL_DIRECTIONS@.len() && ALL_DIRECTIONS@[j] == d;
        }
    }
    true
}

/// Whether `pos` is a place for the player: a position with a tile of land
/// and no wall around it.
pub open spec fn open_land(w: WorldView, pos: Position) -> bool {
    &&& w.tiles.contains_key(pos)
    &&& is_land(w.tile(pos))
    &&& forall|d: Direction| w.tile(pos.step(d)) != Tile::Wall
}

/// Puts the player on the map: on the open land that is farthest from a
/// position that is drawn, and of several that are as far, on the last.
/// Where there is no open land, there is no player.
pub fn place_player(g: &mut Game)
    requires
        old(g).world@.tiles.dom().len() > 0,
        old(g).next_id < u64::MAX,
    ensures
        populated(*old(g), *final(g), 1),
        (forall|pos: Position| !open_land(old(g).world@, pos)) ==> final(g).world@ == old(
            g,
        ).world@ && final(g).next_id == old(g).next_id,
        (exists|pos: Position| open_land(old(g).world@, pos)) ==> final(g).next_id == old(
            g,
        ).next_id + 1 && exists|pos: Position|
            open_land(old(g).world@, pos) && final(g).world@ == old(g).world@.placed(
                Entity(old(g).next_id),
                EntityType::Player,
                pos,
            ),
{
    let pt = rand_position(g);
    let ghost view = g.world@;
    let positions: Vec<Position> = g.world.tiles.ids().collect();
    let mut best: Option<Position> = None;
    let mut farthest: i128 = 0;
    let mut i: usize = 0;
    while i < positions.len()
        invariant
            i <= positions@.len(),
            view == g.world@,
            best matches Some(pos) ==> open_land(view, pos),
            best is None ==> forall|j: int| 0 <= j < i ==> !open_land(view, #[trigger] positions@[j]),
        decreases positions@.len() - i,
    {
        let pos = positions[i];
        if is_open_land(g, pos) {
            proof {
                assert(positions@.contains(pos));
            }
            let d = distance_sq(pt, pos);
            if best.is_none() || d >= farthest {
                best = Some(pos);
                farthest = d;
            }
        }
        i = i + 1;
    }
    match best {
        Some(pos) => {
            g.put_entity(EntityType::Player, pos);
        },
        None => {
            proof {
                assert forall|pos: Position| !open_land(view, pos) by {
                    if view.tiles.contains_key(pos) {
                        assert(positions@.contains(pos));
                        let j = choose|j: int| 0 <= j < positions@.len() && positions@[j] == pos;
                    }
                }
            }
        },
    }
}

/// The world after new entities of type `t`, numbered from `first` on, have
/// been put at `positions`, one at each, first to last.
pub open spec fn put_at(
    w: WorldView,
    first: int,
    t: EntityType,
    positions: Seq<Position>,
) -> WorldView
    decreases positions.len(),
{
    if positions.len() == 0 {
        w
    } else {
        put_at(w, first, t, positions.drop_last()).placed(
            Entity((first + positions.len() - 1) as u64),
            t,
            positions.last(),
        )
    }
}

/// `pos`, `count` times.
pub open spec fn times(pos: Position, count: int) -> Seq<Position> {
    Seq::new(
        if count > 0 {
            count as nat
        } else {
            0nat
        },
        |i: int| pos,
    )
}

/// Puts `count` new entities of type `t` at `pos`.
pub fn put_entities(g: &mut Game, t: EntityType, pos: Position, count: i32)
    requires
        old(g).next_id + count < u64::MAX,
    ensures
        populated(*old(g), *final(g), if count > 0 { count as int } else { 0 }),
        final(g).rand == old(g).rand,
        final(g).next_id == old(g).next_id + times(pos, count as int).len(),
        final(g).world@ == put_at(
            old(g).world@,
            old(g).next_id as int,
            t,
            times(pos, count as int),
        ),
{
    let mut placed: i32 = 0;
    while placed < count
        invariant
            0 <= placed,
            count >= 0 ==> placed <= count,
            count < 0 ==> placed == 0,
            old(g).next_id + count < u64::MAX,
            populated(*old(g), *g, placed as int),
            g.rand == old(g).rand,
            g.next_id == old(g).next_id + placed,
            g.world@ == put_at(old(g).world@, old(g).next_id as int, t, times(pos, placed as int)),
        decreases count - placed,
    {
        proof {
            assert(times(pos, placed + 1).drop_last() =~= times(pos, placed as int));
        }
        g.put_entity(t, pos);
        placed = placed + 1;
    }
    proof {
        assert(times(pos, placed as int) =~= times(pos, count as int));
    }
}

/// Puts up to `count` new entities of type `t` on land, each at a position
/// that is drawn; one for which no land is found is left out, which happens
/// only where there is something else than land.
pub fn randomly_place(g: &mut Game, t: EntityType, count: i32)
    requires
        old(g).world@.tiles.dom().len() > 0,
        old(g).next_id + count < u64::MAX,
    ensures
        populated(*old(g), *final(g), if count > 0 { count as int } else { 0 }),
        exists|positions: Seq<Position>|
            {
                &&& positions.len() <= count || positions.len() == 0
                &&& forall|i: int|
                    0 <= i < positions.len() ==> old(g).world@.tiles.contains_key(
                        #[trigger] positions[i],
                    ) && is_land(old(g).world@.tile(positions[i]))
                &&& final(g).next_id == old(g).next_id + positions.len()
                &&& final(g).world@ == put_at(
                    old(g).world@,
                    old(g).next_id as int,
                    t,
                    positions,
                )
                &&& positions.len() < count ==> has_other_than_land(old(g).world@.tiles)
            },
{
    let mut tried: i32 = 0;
    let ghost mut positions = Seq::<Position>::empty();
    while tried < count
        invariant
            0 <= tried,
            count >= 0 ==> tried <= count,
            count < 0 ==> tried == 0,
            old(g).world@.tiles.dom().len() > 0,
            old(g).next_id + count < u64::MAX,
            populated(*old(g), *g, tried as int),
            positions.len() <= tried,
            forall|i: int|
                0 <= i < positions.len() ==> old(g).world@.tiles.contains_key(
                    #[trigger] positions[i],
                ) && is_land(old(g).world@.tile(positions[i])),
            g.next_id == old(g).next_id + positions.len(),
            g.world@ == put_at(old(g).world@, old(g).next_id as int, t, positions),
            positions.len() < tried ==> has_other_than_land(old(g).world@.tiles),
        decreases count - tried,
    {
        match select_position(g) {
            Some(pos) => {
                proof {
                    assert(positions.push(pos).drop_last() =~= positions);
                    positions = positions.push(pos);
                }
                g.put_entity(t, pos);
            },
            None => {},
        }
        tried = tried + 1;
    }
}

/// What lies around a skeleton.
#[derive(Debug, Copy, Clone, PartialEq, Eq, Structural)]
pub enum Hoard {
    /// A bow with arrows, and a diamond or two.
    Archer,
    /// A sword, a diamond or two, and perhaps a herb.
    Knight,
    /// A dragon on its diamonds, with an arrow or two.
    Lair,
    /// Perhaps a diamond.
    Bones,
}

/// Whether a hoard of kind `hoard` may hold this many herbs, diamonds,
/// arrows, swords and bows beside its skeleton.
pub open spec fn hoard_counts(
    hoard: Hoard,
    herbs: int,
    diamonds: int,
    arrows: int,
    swords: int,
    bows: int,
) -> bool {
    match hoard {
        Hoard::Archer => herbs == 0 && 1 <= diamonds < 3 && 3 <= arrows < 5 && swords == 0
            && bows == 1,
        Hoard::Knight => 0 <= herbs < 2 && 1 <= diamonds < 3 && arrows == 0 && swords == 1
            && bows == 0,
        Hoard::Lair => herbs == 0 && 2 <= diamonds < 5 && 0 <= arrows < 3 && swords == 0 && bows
            == 0,
        Hoard::Bones => herbs == 0 && 0 <= diamonds < 2 && arrows == 0 && swords == 0 && bows
            == 0,
    }
}

/// The world after a hoard has been put at `pos`, its entities numbered
/// from `first` on: the skeleton, then the herbs, the diamonds, the arrows,
/// the swords and the bows, and last the dragon of a lair.
pub open spec fn hoard_put(
    w: WorldView,
    first: int,
    pos: Position,
    hoard: Hoard,
    herbs: int,
    diamonds: int,
    arrows: int,
    swords: int,
    bows: int,
) -> WorldView {
    let bones = w.placed(Entity(first as u64), EntityType::Skeleton, pos);
    let with_herbs = put_at(bones, first + 1, EntityType::Herb, times(pos, herbs));
    let with_diamonds = put_at(
        with_herbs,
        first + 1 + herbs,
        EntityType::Diamond,
        times(pos, diamonds),
    );
    let with_arrows = put_at(
        with_diamonds,
        first + 1 + herbs + diamonds,
        EntityType::Arrow,
        times(pos, arrows),
    );
    let with_swords = put_at(
        with_arrows,
        first + 1 + herbs + diamonds + arrows,
        EntityType::Sword,
        times(pos, swords),
    );
    let with_bows = put_at(
        with_swords,
        first + 1 + herbs + diamonds + arrows + swords,
        EntityType::Bow,
        times(pos, bows),
    );
    if hoard == Hoard::Lair {
        with_bows.placed(
            Entity((first + 1 + herbs + diamonds + arrows + swords + bows) as u64),
            EntityType::Dragon,
            pos,
        )
    } else {
        with_bows
    }
}

/// How many entities a hoard is made of.
pub open spec fn hoard_size(
    hoard: Hoard,
    herbs: int,
    diamonds: int,
    arrows: int,
    swords: int,
    bows: int,
) -> int {
    1 + herbs + diamonds + arrows + swords + bows + if hoard == Hoard::Lair {
        1int
    } else {
        0int
    }
}

/// Puts a skeleton on land, at a position that is drawn, with what belongs
/// to `hoard` around it; tells how many diamonds are among that. Nothing is
/// put where no land is found, which happens only where there is something
/// else than land.
pub fn place_hoard(g: &mut Game, hoard: Hoard) -> (diamonds: i32)
    requires
        old(g).world@.tiles.dom().len() > 0,
        old(g).next_id + 10 < u64::MAX,
    ensures
        populated(*old(g), *final(g), 10),
        0 <= diamonds <= 4,
        final(g).next_id == old(g).next_id ==> diamonds == 0 && final(g).world@ == old(g).world@
            && has_other_than_land(old(g).world@.tiles),
        final(g).next_id != old(g).next_id ==> exists|
            pos: Position,
            herbs: int,
            arrows: int,
            swords: int,
            bows: int,
        |
            {
                &&& old(g).world@.tiles.contains_key(pos)
                &&& is_land(old(g).world@.tile(pos))
                &&& hoard_counts(hoard, herbs, diamonds as int, arrows, swords, bows)
                &&& final(g).next_id == old(g).next_id + hoard_size(
                    hoard,
                    herbs,
                    diamonds as int,
                    arrows,
                    swords,
                    bows,
                )
                &&& final(g).world@ == hoard_put(
                    old(g).world@,
                    old(g).next_id as int,
                    pos,
                    hoard,
                    herbs,
                    diamonds as int,
                    arrows,
                    swords,
                    bows,
                )
            },
{
    let pos = match select_position(g) {
        Some(pos) => pos,
        None => {
            return 0;
        },
    };
    let ghost first = g.next_id as int;
    let ghost start = g.world@;
    proof {
        reveal_with_fuel(put_at, 2);
        assert(forall|w: WorldView, f: int, t: EntityType| put_at(w, f, t, times(pos, 0)) == w);
        assert forall|w: WorldView, f: int, t: EntityType| #[trigger]
            put_at(w, f, t, times(pos, 1)) == w.placed(Entity(f as u64), t, pos) by {
            assert(times(pos, 1).drop_last() =~= times(pos, 0));
        }
    }
    g.put_entity(EntityType::Skeleton, pos);
    match hoard {
        Hoard::Archer => {
            let herbs = gen_range(&mut g.rand, 0, 1);
            put_entities(g, EntityType::Herb, pos, herbs);
            let diamonds = gen_range(&mut g.rand, 1, 3);
            put_entities(g, EntityType::Diamond, pos, diamonds);
            let arrows = gen_range(&mut g.rand, 3, 5);
            put_entities(g, EntityType::Arrow, pos, arrows);
            g.put_entity(EntityType::Bow, pos);
            assert(g.world@ == hoard_put(start, first, pos, hoard, 0, diamonds as int, arrows as int, 0, 1));
            diamonds
        },
        Hoard::Knight => {
            let herbs = gen_range(&mut g.rand, 0, 2);
            put_entities(g, EntityType::Herb, pos, herbs);
            let diamonds = gen_range(&mut g.rand, 1, 3);
            put_entities(g, EntityType::Diamond, pos, diamonds);
            g.put_entity(EntityType::Sword, pos);
            assert(g.world@ == hoard_put(start, first, pos, hoard, herbs as int, diamonds as int, 0, 1, 0));
            diamonds
        },
        Hoard::Lair => {
            let herbs = gen_range(&mut g.rand, 0, 1);
            put_entities(g, EntityType::Herb, pos, herbs);
            let diamonds = gen_range(&mut g.rand, 2, 5);
            put_entities(g, EntityType::Diamond, pos, diamonds);
            let arrows = gen_range(&mut g.rand, 0, 3);
            put_entities(g, EntityType::Arrow, pos, arrows);
            let swords = gen_range(&mut g.rand, 0, 1);
            put_entities(g, EntityType::Sword, pos, swords);
            let bows = gen_range(&mut g.rand, 0, 1);
            put_entities(g, EntityType::Bow, pos, bows);
            g.put_entity(EntityType::Dragon, pos);
            assert(g.world@ == hoard_put(start, first, pos, hoard, 0, diamonds as int, arrows as int, 0, 0));
            diamonds
        },
        Hoard::Bones => {
            let diamonds = gen_range(&mut g.rand, 0, 2);
            put_entities(g, EntityType::Diamond, pos, diamonds);
            assert(g.world@ == hoard_put(start, first, pos, hoard, 0, diamonds as int, 0, 0, 0));
            diamonds
        },
    }
}

/// Whether `after` is `before` with a map made and populated: the terrain
/// has grown and there are at most 200 entities more.
pub open spec fn game_made(before: Game, after: Game) -> bool {
    &&& before.next_id <= after.next_id <= before.next_id + 200
    &&& forall|pos: Position|
        before.world@.tiles.contains_key(pos) ==> after.world@.tiles.contains_key(pos)
    &&& after.world@.tiles.contains_key(Position { x: 0, y: 0 })
    &&& after.recall_turns == before.recall_turns
    &&& after.smell_strength == before.smell_strength
    &&& after.current_turn == before.current_turn
}

/// Makes the map and populates it: the ground, five lakes and a river to
/// the first of them, three woods and sixteen trees, nine meadows, the
/// player, rocks, herbs and animals, nine skeletons with what lies around
/// them, and diamonds until there are thirty. Diamonds that find no land in
/// a very long time are given up.
#[verifier::rlimit(60)]
pub fn init_game(g: &mut Game)
    requires
        old(g).next_id + 200 < u64::MAX,
    ensures
        game_made(*old(g), *final(g)),
{
    create_ground(g);
    let lake_pos = rand_position(g);
    add_feature_at(g, Feature::Terrain(TerrainFeature::Lake(16, 3)), Some(lake_pos));
    add_feature(g, Feature::Terrain(TerrainFeature::Lake(12, 1)));
    add_feature(g, Feature::Terrain(TerrainFeature::Lake(8, 1)));
    add_feature(g, Feature::Terrain(TerrainFeature::Lake(8, 2)));
    add_feature(g, Feature::Terrain(TerrainFeature::Lake(8, 3)));
    match find_map_edge(g) {
        Some(map_edge) => {
            add_river(g, map_edge, lake_pos);
        },
        None => {},
    }
    add_feature(g, Feature::Trees(64, 7, 3));
    add_feature(g, Feature::Trees(32, 5, 5));
    add_feature(g, Feature::Trees(16, 3, 7));
    let mut trees: u8 = 0;
    while trees < 16
        invariant
            trees <= 16,
            terrain_made(*old(g), *g),
            g.world@.tiles.dom().len() > 0,
            g.world@.tiles.contains_key(Position { x: 0, y: 0 }),
        decreases 16 - trees,
    {
        add_feature(g, Feature::Terrain(TerrainFeature::Tree));
        trees = trees + 1;
    }
    add_feature(g, Feature::Terrain(TerrainFeature::Meadow(16, 1)));
    add_feature(g, Feature::Terrain(TerrainFeature::Meadow(16, 1)));
    add_feature(g, Feature::Terrain(TerrainFeature::Meadow(12, 1)));
    add_feature(g, Feature::Terrain(TerrainFeature::Meadow(8, 1)));
    add_feature(g, Feature::Terrain(TerrainFeature::Meadow(6, 1)));
    add_feature(g, Feature::Terrain(TerrainFeature::Meadow(4, 1)));
    add_feature(g, Feature::Terrain(TerrainFeature::Meadow(24, 7)));
    add_feature(g, Feature::Terrain(TerrainFeature::Meadow(12, 5)));
    add_feature(g, Feature::Terrain(TerrainFeature::Meadow(6, 3)));
    let ghost terrain = *g;
    assert(terrain.world@.tiles.contains_key(Position { x: 0, y: 0 }));
    place_player(g);
    randomly_place(g, EntityType::Rock, 32);
    randomly_place(g, EntityType::Herb, 8);
    randomly_place(g, EntityType::Rat, 8);
    randomly_place(g, EntityType::Deer, 8);
    randomly_place(g, EntityType::Wolf, 4);
    let mut diamond_count: i32 = 0;
    diamond_count = diamond_count + place_hoard(g, Hoard::Archer);
    diamond_count = diamond_count + place_hoard(g, Hoard::Archer);
    diamond_count = diamond_count + place_hoard(g, Hoard::Knight);
    diamond_count = diamond_count + place_hoard(g, Hoard::Knight);
    diamond_count = diamond_count + place_hoard(g, Hoard::Lair);
    diamond_count = diamond_count + place_hoard(g, Hoard::Lair);
    diamond_count = diamond_count + place_hoard(g, Hoard::Bones);
    diamond_count = diamond_count + place_hoard(g, Hoard::Bones);
    diamond_count = diamond_count + place_hoard(g, Hoard::Bones);
    assert(populated(terrain, *g, 151));
    let mut attempts: u32 = u32::MAX;
    while diamond_count < 30 && attempts > 0
        invariant
            0 <= diamond_count <= 36,
            terrain.next_id + 200 < u64::MAX,
            terrain.world@.tiles.dom().len() > 0,
            populated(terrain, *g, 151 + diamond_count),
        decreases attempts,
    {
        match select_position(g) {
            Some(pos) => {
                g.put_entity(EntityType::Diamond, pos);
                diamond_count = diamond_count + 1;
            },
            None => {},
        }
        attempts = attempts - 1;
    }
}

impl Game {
    /// A new game: a map that is made from the random numbers that `seed`
    /// fixes, with the lines of sight of the player worked out.
    pub fn new(seed: u64) -> (g: Game)
        ensures
            g.current_turn == 0,
            g.recall_turns is None,
            1 <= g.next_id <= 201,
            g.world@.tiles.contains_key(Position { x: 0, y: 0 }),
    {
        let mut g = Game {
            world: GameWorld::new(),
            next_id: 1,
            rand: seeded(seed),
            recall_turns: None,
            smell_strength: BTreeMap::new(),
            current_turn: 0,
        };
        init_game(&mut g);
        proof {
            lemma_fov_updated_frame(g);
        }
        update_fov(&mut g);
        g
    }
}

} // verus!
