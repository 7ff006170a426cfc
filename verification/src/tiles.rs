//! Tile coordinates and the per-tick spatial index of listed entities.

use vstd::prelude::*;
use crate::entity::EntityId;
use crate::geometry::{clamp, div_floor, floor_div, WorldPoint, WorldVector};

verus! {

/// Edge length of one square tile, in world units.
pub const TILE_SIZE: i64 = 256;

/// Half of a tile's edge.
pub const HALF_TILE_SIZE: i64 = 128;

/// A cell of the tile grid.
#[derive(Clone, Copy, Debug, PartialEq, Eq, Hash, Structural)]
pub struct TilePosition {
    pub x: i32,
    pub y: i32,
}

/// The tile coordinate that holds the world coordinate `c`, held to the
/// range of tile coordinates.
pub open spec fn tile_of(c: int) -> int {
    clamp(floor_div(c, TILE_SIZE as int), i32::MIN as int, i32::MAX as int)
}

/// `v` wrapped into the range of `i32`.
pub open spec fn wrap_i32(v: int) -> int {
    if v > i32::MAX {
        v - 0x1_0000_0000
    } else if v < i32::MIN {
        v + 0x1_0000_0000
    } else {
        v
    }
}

fn clamp_coordinate(q: i64) -> (t: i32)
    ensures
        t == clamp(q as int, i32::MIN as int, i32::MAX as int),
{
    if q < i32::MIN as i64 {
        i32::MIN
    } else if q > i32::MAX as i64 {
        i32::MAX
    } else {
        q as i32
    }
}

fn tile_coordinate(c: i64) -> (t: i32)
    ensures
        t == tile_of(c as int),
{
    clamp_coordinate(div_floor(c, TILE_SIZE))
}

impl TilePosition {
    pub fn new(x: i32, y: i32) -> (tile: TilePosition)
        ensures
            tile.x == x,
            tile.y == y,
    {
        TilePosition { x, y }
    }

    /// The tile that a world point lies in.
    pub open spec fn spec_from_world(position: WorldPoint) -> TilePosition {
        TilePosition { x: tile_of(position.x as int) as i32, y: tile_of(position.y as int) as i32 }
    }

    /// The world point of the tile's origin corner.
    pub open spec fn spec_to_world(self) -> WorldPoint {
        WorldPoint { x: (self.x * TILE_SIZE) as i64, y: (self.y * TILE_SIZE) as i64 }
    }

    /// The tile moved by `x` columns and `y` rows, wrapping at the ends of
    /// the coordinate range.
    pub open spec fn spec_offset(self, x: int, y: int) -> TilePosition {
        TilePosition { x: wrap_i32(self.x + x) as i32, y: wrap_i32(self.y + y) as i32 }
    }

    pub fn from_world(position: WorldPoint) -> (tile: TilePosition)
        ensures
            tile == Self::spec_from_world(position),
    {
        TilePosition { x: tile_coordinate(position.x), y: tile_coordinate(position.y) }
    }

    pub fn to_world(&self) -> (origin: WorldPoint)
        ensures
            origin == self.spec_to_world(),
            origin.x == self.x * TILE_SIZE,
            origin.y == self.y * TILE_SIZE,
    {
        WorldPoint { x: (self.x as i64) * TILE_SIZE, y: (self.y as i64) * TILE_SIZE }
    }

    pub fn offset(&self, x: i32, y: i32) -> (tile: TilePosition)
        ensures
            tile == self.spec_offset(x as int, y as int),
    {
        TilePosition { x: self.x.wrapping_add(x), y: self.y.wrapping_add(y) }
    }

    /// The origin of the tile that holds `position`.
    pub open spec fn spec_snap_world(position: WorldPoint) -> WorldPoint {
        Self::spec_from_world(position).spec_to_world()
    }

    /// The tile with the given coordinates, each held to the range of tile
    /// coordinates.
    pub fn from_vec(vec: WorldVector) -> (tile: TilePosition)
        ensures
            tile.x == clamp(vec.x as int, i32::MIN as int, i32::MAX as int),
            tile.y == clamp(vec.y as int, i32::MIN as int, i32::MAX as int),
    {
        TilePosition { x: clamp_coordinate(vec.x), y: clamp_coordinate(vec.y) }
    }

    /// The tile's coordinates as a vector.
    pub fn to_vec(&self) -> (vec: WorldVector)
        ensures
            vec.x == self.x,
            vec.y == self.y,
    {
        WorldVector { x: self.x as i64, y: self.y as i64 }
    }

    /// The origin of the tile that holds `position`.
    pub fn snap_world(position: WorldPoint) -> (origin: WorldPoint)
        ensures
            origin == Self::spec_snap_world(position),
    {
        TilePosition::from_world(position).to_world()
    }
}

/// The tile of a tile's origin is that tile.
pub proof fn lemma_origin_in_tile(tile: TilePosition)
    ensures
        TilePosition::spec_from_world(tile.spec_to_world()) == tile,
{
    vstd::arithmetic::div_mod::lemma_div_multiples_vanish(tile.x as int, TILE_SIZE as int);
    vstd::arithmetic::div_mod::lemma_div_multiples_vanish(tile.y as int, TILE_SIZE as int);
    assert(tile.x * TILE_SIZE == TILE_SIZE * tile.x);
    assert(tile.y * TILE_SIZE == TILE_SIZE * tile.y);
}

/// Snapping a world point gives the origin of the tile that holds it, and
/// a snapped point snaps to itself.
pub proof fn lemma_snap_world_idempotent(position: WorldPoint)
    ensures
        TilePosition::spec_snap_world(position) == TilePosition::spec_from_world(
            position,
        ).spec_to_world(),
        TilePosition::spec_from_world(TilePosition::spec_snap_world(position))
            == TilePosition::spec_from_world(position),
        TilePosition::spec_snap_world(TilePosition::spec_snap_world(position))
            == TilePosition::spec_snap_world(position),
{
    lemma_origin_in_tile(TilePosition::spec_from_world(position));
}

/// The buckets of the index: a hash map of the `bevy` utilities, from a
/// tile's two coordinates to the entities filed under that tile.
#[verifier::external_body]
pub struct TileBuckets {
    map: bevy::utils::HashMap<(i32, i32), Vec<EntityId>>,
}

/// What the buckets hold: for each tile with a bucket, its entities in the
/// order in which they were filed.
pub uninterp spec fn bucket_contents(buckets: TileBuckets) -> Map<(i32, i32), Seq<EntityId>>;

/// Buckets without any entry.
pub open spec fn no_buckets() -> Map<(i32, i32), Seq<EntityId>> {
    Map::empty()
}

/// `bevy::utils::HashMap::new` (hashbrown's `HashMap::default`): a map
/// without any entry.
#[verifier::external_body]
fn buckets_new() -> (buckets: TileBuckets)
    ensures
        bucket_contents(buckets) == no_buckets(),
{
    TileBuckets { map: bevy::utils::HashMap::new() }
}

/// hashbrown's `HashMap::clear`: every entry leaves.
#[verifier::external_body]
fn buckets_clear(buckets: &mut TileBuckets)
    ensures
        bucket_contents(*final(buckets)) == no_buckets(),
{
    buckets.map.clear();
}

/// hashbrown's `HashMap::get`: the value filed under the key, if there is
/// one.
#[verifier::external_body]
fn buckets_get(buckets: &TileBuckets, x: i32, y: i32) -> (found: Option<&Vec<EntityId>>)
    ensures
        found.is_some() == bucket_contents(*buckets).contains_key((x, y)),
        found.is_some() ==> found.unwrap()@ == bucket_contents(*buckets)[(x, y)],
{
    buckets.map.get(&(x, y))
}

/// hashbrown's `HashMap::get_mut`: the value filed under the key, if there
/// is one, open to change; what the caller leaves in it is what the map
/// then holds under that key, and no other entry changes.
#[verifier::external_body]
fn buckets_get_mut(buckets: &mut TileBuckets, x: i32, y: i32) -> (found: Option<&mut Vec<EntityId>>)
    ensures
        found.is_some() == bucket_contents(*old(buckets)).contains_key((x, y)),
        match found {
            Some(bucket) => bucket@ == bucket_contents(*old(buckets))[(x, y)]
                && bucket_contents(*final(buckets)) == bucket_contents(*old(buckets)).insert(
                (x, y),
                final(bucket)@,
            ),
            None => bucket_contents(*final(buckets)) == bucket_contents(*old(buckets)),
        },
{
    buckets.map.get_mut(&(x, y))
}

/// hashbrown's `HashMap::insert`: the value is filed under the key, in
/// place of an earlier one.
#[verifier::external_body]
fn buckets_insert(buckets: &mut TileBuckets, x: i32, y: i32, bucket: Vec<EntityId>)
    ensures
        bucket_contents(*final(buckets)) == bucket_contents(*old(buckets)).insert((x, y), bucket@),
{
    buckets.map.insert((x, y), bucket);
}

/// What the spatial index holds: for each tile with entities, those
/// entities in the order in which they were filed.
pub type TileIndex = Map<TilePosition, Seq<EntityId>>;

/// The entities filed under a tile; none for a tile without a bucket.
pub open spec fn spec_entities_in(index: TileIndex, tile: TilePosition) -> Seq<EntityId> {
    if index.contains_key(tile) {
        index[tile]
    } else {
        Seq::empty()
    }
}

/// The spatial index: for each tile, the listed entities whose world
/// position fell in it when the index was last filled.
pub struct TileTrackedEntities {
    map: TileBuckets,
}

impl View for TileTrackedEntities {
    type V = Map<TilePosition, Seq<EntityId>>;

    closed spec fn view(&self) -> Map<TilePosition, Seq<EntityId>> {
        Map::new(
            |tile: TilePosition| bucket_contents(self.map).contains_key((tile.x, tile.y)),
            |tile: TilePosition| bucket_contents(self.map)[(tile.x, tile.y)],
        )
    }
}

impl TileTrackedEntities {
    /// The entities filed under a tile; none for a tile without a bucket.
    pub open spec fn entities_in(self, tile: TilePosition) -> Seq<EntityId> {
        spec_entities_in(self@, tile)
    }

    pub fn new() -> (index: TileTrackedEntities)
        ensures
            index@ == Map::<TilePosition, Seq<EntityId>>::empty(),
    {
        let index = TileTrackedEntities { map: buckets_new() };
        assert(index@ =~= Map::<TilePosition, Seq<EntityId>>::empty());
        index
    }

    pub fn clear(&mut self)
        ensures
            final(self)@ == Map::<TilePosition, Seq<EntityId>>::empty(),
    {
        buckets_clear(&mut self.map);
        assert(self@ =~= Map::<TilePosition, Seq<EntityId>>::empty());
    }

    pub fn get_entities_in_tile(&self, tile_pos: TilePosition) -> (found: Option<&Vec<EntityId>>)
        ensures
            found.is_some() == self@.contains_key(tile_pos),
            found.is_some() ==> found.unwrap()@ == self@[tile_pos],
    {
        buckets_get(&self.map, tile_pos.x, tile_pos.y)
    }

    pub fn get_entities_in_tile_mut(&mut self, tile_pos: TilePosition) -> (found: Option<
        &mut Vec<EntityId>,
    >)
        ensures
            found.is_some() == old(self)@.contains_key(tile_pos),
            match found {
                Some(bucket) => bucket@ == old(self)@[tile_pos] && final(self)@ =~= old(self)@.insert(
                    tile_pos,
                    final(bucket)@,
                ),
                None => final(self)@ =~= old(self)@,
            },
    {
        buckets_get_mut(&mut self.map, tile_pos.x, tile_pos.y)
    }

    /// Files `entity` under the tile that holds `world_position`, behind the
    /// entities already filed there.
    pub fn add(&mut self, world_position: WorldPoint, entity: EntityId)
        ensures
            final(self)@ == old(self)@.insert(
                TilePosition::spec_from_world(world_position),
                old(self).entities_in(TilePosition::spec_from_world(world_position)).push(entity),
            ),
    {
        let tile_pos = TilePosition::from_world(world_position);
        match buckets_get_mut(&mut self.map, tile_pos.x, tile_pos.y) {
            Some(bucket) => {
                bucket.push(entity);
            },
            None => {
                let mut bucket: Vec<EntityId> = Vec::new();
                bucket.push(entity);
                buckets_insert(&mut self.map, tile_pos.x, tile_pos.y, bucket);
            },
        }
        assert(self@ =~= old(self)@.insert(
            tile_pos,
            old(self).entities_in(tile_pos).push(entity),
        ));
    }
}

/// An entity that the index follows, with its world position this tick.
#[derive(Clone, Copy, Debug, PartialEq, Eq, Structural)]
pub struct TileTrackedEntity {
    pub entity: EntityId,
    pub position: WorldPoint,
}

/// The entities among `listed` that lie in `tile`, in their order.
pub open spec fn entities_on(listed: Seq<TileTrackedEntity>, tile: TilePosition) -> Seq<EntityId>
    decreases listed.len(),
{
    if listed.len() == 0 {
        Seq::empty()
    } else {
        let earlier = entities_on(listed.drop_last(), tile);
        if TilePosition::spec_from_world(listed.last().position) == tile {
            earlier.push(listed.last().entity)
        } else {
            earlier
        }
    }
}

/// The index of the listed entities: each tile that holds any of them,
/// with those it holds.
pub open spec fn spec_index(listed: Seq<TileTrackedEntity>) -> TileIndex {
    Map::new(
        |tile: TilePosition| entities_on(listed, tile).len() > 0,
        |tile: TilePosition| entities_on(listed, tile),
    )
}

/// Empties the index and files every listed entity under the tile that its
/// position lies in.
pub fn track_tile_entities(entities: &Vec<TileTrackedEntity>, tracked_entities: &mut TileTrackedEntities)
    ensures
        final(tracked_entities)@ == spec_index(entities@),
{
    tracked_entities.clear();
    let mut i: usize = 0;
    while i < entities.len()
        invariant
            i <= entities.len(),
            forall|tile: TilePosition| #[trigger]
                tracked_entities@.contains_key(tile) <==> entities_on(
                    entities@.take(i as int),
                    tile,
                ).len() > 0,
            forall|tile: TilePosition| #[trigger]
                tracked_entities.entities_in(tile) == entities_on(entities@.take(i as int), tile),
        decreases entities.len() - i,
    {
        let ghost before = *tracked_entities;
        let listed = entities[i];
        tracked_entities.add(listed.position, listed.entity);
        proof {
            let prefix = entities@.take(i as int + 1);
            assert(prefix.drop_last() =~= entities@.take(i as int));
            assert(prefix.last() == listed);
            assert forall|tile: TilePosition| #[trigger]
                tracked_entities.entities_in(tile) == entities_on(prefix, tile) by {
                assert(before.entities_in(tile) == entities_on(entities@.take(i as int), tile));
            }
            assert forall|tile: TilePosition| #[trigger]
                tracked_entities@.contains_key(tile) <==> entities_on(prefix, tile).len() > 0 by {
                assert(before@.contains_key(tile) <==> entities_on(
                    entities@.take(i as int),
                    tile,
                ).len() > 0);
            }
        }
        i += 1;
    }
    proof {
        assert(entities@.take(entities.len() as int) =~= entities@);
        assert forall|tile: TilePosition| #[trigger]
            tracked_entities@.contains_key(tile) implies tracked_entities@[tile] == entities_on(
            entities@,
            tile,
        ) by {
            assert(tracked_entities.entities_in(tile) == entities_on(entities@, tile));
        }
        assert(tracked_entities@ =~= spec_index(entities@));
    }
}

} // verus!
