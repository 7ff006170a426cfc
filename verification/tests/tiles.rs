use one_clicker::geometry::{div_floor, world_within, WorldPoint, WorldVector};
use one_clicker::tiles::{
    track_tile_entities, TilePosition, TileTrackedEntities, TileTrackedEntity, HALF_TILE_SIZE,
    TILE_SIZE,
};

fn point(x: i64, y: i64) -> WorldPoint {
    WorldPoint { x, y }
}

#[test]
fn tile_size_is_four_sprites_of_sixty_four() {
    assert_eq!(TILE_SIZE, 256);
    assert_eq!(HALF_TILE_SIZE, 128);
}

#[test]
fn div_floor_rounds_towards_minus_infinity() {
    assert_eq!(div_floor(7, 2), 3);
    assert_eq!(div_floor(-7, 2), -4);
    assert_eq!(div_floor(-8, 2), -4);
    assert_eq!(div_floor(0, 5), 0);
    assert_eq!(div_floor(-1, 256), -1);
    assert_eq!(div_floor(i64::MIN, 1), i64::MIN);
    assert_eq!(div_floor(i64::MIN, 256), i64::MIN / 256);
    assert_eq!(div_floor(i64::MAX, i64::MAX), 1);
}

#[test]
fn from_world_floors_to_the_tile() {
    assert_eq!(TilePosition::from_world(point(0, 0)), TilePosition::new(0, 0));
    assert_eq!(TilePosition::from_world(point(255, 256)), TilePosition::new(0, 1));
    assert_eq!(TilePosition::from_world(point(-1, -256)), TilePosition::new(-1, -1));
    assert_eq!(TilePosition::from_world(point(-257, 511)), TilePosition::new(-2, 1));
}

#[test]
fn from_world_stops_at_the_ends_of_the_tile_range() {
    assert_eq!(
        TilePosition::from_world(point(i64::MAX, i64::MIN)),
        TilePosition::new(i32::MAX, i32::MIN)
    );
    let last = (i32::MAX as i64) * 256;
    assert_eq!(TilePosition::from_world(point(last, last + 256)).x, i32::MAX);
    assert_eq!(TilePosition::from_world(point(last, last + 256)).y, i32::MAX);
}

#[test]
fn to_world_is_the_tile_origin() {
    assert_eq!(TilePosition::new(3, -2).to_world(), point(768, -512));
    assert_eq!(
        TilePosition::new(i32::MIN, i32::MAX).to_world(),
        point(-549755813888, 549755813632)
    );
}

#[test]
fn snap_world_is_idempotent() {
    for p in [point(0, 0), point(300, -300), point(-1, 255), point(i64::MAX, i64::MIN)] {
        let snapped = TilePosition::snap_world(p);
        assert_eq!(snapped, TilePosition::from_world(p).to_world());
        assert_eq!(TilePosition::snap_world(snapped), snapped);
        assert_eq!(TilePosition::from_world(snapped), TilePosition::from_world(p));
    }
    assert_eq!(TilePosition::snap_world(point(300, -300)), point(256, -512));
}

#[test]
fn offset_moves_and_wraps() {
    assert_eq!(TilePosition::new(1, 1).offset(-1, 2), TilePosition::new(0, 3));
    assert_eq!(TilePosition::new(i32::MAX, i32::MIN).offset(1, -1), TilePosition::new(i32::MIN, i32::MAX));
}

#[test]
fn vec_round_trip() {
    let tile = TilePosition::new(-4, 9);
    assert_eq!(tile.to_vec(), WorldVector { x: -4, y: 9 });
    assert_eq!(TilePosition::from_vec(tile.to_vec()), tile);
    assert_eq!(
        TilePosition::from_vec(WorldVector { x: i64::MAX, y: i64::MIN }),
        TilePosition::new(i32::MAX, i32::MIN)
    );
}

#[test]
fn world_within_compares_exact_distances() {
    assert!(world_within(point(0, 0), point(192, 0), 192));
    assert!(!world_within(point(0, 0), point(193, 0), 192));
    assert!(world_within(point(0, 0), point(115, 153), 192));
    assert!(!world_within(point(0, 0), point(136, 136), 192));
    assert!(!world_within(point(i64::MIN, 0), point(i64::MAX, 0), u32::MAX));
}

#[test]
fn new_index_is_empty() {
    let index = TileTrackedEntities::new();
    assert!(index.get_entities_in_tile(TilePosition::new(0, 0)).is_none());
}

#[test]
fn add_files_entities_in_order() {
    let mut index = TileTrackedEntities::new();
    index.add(point(10, 10), 7);
    index.add(point(300, 10), 8);
    index.add(point(255, 255), 9);
    assert_eq!(index.get_entities_in_tile(TilePosition::new(0, 0)), Some(&vec![7, 9]));
    assert_eq!(index.get_entities_in_tile(TilePosition::new(1, 0)), Some(&vec![8]));
    assert_eq!(index.get_entities_in_tile(TilePosition::new(0, 1)), None);
}

#[test]
fn get_mut_opens_the_bucket() {
    let mut index = TileTrackedEntities::new();
    index.add(point(10, 10), 7);
    assert!(index.get_entities_in_tile_mut(TilePosition::new(5, 5)).is_none());
    match index.get_entities_in_tile_mut(TilePosition::new(0, 0)) {
        Some(bucket) => bucket.push(11),
        None => panic!("the bucket is there"),
    }
    assert_eq!(index.get_entities_in_tile(TilePosition::new(0, 0)), Some(&vec![7, 11]));
}

#[test]
fn clear_leaves_nothing() {
    let mut index = TileTrackedEntities::new();
    index.add(point(10, 10), 7);
    index.clear();
    assert_eq!(index.get_entities_in_tile(TilePosition::new(0, 0)), None);
}

#[test]
fn rebuild_forgets_stale_entries() {
    let mut index = TileTrackedEntities::new();
    index.add(point(10, 10), 1);
    index.add(point(-10, 10), 2);
    let listed = vec![
        TileTrackedEntity { entity: 3, position: point(600, 0) },
        TileTrackedEntity { entity: 4, position: point(10, 10) },
        TileTrackedEntity { entity: 5, position: point(700, 100) },
    ];
    track_tile_entities(&listed, &mut index);
    assert_eq!(index.get_entities_in_tile(TilePosition::new(0, 0)), Some(&vec![4]));
    assert_eq!(index.get_entities_in_tile(TilePosition::new(2, 0)), Some(&vec![3, 5]));
    assert_eq!(index.get_entities_in_tile(TilePosition::new(-1, 0)), None);
    track_tile_entities(&Vec::new(), &mut index);
    assert_eq!(index.get_entities_in_tile(TilePosition::new(0, 0)), None);
    assert_eq!(index.get_entities_in_tile(TilePosition::new(2, 0)), None);
}
