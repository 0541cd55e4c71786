use tilemesh::tile_address::{
    mercator_to_tile_address, TileAddress, EARTH_HALF_CIRCUMFERENCE_MM,
};

#[test]
fn center_of_the_world_is_tile_zero() {
    // Latitude and longitude zero project to Mercator (0, 0); at zoom 0
    // the whole world is tile (0, 0, 0).
    let t = mercator_to_tile_address(0, 0, 0);
    assert_eq!(t, TileAddress { x: 0, y: 0, z: 0 });
}

#[test]
fn mercator_quadrants_at_zoom_one() {
    // At zoom 1 the world splits into 2x2 tiles; a point east and north
    // of the center lands in the top-right tile (rows count from north).
    let quarter = (EARTH_HALF_CIRCUMFERENCE_MM / 2) as i64;
    assert_eq!(mercator_to_tile_address(quarter, quarter, 1), TileAddress { x: 1, y: 0, z: 1 });
    assert_eq!(mercator_to_tile_address(-quarter, -quarter, 1), TileAddress { x: 0, y: 1, z: 1 });
}

#[test]
fn mercator_edge_is_clamped() {
    // The extreme east edge still maps to the last column.
    let half = EARTH_HALF_CIRCUMFERENCE_MM as i64;
    let t = mercator_to_tile_address(half, 0, 4);
    assert_eq!(t.x, 15);
}

#[test]
fn get_tiles_radius_one_neighborhood() {
    // A radius-1 neighborhood is exactly 9 tiles and includes the
    // center itself.
    let center = TileAddress::new(10, 20, 5);
    let tiles = center.get_tiles(1);
    assert_eq!(tiles.len(), 9);
    assert!(tiles.contains(&center));
    for t in &tiles {
        assert!(9 <= t.x && t.x <= 11);
        assert!(19 <= t.y && t.y <= 21);
        assert_eq!(t.z, 5);
    }
    // Row-major enumeration, columns first.
    assert_eq!(tiles[0], TileAddress { x: 9, y: 19, z: 5 });
    assert_eq!(tiles[4], center);
    assert_eq!(tiles[8], TileAddress { x: 11, y: 21, z: 5 });
}

#[test]
fn get_tiles_radius_zero_is_center_only() {
    let center = TileAddress::new(3, 4, 2);
    let tiles = center.get_tiles(0);
    assert_eq!(tiles, vec![center]);
}
