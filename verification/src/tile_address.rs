//! Slippy-map tile addressing: integer tile coordinates and neighborhood
//! enumeration, plus the tile lookup for a point already projected to
//! spherical-Mercator meters (the trigonometric projection itself is
//! floating point and lives in the layer above, which hands millimeters
//! in).

use vstd::prelude::*;

verus! {

/// A slippy-map tile coordinate.
#[derive(Clone, Copy, Debug, PartialEq, Eq, Structural)]
pub struct TileAddress {
    pub x: u32,
    pub y: u32,
    pub z: u32,
}

impl TileAddress {
    /// Bundles a tile coordinate.
    pub fn new(x: u32, y: u32, z: u32) -> (t: TileAddress)
        ensures
            t == (TileAddress { x, y, z }),
    {
        TileAddress { x, y, z }
    }

    /// Enumerates the square neighborhood of this tile: every address
    /// with both coordinates within `radius`, the center included, in
    /// row-major order — exactly `(2 * radius + 1)` squared addresses.
    pub fn get_tiles(&self, radius: u32) -> (tiles: Vec<TileAddress>)
        requires
            radius <= self.x,
            radius <= self.y,
            self.x + radius < u32::MAX,
            self.y + radius < u32::MAX,
            radius <= 0x3FFF_FFFF,
        ensures
            tiles@.len() == (2 * radius + 1) * (2 * radius + 1),
            forall|k: int|
                0 <= k < tiles@.len() ==> #[trigger] tiles@[k] == (TileAddress {
                    x: (self.x - radius + k / (2 * radius + 1)) as u32,
                    y: (self.y - radius + k % (2 * radius + 1)) as u32,
                    z: self.z,
                }),
            exists|k: int| 0 <= k < tiles@.len() && #[trigger] tiles@[k] == *self,
    {
        let min_x = self.x - radius;
        let max_x = self.x + radius;
        let min_y = self.y - radius;
        let max_y = self.y + radius;
        let ghost w = 2 * radius as int + 1;

        let mut tiles: Vec<TileAddress> = Vec::new();
        let mut x = min_x;
        while x <= max_x
            invariant
                min_x == self.x - radius,
                max_x == self.x + radius,
                min_y == self.y - radius,
                max_y == self.y + radius,
                w == 2 * radius as int + 1,
                radius <= 0x3FFF_FFFF,
                max_x < u32::MAX,
                max_y < u32::MAX,
                min_x <= x <= max_x + 1,
                tiles@.len() == (x - min_x) * w,
                forall|k: int|
                    0 <= k < tiles@.len() ==> #[trigger] tiles@[k] == (TileAddress {
                        x: (min_x + k / w) as u32,
                        y: (min_y + k % w) as u32,
                        z: self.z,
                    }),
            decreases max_x + 1 - x,
        {
            let ghost i = x as int - min_x as int;
            let ghost len_before = tiles@.len() as int;
            let mut y = min_y;
            while y <= max_y
                invariant
                    min_y == self.y - radius,
                    max_y == self.y + radius,
                    w == 2 * radius as int + 1,
                    radius <= 0x3FFF_FFFF,
                    max_y < u32::MAX,
                    min_y <= y <= max_y + 1,
                    min_x <= x <= max_x,
                    i == x - min_x,
                    len_before == i * w,
                    tiles@.len() == len_before + (y - min_y),
                    forall|k: int|
                        0 <= k < tiles@.len() ==> #[trigger] tiles@[k] == (TileAddress {
                            x: (min_x + k / w) as u32,
                            y: (min_y + k % w) as u32,
                            z: self.z,
                        }),
                decreases max_y + 1 - y,
            {
                let ghost j = y as int - min_y as int;
                tiles.push(TileAddress { x, y, z: self.z });
                proof {
                    let k = len_before + j;
                    vstd::arithmetic::div_mod::lemma_fundamental_div_mod_converse(k, w, i, j);
                    assert(k / w == i && k % w == j);
                    assert(tiles@[k] == (TileAddress {
                        x: (min_x + k / w) as u32,
                        y: (min_y + k % w) as u32,
                        z: self.z,
                    }));
                }
                y = y + 1;
            }
            proof {
                assert(tiles@.len() == i * w + w);
                assert((i + 1) * w == i * w + w) by (nonlinear_arith);
            }
            x = x + 1;
        }
        proof {
            assert(tiles@.len() == w * w) by (nonlinear_arith)
                requires
                    tiles@.len() == ((max_x - min_x + 1) as int) * w,
                    w == max_x - min_x + 1,
            ;
            let kc = radius as int * w + radius as int;
            vstd::arithmetic::div_mod::lemma_fundamental_div_mod_converse(
                kc,
                w,
                radius as int,
                radius as int,
            );
            assert(0 <= kc < w * w) by (nonlinear_arith)
                requires
                    w == 2 * radius as int + 1,
                    kc == radius as int * w + radius as int,
                    radius >= 0,
            ;
            assert(tiles@[kc] == *self);
        }
        tiles
    }
}

/// The earth's circumference along the equator, in millimeters, as the
/// spherical-Mercator projection uses it.
pub const EARTH_CIRCUMFERENCE_MM: u64 = 40_075_016_686;

/// Half the earth's circumference in millimeters: the Mercator plane
/// spans `[-half, half]` in both axes.
pub const EARTH_HALF_CIRCUMFERENCE_MM: u64 = 20_037_508_343;

/// How many tiles span the world at a zoom level.
pub open spec fn spec_tiles_across(zoom: u32) -> int {
    (1u64 << zoom) as int
}

/// The tile column of a Mercator `x` in millimeters: offset into
/// `[0, circumference]`, divided by the world-span per tile, clamped to
/// the last column.
pub open spec fn spec_mercator_tile_coord(offset_mm: int, zoom: u32) -> int {
    let per_tile = EARTH_CIRCUMFERENCE_MM as int / spec_tiles_across(zoom);
    let t = offset_mm / per_tile;
    if t >= spec_tiles_across(zoom) {
        spec_tiles_across(zoom) - 1
    } else {
        t
    }
}

/// The tile address containing a point given in spherical-Mercator
/// millimeters, east and north of the projection's center.  The `y`
/// axis is flipped: tile rows count from the north edge.
pub fn mercator_to_tile_address(x_mm: i64, y_mm: i64, zoom: u32) -> (t: TileAddress)
    requires
        zoom <= 30,
        -(EARTH_HALF_CIRCUMFERENCE_MM as i64) <= x_mm <= EARTH_HALF_CIRCUMFERENCE_MM as i64,
        -(EARTH_HALF_CIRCUMFERENCE_MM as i64) <= y_mm <= EARTH_HALF_CIRCUMFERENCE_MM as i64,
    ensures
        t.x == spec_mercator_tile_coord(x_mm + EARTH_HALF_CIRCUMFERENCE_MM, zoom),
        t.y == spec_mercator_tile_coord(EARTH_HALF_CIRCUMFERENCE_MM - y_mm, zoom),
        t.z == zoom,
        t.x < spec_tiles_across(zoom),
        t.y < spec_tiles_across(zoom),
{
    let tiles_across = 1u64 << zoom;
    proof {
        assert(1u64 <= (1u64 << zoom) <= 0x4000_0000u64) by (bit_vector)
            requires
                zoom <= 30u32,
        ;
        assert(EARTH_CIRCUMFERENCE_MM as int / (tiles_across as int) >= 1) by (nonlinear_arith)
            requires
                1 <= tiles_across as int <= 0x4000_0000,
                EARTH_CIRCUMFERENCE_MM == 40_075_016_686u64,
        ;
    }
    let per_tile = EARTH_CIRCUMFERENCE_MM / tiles_across;

    let sx = (x_mm + EARTH_HALF_CIRCUMFERENCE_MM as i64) as u64;
    let sy = (EARTH_HALF_CIRCUMFERENCE_MM as i64 - y_mm) as u64;
    let tx64 = sx / per_tile;
    let ty64 = sy / per_tile;
    let tx = if tx64 >= tiles_across {
        tiles_across - 1
    } else {
        tx64
    };
    let ty = if ty64 >= tiles_across {
        tiles_across - 1
    } else {
        ty64
    };
    TileAddress { x: tx as u32, y: ty as u32, z: zoom }
}

} // verus!
