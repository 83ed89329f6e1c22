use vstd::prelude::*;

use crate::grid3d::{coords3, in_box3, index3, lemma_coords_of_index3, lemma_index_of_coords3};

verus! {

/// Size of the world, in zones.
pub const MAP_WIDTH: usize = 8;
pub const MAP_HEIGHT: usize = 6;
pub const MAP_DEPTH: usize = 4;

/// Size of a zone, in tiles.
pub const ZONE_WIDTH: usize = 40;
pub const ZONE_HEIGHT: usize = 20;

/// Size of a tile, in texels.
pub const TILE_WIDTH: usize = 16;
pub const TILE_HEIGHT: usize = 24;

pub const Z_LAYER_GROUND: usize = 0;
pub const Z_LAYER_ACTORS: usize = 1;
pub const Z_LAYER_SNAPSHOT: usize = 8;

/// The index of the zone at `(x, y, z)`.
pub open spec fn spec_zone_idx(x: int, y: int, z: int) -> int {
    index3(MAP_HEIGHT as int, MAP_DEPTH as int, x, y, z)
}

/// The position of the zone with index `idx`.
pub open spec fn spec_zone_xyz(idx: int) -> (int, int, int) {
    coords3(MAP_HEIGHT as int, MAP_DEPTH as int, idx)
}

pub open spec fn zone_in_map(x: int, y: int, z: int) -> bool {
    in_box3(MAP_WIDTH as int, MAP_HEIGHT as int, MAP_DEPTH as int, x, y, z)
}

/// The number of zones in the world.
pub open spec fn zone_count() -> int {
    (MAP_WIDTH * MAP_HEIGHT * MAP_DEPTH) as int
}

/// Converts a zone position to a zone index.
pub fn zone_idx(x: usize, y: usize, z: usize) -> (r: usize)
    requires
        spec_zone_idx(x as int, y as int, z as int) <= usize::MAX,
    ensures
        r == spec_zone_idx(x as int, y as int, z as int),
{
    x * MAP_HEIGHT * MAP_DEPTH + y * MAP_DEPTH + z
}

/// Converts a zone index to a zone position.
pub fn zone_xyz(zone_idx: usize) -> (r: (usize, usize, usize))
    ensures
        (r.0 as int, r.1 as int, r.2 as int) == spec_zone_xyz(zone_idx as int),
{
    (zone_idx / (MAP_HEIGHT * MAP_DEPTH), (zone_idx / MAP_DEPTH) % MAP_HEIGHT, zone_idx % MAP_DEPTH)
}

/// Zone positions and zone indices are two views of the same zones: the
/// index of a position inside the map converts back to that position, and
/// each index of the map converts to a position inside the map whose index
/// it is.
pub proof fn lemma_zone_idx_xyz(x: int, y: int, z: int, idx: int)
    ensures
        zone_in_map(x, y, z) ==> spec_zone_xyz(spec_zone_idx(x, y, z)) == (x, y, z) && 0 <= spec_zone_idx(
            x,
            y,
            z,
        ) < zone_count(),
        0 <= idx < zone_count() ==> {
            let p = spec_zone_xyz(idx);
            zone_in_map(p.0, p.1, p.2) && spec_zone_idx(p.0, p.1, p.2) == idx
        },
{
    if zone_in_map(x, y, z) {
        lemma_coords_of_index3(MAP_WIDTH as int, MAP_HEIGHT as int, MAP_DEPTH as int, x, y, z);
    }
    if 0 <= idx < zone_count() {
        lemma_index_of_coords3(MAP_WIDTH as int, MAP_HEIGHT as int, MAP_DEPTH as int, idx);
    }
}

/// Converts world coordinates to coordinates inside their zone.
pub fn world_to_zone_local(x: usize, y: usize) -> (r: (usize, usize))
    ensures
        r.0 == x % ZONE_WIDTH,
        r.1 == y % ZONE_HEIGHT,
{
    (x % ZONE_WIDTH, y % ZONE_HEIGHT)
}

/// Converts coordinates inside the zone `zone_idx` to world coordinates.
pub fn zone_local_to_world(zone_idx: usize, x: usize, y: usize) -> (r: (usize, usize, usize))
    requires
        spec_zone_xyz(zone_idx as int).0 * ZONE_WIDTH + x <= usize::MAX,
        spec_zone_xyz(zone_idx as int).1 * ZONE_HEIGHT + y <= usize::MAX,
    ensures
        r.0 == spec_zone_xyz(zone_idx as int).0 * ZONE_WIDTH + x,
        r.1 == spec_zone_xyz(zone_idx as int).1 * ZONE_HEIGHT + y,
        r.2 == spec_zone_xyz(zone_idx as int).2,
{
    let cpos = zone_xyz(zone_idx);
    (cpos.0 * ZONE_WIDTH + x, cpos.1 * ZONE_HEIGHT + y, cpos.2)
}

/// The index of the zone that holds the world coordinates `(x, y, z)`.
pub fn world_to_zone_idx(x: usize, y: usize, z: usize) -> (r: usize)
    requires
        spec_zone_idx(x as int / ZONE_WIDTH as int, y as int / ZONE_HEIGHT as int, z as int) <= usize::MAX,
    ensures
        r == spec_zone_idx(x as int / ZONE_WIDTH as int, y as int / ZONE_HEIGHT as int, z as int),
{
    zone_idx(x / ZONE_WIDTH, y / ZONE_HEIGHT, z)
}

/// Converts world coordinates to pixels.
pub fn world_to_px(x: usize, y: usize) -> (r: (usize, usize))
    requires
        x * TILE_WIDTH <= usize::MAX,
        y * TILE_HEIGHT <= usize::MAX,
    ensures
        r.0 == x * TILE_WIDTH,
        r.1 == y * TILE_HEIGHT,
{
    (x * TILE_WIDTH, y * TILE_HEIGHT)
}

/// True for the world coordinates strictly inside the world on every axis
/// but the upper ones, where the bound is exclusive.
pub fn is_in_bounds(x: u32, y: u32, z: u32) -> (r: bool)
    ensures
        r == (x > 0 && y > 0 && z > 0 && x < MAP_WIDTH * ZONE_WIDTH && y < MAP_HEIGHT * ZONE_HEIGHT && z
            < MAP_DEPTH),
{
    x > 0 && y > 0 && z > 0 && x < (MAP_WIDTH * ZONE_WIDTH) as u32 && y < (MAP_HEIGHT * ZONE_HEIGHT) as u32
        && z < MAP_DEPTH as u32
}

} // verus!
