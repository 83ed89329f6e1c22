//! Zone-based tile world: dense grids, a best-first search used to carve
//! terrain, a deterministic zone generator and the streaming rules that decide
//! which zones stay resident.

pub mod astar;
pub mod colors;
pub mod distance;
pub mod grid;
pub mod grid3d;
pub mod map;
pub mod math;
pub mod priority_queue;
pub mod projection;
pub mod rng;
pub mod search_spaces;
pub mod simple_zone;
pub mod streaming;
pub mod zone;
pub mod zone_builder;

pub use astar::{astar, AStarResult, AStarSettings, SearchSpace};
pub use colors::{hex, Palette};
pub use distance::{Distance, DistanceFormula};
pub use grid::{lemma_set_then_get, Grid};
pub use grid3d::Grid3d;
pub use map::{OverworldZone, WorldMap, ZoneContinuity};
pub use math::{max_3, min_3, min_max, min_max_3};
pub use priority_queue::PriorityQueue;
pub use projection::{
    is_in_bounds, lemma_zone_idx_xyz, world_to_px, world_to_zone_idx, world_to_zone_local, zone_idx,
    zone_local_to_world, zone_xyz, MAP_DEPTH, MAP_HEIGHT, MAP_WIDTH, TILE_HEIGHT, TILE_WIDTH, ZONE_HEIGHT,
    ZONE_WIDTH, Z_LAYER_ACTORS, Z_LAYER_GROUND, Z_LAYER_SNAPSHOT,
};
pub use rng::Rand;
pub use search_spaces::{zone_neighbors, FootpathSpace, GridSpace, RiverSpace, HEIGHT_SCALE, ZONE_CELLS};
pub use simple_zone::{carve_paths, crossings, lemma_build_deterministic, EdgeSide, SimpleZoneBuilder, MAX_SEARCH_DEPTH};
pub use streaming::{is_zone_visible, needed_zones, plan_zone_updates, ZoneUpdates, Zones};
pub use zone::{lemma_save_load_round_trip, Terrain, Zone, ZoneConstraints, ZoneData, ZoneStatus};
pub use zone_builder::{
    bool_snapshot, edge_snapshot, rand_grid, terrain_snapshot, TileSnapColor, ZoneBuilder, ZoneSnapshot,
};
