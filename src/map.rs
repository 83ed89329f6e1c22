use vstd::prelude::*;

use crate::grid3d::Grid3d;
use crate::projection::{
    spec_zone_idx, spec_zone_xyz, zone_idx, zone_in_map, zone_xyz, MAP_DEPTH, MAP_HEIGHT, MAP_WIDTH,
    ZONE_HEIGHT, ZONE_WIDTH,
};
use crate::rng::Rand;
use crate::zone::ZoneConstraints;

verus! {

/// Marker for a zone of the overworld.
#[derive(Clone, Copy, PartialEq, Eq, Structural, Debug, Default)]
pub struct OverworldZone;

/// The crossings on the south and west edges of one zone.
pub struct ZoneContinuity {
    pub south: Vec<u8>,
    pub west: Vec<u8>,
}

/// At most one tile of the edge holds `v`.
pub open spec fn at_most_one(edge: Seq<u8>, v: u8) -> bool {
    forall|i: int, j: int| 0 <= i < edge.len() && 0 <= j < edge.len() && edge[i] == v && edge[j] == v ==> i == j
}

/// Exactly one tile of the edge holds `v`.
pub open spec fn exactly_one(edge: Seq<u8>, v: u8) -> bool {
    &&& at_most_one(edge, v)
    &&& exists|i: int| 0 <= i < edge.len() && edge[i] == v
}

/// No tile of the edge holds `v`.
pub open spec fn none_of(edge: Seq<u8>, v: u8) -> bool {
    forall|i: int| 0 <= i < edge.len() ==> edge[i] != v
}

/// An edge of `len` tiles that holds a river crossing when `river` is set
/// (unless a footpath took its tile), exactly one footpath crossing when
/// `path` is set, and nothing else; its two corner tiles stay empty.
pub open spec fn edge_ok(edge: Seq<u8>, len: nat, river: bool, path: bool) -> bool {
    &&& edge.len() == len
    &&& len >= 2
    &&& edge[0] == 0
    &&& edge[len - 1] == 0
    &&& forall|i: int| 0 <= i < len ==> #[trigger] edge[i] <= 2
    &&& (if path { exactly_one(edge, 2) } else { none_of(edge, 2) })
    &&& (!river ==> none_of(edge, 1))
    &&& (river && !path ==> exactly_one(edge, 1))
    &&& (river && path ==> at_most_one(edge, 1))
}

/// The south edge that the zone at `(x, y, z)` generates: empty outside the
/// map; on every third column above the bottom row a river crossing, on every
/// fourth a footpath crossing.
pub open spec fn south_edge_ok(x: int, y: int, z: int, edge: Seq<u8>) -> bool {
    if !zone_in_map(x, y, z) {
        edge.len() == 0
    } else {
        edge_ok(edge, ZONE_WIDTH as nat, y > 0 && x % 3 == 0, y > 0 && x % 4 == 0)
    }
}

/// The west edge that the zone at `(x, y, z)` generates: empty outside the
/// map; on every second row, right of the first column, a river crossing and
/// a footpath crossing.
pub open spec fn west_edge_ok(x: int, y: int, z: int, edge: Seq<u8>) -> bool {
    if !zone_in_map(x, y, z) {
        edge.len() == 0
    } else {
        edge_ok(edge, ZONE_HEIGHT as nat, x > 0 && y % 2 == 0, x > 0 && y % 2 == 0)
    }
}

/// The overworld: which zones exist, and the crossings between them.
pub struct WorldMap {
    zones: Grid3d<OverworldZone>,
}

impl Default for WorldMap {
    fn default() -> (r: Self)
        ensures
            r.wf(),
    {
        WorldMap::new()
    }
}

impl WorldMap {
    pub closed spec fn wf(&self) -> bool {
        &&& self.zones.wf()
        &&& self.zones.spec_width() == MAP_WIDTH
        &&& self.zones.spec_height() == MAP_HEIGHT
        &&& self.zones.spec_depth() == MAP_DEPTH
    }

    pub fn new() -> (r: Self)
        ensures
            r.wf(),
    {
        WorldMap { zones: Grid3d::init(MAP_WIDTH, MAP_HEIGHT, MAP_DEPTH, OverworldZone) }
    }

    /// One edge of `len` tiles, with a river crossing and then a footpath
    /// crossing drawn from the seeded generator `rand` where asked; a
    /// footpath drawn onto the river's tile replaces it.
    fn draw_edge(rand: &mut Rand, len: usize, river: bool, path: bool) -> (r: Vec<u8>)
        requires
            3 <= len <= 0x7fff_ffff,
            old(rand).spec_seed() is Some,
        ensures
            edge_ok(r@, len as nat, river, path),
            final(rand).spec_seed() == old(rand).spec_seed(),
    {
        let mut edge: Vec<u8> = Vec::new();
        let mut i: usize = 0;
        while i < len
            invariant
                i <= len,
                edge@ == Seq::new(i as nat, |j: int| 0u8),
            decreases len - i,
        {
            edge.push(0);
            i += 1;
        }
        assert(none_of(edge@, 1) && none_of(edge@, 2));
        if river {
            let r = rand.range_n(1, len as i32 - 1) as usize;
            edge.set(r, 1);
            assert(edge@[r as int] == 1);
            assert(exactly_one(edge@, 1));
            assert(none_of(edge@, 2));
        }
        let ghost with_river = edge@;
        assert(at_most_one(with_river, 1));
        assert(forall|i: int| 0 <= i < len ==> #[trigger] with_river[i] <= 2);
        assert(with_river[0] == 0 && with_river[len - 1] == 0);
        if path {
            let r = rand.range_n(1, len as i32 - 1) as usize;
            edge.set(r, 2);
            assert(edge@[r as int] == 2);
            assert(exactly_one(edge@, 2));
            assert(at_most_one(edge@, 1)) by {
                assert forall|i: int, j: int|
                    0 <= i < edge@.len() && 0 <= j < edge@.len() && edge@[i] == 1 && edge@[j] == 1 implies i == j by {
                    assert(with_river[i] == 1 && with_river[j] == 1);
                }
            }
            assert(!river ==> none_of(edge@, 1));
        }
        assert(forall|i: int| 0 <= i < len ==> #[trigger] edge@[i] <= 2);
        edge
    }

    /// The crossings on the south and west edges of the zone at `(x, y, z)`,
    /// drawn from a generator seeded with the zone's index.
    pub fn get_continuity(&self, x: usize, y: usize, z: usize) -> (r: ZoneContinuity)
        requires
            self.wf(),
        ensures
            south_edge_ok(x as int, y as int, z as int, r.south@),
            west_edge_ok(x as int, y as int, z as int, r.west@),
    {
        if self.zones.is_oob(x, y, z) {
            return ZoneContinuity { south: Vec::new(), west: Vec::new() };
        }
        proof {
            crate::projection::lemma_zone_idx_xyz(x as int, y as int, z as int, 0);
        }
        let idx = zone_idx(x, y, z);
        let mut rand = Rand::seed(idx as u64);
        assert(rand.spec_seed() == Some(idx as u64));
        let south = WorldMap::draw_edge(&mut rand, ZONE_WIDTH, y > 0 && x % 3 == 0, y > 0 && x % 4 == 0);
        let west = WorldMap::draw_edge(&mut rand, ZONE_HEIGHT, x > 0 && y % 2 == 0, x > 0 && y % 2 == 0);
        ZoneContinuity { south, west }
    }

    /// The crossings that the zone `idx` must honour: its own south and west
    /// edges, the south edge of the zone above it as its north edge, and the
    /// west edge of the zone to its east as its east edge.
    pub fn get_zone_constraints(&self, idx: usize) -> (r: ZoneConstraints)
        requires
            self.wf(),
        ensures
            r.idx == idx,
            ({
                let p = spec_zone_xyz(idx as int);
                &&& south_edge_ok(p.0, p.1, p.2, r.south@)
                &&& west_edge_ok(p.0, p.1, p.2, r.west@)
                &&& south_edge_ok(p.0, p.1 + 1, p.2, r.north@)
                &&& west_edge_ok(p.0 + 1, p.1, p.2, r.east@)
            }),
    {
        let (x, y, z) = zone_xyz(idx);
        assert(x < usize::MAX) by {
            assert(idx as int / 24 <= idx as int) by (nonlinear_arith)
                requires
                    idx >= 0,
            ;
        }
        let own = self.get_continuity(x, y, z);
        let east = self.get_continuity(x + 1, y, z);
        let north = self.get_continuity(x, y + 1, z);
        ZoneConstraints { idx, north: north.south, west: own.west, south: own.south, east: east.west }
    }
}

} // verus!
