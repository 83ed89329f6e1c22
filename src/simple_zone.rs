use vstd::prelude::*;

use crate::astar::{astar, astar_model, AStarResult, AStarSettings, SearchSpace};
use crate::grid::Grid;
use crate::projection::{ZONE_HEIGHT, ZONE_WIDTH};
use crate::search_spaces::{
    adjacent, at_cell, cell_distance, cell_of, cell_x, cell_y, footpath_step_cost, lemma_cell_coords, lemma_cell_split,
    lemma_neighbors8, neighbors8, river_step_cost, zone_grid_ok, FootpathSpace, RiverSpace, ZONE_CELLS,
};
use crate::zone::{Terrain, ZoneConstraints, ZoneData};
use crate::zone_builder::{bool_snapshot, edge_snapshot, rand_grid, terrain_snapshot, ZoneBuilder, ZoneSnapshot};

verus! {

/// The most rounds that one carving search takes by default.
pub const MAX_SEARCH_DEPTH: u32 = 10000;

/// The edges of a zone.
#[derive(Clone, Copy, PartialEq, Eq, Structural, Debug)]
pub enum EdgeSide {
    South,
    North,
    West,
    East,
}

/// The number of tiles along an edge.
pub open spec fn edge_limit(side: EdgeSide) -> int {
    match side {
        EdgeSide::South | EdgeSide::North => ZONE_WIDTH as int,
        EdgeSide::West | EdgeSide::East => ZONE_HEIGHT as int,
    }
}

/// The tile at offset `i` along an edge.
pub open spec fn edge_point(side: EdgeSide, i: int) -> (usize, usize) {
    match side {
        EdgeSide::South => (i as usize, 0usize),
        EdgeSide::North => (i as usize, (ZONE_HEIGHT - 1) as usize),
        EdgeSide::West => (0usize, i as usize),
        EdgeSide::East => ((ZONE_WIDTH - 1) as usize, i as usize),
    }
}

/// The tiles of the first `n` entries of an edge that hold the marker `v`.
pub open spec fn edge_points(edge: Seq<u8>, v: u8, side: EdgeSide, n: int) -> Seq<(usize, usize)>
    decreases n,
{
    if n <= 0 {
        Seq::empty()
    } else {
        let before = edge_points(edge, v, side, n - 1);
        if edge[n - 1] == v {
            before.push(edge_point(side, n - 1))
        } else {
            before
        }
    }
}

/// The tiles of an edge that hold the marker `v`; entries past the edge's
/// length are not part of it.
pub open spec fn side_points(edge: Seq<u8>, v: u8, side: EdgeSide) -> Seq<(usize, usize)> {
    let n = if edge.len() < edge_limit(side) { edge.len() as int } else { edge_limit(side) };
    edge_points(edge, v, side, n)
}

/// The tiles of all four edges that hold the marker `v`: south, north, west,
/// then east.
pub open spec fn marker_points(c: ZoneConstraints, v: u8) -> Seq<(usize, usize)> {
    side_points(c.south@, v, EdgeSide::South) + side_points(c.north@, v, EdgeSide::North) + side_points(
        c.west@,
        v,
        EdgeSide::West,
    ) + side_points(c.east@, v, EdgeSide::East)
}

pub open spec fn zone_center() -> (usize, usize) {
    ((ZONE_WIDTH / 2) as usize, (ZONE_HEIGHT / 2) as usize)
}

/// The points a network of one kind must join: the marker tiles, and the
/// centre of the zone when there is only one of them.
pub open spec fn crossing_points(c: ZoneConstraints, v: u8) -> Seq<(usize, usize)> {
    let m = marker_points(c, v);
    if m.len() == 1 {
        m.push(zone_center())
    } else {
        m
    }
}

pub open spec fn point_in_zone(p: (usize, usize)) -> bool {
    p.0 < ZONE_WIDTH && p.1 < ZONE_HEIGHT
}

pub open spec fn cell_of_point(p: (usize, usize)) -> int {
    cell_of(p.0 as int, p.1 as int)
}

/// `p` runs from the tile `b` back to the tile `a` over adjacent tiles that
/// all hold `kind`.
pub open spec fn chain_of(t: Grid<Terrain>, kind: Terrain, p: Seq<usize>, a: int, b: int) -> bool {
    &&& p.len() >= 1
    &&& p[0] == b
    &&& p.last() == a
    &&& forall|k: int| 0 <= k < p.len() ==> #[trigger] p[k] < ZONE_CELLS && at_cell(&t, p[k] as int) == kind
    &&& forall|k: int| 0 <= k < p.len() - 1 ==> adjacent(#[trigger] p[k + 1] as int, p[k] as int)
}

/// The tiles `a` and `b` are joined by an unbroken chain of `kind` tiles.
pub open spec fn joined_by(t: Grid<Terrain>, kind: Terrain, a: int, b: int) -> bool {
    exists|p: Seq<usize>| chain_of(t, kind, p, a, b)
}

/// The pair of points `(i, j)`, `i < j`, is joined by `kind` tiles.
pub open spec fn pair_ok(t: Grid<Terrain>, kind: Terrain, points: Seq<(usize, usize)>, pr: (usize, usize)) -> bool {
    &&& pr.0 < pr.1 < points.len()
    &&& joined_by(t, kind, cell_of_point(points[pr.0 as int]), cell_of_point(points[pr.1 as int]))
}

/// Every tile of `t1` that holds `kind` still holds it in `t2`.
pub open spec fn keeps_kind(t1: Grid<Terrain>, t2: Grid<Terrain>, kind: Terrain) -> bool {
    forall|x: int, y: int| t1.in_bounds(x, y) && t1.at(x, y) == kind ==> #[trigger] t2.at(x, y) == kind
}

/// Every tile of `t2` holds what it held in `t1`, or `kind`.
pub open spec fn only_painted(t1: Grid<Terrain>, t2: Grid<Terrain>, kind: Terrain) -> bool {
    forall|x: int, y: int| t1.in_bounds(x, y) ==> #[trigger] t2.at(x, y) == t1.at(x, y) || t2.at(x, y) == kind
}

proof fn lemma_joined_kept(t1: Grid<Terrain>, t2: Grid<Terrain>, kind: Terrain, a: int, b: int)
    requires
        zone_grid_ok(&t1),
        joined_by(t1, kind, a, b),
        keeps_kind(t1, t2, kind),
    ensures
        joined_by(t2, kind, a, b),
{
    let p = choose|p: Seq<usize>| chain_of(t1, kind, p, a, b);
    assert forall|k: int| 0 <= k < p.len() implies #[trigger] p[k] < ZONE_CELLS && at_cell(&t2, p[k] as int) == kind by {
        lemma_cell_split(p[k] as int);
    }
    assert(chain_of(t2, kind, p, a, b));
}


/// The storage position of the tile that the state `s` stands for.
pub open spec fn cell_index(s: int) -> int {
    crate::grid::grid_index(ZONE_HEIGHT as int, cell_x(s), cell_y(s))
}

/// The step costs of carving a river over the given fields.
pub open spec fn river_costs(t: Seq<Terrain>, h: Seq<u32>, j: Seq<bool>) -> spec_fn(usize, usize) -> Option<u64> {
    |a: usize, b: usize| Some(river_step_cost(t[cell_index(b as int)], h[cell_index(b as int)], j[cell_index(b as int)]) as u64)
}

/// The step costs of carving a footpath over the given fields.
pub open spec fn footpath_costs(t: Seq<Terrain>, j: Seq<bool>) -> spec_fn(usize, usize) -> Option<u64> {
    |a: usize, b: usize| Some(footpath_step_cost(t[cell_index(b as int)], j[cell_index(b as int)]) as u64)
}

pub open spec fn goal_is(goal: usize) -> spec_fn(usize) -> bool {
    |s: usize| s == goal
}

pub open spec fn distance_to(goal: usize) -> spec_fn(usize) -> u64 {
    |s: usize| cell_distance(s as int, goal as int) as u64
}

pub open spec fn zone_neighbor_fn() -> spec_fn(usize) -> Seq<usize> {
    |s: usize| neighbors8(s as int)
}

/// The carving search from `start` to `goal` over the terrain cells `t`.
pub open spec fn search_model(
    t: Seq<Terrain>,
    river: bool,
    h: Seq<u32>,
    j: Seq<bool>,
    start: usize,
    goal: usize,
    max_depth: nat,
) -> (bool, Seq<usize>, u64) {
    astar_model(
        ZONE_CELLS as nat,
        goal_is(goal),
        if river { river_costs(t, h, j) } else { footpath_costs(t, j) },
        distance_to(goal),
        zone_neighbor_fn(),
        start,
        max_depth,
    )
}

/// The cells with every tile of `path` painted `kind`.
pub open spec fn paint_cells(cells: Seq<Terrain>, path: Seq<usize>, kind: Terrain) -> Seq<Terrain> {
    Seq::new(cells.len(), |k: int| if path.contains(k as usize) { kind } else { cells[k] })
}

/// The cells after carving every pair of points from the pair `(i, j)` on,
/// pairs taken in order with `i < j`.
pub open spec fn carve_rest(
    cells: Seq<Terrain>,
    points: Seq<(usize, usize)>,
    river: bool,
    h: Seq<u32>,
    jit: Seq<bool>,
    max_depth: nat,
    i: int,
    j: int,
) -> Seq<Terrain>
    decreases points.len() - i, points.len() - j,
{
    if i >= points.len() {
        cells
    } else if j >= points.len() {
        carve_rest(cells, points, river, h, jit, max_depth, i + 1, i + 2)
    } else {
        let r = search_model(
            cells,
            river,
            h,
            jit,
            cell_of_point(points[i]) as usize,
            cell_of_point(points[j]) as usize,
            max_depth,
        );
        let next = if r.0 && r.1.len() > 0 {
            paint_cells(cells, r.1, if river { Terrain::River } else { Terrain::Footpath })
        } else {
            cells
        };
        carve_rest(next, points, river, h, jit, max_depth, i, j + 1)
    }
}

/// The pairs, from the pair `(i, j)` on, whose carving search succeeds with
/// a path, in the order they are tried.
pub open spec fn carve_joins(
    cells: Seq<Terrain>,
    points: Seq<(usize, usize)>,
    river: bool,
    h: Seq<u32>,
    jit: Seq<bool>,
    max_depth: nat,
    i: int,
    j: int,
) -> Seq<(usize, usize)>
    decreases points.len() - i, points.len() - j,
{
    if i >= points.len() {
        Seq::empty()
    } else if j >= points.len() {
        carve_joins(cells, points, river, h, jit, max_depth, i + 1, i + 2)
    } else {
        let r = search_model(
            cells,
            river,
            h,
            jit,
            cell_of_point(points[i]) as usize,
            cell_of_point(points[j]) as usize,
            max_depth,
        );
        if r.0 && r.1.len() > 0 {
            let next = paint_cells(cells, r.1, if river { Terrain::River } else { Terrain::Footpath });
            seq![(i as usize, j as usize)] + carve_joins(next, points, river, h, jit, max_depth, i, j + 1)
        } else {
            carve_joins(cells, points, river, h, jit, max_depth, i, j + 1)
        }
    }
}

/// Searches for a carving path from `start` to `goal` over the current
/// terrain: a river's costs when `river` is set, a footpath's otherwise.
fn search(
    terrain: &Grid<Terrain>,
    river: bool,
    height: &Grid<u32>,
    jitter: &Grid<bool>,
    start: usize,
    goal: usize,
    max_depth: u32,
) -> (r: AStarResult)
    requires
        zone_grid_ok(terrain),
        zone_grid_ok(height),
        zone_grid_ok(jitter),
        start < ZONE_CELLS,
        goal < ZONE_CELLS,
    ensures
        (r.is_success, r.path@, r.cost) == search_model(terrain.cells(), river, height.cells(), jitter.cells(), start, goal, max_depth as nat),
        forall|k: int| 0 <= k < r.path@.len() ==> #[trigger] r.path@[k] < ZONE_CELLS,
        r.path@.len() > 0 ==> {
            &&& r.path@[0] == goal
            &&& r.path@.last() == start
            &&& forall|k: int| 0 <= k < r.path@.len() - 1 ==> adjacent(#[trigger] r.path@[k + 1] as int, r.path@[k] as int)
        },
{
    let ghost gf = goal_is(goal);
    let ghost hf = distance_to(goal);
    let ghost nf = zone_neighbor_fn();
    let r = if river {
        let ghost space = RiverSpace { terrain, height, jitter, goal };
        let r = astar(
            AStarSettings {
                start,
                space: RiverSpace { terrain, height, jitter, goal },
                max_depth,
            },
        );
        proof {
            assert(crate::astar::goal_fn(space) =~= gf);
            assert(crate::astar::heuristic_fn(space) =~= hf);
            assert(crate::astar::neighbors_fn(space) =~= nf);
            assert(crate::astar::cost_fn(space) =~= river_costs(terrain.cells(), height.cells(), jitter.cells()));
            assert(space.spec_num_states() == ZONE_CELLS);
            assert(crate::astar::astar_spec(space, start, max_depth as nat) == search_model(terrain.cells(), river, height.cells(), jitter.cells(), start, goal, max_depth as nat));
        }
        r
    } else {
        let ghost space = FootpathSpace { terrain, jitter, goal };
        let r = astar(AStarSettings { start, space: FootpathSpace { terrain, jitter, goal }, max_depth });
        proof {
            assert(crate::astar::goal_fn(space) =~= gf);
            assert(crate::astar::heuristic_fn(space) =~= hf);
            assert(crate::astar::neighbors_fn(space) =~= nf);
            assert(crate::astar::cost_fn(space) =~= footpath_costs(terrain.cells(), jitter.cells()));
            assert(space.spec_num_states() == ZONE_CELLS);
            assert(crate::astar::astar_spec(space, start, max_depth as nat) == search_model(terrain.cells(), river, height.cells(), jitter.cells(), start, goal, max_depth as nat));
        }
        r
    };
    proof {
        if r.path@.len() > 0 {
            assert forall|k: int| 0 <= k < r.path@.len() - 1 implies adjacent(#[trigger] r.path@[k + 1] as int, r.path@[k] as int) by {
                let a = r.path@[k + 1];
                let b = r.path@[k];
                assert(neighbors8(a as int).contains(b));
                lemma_neighbors8(a as int);
                let m = choose|m: int| 0 <= m < neighbors8(a as int).len() && neighbors8(a as int)[m] == b;
                assert(adjacent(a as int, neighbors8(a as int)[m] as int));
            }
        }
    }
    r
}

/// Paints `kind` on every tile of `path`.
fn paint(terrain: &mut Grid<Terrain>, path: &Vec<usize>, kind: Terrain)
    requires
        zone_grid_ok(old(terrain)),
        forall|k: int| 0 <= k < path@.len() ==> #[trigger] path@[k] < ZONE_CELLS,
    ensures
        zone_grid_ok(final(terrain)),
        only_painted(*old(terrain), *final(terrain), kind),
        keeps_kind(*old(terrain), *final(terrain), kind),
        forall|k: int| 0 <= k < path@.len() ==> at_cell(final(terrain), #[trigger] path@[k] as int) == kind,
        final(terrain).cells() == paint_cells(old(terrain).cells(), path@, kind),
{
    let mut k: usize = 0;
    assert(terrain.cells() =~= paint_cells(old(terrain).cells(), path@.subrange(0, 0), kind));
    while k < path.len()
        invariant
            zone_grid_ok(old(terrain)),
            zone_grid_ok(terrain),
            k <= path@.len(),
            forall|k: int| 0 <= k < path@.len() ==> #[trigger] path@[k] < ZONE_CELLS,
            only_painted(*old(terrain), *terrain, kind),
            keeps_kind(*old(terrain), *terrain, kind),
            forall|m: int| 0 <= m < k ==> at_cell(terrain, #[trigger] path@[m] as int) == kind,
            terrain.cells() == paint_cells(old(terrain).cells(), path@.subrange(0, k as int), kind),
        decreases path@.len() - k,
    {
        let s = path[k];
        let (x, y) = terrain.xy(s);
        let ghost prev = *terrain;
        terrain.set(x, y, kind);
        proof {
            let before = path@.subrange(0, k as int);
            let after = path@.subrange(0, k + 1);
            assert forall|m: usize| #[trigger] after.contains(m) <==> (before.contains(m) || m == s) by {
                if after.contains(m) {
                    let q = choose|q: int| 0 <= q < after.len() && after[q] == m;
                    if q < k {
                        assert(before[q] == m);
                    }
                }
                if before.contains(m) {
                    let q = choose|q: int| 0 <= q < before.len() && before[q] == m;
                    assert(after[q] == m);
                }
                if m == s {
                    assert(after[k as int] == m);
                }
            }
            assert(terrain.cells() =~= paint_cells(old(terrain).cells(), after, kind));
            crate::grid::lemma_set_then_get(prev, *terrain, x as int, y as int, kind);
            lemma_cell_split(s as int);
            assert forall|m: int| 0 <= m < k + 1 implies at_cell(terrain, #[trigger] path@[m] as int) == kind by {
                lemma_cell_split(path@[m] as int);
            }
            assert forall|i: int, j: int| old(terrain).in_bounds(i, j) implies #[trigger] terrain.at(i, j) == old(terrain).at(i, j) || terrain.at(i, j) == kind by {
                assert(prev.at(i, j) == old(terrain).at(i, j) || prev.at(i, j) == kind);
                assert(prev.in_bounds(i, j));
                if i != x || j != y {
                    assert(terrain.at(i, j) == prev.at(i, j));
                }
            }
            assert forall|i: int, j: int| old(terrain).in_bounds(i, j) && old(terrain).at(i, j) == kind implies #[trigger] terrain.at(i, j) == kind by {
                assert(prev.at(i, j) == kind);
                assert(prev.in_bounds(i, j));
                if i != x || j != y {
                    assert(terrain.at(i, j) == prev.at(i, j));
                }
            }
        }
        k += 1;
    }
    assert(path@.subrange(0, path@.len() as int) == path@);
}

/// Tries to join every pair of `points` with a carved path of River (when
/// `river` is set) or Footpath tiles, and returns the pairs `(i, j)`, `i < j`,
/// whose search succeeded within `max_depth` rounds. A failed search leaves
/// the terrain as it was.
///
/// Each returned pair is joined, in the carved terrain, by an unbroken chain
/// of tiles of the carved kind; carving only ever adds tiles of that kind.
pub fn carve_paths(
    terrain: &mut Grid<Terrain>,
    points: &Vec<(usize, usize)>,
    river: bool,
    height: &Grid<u32>,
    jitter: &Grid<bool>,
    max_depth: u32,
) -> (joined: Vec<(usize, usize)>)
    requires
        zone_grid_ok(old(terrain)),
        zone_grid_ok(height),
        zone_grid_ok(jitter),
        forall|k: int| 0 <= k < points@.len() ==> point_in_zone(#[trigger] points@[k]),
    ensures
        zone_grid_ok(final(terrain)),
        final(terrain).cells() == carve_rest(
            old(terrain).cells(),
            points@,
            river,
            height.cells(),
            jitter.cells(),
            max_depth as nat,
            0,
            1,
        ),
        joined@ == carve_joins(
            old(terrain).cells(),
            points@,
            river,
            height.cells(),
            jitter.cells(),
            max_depth as nat,
            0,
            1,
        ),
        points@.len() < 2 ==> *final(terrain) == *old(terrain),
        only_painted(*old(terrain), *final(terrain), if river { Terrain::River } else { Terrain::Footpath }),
        keeps_kind(*old(terrain), *final(terrain), if river { Terrain::River } else { Terrain::Footpath }),
        forall|k: int|
            0 <= k < joined@.len() ==> pair_ok(
                *final(terrain),
                if river { Terrain::River } else { Terrain::Footpath },
                points@,
                #[trigger] joined@[k],
            ),
{
    let kind = if river {
        Terrain::River
    } else {
        Terrain::Footpath
    };
    let mut joined: Vec<(usize, usize)> = Vec::new();
    let n = points.len();
    let ghost target = carve_rest(old(terrain).cells(), points@, river, height.cells(), jitter.cells(), max_depth as nat, 0, 1);
    let ghost target_joins = carve_joins(old(terrain).cells(), points@, river, height.cells(), jitter.cells(), max_depth as nat, 0, 1);
    let mut i: usize = 0;
    while i < n
        invariant
            carve_rest(terrain.cells(), points@, river, height.cells(), jitter.cells(), max_depth as nat, i as int, i + 1) == target,
            joined@ + carve_joins(terrain.cells(), points@, river, height.cells(), jitter.cells(), max_depth as nat, i as int, i + 1) == target_joins,
            i <= n,
            n == points@.len(),
            zone_grid_ok(old(terrain)),
            zone_grid_ok(terrain),
            zone_grid_ok(height),
            zone_grid_ok(jitter),
            kind == (if river { Terrain::River } else { Terrain::Footpath }),
            forall|k: int| 0 <= k < points@.len() ==> point_in_zone(#[trigger] points@[k]),
            only_painted(*old(terrain), *terrain, kind),
            keeps_kind(*old(terrain), *terrain, kind),
            forall|k: int| 0 <= k < joined@.len() ==> pair_ok(*terrain, kind, points@, #[trigger] joined@[k]),
            n < 2 ==> *terrain == *old(terrain),
        decreases n - i,
    {
        let mut j: usize = i + 1;
        while j < n
            invariant
                carve_rest(terrain.cells(), points@, river, height.cells(), jitter.cells(), max_depth as nat, i as int, j as int) == target,
                joined@ + carve_joins(terrain.cells(), points@, river, height.cells(), jitter.cells(), max_depth as nat, i as int, j as int) == target_joins,
                n == points@.len(),
                i < n,
                i < j <= n,
                zone_grid_ok(old(terrain)),
                zone_grid_ok(terrain),
                zone_grid_ok(height),
                zone_grid_ok(jitter),
                kind == (if river { Terrain::River } else { Terrain::Footpath }),
                forall|k: int| 0 <= k < points@.len() ==> point_in_zone(#[trigger] points@[k]),
                only_painted(*old(terrain), *terrain, kind),
                keeps_kind(*old(terrain), *terrain, kind),
                forall|k: int| 0 <= k < joined@.len() ==> pair_ok(*terrain, kind, points@, #[trigger] joined@[k]),
                n < 2 ==> *terrain == *old(terrain),
            decreases n - j,
        {
            let first = points[i];
            let second = points[j];
            proof {
                assert(point_in_zone(points@[i as int]));
                assert(point_in_zone(points@[j as int]));
                lemma_cell_coords(first.0 as int, first.1 as int);
                lemma_cell_coords(second.0 as int, second.1 as int);
            }
            let start = first.0 * ZONE_HEIGHT + first.1;
            let goal = second.0 * ZONE_HEIGHT + second.1;
            let ghost cells0 = terrain.cells();
            let ghost joined0 = joined@;
            let result = search(terrain, river, height, jitter, start, goal, max_depth);
            proof {
                assert(start as int == cell_of_point(points@[i as int]));
                assert(goal as int == cell_of_point(points@[j as int]));
            }
            if result.is_success && result.path.len() > 0 {
                let ghost before = *terrain;
                paint(terrain, &result.path, kind);
                proof {
                    let p = result.path@;
                    assert(chain_of(*terrain, kind, p, start as int, goal as int)) by {
                        assert forall|k: int| 0 <= k < p.len() implies #[trigger] p[k] < ZONE_CELLS && at_cell(terrain, p[k] as int) == kind by {
                        }
                    }
                    assert forall|k: int| 0 <= k < joined@.len() implies pair_ok(*terrain, kind, points@, #[trigger] joined@[k]) by {
                        let pr = joined@[k];
                        assert(pair_ok(before, kind, points@, pr));
                        lemma_joined_kept(before, *terrain, kind, cell_of_point(points@[pr.0 as int]), cell_of_point(points@[pr.1 as int]));
                    }
                    assert forall|x: int, y: int| old(terrain).in_bounds(x, y) implies #[trigger] terrain.at(x, y) == old(terrain).at(x, y) || terrain.at(x, y) == kind by {
                        assert(before.at(x, y) == old(terrain).at(x, y) || before.at(x, y) == kind);
                        assert(before.in_bounds(x, y));
                        assert(terrain.at(x, y) == before.at(x, y) || terrain.at(x, y) == kind);
                    }
                    assert forall|x: int, y: int| old(terrain).in_bounds(x, y) && old(terrain).at(x, y) == kind implies #[trigger] terrain.at(x, y) == kind by {
                        assert(before.in_bounds(x, y));
                        assert(before.at(x, y) == kind);
                    }
                }
                let ghost old_joined = joined@;
                joined.push((i, j));
                proof {
                    assert(start as int == cell_of_point(points@[i as int]));
                    assert(goal as int == cell_of_point(points@[j as int]));
                    assert(chain_of(*terrain, kind, result.path@, cell_of_point(points@[i as int]), cell_of_point(points@[j as int])));
                    assert(joined_by(*terrain, kind, cell_of_point(points@[i as int]), cell_of_point(points@[j as int])));
                    assert(pair_ok(*terrain, kind, points@, (i, j)));
                    assert forall|k: int| 0 <= k < joined@.len() implies pair_ok(*terrain, kind, points@, #[trigger] joined@[k]) by {
                        if k < old_joined.len() {
                            assert(joined@[k] == old_joined[k]);
                        }
                    }
                }
            }
            proof {
                assert(carve_rest(cells0, points@, river, height.cells(), jitter.cells(), max_depth as nat, i as int, j as int)
                    == carve_rest(terrain.cells(), points@, river, height.cells(), jitter.cells(), max_depth as nat, i as int, j + 1));
                let rest = carve_joins(terrain.cells(), points@, river, height.cells(), jitter.cells(), max_depth as nat, i as int, j + 1);
                if result.is_success && result.path@.len() > 0 {
                    assert(joined@ == joined0.push((i, j)));
                    assert(carve_joins(cells0, points@, river, height.cells(), jitter.cells(), max_depth as nat, i as int, j as int)
                        == seq![(i, j)] + rest);
                    assert(joined@ + rest =~= joined0 + (seq![(i, j)] + rest));
                } else {
                    assert(joined@ == joined0);
                }
            }
            j += 1;
        }
        i += 1;
    }
    assert(joined@ + Seq::empty() =~= joined@);
    joined
}

/// Appends the tiles of `edge` that hold the marker `v`.
fn push_side(points: &mut Vec<(usize, usize)>, edge: &Vec<u8>, v: u8, side: EdgeSide)
    ensures
        final(points)@ == old(points)@ + side_points(edge@, v, side),
        forall|k: int| 0 <= k < side_points(edge@, v, side).len() ==> point_in_zone(#[trigger] side_points(edge@, v, side)[k]),
{
    let limit: usize = match side {
        EdgeSide::South | EdgeSide::North => ZONE_WIDTH,
        EdgeSide::West | EdgeSide::East => ZONE_HEIGHT,
    };
    let n = if edge.len() < limit {
        edge.len()
    } else {
        limit
    };
    let mut i: usize = 0;
    while i < n
        invariant
            i <= n,
            n <= edge@.len(),
            n <= limit,
            limit == edge_limit(side),
            n == (if edge@.len() < edge_limit(side) { edge@.len() as int } else { edge_limit(side) }),
            points@ == old(points)@ + edge_points(edge@, v, side, i as int),
            forall|k: int| 0 <= k < edge_points(edge@, v, side, i as int).len() ==> point_in_zone(#[trigger] edge_points(edge@, v, side, i as int)[k]),
        decreases n - i,
    {
        if edge[i] == v {
            let p = match side {
                EdgeSide::South => (i, 0),
                EdgeSide::North => (i, ZONE_HEIGHT - 1),
                EdgeSide::West => (0, i),
                EdgeSide::East => (ZONE_WIDTH - 1, i),
            };
            points.push(p);
        }
        proof {
            let before = edge_points(edge@, v, side, i as int);
            let after = edge_points(edge@, v, side, i + 1);
            assert(after == (if edge@[i as int] == v { before.push(edge_point(side, i as int)) } else { before }));
            assert forall|k: int| 0 <= k < after.len() implies point_in_zone(#[trigger] after[k]) by {
                if k < before.len() {
                    assert(after[k] == before[k]);
                }
            }
        }
        i += 1;
    }
}

/// The points that the network of marker `v` must join: the edge tiles
/// that hold it (south, north, west, then east), and the centre of the zone
/// when there is only one.
pub fn crossings(constraints: &ZoneConstraints, v: u8) -> (r: Vec<(usize, usize)>)
    ensures
        r@ == crossing_points(*constraints, v),
        forall|k: int| 0 <= k < r@.len() ==> point_in_zone(#[trigger] r@[k]),
{
    let mut points: Vec<(usize, usize)> = Vec::new();
    push_side(&mut points, &constraints.south, v, EdgeSide::South);
    push_side(&mut points, &constraints.north, v, EdgeSide::North);
    push_side(&mut points, &constraints.west, v, EdgeSide::West);
    push_side(&mut points, &constraints.east, v, EdgeSide::East);
    proof {
        let a = side_points(constraints.south@, v, EdgeSide::South);
        let b = side_points(constraints.north@, v, EdgeSide::North);
        let c = side_points(constraints.west@, v, EdgeSide::West);
        let d = side_points(constraints.east@, v, EdgeSide::East);
        assert(points@ == a + b + c + d);
        assert forall|k: int| 0 <= k < points@.len() implies point_in_zone(#[trigger] points@[k]) by {
            if k < a.len() {
                assert(points@[k] == a[k]);
            } else if k < a.len() + b.len() {
                assert(points@[k] == b[k - a.len()]);
            } else if k < a.len() + b.len() + c.len() {
                assert(points@[k] == c[k - a.len() - b.len()]);
            } else {
                assert(points@[k] == d[k - a.len() - b.len() - c.len()]);
            }
        }
    }
    if points.len() == 1 {
        points.push((ZONE_WIDTH / 2, ZONE_HEIGHT / 2));
    }
    points
}

/// Builds zones by joining their edge crossings with carved rivers, then
/// footpaths, over a grass field.
pub struct SimpleZoneBuilder {
    snapshots: Vec<ZoneSnapshot>,
    record_snapshots: bool,
    max_depth: u32,
}

impl SimpleZoneBuilder {
    /// A builder whose carving searches take at most `max_depth` rounds;
    /// with `record_snapshots` set it keeps debug pictures of each build.
    pub fn new(record_snapshots: bool, max_depth: u32) -> (r: Self)
        ensures
            r.snapshot_count() == 0,
            r.spec_max_depth() == max_depth,
    {
        SimpleZoneBuilder { snapshots: Vec::new(), record_snapshots, max_depth }
    }

    pub closed spec fn snapshot_count(&self) -> nat {
        self.snapshots@.len()
    }
}

impl Default for SimpleZoneBuilder {
    fn default() -> (r: Self)
        ensures
            r.snapshot_count() == 0,
            r.spec_max_depth() == MAX_SEARCH_DEPTH,
    {
        SimpleZoneBuilder::new(false, MAX_SEARCH_DEPTH)
    }
}

/// Every tile holds grass, a river or a footpath.
pub open spec fn only_carved_kinds(t: Grid<Terrain>) -> bool {
    forall|x: int, y: int| t.in_bounds(x, y) ==> #[trigger] t.at(x, y) != Terrain::Dirt
}

/// Every tile holds grass.
pub open spec fn all_grass(t: Grid<Terrain>) -> bool {
    forall|x: int, y: int| t.in_bounds(x, y) ==> #[trigger] t.at(x, y) == Terrain::Grass
}

/// The terrain that a build lays down: a grass field, rivers carved between
/// the river crossings, then footpaths between the footpath crossings.
pub open spec fn build_model(c: ZoneConstraints, h: Seq<u32>, j: Seq<bool>, max_depth: nat) -> Seq<Terrain> {
    let grass = Seq::new(ZONE_CELLS as nat, |i: int| Terrain::Grass);
    let rivers = carve_rest(grass, crossing_points(c, 1), true, h, j, max_depth, 0, 1);
    carve_rest(rivers, crossing_points(c, 2), false, h, j, max_depth, 0, 1)
}

/// The pairs of river points that a build joins: those whose search
/// succeeds while rivers are carved over the grass field.
pub open spec fn river_joins(c: ZoneConstraints, h: Seq<u32>, j: Seq<bool>, max_depth: nat) -> Seq<(usize, usize)> {
    carve_joins(Seq::new(ZONE_CELLS as nat, |i: int| Terrain::Grass), crossing_points(c, 1), true, h, j, max_depth, 0, 1)
}

/// Building twice from the same constraints, height field and jitter field
/// (and search depth) gives the same terrain, cell for cell.
pub proof fn lemma_build_deterministic(
    first: ZoneData,
    second: ZoneData,
    c: ZoneConstraints,
    h: Seq<u32>,
    j: Seq<bool>,
    max_depth: nat,
)
    requires
        first.terrain.cells() == build_model(c, h, j, max_depth),
        second.terrain.cells() == build_model(c, h, j, max_depth),
    ensures
        first.terrain.cells() == second.terrain.cells(),
{
}

impl SimpleZoneBuilder {
    pub closed spec fn spec_max_depth(&self) -> nat {
        self.max_depth as nat
    }

    /// Builds the zone over the given height and jitter fields.
    pub fn build_with_jitter(&mut self, constraints: ZoneConstraints, height: &Grid<u32>, jitter: &Grid<bool>) -> (r: ZoneData)
        requires
            zone_grid_ok(height),
            zone_grid_ok(jitter),
        ensures
            r.idx == constraints.idx,
            zone_grid_ok(&r.terrain),
            r.terrain.cells() == build_model(constraints, height.cells(), jitter.cells(), old(self).spec_max_depth()),
            only_carved_kinds(r.terrain),
            crossing_points(constraints, 1).len() == 0 && crossing_points(constraints, 2).len() == 0 ==> all_grass(
                r.terrain,
            ),
            final(self).spec_max_depth() == old(self).spec_max_depth(),
            // Without footpaths, every pair of river points whose search
            // succeeded is joined by an unbroken chain of river tiles.
            crossing_points(constraints, 2).len() == 0 ==> forall|k: int|
                0 <= k < river_joins(constraints, height.cells(), jitter.cells(), old(self).spec_max_depth()).len()
                    ==> pair_ok(
                    r.terrain,
                    Terrain::River,
                    crossing_points(constraints, 1),
                    #[trigger] river_joins(constraints, height.cells(), jitter.cells(), old(self).spec_max_depth())[k],
                ),
    {
        let idx = constraints.idx;
        let mut terrain = Grid::init(ZONE_WIDTH, ZONE_HEIGHT, Terrain::Grass);
        assert(terrain.cells() =~= Seq::new(ZONE_CELLS as nat, |i: int| Terrain::Grass));
        assert(all_grass(terrain)) by {
            assert forall|x: int, y: int| terrain.in_bounds(x, y) implies #[trigger] terrain.at(x, y) == Terrain::Grass by {
                crate::grid::lemma_index_in_bounds(ZONE_WIDTH as int, ZONE_HEIGHT as int, x, y);
            }
        }
        if self.record_snapshots {
            self.snapshots.push(edge_snapshot(&constraints));
        }
        let rivers = crossings(&constraints, 1);
        let footpaths = crossings(&constraints, 2);
        if self.record_snapshots {
            self.snapshots.push(bool_snapshot(jitter));
        }
        let _ = carve_paths(&mut terrain, &rivers, true, height, jitter, self.max_depth);
        assert(rivers@ == crossing_points(constraints, 1));
        let ghost with_rivers = terrain;
        let _ = carve_paths(&mut terrain, &footpaths, false, height, jitter, self.max_depth);
        proof {
            assert forall|x: int, y: int| terrain.in_bounds(x, y) implies #[trigger] terrain.at(x, y) != Terrain::Dirt by {
                crate::grid::lemma_index_in_bounds(ZONE_WIDTH as int, ZONE_HEIGHT as int, x, y);
                assert(with_rivers.in_bounds(x, y));
            }
        }
        if self.record_snapshots {
            self.snapshots.push(terrain_snapshot(&terrain));
        }
        ZoneData { idx, terrain }
    }
}

impl ZoneBuilder for SimpleZoneBuilder {
    open spec fn builds(&self, c: ZoneConstraints, height: Seq<u32>, r: ZoneData) -> bool {
        exists|j: Seq<bool>| j.len() == ZONE_CELLS && r.terrain.cells() == build_model(c, height, j, self.spec_max_depth())
    }

    fn build(&mut self, constraints: ZoneConstraints, height: &Grid<u32>) -> (r: ZoneData) {
        let jitter = rand_grid(constraints.idx as u32);
        let r = self.build_with_jitter(constraints, height, &jitter);
        assert(jitter.cells().len() == ZONE_CELLS);
        r
    }

    fn get_snapshots(&self) -> (r: Vec<ZoneSnapshot>) {
        self.snapshots.clone()
    }
}

} // verus!
