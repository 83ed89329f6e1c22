use vstd::prelude::*;

use crate::astar::{SearchSpace, MAX_STEP_COST};
use crate::distance::{spec_chebyshev, Distance};
use crate::grid::Grid;
use crate::projection::{ZONE_HEIGHT, ZONE_WIDTH};
use crate::zone::Terrain;

verus! {

/// Heights are given in thousandths: a height of `HEIGHT_SCALE` would be 1.
pub const HEIGHT_SCALE: u32 = 1000;

/// The number of tiles in a zone.
pub const ZONE_CELLS: usize = 800;

/// The state that stands for the tile `(x, y)` of a zone.
pub open spec fn cell_of(x: int, y: int) -> int {
    x * ZONE_HEIGHT + y
}

pub open spec fn cell_x(s: int) -> int {
    s / ZONE_HEIGHT as int
}

pub open spec fn cell_y(s: int) -> int {
    s % ZONE_HEIGHT as int
}

/// A grid with the dimensions of a zone.
pub open spec fn zone_grid_ok<T>(g: &Grid<T>) -> bool {
    &&& g.wf()
    &&& g.spec_width() == ZONE_WIDTH
    &&& g.spec_height() == ZONE_HEIGHT
}

/// The value of a zone grid at the tile that the state `s` stands for.
pub open spec fn at_cell<T>(g: &Grid<T>, s: int) -> T {
    g.at(cell_x(s), cell_y(s))
}

pub open spec fn push_if(s: Seq<usize>, c: bool, v: int) -> Seq<usize> {
    if c {
        s.push(v as usize)
    } else {
        s
    }
}

/// The up to eight tiles around the tile of `s`, inside the zone, in a fixed
/// order: the column to the left, the column to the right, then below and
/// above.
pub open spec fn neighbors8(s: int) -> Seq<usize> {
    let x = cell_x(s);
    let y = cell_y(s);
    let left = x > 0;
    let right = x < ZONE_WIDTH - 1;
    let down = y > 0;
    let up = y < ZONE_HEIGHT - 1;
    let n1 = push_if(Seq::empty(), left, cell_of(x - 1, y));
    let n2 = push_if(n1, left && down, cell_of(x - 1, y - 1));
    let n3 = push_if(n2, left && up, cell_of(x - 1, y + 1));
    let n4 = push_if(n3, right, cell_of(x + 1, y));
    let n5 = push_if(n4, right && down, cell_of(x + 1, y - 1));
    let n6 = push_if(n5, right && up, cell_of(x + 1, y + 1));
    let n7 = push_if(n6, down, cell_of(x, y - 1));
    push_if(n7, up, cell_of(x, y + 1))
}

/// Two different tiles that touch by a side or a corner.
pub open spec fn adjacent(a: int, b: int) -> bool {
    &&& a != b
    &&& -1 <= cell_x(a) - cell_x(b) <= 1
    &&& -1 <= cell_y(a) - cell_y(b) <= 1
}

pub proof fn lemma_cell_coords(x: int, y: int)
    requires
        0 <= x < ZONE_WIDTH,
        0 <= y < ZONE_HEIGHT,
    ensures
        0 <= cell_of(x, y) < ZONE_CELLS,
        cell_x(cell_of(x, y)) == x,
        cell_y(cell_of(x, y)) == y,
{
    crate::grid::lemma_index_in_bounds(ZONE_WIDTH as int, ZONE_HEIGHT as int, x, y);
    vstd::arithmetic::div_mod::lemma_fundamental_div_mod_converse(cell_of(x, y), ZONE_HEIGHT as int, x, y);
}

pub proof fn lemma_cell_split(s: int)
    requires
        0 <= s < ZONE_CELLS,
    ensures
        0 <= cell_x(s) < ZONE_WIDTH,
        0 <= cell_y(s) < ZONE_HEIGHT,
        cell_of(cell_x(s), cell_y(s)) == s,
{
    crate::grid::lemma_position_in_bounds(ZONE_WIDTH as int, ZONE_HEIGHT as int, s);
}

/// Every listed neighbour is a tile of the zone that touches the tile of `s`.
pub proof fn lemma_neighbors8(s: int)
    requires
        0 <= s < ZONE_CELLS,
    ensures
        forall|i: int| 0 <= i < neighbors8(s).len() ==> {
            &&& 0 <= #[trigger] neighbors8(s)[i] < ZONE_CELLS
            &&& adjacent(s, neighbors8(s)[i] as int)
        },
{
    lemma_cell_split(s);
    let x = cell_x(s);
    let y = cell_y(s);
    assert forall|dx: int, dy: int|
        -1 <= dx <= 1 && -1 <= dy <= 1 && (dx != 0 || dy != 0) && 0 <= x + dx < ZONE_WIDTH && 0 <= y + dy
            < ZONE_HEIGHT implies {
        &&& 0 <= #[trigger] cell_of(x + dx, y + dy) < ZONE_CELLS
        &&& adjacent(s, cell_of(x + dx, y + dy))
    } by {
        lemma_cell_coords(x + dx, y + dy);
    }
}

/// The 8 tiles around `s`, inside the zone.
pub fn zone_neighbors(s: usize) -> (r: Vec<usize>)
    requires
        s < ZONE_CELLS,
    ensures
        r@ == neighbors8(s as int),
        forall|i: int| 0 <= i < r@.len() ==> r@[i] < ZONE_CELLS && adjacent(s as int, r@[i] as int),
{
    proof {
        lemma_neighbors8(s as int);
        lemma_cell_split(s as int);
    }
    let x = s / ZONE_HEIGHT;
    let y = s % ZONE_HEIGHT;
    let mut n: Vec<usize> = Vec::new();
    if x > 0 {
        n.push((x - 1) * ZONE_HEIGHT + y);
        if y > 0 {
            n.push((x - 1) * ZONE_HEIGHT + y - 1);
        }
        if y < ZONE_HEIGHT - 1 {
            n.push((x - 1) * ZONE_HEIGHT + y + 1);
        }
    }
    if x < ZONE_WIDTH - 1 {
        n.push((x + 1) * ZONE_HEIGHT + y);
        if y > 0 {
            n.push((x + 1) * ZONE_HEIGHT + y - 1);
        }
        if y < ZONE_HEIGHT - 1 {
            n.push((x + 1) * ZONE_HEIGHT + y + 1);
        }
    }
    if y > 0 {
        n.push(x * ZONE_HEIGHT + y - 1);
    }
    if y < ZONE_HEIGHT - 1 {
        n.push(x * ZONE_HEIGHT + y + 1);
    }
    n
}

/// The Chebyshev distance between the tiles of two states.
pub open spec fn cell_distance(a: int, b: int) -> nat {
    spec_chebyshev([cell_x(a) as i32, cell_y(a) as i32, 0i32], [cell_x(b) as i32, cell_y(b) as i32, 0i32])
}

fn cell_distance_exec(a: usize, b: usize) -> (r: u64)
    requires
        a < ZONE_CELLS,
        b < ZONE_CELLS,
    ensures
        r == cell_distance(a as int, b as int),
{
    proof {
        lemma_cell_split(a as int);
        lemma_cell_split(b as int);
    }
    let pa = [(a / ZONE_HEIGHT) as i32, (a % ZONE_HEIGHT) as i32, 0];
    let pb = [(b / ZONE_HEIGHT) as i32, (b % ZONE_HEIGHT) as i32, 0];
    Distance::chebyshev(pa, pb)
}

/// The cost of carving a river onto a tile: its height (at most just below
/// one), ten times more on a jitter tile, a thousand times less on a tile
/// that already holds a river.
pub open spec fn river_step_cost(t: Terrain, height: u32, jitter: bool) -> nat {
    let h: nat = if height < HEIGHT_SCALE { height as nat } else { (HEIGHT_SCALE - 1) as nat };
    let r: nat = if jitter { 10 } else { 1 };
    let a: nat = if t == Terrain::River { 1 } else { 1000 };
    r * h * a
}

/// The cost of carving a footpath onto a tile: a hundred on open ground,
/// twenty times more across a river, a hundred times less on an existing
/// footpath, four times more on a jitter tile.
pub open spec fn footpath_step_cost(t: Terrain, jitter: bool) -> nat {
    let r: nat = if jitter { 4 } else { 1 };
    let a: nat = match t {
        Terrain::Grass | Terrain::Dirt => 100,
        Terrain::River => 2000,
        Terrain::Footpath => 1,
    };
    r * a
}

/// The tiles of a zone, for carving a river towards `goal` over `terrain`.
pub struct RiverSpace<'a> {
    pub terrain: &'a Grid<Terrain>,
    pub height: &'a Grid<u32>,
    pub jitter: &'a Grid<bool>,
    pub goal: usize,
}

/// The tiles of a zone, for carving a footpath towards `goal` over `terrain`.
pub struct FootpathSpace<'a> {
    pub terrain: &'a Grid<Terrain>,
    pub jitter: &'a Grid<bool>,
    pub goal: usize,
}

fn cell_value<T: Copy>(g: &Grid<T>, s: usize) -> (r: T)
    requires
        zone_grid_ok(g),
        s < ZONE_CELLS,
    ensures
        r == at_cell(g, s as int),
{
    proof {
        lemma_cell_split(s as int);
    }
    *g.get(s / ZONE_HEIGHT, s % ZONE_HEIGHT).unwrap()
}

impl<'a> SearchSpace for RiverSpace<'a> {
    open spec fn wf(&self) -> bool {
        &&& zone_grid_ok(self.terrain)
        &&& zone_grid_ok(self.height)
        &&& zone_grid_ok(self.jitter)
        &&& self.goal < ZONE_CELLS
    }

    open spec fn spec_num_states(&self) -> nat {
        ZONE_CELLS as nat
    }

    open spec fn spec_is_goal(&self, s: usize) -> bool {
        s == self.goal
    }

    open spec fn spec_cost(&self, a: usize, b: usize) -> Option<u64> {
        Some(
            river_step_cost(
                at_cell(self.terrain, b as int),
                at_cell(self.height, b as int),
                at_cell(self.jitter, b as int),
            ) as u64,
        )
    }

    open spec fn spec_heuristic(&self, s: usize) -> u64 {
        cell_distance(s as int, self.goal as int) as u64
    }

    open spec fn spec_neighbors(&self, s: usize) -> Seq<usize> {
        neighbors8(s as int)
    }

    fn num_states(&self) -> (r: usize) {
        ZONE_CELLS
    }

    fn is_goal(&self, s: usize) -> (r: bool) {
        s == self.goal
    }

    fn cost(&self, a: usize, b: usize) -> (r: Option<u64>) {
        let t = cell_value(self.terrain, b);
        let height = cell_value(self.height, b);
        let jitter = cell_value(self.jitter, b);
        let h: u64 = if height < HEIGHT_SCALE {
            height as u64
        } else {
            (HEIGHT_SCALE - 1) as u64
        };
        let r: u64 = if jitter {
            10
        } else {
            1
        };
        let a: u64 = match t {
            Terrain::River => 1,
            _ => 1000,
        };
        assert(r * h * a <= MAX_STEP_COST) by (nonlinear_arith)
            requires
                r <= 10,
                h <= 999,
                a <= 1000,
        ;
        Some(r * h * a)
    }

    fn heuristic(&self, s: usize) -> (r: u64) {
        cell_distance_exec(s, self.goal)
    }

    fn neighbors(&self, s: usize) -> (r: Vec<usize>) {
        zone_neighbors(s)
    }
}

impl<'a> SearchSpace for FootpathSpace<'a> {
    open spec fn wf(&self) -> bool {
        &&& zone_grid_ok(self.terrain)
        &&& zone_grid_ok(self.jitter)
        &&& self.goal < ZONE_CELLS
    }

    open spec fn spec_num_states(&self) -> nat {
        ZONE_CELLS as nat
    }

    open spec fn spec_is_goal(&self, s: usize) -> bool {
        s == self.goal
    }

    open spec fn spec_cost(&self, a: usize, b: usize) -> Option<u64> {
        Some(footpath_step_cost(at_cell(self.terrain, b as int), at_cell(self.jitter, b as int)) as u64)
    }

    open spec fn spec_heuristic(&self, s: usize) -> u64 {
        cell_distance(s as int, self.goal as int) as u64
    }

    open spec fn spec_neighbors(&self, s: usize) -> Seq<usize> {
        neighbors8(s as int)
    }

    fn num_states(&self) -> (r: usize) {
        ZONE_CELLS
    }

    fn is_goal(&self, s: usize) -> (r: bool) {
        s == self.goal
    }

    fn cost(&self, a: usize, b: usize) -> (r: Option<u64>) {
        let t = cell_value(self.terrain, b);
        let jitter = cell_value(self.jitter, b);
        let r: u64 = if jitter {
            4
        } else {
            1
        };
        let a: u64 = match t {
            Terrain::Grass | Terrain::Dirt => 100,
            Terrain::River => 2000,
            Terrain::Footpath => 1,
        };
        Some(r * a)
    }

    fn heuristic(&self, s: usize) -> (r: u64) {
        cell_distance_exec(s, self.goal)
    }

    fn neighbors(&self, s: usize) -> (r: Vec<usize>) {
        zone_neighbors(s)
    }
}

/// The up to eight tiles around the tile of `s` in a `w` by `h` column-major
/// grid, in the same order as `neighbors8`.
pub open spec fn neighbors_in(w: int, h: int, s: int) -> Seq<usize> {
    let x = s / h;
    let y = s % h;
    let left = x > 0;
    let right = x < w - 1;
    let down = y > 0;
    let up = y < h - 1;
    let n1 = push_if(Seq::empty(), left, crate::grid::grid_index(h, x - 1, y));
    let n2 = push_if(n1, left && down, crate::grid::grid_index(h, x - 1, y - 1));
    let n3 = push_if(n2, left && up, crate::grid::grid_index(h, x - 1, y + 1));
    let n4 = push_if(n3, right, crate::grid::grid_index(h, x + 1, y));
    let n5 = push_if(n4, right && down, crate::grid::grid_index(h, x + 1, y - 1));
    let n6 = push_if(n5, right && up, crate::grid::grid_index(h, x + 1, y + 1));
    let n7 = push_if(n6, down, crate::grid::grid_index(h, x, y - 1));
    push_if(n7, up, crate::grid::grid_index(h, x, y + 1))
}

proof fn lemma_neighbors_in(w: int, h: int, s: int)
    requires
        0 <= s < w * h,
        0 < w,
        0 < h,
    ensures
        forall|i: int| 0 <= i < neighbors_in(w, h, s).len() ==> 0 <= #[trigger] neighbors_in(w, h, s)[i] < w * h,
{
    crate::grid::lemma_position_in_bounds(w, h, s);
    let x = s / h;
    let y = s % h;
    if x > 0 {
        crate::grid::lemma_index_in_bounds(w, h, x - 1, y);
        if y > 0 {
            crate::grid::lemma_index_in_bounds(w, h, x - 1, y - 1);
        }
        if y < h - 1 {
            crate::grid::lemma_index_in_bounds(w, h, x - 1, y + 1);
        }
    }
    if x < w - 1 {
        crate::grid::lemma_index_in_bounds(w, h, x + 1, y);
        if y > 0 {
            crate::grid::lemma_index_in_bounds(w, h, x + 1, y - 1);
        }
        if y < h - 1 {
            crate::grid::lemma_index_in_bounds(w, h, x + 1, y + 1);
        }
    }
    if y > 0 {
        crate::grid::lemma_index_in_bounds(w, h, x, y - 1);
    }
    if y < h - 1 {
        crate::grid::lemma_index_in_bounds(w, h, x, y + 1);
    }
}

/// An open `width` by `height` grid: every step onto a tile that is not
/// blocked costs one, 8-connected, with the Chebyshev distance to the goal
/// as heuristic.
pub struct GridSpace {
    pub width: usize,
    pub height: usize,
    pub blocked: Vec<bool>,
    pub goal: usize,
}

impl GridSpace {
    pub open spec fn spec_cell_distance(&self, a: int, b: int) -> nat {
        let h = self.height as int;
        spec_chebyshev([(a / h) as i32, (a % h) as i32, 0i32], [(b / h) as i32, (b % h) as i32, 0i32])
    }
}

impl SearchSpace for GridSpace {
    open spec fn wf(&self) -> bool {
        &&& self.blocked@.len() == self.width * self.height
        &&& 0 < self.width <= 0x7fff_ffff
        &&& 0 < self.height <= 0x7fff_ffff
        &&& self.goal < self.blocked@.len()
    }

    open spec fn spec_num_states(&self) -> nat {
        self.blocked@.len()
    }

    open spec fn spec_is_goal(&self, s: usize) -> bool {
        s == self.goal
    }

    open spec fn spec_cost(&self, a: usize, b: usize) -> Option<u64> {
        if self.blocked@[b as int] {
            None
        } else {
            Some(1)
        }
    }

    open spec fn spec_heuristic(&self, s: usize) -> u64 {
        self.spec_cell_distance(s as int, self.goal as int) as u64
    }

    open spec fn spec_neighbors(&self, s: usize) -> Seq<usize> {
        neighbors_in(self.width as int, self.height as int, s as int)
    }

    fn num_states(&self) -> (r: usize) {
        self.blocked.len()
    }

    fn is_goal(&self, s: usize) -> (r: bool) {
        s == self.goal
    }

    fn cost(&self, a: usize, b: usize) -> (r: Option<u64>) {
        if self.blocked[b] {
            None
        } else {
            Some(1)
        }
    }

    fn heuristic(&self, s: usize) -> (r: u64) {
        let h = self.height;
        proof {
            crate::grid::lemma_position_in_bounds(self.width as int, h as int, s as int);
            crate::grid::lemma_position_in_bounds(self.width as int, h as int, self.goal as int);
        }
        let a = [(s / h) as i32, (s % h) as i32, 0];
        let b = [(self.goal / h) as i32, (self.goal % h) as i32, 0];
        Distance::chebyshev(a, b)
    }

    fn neighbors(&self, s: usize) -> (r: Vec<usize>) {
        let w = self.width;
        let h = self.height;
        proof {
            crate::grid::lemma_position_in_bounds(w as int, h as int, s as int);
        }
        let x = s / h;
        let y = s % h;
        let total = self.blocked.len();
        proof {
            lemma_neighbors_in(w as int, h as int, s as int);
            let (wi, hi, xi, yi) = (w as int, h as int, x as int, y as int);
            if xi > 0 {
                crate::grid::lemma_index_in_bounds(wi, hi, xi - 1, yi);
                if yi > 0 {
                    crate::grid::lemma_index_in_bounds(wi, hi, xi - 1, yi - 1);
                }
                if yi < hi - 1 {
                    crate::grid::lemma_index_in_bounds(wi, hi, xi - 1, yi + 1);
                }
            }
            if xi < wi - 1 {
                crate::grid::lemma_index_in_bounds(wi, hi, xi + 1, yi);
                if yi > 0 {
                    crate::grid::lemma_index_in_bounds(wi, hi, xi + 1, yi - 1);
                }
                if yi < hi - 1 {
                    crate::grid::lemma_index_in_bounds(wi, hi, xi + 1, yi + 1);
                }
            }
            if yi > 0 {
                crate::grid::lemma_index_in_bounds(wi, hi, xi, yi - 1);
            }
            if yi < hi - 1 {
                crate::grid::lemma_index_in_bounds(wi, hi, xi, yi + 1);
            }
        }
        let mut out: Vec<usize> = Vec::new();
        if x > 0 {
            out.push((x - 1) * h + y);
            if y > 0 {
                out.push((x - 1) * h + y - 1);
            }
            if y < h - 1 {
                out.push((x - 1) * h + y + 1);
            }
        }
        if x < w - 1 {
            out.push((x + 1) * h + y);
            if y > 0 {
                out.push((x + 1) * h + y - 1);
            }
            if y < h - 1 {
                out.push((x + 1) * h + y + 1);
            }
        }
        if y > 0 {
            out.push(x * h + y - 1);
        }
        if y < h - 1 {
            out.push(x * h + y + 1);
        }
        out
    }
}

} // verus!
