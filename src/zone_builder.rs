use vstd::prelude::*;
use vstd::string::StringExecFns;

use crate::colors::{hex, Palette};
use crate::grid::Grid;
use crate::projection::{ZONE_HEIGHT, ZONE_WIDTH};
use crate::rng::Rand;
use crate::search_spaces::zone_grid_ok;
use crate::simple_zone::{all_grass, crossing_points, only_carved_kinds};
use crate::zone::{Terrain, ZoneConstraints};

verus! {

/// The flat colours of a debug picture of a zone.
#[derive(Clone, Copy, PartialEq, Eq, Structural, Debug)]
pub enum TileSnapColor {
    White,
    Black,
    Gray(u8),
    Red,
    Blue,
    Green,
    Orange,
    Yellow,
}

impl Default for TileSnapColor {
    fn default() -> (r: Self)
        ensures
            r == TileSnapColor::White,
    {
        TileSnapColor::White
    }
}

pub open spec fn spec_for_terrain(t: Terrain) -> TileSnapColor {
    match t {
        Terrain::Grass => TileSnapColor::Green,
        Terrain::Dirt => TileSnapColor::Orange,
        Terrain::River => TileSnapColor::Blue,
        Terrain::Footpath => TileSnapColor::Yellow,
    }
}

pub open spec fn spec_for_bool(b: bool) -> TileSnapColor {
    if b {
        TileSnapColor::White
    } else {
        TileSnapColor::Black
    }
}

pub open spec fn spec_for_edge(e: u8) -> TileSnapColor {
    if e == 0 {
        TileSnapColor::Gray(127)
    } else if e == 1 {
        TileSnapColor::Blue
    } else if e == 2 {
        TileSnapColor::Yellow
    } else {
        TileSnapColor::White
    }
}


pub open spec fn digit_char(d: int) -> char {
    if d == 0 {
        '0'
    } else if d == 1 {
        '1'
    } else if d == 2 {
        '2'
    } else if d == 3 {
        '3'
    } else if d == 4 {
        '4'
    } else if d == 5 {
        '5'
    } else if d == 6 {
        '6'
    } else if d == 7 {
        '7'
    } else if d == 8 {
        '8'
    } else {
        '9'
    }
}

/// The decimal digits of `v`, without leading zeros.
pub open spec fn decimal(v: nat) -> Seq<char>
    decreases v,
{
    if v < 10 {
        seq![digit_char(v as int)]
    } else {
        decimal(v / 10).push(digit_char((v % 10) as int))
    }
}

/// The name of a colour: the variant's name, and for a gray its level in
/// parentheses, as in `Gray (127)`.
pub open spec fn spec_name(c: TileSnapColor) -> Seq<char> {
    match c {
        TileSnapColor::White => "White"@,
        TileSnapColor::Black => "Black"@,
        TileSnapColor::Gray(v) => "Gray ("@ + decimal(v as nat) + ")"@,
        TileSnapColor::Red => "Red"@,
        TileSnapColor::Blue => "Blue"@,
        TileSnapColor::Green => "Green"@,
        TileSnapColor::Orange => "Orange"@,
        TileSnapColor::Yellow => "Yellow"@,
    }
}

fn digit_str(d: u8) -> (r: &'static str)
    requires
        d < 10,
    ensures
        r@ == seq![digit_char(d as int)],
{
    proof {
        reveal_strlit("0");
        reveal_strlit("1");
        reveal_strlit("2");
        reveal_strlit("3");
        reveal_strlit("4");
        reveal_strlit("5");
        reveal_strlit("6");
        reveal_strlit("7");
        reveal_strlit("8");
        reveal_strlit("9");
    }
    match d {
        0 => "0",
        1 => "1",
        2 => "2",
        3 => "3",
        4 => "4",
        5 => "5",
        6 => "6",
        7 => "7",
        8 => "8",
        _ => "9",
    }
}

fn push_decimal(s: &mut String, v: u8)
    ensures
        final(s)@ == old(s)@ + decimal(v as nat),
{
    proof {
        reveal_with_fuel(decimal, 3);
    }
    if v >= 100 {
        s.append(digit_str(v / 100));
        s.append(digit_str((v / 10) % 10));
        assert((v as nat / 10) / 10 == v / 100);
    } else if v >= 10 {
        s.append(digit_str(v / 10));
    }
    s.append(digit_str(v % 10));
}

impl TileSnapColor {
    /// The name of the colour.
    pub fn name(self) -> (r: String)
        ensures
            r@ == spec_name(self),
    {
        proof {
            reveal_strlit("White");
            reveal_strlit("Black");
            reveal_strlit("Gray (");
            reveal_strlit(")");
            reveal_strlit("Red");
            reveal_strlit("Blue");
            reveal_strlit("Green");
            reveal_strlit("Orange");
            reveal_strlit("Yellow");
        }
        match self {
            TileSnapColor::White => String::from_str("White"),
            TileSnapColor::Black => String::from_str("Black"),
            TileSnapColor::Gray(v) => {
                let mut s = String::from_str("Gray (");
                push_decimal(&mut s, v);
                s.append(")");
                s
            },
            TileSnapColor::Red => String::from_str("Red"),
            TileSnapColor::Blue => String::from_str("Blue"),
            TileSnapColor::Green => String::from_str("Green"),
            TileSnapColor::Orange => String::from_str("Orange"),
            TileSnapColor::Yellow => String::from_str("Yellow"),
        }
    }

    /// The colour of a terrain.
    pub fn for_terrain(t: Terrain) -> (r: Self)
        ensures
            r == spec_for_terrain(t),
    {
        match t {
            Terrain::Grass => TileSnapColor::Green,
            Terrain::Dirt => TileSnapColor::Orange,
            Terrain::River => TileSnapColor::Blue,
            Terrain::Footpath => TileSnapColor::Yellow,
        }
    }

    /// The colour of an edge marker: gray for none, blue for a river,
    /// yellow for a footpath, white for anything else.
    pub fn for_edge(e: u8) -> (r: Self)
        ensures
            r == spec_for_edge(e),
    {
        match e {
            0 => TileSnapColor::Gray(127),
            1 => TileSnapColor::Blue,
            2 => TileSnapColor::Yellow,
            _ => TileSnapColor::White,
        }
    }

    /// The colour as `0xRRGGBB`.
    pub fn to_color(self) -> (r: u32)
        ensures
            r == match self {
                TileSnapColor::White => Palette::White.spec_value(),
                TileSnapColor::Black => Palette::Black.spec_value(),
                TileSnapColor::Gray(p) => (p as int * 65536 + p as int * 256 + p as int) as u32,
                TileSnapColor::Red => Palette::Red.spec_value(),
                TileSnapColor::Blue => Palette::Blue.spec_value(),
                TileSnapColor::Green => Palette::Green.spec_value(),
                TileSnapColor::Orange => Palette::Orange.spec_value(),
                TileSnapColor::Yellow => Palette::Yellow.spec_value(),
            },
    {
        match self {
            TileSnapColor::White => Palette::White.value(),
            TileSnapColor::Black => Palette::Black.value(),
            TileSnapColor::Gray(p) => hex(p, p, p),
            TileSnapColor::Red => Palette::Red.value(),
            TileSnapColor::Blue => Palette::Blue.value(),
            TileSnapColor::Green => Palette::Green.value(),
            TileSnapColor::Orange => Palette::Orange.value(),
            TileSnapColor::Yellow => Palette::Yellow.value(),
        }
    }
}

/// A debug picture of a zone: one flat colour per tile.
#[derive(Clone)]
pub struct ZoneSnapshot {
    pub data: Grid<TileSnapColor>,
}

/// Builds the terrain of a zone from the crossings on its edges and its
/// height field (in thousandths, see `HEIGHT_SCALE`).
pub trait ZoneBuilder {
    /// `r` is a zone that this builder may build from the constraints and
    /// the height field.
    spec fn builds(&self, c: ZoneConstraints, height: Seq<u32>, r: crate::zone::ZoneData) -> bool;

    fn build(&mut self, constraints: ZoneConstraints, height: &Grid<u32>) -> (r: crate::zone::ZoneData)
        requires
            zone_grid_ok(height),
        ensures
            old(self).builds(constraints, height.cells(), r),
            r.idx == constraints.idx,
            zone_grid_ok(&r.terrain),
            only_carved_kinds(r.terrain),
            crossing_points(constraints, 1).len() == 0 && crossing_points(constraints, 2).len() == 0 ==> all_grass(
                r.terrain,
            ),
    ;

    fn get_snapshots(&self) -> Vec<ZoneSnapshot>;
}

/// The colour of a tile on a picture of edge markers after the first `stage`
/// edges are drawn, in the order north, south, east, west: each marker on
/// its edge tile, white where no marker was drawn.
pub open spec fn edge_picture(c: ZoneConstraints, stage: int, x: int, y: int) -> TileSnapColor {
    if stage >= 4 && x == 0 && y < c.west@.len() {
        spec_for_edge(c.west@[y])
    } else if stage >= 3 && x == ZONE_WIDTH - 1 && y < c.east@.len() {
        spec_for_edge(c.east@[y])
    } else if stage >= 2 && y == 0 && x < c.south@.len() {
        spec_for_edge(c.south@[x])
    } else if stage >= 1 && y == ZONE_HEIGHT - 1 && x < c.north@.len() {
        spec_for_edge(c.north@[x])
    } else {
        TileSnapColor::White
    }
}

/// The picture drawn so far: the first `stage` edges in full, and the first
/// `i` markers of the next one.
pub open spec fn picture_ok(data: Grid<TileSnapColor>, c: ZoneConstraints, stage: int, i: int) -> bool {
    forall|x: int, y: int|
        0 <= x < ZONE_WIDTH && 0 <= y < ZONE_HEIGHT ==> #[trigger] data.at(x, y) == (if stage_drawn(stage, i, x, y) {
            edge_picture(c, stage + 1, x, y)
        } else {
            edge_picture(c, stage, x, y)
        })
}

/// The tile `(x, y)` is among the first `i` tiles of edge number `stage`.
pub open spec fn stage_drawn(stage: int, i: int, x: int, y: int) -> bool {
    if stage == 0 {
        y == ZONE_HEIGHT - 1 && x < i
    } else if stage == 1 {
        y == 0 && x < i
    } else if stage == 2 {
        x == ZONE_WIDTH - 1 && y < i
    } else {
        x == 0 && y < i
    }
}

/// The picture of a zone's edge markers: each marker on its edge tile
/// (`spec_for_edge`), white elsewhere; entries past an edge's length are
/// left out. West and east are drawn last, so they hold the corners.
pub fn edge_snapshot(constraints: &ZoneConstraints) -> (r: ZoneSnapshot)
    ensures
        zone_grid_ok(&r.data),
        forall|x: int, y: int|
            0 <= x < ZONE_WIDTH && 0 <= y < ZONE_HEIGHT ==> #[trigger] r.data.at(x, y) == edge_picture(
                *constraints,
                4,
                x,
                y,
            ),
{
    let mut data = Grid::init(ZONE_WIDTH, ZONE_HEIGHT, TileSnapColor::White);
    assert(picture_ok(data, *constraints, 0, 0)) by {
        assert forall|x: int, y: int| 0 <= x < ZONE_WIDTH && 0 <= y < ZONE_HEIGHT implies #[trigger] data.at(x, y) == (if stage_drawn(0, 0, x, y) {
            edge_picture(*constraints, 1, x, y)
        } else {
            edge_picture(*constraints, 0, x, y)
        }) by {
            crate::grid::lemma_index_in_bounds(ZONE_WIDTH as int, ZONE_HEIGHT as int, x, y);
        }
    }
    let mut i: usize = 0;
    while i < constraints.north.len() && i < ZONE_WIDTH
        invariant
            zone_grid_ok(&data),
            i <= ZONE_WIDTH,
            i <= constraints.north@.len(),
            picture_ok(data, *constraints, 0, i as int),
        decreases ZONE_WIDTH - i,
    {
        let ghost prev = data;
        let c = TileSnapColor::for_edge(constraints.north[i]);
        data.set(i, ZONE_HEIGHT - 1, c);
        proof { lemma_draw(prev, data, *constraints, 0, i as int, i as int, ZONE_HEIGHT - 1, c); }
        i += 1;
    }
    proof { lemma_next_stage(data, *constraints, 0, i as int); }
    i = 0;
    while i < constraints.south.len() && i < ZONE_WIDTH
        invariant
            zone_grid_ok(&data),
            i <= ZONE_WIDTH,
            i <= constraints.south@.len(),
            picture_ok(data, *constraints, 1, i as int),
        decreases ZONE_WIDTH - i,
    {
        let ghost prev = data;
        let c = TileSnapColor::for_edge(constraints.south[i]);
        data.set(i, 0, c);
        proof { lemma_draw(prev, data, *constraints, 1, i as int, i as int, 0, c); }
        i += 1;
    }
    proof { lemma_next_stage(data, *constraints, 1, i as int); }
    i = 0;
    while i < constraints.east.len() && i < ZONE_HEIGHT
        invariant
            zone_grid_ok(&data),
            i <= ZONE_HEIGHT,
            i <= constraints.east@.len(),
            picture_ok(data, *constraints, 2, i as int),
        decreases ZONE_HEIGHT - i,
    {
        let ghost prev = data;
        let c = TileSnapColor::for_edge(constraints.east[i]);
        data.set(ZONE_WIDTH - 1, i, c);
        proof { lemma_draw(prev, data, *constraints, 2, i as int, ZONE_WIDTH - 1, i as int, c); }
        i += 1;
    }
    proof { lemma_next_stage(data, *constraints, 2, i as int); }
    i = 0;
    while i < constraints.west.len() && i < ZONE_HEIGHT
        invariant
            zone_grid_ok(&data),
            i <= ZONE_HEIGHT,
            i <= constraints.west@.len(),
            picture_ok(data, *constraints, 3, i as int),
        decreases ZONE_HEIGHT - i,
    {
        let ghost prev = data;
        let c = TileSnapColor::for_edge(constraints.west[i]);
        data.set(0, i, c);
        proof { lemma_draw(prev, data, *constraints, 3, i as int, 0, i as int, c); }
        i += 1;
    }
    proof { lemma_next_stage(data, *constraints, 3, i as int); }
    ZoneSnapshot { data }
}

/// Fact for `edge_snapshot`: drawing the `i`-th marker of edge `stage` on
/// its tile `(bx, by)` extends the picture by one marker.
proof fn lemma_draw(
    prev: Grid<TileSnapColor>,
    data: Grid<TileSnapColor>,
    c: ZoneConstraints,
    stage: int,
    i: int,
    bx: int,
    by: int,
    v: TileSnapColor,
)
    requires
        zone_grid_ok(&prev),
        0 <= stage < 4,
        picture_ok(prev, c, stage, i),
        stage == 0 ==> bx == i && by == ZONE_HEIGHT - 1 && i < c.north@.len() && v == spec_for_edge(c.north@[i]),
        stage == 1 ==> bx == i && by == 0 && i < c.south@.len() && v == spec_for_edge(c.south@[i]),
        stage == 2 ==> bx == ZONE_WIDTH - 1 && by == i && i < c.east@.len() && v == spec_for_edge(c.east@[i]),
        stage == 3 ==> bx == 0 && by == i && i < c.west@.len() && v == spec_for_edge(c.west@[i]),
        0 <= bx < ZONE_WIDTH,
        0 <= by < ZONE_HEIGHT,
        data.spec_width() == prev.spec_width(),
        data.spec_height() == prev.spec_height(),
        data.cells() == prev.cells().update(crate::grid::grid_index(ZONE_HEIGHT as int, bx, by), v),
    ensures
        picture_ok(data, c, stage, i + 1),
{
    crate::grid::lemma_set_then_get(prev, data, bx, by, v);
    assert forall|x: int, y: int| 0 <= x < ZONE_WIDTH && 0 <= y < ZONE_HEIGHT implies #[trigger] data.at(x, y) == (if stage_drawn(stage, i + 1, x, y) {
        edge_picture(c, stage + 1, x, y)
    } else {
        edge_picture(c, stage, x, y)
    }) by {
        if x != bx || y != by {
            assert(data.at(x, y) == prev.at(x, y));
        }
    }
}

/// Fact for `edge_snapshot`: once every marker of edge `stage` within the
/// edge is drawn, the picture is that of the next stage.
proof fn lemma_next_stage(data: Grid<TileSnapColor>, c: ZoneConstraints, stage: int, i: int)
    requires
        0 <= stage < 4,
        picture_ok(data, c, stage, i),
        stage == 0 ==> i == c.north@.len() || i == ZONE_WIDTH,
        stage == 1 ==> i == c.south@.len() || i == ZONE_WIDTH,
        stage == 2 ==> i == c.east@.len() || i == ZONE_HEIGHT,
        stage == 3 ==> i == c.west@.len() || i == ZONE_HEIGHT,
    ensures
        picture_ok(data, c, stage + 1, 0),
{
    assert forall|x: int, y: int| 0 <= x < ZONE_WIDTH && 0 <= y < ZONE_HEIGHT implies #[trigger] data.at(x, y) == (if stage_drawn(stage + 1, 0, x, y) {
        edge_picture(c, stage + 2, x, y)
    } else {
        edge_picture(c, stage + 1, x, y)
    }) by {
    }
}

/// The picture of a boolean field: white for `true`, black for `false`.
pub fn bool_snapshot(g: &Grid<bool>) -> (r: ZoneSnapshot)
    requires
        g.wf(),
    ensures
        r.data.wf(),
        r.data.spec_width() == g.spec_width(),
        r.data.spec_height() == g.spec_height(),
        forall|x: usize, y: usize|
            g.in_bounds(x as int, y as int) ==> #[trigger] r.data.at(x as int, y as int) == spec_for_bool(
                g.at(x as int, y as int),
            ),
{
    let data = Grid::init_fill(
        g.width(),
        g.height(),
        (|x: usize, y: usize| -> (c: TileSnapColor)
            requires
                g.in_bounds(x as int, y as int),
            ensures
                c == spec_for_bool(g.at(x as int, y as int)),
            {
                match g.get(x, y) {
                    Some(true) => TileSnapColor::White,
                    _ => TileSnapColor::Black,
                }
            }),
    );
    ZoneSnapshot { data }
}

/// The picture of a terrain: each tile in its terrain's colour.
pub fn terrain_snapshot(t: &Grid<Terrain>) -> (r: ZoneSnapshot)
    requires
        zone_grid_ok(t),
    ensures
        zone_grid_ok(&r.data),
        forall|x: usize, y: usize|
            t.in_bounds(x as int, y as int) ==> #[trigger] r.data.at(x as int, y as int) == spec_for_terrain(
                t.at(x as int, y as int),
            ),
{
    let data = Grid::init_fill(
        ZONE_WIDTH,
        ZONE_HEIGHT,
        (|x: usize, y: usize| -> (c: TileSnapColor)
            requires
                t.in_bounds(x as int, y as int),
            ensures
                c == spec_for_terrain(t.at(x as int, y as int)),
            {
                TileSnapColor::for_terrain(*t.get(x, y).unwrap())
            }),
    );
    ZoneSnapshot { data }
}

/// A zone-sized field of fair coin flips drawn from a generator seeded with
/// `seed`.
pub fn rand_grid(seed: u32) -> (r: Grid<bool>)
    ensures
        zone_grid_ok(&r),
{
    let mut rand = Rand::seed(seed as u64);
    let n: usize = ZONE_WIDTH * ZONE_HEIGHT;
    let mut data: Vec<bool> = Vec::new();
    let mut i: usize = 0;
    while i < n
        invariant
            i <= n,
            n == ZONE_WIDTH * ZONE_HEIGHT,
            data@.len() == i,
            rand.spec_seed() == Some(seed as u64),
        decreases n - i,
    {
        data.push(rand.chance(1, 2));
        i += 1;
    }
    Grid::init_from_vec(ZONE_WIDTH, ZONE_HEIGHT, data)
}

} // verus!
