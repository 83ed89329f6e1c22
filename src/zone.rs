use vstd::prelude::*;

use crate::colors::Palette;
use crate::grid::Grid;

verus! {

/// What covers a tile.
#[derive(Clone, Copy, PartialEq, Eq, Structural, Debug, Hash)]
pub enum Terrain {
    Grass,
    Dirt,
    River,
    Footpath,
}

impl Default for Terrain {
    fn default() -> (r: Self)
        ensures
            r == Terrain::Grass,
    {
        Terrain::Grass
    }
}

impl Terrain {
    /// The character drawn for this terrain.
    pub fn sprite_ch(&self) -> (r: char)
        ensures
            r == match *self {
                Terrain::Grass | Terrain::Dirt => '.',
                Terrain::River => '~',
                Terrain::Footpath => '\u{2591}',
            },
    {
        match self {
            Terrain::Grass => '.',
            Terrain::Dirt => '.',
            Terrain::River => '~',
            Terrain::Footpath => '\u{2591}',
        }
    }

    /// The (foreground, background) colours of this terrain.
    pub fn colors(&self) -> (r: (Option<u32>, Option<u32>))
        ensures
            r == match *self {
                Terrain::Grass => (None, Some(Palette::Green.spec_value())),
                Terrain::Dirt | Terrain::Footpath => (None, Some(Palette::Brown.spec_value())),
                Terrain::River => (Some(Palette::Blue.spec_value()), Some(Palette::Cyan.spec_value())),
            },
    {
        match self {
            Terrain::Grass => (None, Some(Palette::Green.value())),
            Terrain::Dirt => (None, Some(Palette::Brown.value())),
            Terrain::River => (Some(Palette::Blue.value()), Some(Palette::Cyan.value())),
            Terrain::Footpath => (None, Some(Palette::Brown.value())),
        }
    }
}

/// Whether a resident zone is in play or only kept around.
#[derive(Clone, Copy, PartialEq, Eq, Structural, Debug, Hash)]
pub enum ZoneStatus {
    Active,
    Dormant,
}

/// The crossings a zone must honour on each of its edges: one entry per
/// tile of the edge, 0 for none, 1 for a river, 2 for a footpath.
pub struct ZoneConstraints {
    pub idx: usize,
    pub south: Vec<u8>,
    pub west: Vec<u8>,
    pub east: Vec<u8>,
    pub north: Vec<u8>,
}

/// A zone's terrain, as generated or as saved.
pub struct ZoneData {
    pub idx: usize,
    pub terrain: Grid<Terrain>,
}

/// A resident zone: its terrain, the handles of the tiles drawn for it (one
/// per terrain cell) and its status.
pub struct Zone {
    terrain: Grid<Terrain>,
    tiles: Grid<u64>,
    idx: usize,
    status: ZoneStatus,
}

impl Zone {
    pub closed spec fn spec_terrain(&self) -> Grid<Terrain> {
        self.terrain
    }

    pub closed spec fn spec_tiles(&self) -> Grid<u64> {
        self.tiles
    }

    pub closed spec fn spec_idx(&self) -> usize {
        self.idx
    }

    pub closed spec fn spec_status(&self) -> ZoneStatus {
        self.status
    }

    /// A zone spawned dormant.
    pub fn new(idx: usize, terrain: Grid<Terrain>, tiles: Grid<u64>) -> (r: Self)
        ensures
            r.spec_idx() == idx,
            r.spec_terrain() == terrain,
            r.spec_tiles() == tiles,
            r.spec_status() == ZoneStatus::Dormant,
    {
        Zone { terrain, tiles, idx, status: ZoneStatus::Dormant }
    }

    /// What to save of the zone: its index and a copy of its terrain.
    pub fn to_save(&self) -> (r: ZoneData)
        requires
            self.spec_terrain().wf(),
        ensures
            r.idx == self.spec_idx(),
            r.terrain.wf(),
            r.terrain.spec_width() == self.spec_terrain().spec_width(),
            r.terrain.spec_height() == self.spec_terrain().spec_height(),
            r.terrain.cells() == self.spec_terrain().cells(),
    {
        ZoneData { idx: self.idx, terrain: self.terrain.duplicate() }
    }

    /// The handles of the zone's tiles, one per terrain cell.
    pub fn tiles(&self) -> (r: &Grid<u64>)
        ensures
            *r == self.spec_tiles(),
    {
        &self.tiles
    }

    pub fn idx(&self) -> (r: usize)
        ensures
            r == self.spec_idx(),
    {
        self.idx
    }

    pub fn status(&self) -> (r: ZoneStatus)
        ensures
            r == self.spec_status(),
    {
        self.status
    }

    /// Sets the zone's status and hands it on to every tile: the result
    /// pairs each tile handle, in storage order, with the new status.
    pub fn set_status(&mut self, status: ZoneStatus) -> (r: Vec<(u64, ZoneStatus)>)
        requires
            old(self).spec_tiles().wf(),
        ensures
            final(self).spec_status() == status,
            final(self).spec_idx() == old(self).spec_idx(),
            final(self).spec_terrain() == old(self).spec_terrain(),
            final(self).spec_tiles() == old(self).spec_tiles(),
            r@.len() == old(self).spec_tiles().cells().len(),
            forall|k: int| 0 <= k < r@.len() ==> #[trigger] r@[k] == (old(self).spec_tiles().cells()[k], status),
    {
        self.status = status;
        let n = self.tiles.cells_len();
        let mut out: Vec<(u64, ZoneStatus)> = Vec::new();
        let mut k: usize = 0;
        while k < n
            invariant
                k <= n,
                n == self.tiles.cells().len(),
                self.tiles.wf(),
                out@.len() == k,
                forall|j: int| 0 <= j < k ==> #[trigger] out@[j] == (self.tiles.cells()[j], status),
            decreases n - k,
        {
            out.push((self.tiles.cell_at(k), status));
            k += 1;
        }
        out
    }
}

/// The code under which a terrain is saved.
pub open spec fn terrain_code(t: Terrain) -> u8 {
    match t {
        Terrain::Grass => 1,
        Terrain::Dirt => 2,
        Terrain::River => 3,
        Terrain::Footpath => 4,
    }
}

/// The terrain saved under a code, if any.
pub open spec fn terrain_of_code(c: u8) -> Option<Terrain> {
    if c == 1 {
        Some(Terrain::Grass)
    } else if c == 2 {
        Some(Terrain::Dirt)
    } else if c == 3 {
        Some(Terrain::River)
    } else if c == 4 {
        Some(Terrain::Footpath)
    } else {
        None
    }
}

pub open spec fn codes_of(cells: Seq<Terrain>) -> Seq<u8> {
    cells.map_values(|t: Terrain| terrain_code(t))
}

pub open spec fn codes_valid(codes: Seq<u8>) -> bool {
    forall|k: int| 0 <= k < codes.len() ==> #[trigger] terrain_of_code(codes[k]) is Some
}

pub open spec fn cells_of_codes(codes: Seq<u8>) -> Seq<Terrain> {
    codes.map_values(|c: u8| terrain_of_code(c)->0)
}

impl Terrain {
    /// The code under which this terrain is saved.
    pub fn code(self) -> (r: u8)
        ensures
            r == terrain_code(self),
    {
        match self {
            Terrain::Grass => 1,
            Terrain::Dirt => 2,
            Terrain::River => 3,
            Terrain::Footpath => 4,
        }
    }

    /// The terrain saved under `c`, or `None` for an unknown code.
    pub fn from_code(c: u8) -> (r: Option<Terrain>)
        ensures
            r == terrain_of_code(c),
    {
        match c {
            1 => Some(Terrain::Grass),
            2 => Some(Terrain::Dirt),
            3 => Some(Terrain::River),
            4 => Some(Terrain::Footpath),
            _ => None,
        }
    }
}

impl ZoneData {
    /// The zone as plain values for saving: its index, the terrain's width
    /// and height, and the code of each cell in storage order.
    pub fn to_parts(&self) -> (r: (usize, usize, usize, Vec<u8>))
        requires
            self.terrain.wf(),
        ensures
            r.0 == self.idx,
            r.1 == self.terrain.spec_width(),
            r.2 == self.terrain.spec_height(),
            r.3@ == codes_of(self.terrain.cells()),
    {
        let n = self.terrain.cells_len();
        let mut codes: Vec<u8> = Vec::new();
        let mut k: usize = 0;
        while k < n
            invariant
                k <= n,
                n == self.terrain.cells().len(),
                codes@ == codes_of(self.terrain.cells()).subrange(0, k as int),
            decreases n - k,
        {
            codes.push(self.terrain.cell_at(k).code());
            k += 1;
        }
        (self.idx, self.terrain.width(), self.terrain.height(), codes)
    }

    /// The zone saved as `to_parts` gives it; `None` when the codes do not
    /// fill the grid exactly or one of them is unknown.
    pub fn from_parts(idx: usize, width: usize, height: usize, codes: Vec<u8>) -> (r: Option<ZoneData>)
        ensures
            r is Some <==> codes@.len() == width * height && codes_valid(codes@),
            r matches Some(z) ==> {
                &&& z.idx == idx
                &&& z.terrain.wf()
                &&& z.terrain.spec_width() == width
                &&& z.terrain.spec_height() == height
                &&& z.terrain.cells() == cells_of_codes(codes@)
            },
    {
        let n = codes.len();
        if width.checked_mul(height) != Some(n) {
            return None;
        }
        let mut cells: Vec<Terrain> = Vec::new();
        let mut k: usize = 0;
        while k < n
            invariant
                k <= n,
                n == codes@.len(),
                cells@ == cells_of_codes(codes@).subrange(0, k as int),
                forall|j: int| 0 <= j < k ==> #[trigger] terrain_of_code(codes@[j]) is Some,
            decreases n - k,
        {
            match Terrain::from_code(codes[k]) {
                Some(t) => cells.push(t),
                None => {
                    return None;
                },
            }
            k += 1;
        }
        Some(ZoneData { idx, terrain: Grid::init_from_vec(width, height, cells) })
    }
}

/// Saving a zone and reading it back gives the same zone: the codes of a
/// well-formed zone's cells fill its grid, are all known, and decode to the
/// same cells.
pub proof fn lemma_save_load_round_trip(z: ZoneData)
    requires
        z.terrain.wf(),
    ensures
        codes_of(z.terrain.cells()).len() == z.terrain.spec_width() * z.terrain.spec_height(),
        codes_valid(codes_of(z.terrain.cells())),
        cells_of_codes(codes_of(z.terrain.cells())) == z.terrain.cells(),
{
    let cells = z.terrain.cells();
    assert(cells_of_codes(codes_of(cells)) =~= cells);
}

} // verus!
