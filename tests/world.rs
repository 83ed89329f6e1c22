use zoneworld::{
    bool_snapshot, carve_paths, crossings, edge_snapshot, hex, is_in_bounds, rand_grid, terrain_snapshot,
    world_to_px, world_to_zone_idx, world_to_zone_local, zone_idx, zone_local_to_world, zone_neighbors, zone_xyz,
    Distance, Grid, Palette, Rand, SimpleZoneBuilder, Terrain, TileSnapColor, WorldMap, ZoneBuilder,
    ZoneConstraints, ZoneData, MAP_DEPTH, MAX_SEARCH_DEPTH, MAP_HEIGHT, MAP_WIDTH, ZONE_HEIGHT, ZONE_WIDTH,
};

fn height_field() -> Grid<u32> {
    Grid::init_fill(ZONE_WIDTH, ZONE_HEIGHT, |x, y| ((x * 37 + y * 91) % 1000) as u32)
}

fn empty_constraints(idx: usize) -> ZoneConstraints {
    ZoneConstraints {
        idx,
        south: vec![0; ZONE_WIDTH],
        west: vec![0; ZONE_HEIGHT],
        east: vec![0; ZONE_HEIGHT],
        north: vec![0; ZONE_WIDTH],
    }
}

fn copy_constraints(c: &ZoneConstraints) -> ZoneConstraints {
    ZoneConstraints {
        idx: c.idx,
        south: c.south.clone(),
        west: c.west.clone(),
        east: c.east.clone(),
        north: c.north.clone(),
    }
}

fn count(v: &[u8], m: u8) -> usize {
    v.iter().filter(|e| **e == m).count()
}

/// Tiles reachable from `from` over 8-connected tiles of `kind`.
fn reaches(t: &Grid<Terrain>, kind: Terrain, from: (usize, usize), to: (usize, usize)) -> bool {
    let mut seen = vec![false; ZONE_WIDTH * ZONE_HEIGHT];
    let mut stack = vec![from];
    if t.get(from.0, from.1) != Some(&kind) {
        return false;
    }
    while let Some((x, y)) = stack.pop() {
        if (x, y) == to {
            return true;
        }
        if seen[x * ZONE_HEIGHT + y] {
            continue;
        }
        seen[x * ZONE_HEIGHT + y] = true;
        for n in zone_neighbors(x * ZONE_HEIGHT + y) {
            let (nx, ny) = (n / ZONE_HEIGHT, n % ZONE_HEIGHT);
            if t.get(nx, ny) == Some(&kind) && !seen[n] {
                stack.push((nx, ny));
            }
        }
    }
    false
}

#[test]
fn zone_index_and_position_round_trip() {
    for x in 0..MAP_WIDTH {
        for y in 0..MAP_HEIGHT {
            for z in 0..MAP_DEPTH {
                assert_eq!(zone_xyz(zone_idx(x, y, z)), (x, y, z));
            }
        }
    }
    for i in 0..MAP_WIDTH * MAP_HEIGHT * MAP_DEPTH {
        let (x, y, z) = zone_xyz(i);
        assert_eq!(zone_idx(x, y, z), i);
    }
}

#[test]
fn projection_formulas() {
    assert_eq!(zone_idx(1, 0, 0), 24);
    assert_eq!(zone_idx(0, 1, 0), 4);
    assert_eq!(zone_xyz(29), (1, 1, 1));
    assert_eq!(world_to_zone_local(45, 27), (5, 7));
    assert_eq!(zone_local_to_world(29, 3, 4), (43, 24, 1));
    assert_eq!(world_to_zone_idx(45, 27, 1), 29);
    assert_eq!(world_to_px(2, 3), (32, 72));
    assert!(is_in_bounds(1, 1, 1));
    assert!(!is_in_bounds(0, 1, 1));
    assert!(is_in_bounds(319, 119, 3));
    assert!(!is_in_bounds(320, 1, 1));
}

#[test]
fn distances() {
    assert_eq!(Distance::manhattan([0, 0, 0], [1, -2, 3]), 6);
    assert_eq!(Distance::chebyshev([0, 0, 0], [1, -2, 3]), 3);
    assert_eq!(Distance::euclidean_sq([0, 0, 0], [1, -2, 3]), 14);
    assert_eq!(Distance::chebyshev([i32::MIN, 0, 0], [i32::MAX, 0, 0]), u32::MAX as u64);
}

#[test]
fn colours() {
    assert_eq!(hex(0xff, 0x0a, 0x0b), 0xff0a0b);
    assert_eq!(Palette::Green.value(), 0x2E862E);
    assert_eq!(u32::from(Palette::Blue), 0x294E94);
    assert_eq!(TileSnapColor::Gray(127).name(), "Gray (127)");
    assert_eq!(TileSnapColor::Gray(5).name(), "Gray (5)");
    assert_eq!(TileSnapColor::Gray(42).name(), "Gray (42)");
    assert_eq!(TileSnapColor::White.name(), "White");
    assert_eq!(TileSnapColor::Yellow.name(), "Yellow");
    assert_eq!(TileSnapColor::for_edge(0), TileSnapColor::Gray(127));
    assert_eq!(TileSnapColor::for_edge(1), TileSnapColor::Blue);
    assert_eq!(TileSnapColor::for_edge(2), TileSnapColor::Yellow);
    assert_eq!(TileSnapColor::for_edge(7), TileSnapColor::White);
    assert_eq!(TileSnapColor::Gray(1).to_color(), 0x010101);
    assert_eq!(TileSnapColor::Red.to_color(), 0xA83A3A);
    assert_eq!(TileSnapColor::for_terrain(Terrain::River), TileSnapColor::Blue);
}

#[test]
fn terrain_looks() {
    assert_eq!(Terrain::Grass.sprite_ch(), '.');
    assert_eq!(Terrain::River.sprite_ch(), '~');
    assert_eq!(Terrain::Footpath.sprite_ch(), '\u{2591}');
    assert_eq!(Terrain::River.colors(), (Some(0x294E94), Some(0x0EC9E2)));
    assert_eq!(Terrain::Grass.colors(), (None, Some(0x2E862E)));
    assert_eq!(Terrain::default(), Terrain::Grass);
}

#[test]
fn rand_is_reproducible_and_in_range() {
    let mut a = Rand::seed(7);
    let mut b = Rand::seed(7);
    for _ in 0..100 {
        let r = a.range_n(1, 39);
        assert!((1..39).contains(&r));
        assert_eq!(r, b.range_n(1, 39));
    }
    assert_eq!(a.range_n(5, 5), 5);
    assert!(!a.chance(0, 2));
    assert!(a.chance(2, 2));
    let v = [3, 4, 5];
    assert!(v.contains(&a.pick(&v)));
    assert!(a.pick_idx(&v) < 3);
    assert_eq!(a.pick_idx::<u8>(&[]), 0);
    if let Some(mut c) = Rand::new() {
        assert!(c.range_n(0, 10) < 10);
    }
}

#[test]
fn rand_grid_is_reproducible() {
    let a = rand_grid(3);
    let b = rand_grid(3);
    assert_eq!(a.width(), ZONE_WIDTH);
    assert_eq!(a.height(), ZONE_HEIGHT);
    assert!(a.iter().zip(b.iter()).all(|(p, q)| p == q));
}

#[test]
fn continuity_rules() {
    let map = WorldMap::new();
    let c = map.get_continuity(0, 0, 0);
    assert_eq!(c.south, vec![0; ZONE_WIDTH]);
    assert_eq!(c.west, vec![0; ZONE_HEIGHT]);
    let c = map.get_continuity(3, 1, 0);
    assert_eq!(count(&c.south, 1), 1);
    assert_eq!(count(&c.south, 2), 0);
    assert_eq!(c.west, vec![0; ZONE_HEIGHT]);
    let c = map.get_continuity(4, 2, 0);
    assert_eq!(count(&c.south, 2), 1);
    assert_eq!(count(&c.south, 1), 0);
    assert_eq!(count(&c.west, 2), 1);
    assert!(count(&c.west, 1) <= 1);
    assert_eq!(c.south[0], 0);
    assert_eq!(c.south[ZONE_WIDTH - 1], 0);
    let c = map.get_continuity(8, 0, 0);
    assert!(c.south.is_empty() && c.west.is_empty());
}

#[test]
fn neighbours_agree_on_shared_edges() {
    let map = WorldMap::default();
    for x in 0..MAP_WIDTH {
        for y in 0..MAP_HEIGHT {
            let c = map.get_zone_constraints(zone_idx(x, y, 1));
            assert_eq!(c.idx, zone_idx(x, y, 1));
            assert_eq!(c.north, map.get_continuity(x, y + 1, 1).south);
            assert_eq!(c.east, map.get_continuity(x + 1, y, 1).west);
            assert_eq!(c.south, map.get_continuity(x, y, 1).south);
        }
    }
    let top = map.get_zone_constraints(zone_idx(7, 5, 0));
    assert!(top.north.is_empty() && top.east.is_empty());
}

#[test]
fn crossings_add_centre_to_lone_marker() {
    let mut c = empty_constraints(0);
    c.south[10] = 1;
    assert_eq!(crossings(&c, 1), vec![(10, 0), (20, 10)]);
    assert!(crossings(&c, 2).is_empty());
    c.north[30] = 1;
    c.west[4] = 2;
    c.east[6] = 2;
    assert_eq!(crossings(&c, 1), vec![(10, 0), (30, 19)]);
    assert_eq!(crossings(&c, 2), vec![(0, 4), (39, 6)]);
}

#[test]
fn build_without_crossings_is_grass() {
    let mut b = SimpleZoneBuilder::default();
    let z = b.build(empty_constraints(9), &height_field());
    assert_eq!(z.idx, 9);
    assert!(z.terrain.iter().all(|t| *t == Terrain::Grass));
    assert!(b.get_snapshots().is_empty());
}

#[test]
fn build_is_deterministic() {
    let map = WorldMap::new();
    let c = map.get_zone_constraints(zone_idx(4, 2, 0));
    let h = height_field();
    let a = SimpleZoneBuilder::default().build(copy_constraints(&c), &h);
    let b = SimpleZoneBuilder::default().build(c, &h);
    assert_eq!(a.to_parts(), b.to_parts());
}

#[test]
fn build_joins_river_crossings() {
    let mut c = empty_constraints(3);
    c.south[10] = 1;
    c.north[30] = 1;
    c.west[5] = 1;
    let z = SimpleZoneBuilder::default().build(c, &height_field());
    assert!(reaches(&z.terrain, Terrain::River, (10, 0), (30, 19)));
    assert!(reaches(&z.terrain, Terrain::River, (0, 5), (30, 19)));
    assert!(z.terrain.iter().all(|t| *t != Terrain::Dirt));
}

#[test]
fn build_records_snapshots_when_asked() {
    let mut c = empty_constraints(3);
    c.south[10] = 2;
    let mut b = SimpleZoneBuilder::new(true, MAX_SEARCH_DEPTH);
    let z = b.build(c, &height_field());
    assert!(reaches(&z.terrain, Terrain::Footpath, (10, 0), (20, 10)));
    let snaps = b.get_snapshots();
    assert_eq!(snaps.len(), 3);
    assert_eq!(*snaps[0].data.get(10, 0).unwrap(), TileSnapColor::Yellow);
    assert_eq!(*snaps[2].data.get(10, 0).unwrap(), TileSnapColor::Yellow);
}

#[test]
fn carve_reports_joined_pairs() {
    let mut t = Grid::init(ZONE_WIDTH, ZONE_HEIGHT, Terrain::Grass);
    let jitter = Grid::init(ZONE_WIDTH, ZONE_HEIGHT, false);
    let points = vec![(0, 0), (39, 19), (5, 15)];
    let joined = carve_paths(&mut t, &points, true, &height_field(), &jitter, MAX_SEARCH_DEPTH);
    assert_eq!(joined, vec![(0, 1), (0, 2), (1, 2)]);
    assert!(reaches(&t, Terrain::River, (0, 0), (39, 19)));
    assert!(reaches(&t, Terrain::River, (5, 15), (39, 19)));
    let mut u = Grid::init(ZONE_WIDTH, ZONE_HEIGHT, Terrain::Grass);
    let none = carve_paths(&mut u, &vec![(3, 3)], false, &height_field(), &jitter, MAX_SEARCH_DEPTH);
    assert!(none.is_empty());
    assert!(u.iter().all(|t| *t == Terrain::Grass));
}

#[test]
fn snapshots_picture_their_input() {
    let mut c = empty_constraints(0);
    c.west[3] = 1;
    c.north[2] = 2;
    let s = edge_snapshot(&c);
    assert_eq!(*s.data.get(0, 3).unwrap(), TileSnapColor::Blue);
    assert_eq!(*s.data.get(2, ZONE_HEIGHT - 1).unwrap(), TileSnapColor::Yellow);
    assert_eq!(*s.data.get(5, 5).unwrap(), TileSnapColor::White);
    assert_eq!(*s.data.get(5, 0).unwrap(), TileSnapColor::Gray(127));
    let b = bool_snapshot(&Grid::init_from_vec(1, 2, vec![true, false]));
    assert_eq!(*b.data.get(0, 0).unwrap(), TileSnapColor::White);
    assert_eq!(*b.data.get(0, 1).unwrap(), TileSnapColor::Black);
    let mut t = Grid::init(ZONE_WIDTH, ZONE_HEIGHT, Terrain::Grass);
    t.set(1, 1, Terrain::River);
    let p = terrain_snapshot(&t);
    assert_eq!(*p.data.get(1, 1).unwrap(), TileSnapColor::Blue);
    assert_eq!(*p.data.get(0, 0).unwrap(), TileSnapColor::Green);
}

#[test]
fn save_and_load_round_trip() {
    let mut terrain = Grid::init(ZONE_WIDTH, ZONE_HEIGHT, Terrain::Grass);
    terrain.set(3, 4, Terrain::River);
    terrain.set(5, 6, Terrain::Footpath);
    terrain.set(0, 19, Terrain::Dirt);
    let zone = ZoneData { idx: 5, terrain };
    let text = ron::to_string(&zone.to_parts()).unwrap();
    let (idx, w, h, codes): (usize, usize, usize, Vec<u8>) = ron::from_str(&text).unwrap();
    let back = ZoneData::from_parts(idx, w, h, codes).unwrap();
    assert_eq!(back.idx, 5);
    assert_eq!(back.terrain.width(), ZONE_WIDTH);
    for x in 0..ZONE_WIDTH {
        for y in 0..ZONE_HEIGHT {
            assert_eq!(back.terrain.get(x, y), zone.terrain.get(x, y));
        }
    }
}

#[test]
fn corrupt_saves_are_refused() {
    assert!(ZoneData::from_parts(1, 2, 2, vec![1, 2, 3]).is_none());
    assert!(ZoneData::from_parts(1, 2, 2, vec![1, 2, 3, 9]).is_none());
    assert!(ZoneData::from_parts(1, 2, 2, vec![1, 2, 3, 4]).is_some());
    assert!(ron::from_str::<(usize, usize, usize, Vec<u8>)>("(1, 2").is_err());
    assert_eq!(Terrain::from_code(3), Some(Terrain::River));
    assert_eq!(Terrain::Footpath.code(), 4);
}

#[test]
fn carve_with_no_rounds_changes_nothing() {
    let mut t = Grid::init(ZONE_WIDTH, ZONE_HEIGHT, Terrain::Grass);
    let jitter = Grid::init(ZONE_WIDTH, ZONE_HEIGHT, false);
    let joined = carve_paths(&mut t, &vec![(0, 0), (39, 19)], true, &height_field(), &jitter, 1);
    assert!(joined.is_empty());
    assert!(t.iter().all(|c| *c == Terrain::Grass));
}

#[test]
fn build_over_fixed_jitter_is_repeatable() {
    let map = WorldMap::new();
    let c = map.get_zone_constraints(zone_idx(3, 4, 2));
    let h = height_field();
    let jitter = Grid::init_fill(ZONE_WIDTH, ZONE_HEIGHT, |x, y| (x * 7 + y * 3) % 5 == 0);
    let mut builder = SimpleZoneBuilder::default();
    let a = builder.build_with_jitter(copy_constraints(&c), &h, &jitter);
    let b = builder.build_with_jitter(c, &h, &jitter);
    assert_eq!(a.to_parts(), b.to_parts());
    assert_eq!(a.idx, zone_idx(3, 4, 2));
}
