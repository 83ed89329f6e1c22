use zoneworld::{needed_zones, plan_zone_updates, zone_idx, Grid, Terrain, Zone, ZoneStatus, Zones};

#[test]
fn needed_set_of_corner_zone() {
    let active = vec![zone_idx(0, 0, 0)];
    let mut expected = vec![
        zone_idx(0, 0, 0),
        zone_idx(1, 0, 0),
        zone_idx(0, 1, 0),
        zone_idx(1, 1, 0),
        zone_idx(0, 0, 1),
    ];
    expected.sort();
    assert_eq!(needed_zones(&active), expected);
    assert_eq!(needed_zones(&active), vec![0, 1, 4, 24, 28]);
}

#[test]
fn needed_set_of_inner_zone() {
    let needed = needed_zones(&vec![zone_idx(3, 3, 1)]);
    assert_eq!(needed.len(), 11);
    assert!(needed.contains(&zone_idx(2, 2, 1)));
    assert!(needed.contains(&zone_idx(4, 4, 1)));
    assert!(needed.contains(&zone_idx(3, 3, 0)));
    assert!(needed.contains(&zone_idx(3, 3, 2)));
    assert!(!needed.contains(&zone_idx(4, 4, 2)));
    assert!(needed.windows(2).all(|w| w[0] < w[1]));
}

#[test]
fn diff_from_cold_start_loads_everything() {
    let u = plan_zone_updates(&vec![0], &vec![]);
    assert_eq!(u.load, vec![0, 1, 4, 24, 28]);
    assert!(u.unload.is_empty());
    assert_eq!(u.to_active, vec![0]);
    assert!(u.to_dormant.is_empty());
}

#[test]
fn diff_against_resident_zones() {
    let resident = vec![
        (0, ZoneStatus::Active),
        (1, ZoneStatus::Dormant),
        (100, ZoneStatus::Dormant),
        (24, ZoneStatus::Active),
        (150, ZoneStatus::Active),
    ];
    let u = plan_zone_updates(&vec![0], &resident);
    assert_eq!(u.load, vec![4, 28]);
    let mut unload = u.unload.clone();
    unload.sort();
    assert_eq!(unload, vec![100, 150]);
    assert!(u.to_active.is_empty());
    assert_eq!(u.to_dormant, vec![24]);
}

#[test]
fn diff_wakes_dormant_roster_zone() {
    let resident = vec![(28, ZoneStatus::Dormant), (0, ZoneStatus::Active)];
    let u = plan_zone_updates(&vec![28], &resident);
    assert_eq!(u.to_active, vec![28]);
    assert_eq!(u.to_dormant, vec![0]);
    assert!(u.unload.is_empty());
    for i in &u.load {
        assert!(!u.unload.contains(i) && !u.to_dormant.contains(i));
    }
}

#[test]
fn player_move_sets_roster() {
    let mut zones = Zones::default();
    zones.on_player_move(45, 27, 1);
    assert_eq!(zones.player, 29);
    assert_eq!(zones.active, vec![29]);
    zones.active.push(0);
    zones.on_player_move(1, 1, 0);
    assert_eq!(zones.player, 0);
    assert_eq!(zones.active, vec![29, 0]);
    zones.on_player_move(100, 1, 0);
    assert_eq!(zones.player, zone_idx(2, 0, 0));
    assert_eq!(zones.active, vec![zone_idx(2, 0, 0)]);
}

#[test]
fn zone_status_fans_out_to_tiles() {
    let terrain = Grid::init(2, 1, Terrain::River);
    let tiles = Grid::init_from_vec(2, 1, vec![7u64, 8]);
    let mut zone = Zone::new(12, terrain, tiles);
    assert_eq!(zone.status(), ZoneStatus::Dormant);
    let out = zone.set_status(ZoneStatus::Active);
    assert_eq!(out, vec![(7, ZoneStatus::Active), (8, ZoneStatus::Active)]);
    assert_eq!(zone.status(), ZoneStatus::Active);
    assert_eq!(zone.idx(), 12);
    assert_eq!(zone.tiles().get(1, 0), Some(&8));
    let saved = zone.to_save();
    assert_eq!(saved.idx, 12);
    assert_eq!(saved.terrain.get(1, 0), Some(&Terrain::River));
}

#[test]
fn only_the_players_level_is_visible() {
    assert!(zoneworld::is_zone_visible(zone_idx(2, 3, 1), 1));
    assert!(!zoneworld::is_zone_visible(zone_idx(2, 3, 1), 0));
}

#[test]
fn empty_roster_unloads_everything() {
    assert!(needed_zones(&vec![]).is_empty());
    let resident = vec![(5, ZoneStatus::Active), (9, ZoneStatus::Dormant)];
    let u = plan_zone_updates(&vec![], &resident);
    assert!(u.load.is_empty());
    assert_eq!(u.unload, vec![5, 9]);
    assert!(u.to_active.is_empty() && u.to_dormant.is_empty());
}

#[test]
fn far_corner_zone_needs_its_clamped_neighbourhood() {
    let needed = needed_zones(&vec![zone_idx(7, 5, 3)]);
    let mut expected = vec![
        zone_idx(7, 5, 3),
        zone_idx(6, 5, 3),
        zone_idx(7, 4, 3),
        zone_idx(6, 4, 3),
        zone_idx(7, 5, 2),
    ];
    expected.sort();
    assert_eq!(needed, expected);
}
