use openwilly::driving::{
    brake_step, refuel_step, BrakeAction,
    compass_direction, contact, engine_sound_step, entry_position, sprite_member, terrain_obstacle,
    terrain_tilt, tile_step, topo_point, DriveEvent, HillType, MapObject, MapObjectType,
    TerrainObstacle, WorldMap, MAP_HEIGHT, MAP_WIDTH, TOPO_HEIGHT, TOPO_WIDTH,
};

#[test]
fn world_map_has_all_tiles() {
    let wm = WorldMap::default_map();
    assert_eq!(wm.grid.len(), 5, "5 rows");
    assert!(wm.grid.iter().all(|r| r.len() == 6), "6 cols per row");
    // All referenced tile IDs must resolve
    for row in &wm.grid {
        for &tid in row {
            assert!(wm.get_tile(tid).is_some(), "tile {} missing", tid);
        }
    }
    // 28 unique tiles
    assert_eq!(wm.tiles.len(), 28);
    // Start tile exists
    let start_id = wm.tile_at(wm.start_tile.0, wm.start_tile.1).unwrap();
    assert_eq!(start_id, 16, "start should be tile 16");
}

#[test]
fn world_map_start_tile_home() {
    let wm = WorldMap::default_map();
    let t = wm.get_tile(16).unwrap();
    // Home/Yard destination should be on the start tile
    let home = t.objects.iter().find(|o| o.dir_resource.as_deref() == Some("04"));
    assert!(home.is_some(), "start tile should contain home destination");
}

// ---------------------------------------------------------------------------

fn object(obj_type: MapObjectType, dir_resource: Option<&str>) -> MapObject {
    MapObject {
        object_id: 19,
        x: 120,
        y: 350,
        obj_type,
        inner_radius: 25,
        outer_radius: 45,
        dir_resource: dir_resource.map(|s| s.to_string()),
    }
}

#[test]
fn world_map_tile_names_and_objects() {
    let wm = WorldMap::default_map();
    let t = wm.get_tile(1).unwrap();
    assert_eq!(t.id, 1);
    assert_eq!(t.map_image, "30b001v0");
    assert_eq!(t.topology, "30t001v0");
    assert_eq!(t.objects.len(), 3);
    assert_eq!(t.objects[0].obj_type, MapObjectType::Correct);
    assert_eq!((t.objects[0].x, t.objects[0].y, t.objects[0].inner_radius), (146, 392, 50));
    assert_eq!(t.objects[1].dir_resource.as_deref(), Some("84"));
    assert_eq!(wm.get_tile(30).unwrap().topology, "30t030v0");
    assert!(wm.get_tile(25).is_none());
    assert!(wm.get_tile(29).is_none());
    assert_eq!(wm.tile_at(0, 4), Some(26));
    assert_eq!(wm.tile_at(1, 4), Some(26));
    assert_eq!(wm.tile_at(6, 0), None);
    assert_eq!(wm.tile_at(0, 5), None);
    assert_eq!(wm.start_pos, (300, 250));
    assert_eq!(wm.start_direction, 16);
    let hills = wm.get_tile(5).unwrap();
    assert_eq!(hills.objects[0].obj_type, MapObjectType::Hill(HillType::BigHill));
}

#[test]
fn sprite_member_for_direction_and_tilt() {
    // Direction 1, tilt 0 → index (0, 2) → member 78 + 0*5 + 2 = 80
    assert_eq!(sprite_member(1, 0), 80);
    assert_eq!(sprite_member(16, 2), 78 + 15 * 5 + 4);
    assert_eq!(sprite_member(5, -2), 78 + 4 * 5);
    assert_eq!(sprite_member(3, 9), 78 + 2 * 5 + 4);
    assert_eq!(sprite_member(3, -9), 78 + 2 * 5);
}

#[test]
fn terrain_obstacles() {
    assert_eq!(terrain_obstacle(250, 9, 9, 9), Some(TerrainObstacle::Wall));
    assert_eq!(terrain_obstacle(240, 9, 9, 9), Some(TerrainObstacle::Wall));
    assert_eq!(terrain_obstacle(3, 3, 9, 9), Some(TerrainObstacle::BigHill));
    assert_eq!(terrain_obstacle(3, 4, 9, 9), None);
    assert_eq!(terrain_obstacle(2, 2, 9, 9), Some(TerrainObstacle::SmallHill));
    assert_eq!(terrain_obstacle(2, 3, 9, 9), None);
    assert_eq!(terrain_obstacle(32, 9, 8, 9), Some(TerrainObstacle::Mud));
    assert_eq!(terrain_obstacle(32, 9, 9, 9), None);
    assert_eq!(terrain_obstacle(16, 9, 9, 3), Some(TerrainObstacle::Holes));
    assert_eq!(terrain_obstacle(16, 9, 9, 4), None);
    assert_eq!(terrain_obstacle(0, 0, 0, 0), None);
    assert_eq!(TerrainObstacle::Wall.reason(), "wall");
    assert_eq!(TerrainObstacle::BigHill.reason(), "big_hill");
    assert_eq!(TerrainObstacle::SmallHill.reason(), "small_hill");
    assert_eq!(TerrainObstacle::Mud.reason(), "mud");
    assert_eq!(TerrainObstacle::Holes.reason(), "holes");
}

#[test]
fn terrain_tilt_and_topology_cells() {
    assert_eq!(terrain_tilt(0), 0);
    assert_eq!(terrain_tilt(1), 1);
    assert_eq!(terrain_tilt(18), 2);
    assert_eq!(terrain_tilt(15), 2);
    assert_eq!(topo_point(320, 200), (158, 99));
    assert_eq!(topo_point(0, 0), (0, 0));
    assert_eq!(topo_point(5, 3), (0, 0));
    assert_eq!(topo_point(7, 6), (1, 2));
    assert_eq!(topo_point(2000, 2000), (TOPO_WIDTH - 1, TOPO_HEIGHT - 1));
}

#[test]
fn compass_wraps_to_sixteen() {
    assert_eq!(compass_direction(0), 16);
    assert_eq!(compass_direction(16), 16);
    assert_eq!(compass_direction(1), 1);
    assert_eq!(compass_direction(17), 1);
    assert_eq!(compass_direction(15), 15);
}

#[test]
fn tile_transition_steps_and_wraps() {
    assert_eq!(tile_step(2, 3, -1, 0), Some((1, 3)));
    let (x, y) = entry_position(-1, 0);
    assert!(x.unwrap() > MAP_WIDTH / 2); // wrapped to right side
    assert_eq!(x, Some(636));
    assert_eq!(y, None);
    assert_eq!(entry_position(1, 0), (Some(4), None));
    assert_eq!(entry_position(0, -1), (None, Some(MAP_HEIGHT - 4)));
    assert_eq!(entry_position(0, 1), (None, Some(4)));
    // Edge of the world: no transition
    assert_eq!(tile_step(0, 0, -1, 0), None);
    assert_eq!(tile_step(5, 0, 1, 0), None);
    assert_eq!(tile_step(0, 4, 0, 1), None);
    assert_eq!(tile_step(5, 4, 0, -1), Some((5, 3)));
}

#[test]
fn gas_station_contact_starts_refueling() {
    let c = contact(&object(MapObjectType::Gas, None), 0, true, 4, 1);
    assert!(matches!(c.event, Some(DriveEvent::GasStation)));
    assert!(c.halt && c.start_refuel && !c.step_back);
    // Full tank or already refueling: nothing
    let c = contact(&object(MapObjectType::Gas, None), 0, false, 4, 1);
    assert!(c.event.is_none() && !c.halt && !c.start_refuel);
    let c = contact(&object(MapObjectType::Gas, None), 3, true, 4, 1);
    assert!(c.event.is_none() && !c.start_refuel);
}

#[test]
fn cows_contact_blocks_without_horn() {
    let c = contact(&object(MapObjectType::Cows, None), 0, true, 4, 0);
    assert!(matches!(c.event, Some(DriveEvent::AnimalsBlocking { has_horn: false })));
    assert!(c.halt && c.step_back);
    let c = contact(&object(MapObjectType::Goats, None), 0, true, 4, 2);
    assert!(matches!(c.event, Some(DriveEvent::AnimalsBlocking { has_horn: true })));
    assert!(!c.halt && !c.step_back);
}

#[test]
fn destination_and_other_contacts() {
    let c = contact(&object(MapObjectType::Destination, Some("84")), 0, true, 4, 1);
    match c.event {
        Some(DriveEvent::ReachedDestination { object_id, dir_resource }) => {
            assert_eq!(object_id, 19);
            assert_eq!(dir_resource, "84");
        }
        other => panic!("unexpected {:?}", other),
    }
    assert!(c.halt);
    let c = contact(&object(MapObjectType::RandomDestination, None), 0, true, 4, 1);
    assert!(c.event.is_none() && !c.halt);
    let c = contact(&object(MapObjectType::Stop, None), 0, true, 4, 1);
    assert!(c.event.is_none() && c.halt);
    let c = contact(&object(MapObjectType::Correct, None), 0, true, 4, 1);
    assert_eq!(c.snap_to, Some((120, 350)));
    assert!(c.event.is_none() && !c.halt);
    let c = contact(&object(MapObjectType::Hill(HillType::BigHill), None), 0, true, 2, 1);
    assert!(matches!(c.event, Some(DriveEvent::HillSound { big: true })));
    let c = contact(&object(MapObjectType::Hill(HillType::BigHill), None), 0, true, 3, 1);
    assert!(c.event.is_none());
    let c = contact(&object(MapObjectType::Hill(HillType::SmallHill), None), 0, true, 1, 1);
    assert!(matches!(c.event, Some(DriveEvent::HillSound { big: false })));
    let c = contact(&object(MapObjectType::Ferry, None), 0, true, 1, 1);
    assert!(c.event.is_none() && !c.halt && c.snap_to.is_none());
}

#[test]
fn engine_sound_startup_then_idle_steps() {
    let mut ignition = false;
    let mut state = None;
    // engine type 4: first call plays startup (05e004v0)
    let s = engine_sound_step(4, &mut ignition, &mut state, true, 0);
    assert_eq!(s.as_deref(), Some("05e004v0"));
    assert!(ignition);
    // at speed 0: idle (05e005v0)
    let s = engine_sound_step(4, &mut ignition, &mut state, true, 0);
    assert_eq!(s.as_deref(), Some("05e005v0"));
    // still idle: no change
    let s = engine_sound_step(4, &mut ignition, &mut state, true, 0);
    assert_eq!(s, None);
}

#[test]
fn engine_sound_speed_level_steps() {
    let mut ignition = true;
    let mut state = Some(2);
    // above 10% → speed1 (state 3) → 05e006v0
    let s = engine_sound_step(4, &mut ignition, &mut state, true, 11);
    assert_eq!(s.as_deref(), Some("05e006v0"));
    // at or above 70% → speed4 (state 6) → 05e009v0
    let s = engine_sound_step(4, &mut ignition, &mut state, true, 71);
    assert_eq!(s.as_deref(), Some("05e009v0"));
    assert_eq!(state, Some(6));
    // other engines
    let mut ignition = false;
    let mut state = None;
    assert_eq!(engine_sound_step(1, &mut ignition, &mut state, true, 0).as_deref(), Some("05e073v0"));
    assert_eq!(engine_sound_step(1, &mut ignition, &mut state, true, 45).as_deref(), Some("05e077v0"));
    let mut ignition = true;
    let mut state = None;
    assert_eq!(engine_sound_step(9, &mut ignition, &mut state, true, 25).as_deref(), Some("05e035v0"));
    assert_eq!(engine_sound_step(9, &mut ignition, &mut state, false, 99).as_deref(), Some("05e033v0"));
    // unknown engine: nothing, ignition untouched
    let mut ignition = false;
    let mut state = None;
    assert_eq!(engine_sound_step(0, &mut ignition, &mut state, true, 0), None);
    assert!(!ignition);
    assert_eq!(engine_sound_step(10, &mut ignition, &mut state, true, 0), None);
}

#[test]
fn refuel_adds_a_tenth_every_ten_frames() {
    let (mut ticks, mut frames) = (3u8, 0u8);
    let mut added = 0;
    for frame in 1..=30 {
        let (t, f, add) = refuel_step(ticks, frames);
        ticks = t;
        frames = f;
        if add {
            added += 1;
            assert_eq!(frame % 10, 0);
        }
    }
    assert_eq!((ticks, frames, added), (0, 0, 3));
    assert_eq!(refuel_step(0, 4), (0, 4, false));
}

#[test]
fn braking_stops_then_waits_then_reverses() {
    assert_eq!(brake_step(true, false, 0), (BrakeAction::SlowDown, 0));
    assert_eq!(brake_step(true, true, 0), (BrakeAction::Stop, 10));
    let mut timer = 10;
    for _ in 0..10 {
        let (a, t) = brake_step(false, false, timer);
        assert_eq!(a, BrakeAction::Wait);
        timer = t;
    }
    assert_eq!(brake_step(false, false, timer), (BrakeAction::Reverse, 0));
}
