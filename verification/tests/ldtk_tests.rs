use mmo::game_state::load_room_map;
use mmo::ldtk_map::{
    convert_world, map_fits, LdtkDefs, LdtkEntityFieldInstance, LdtkEntityInstance, LdtkEntityRef, LdtkEnumTag,
    LdtkLayerInstance, LdtkLevel, LdtkMap, LdtkTileInstance, LdtkTileset, MapError,
};
use mmo::room::{RoomId, TileIndex, UVec2};
use mmo::room_actor::make_room_sync;
use mmo::room_logic::{collision_at, decide_move, MoveDecision};

fn tile(x: u32, y: u32, t: u16) -> LdtkTileInstance {
    LdtkTileInstance { px: [x * 16, y * 16], t: TileIndex(t) }
}

fn tiles_layer(w: u32, h: u32, tiles: Vec<LdtkTileInstance>) -> LdtkLayerInstance {
    LdtkLayerInstance {
        typ: "Tiles".to_string(),
        width: w,
        height: h,
        grid_tiles: tiles,
        entity_instances: vec![],
    }
}

fn entity_layer(entities: Vec<LdtkEntityInstance>) -> LdtkLayerInstance {
    LdtkLayerInstance {
        typ: "Entities".to_string(),
        width: 0,
        height: 0,
        grid_tiles: vec![],
        entity_instances: entities,
    }
}

fn entity(identifier: &str, x: u32, y: u32, iid: &str, fields: Vec<LdtkEntityFieldInstance>) -> LdtkEntityInstance {
    LdtkEntityInstance {
        identifier: identifier.to_string(),
        grid: UVec2 { x, y },
        iid: iid.to_string(),
        field_instances: fields,
    }
}

fn portal(x: u32, y: u32, iid: &str, target: &str) -> LdtkEntityInstance {
    entity(
        "Portal",
        x,
        y,
        iid,
        vec![LdtkEntityFieldInstance::EntityRef {
            identifier: "target".to_string(),
            value: LdtkEntityRef { entity_iid: target.to_string() },
        }],
    )
}

fn tag(name: &str, ids: &[u16]) -> LdtkEnumTag {
    LdtkEnumTag { enum_value_id: name.to_string(), tile_ids: ids.iter().map(|i| TileIndex(*i)).collect() }
}

fn map(levels: Vec<LdtkLevel>) -> LdtkMap {
    LdtkMap {
        default_grid_size: 16,
        defs: LdtkDefs {
            tilesets: vec![LdtkTileset {
                enum_tags: vec![tag("Blocked", &[9]), tag("Foreground_h1", &[4]), tag("Foreground_h2", &[5])],
            }],
        },
        levels,
    }
}

fn two_rooms() -> LdtkMap {
    let level0 = LdtkLevel {
        layer_instances: vec![
            tiles_layer(3, 2, vec![tile(0, 0, 1), tile(1, 0, 9), tile(2, 1, 2)]),
            tiles_layer(3, 2, vec![tile(0, 1, 4), tile(2, 0, 9)]),
            entity_layer(vec![
                entity("Player_Start", 1, 1, "s", vec![]),
                portal(2, 1, "p0", "p1"),
                entity(
                    "Mob",
                    0,
                    1,
                    "m",
                    vec![LdtkEntityFieldInstance::String { identifier: "mob".to_string(), value: "bat".to_string() }],
                ),
                entity("Tree", 0, 0, "t", vec![]),
            ]),
        ],
    };
    let level1 = LdtkLevel {
        layer_instances: vec![
            tiles_layer(2, 2, vec![tile(0, 0, 9), tile(0, 0, 1)]),
            entity_layer(vec![portal(1, 1, "p1", "p0")]),
        ],
    };
    map(vec![level0, level1])
}

#[test]
fn world_has_one_room_per_level() {
    let w = convert_world(&two_rooms()).unwrap();
    assert_eq!(w.maps.len(), 2);
    assert_eq!(w.start_room_id, RoomId(0));
    assert_eq!(w.start_position, UVec2 { x: 1, y: 1 });
}

#[test]
fn dense_and_sparse_layers() {
    let w = convert_world(&two_rooms()).unwrap();
    let room = &w.maps[0];
    assert_eq!(room.size, UVec2 { x: 3, y: 2 });
    assert_eq!(room.bg_dense_layers.len(), 1);
    assert_eq!(
        room.bg_dense_layers[0],
        vec![TileIndex(1), TileIndex(9), TileIndex(0), TileIndex(0), TileIndex(0), TileIndex(2)]
    );
    // the second layer holds a foreground tile, so it is sparse
    assert_eq!(room.bg_sparse_layer, vec![(UVec2 { x: 2, y: 0 }, TileIndex(9))]);
    assert_eq!(room.fg_sparse_layer.len(), 1);
    assert_eq!(room.fg_sparse_layer[0].position, UVec2 { x: 0, y: 1 });
    assert_eq!(room.fg_sparse_layer[0].height, 1);
    // the second room has two tiles at one position, so it is sparse
    assert!(w.maps[1].bg_dense_layers.is_empty());
    assert_eq!(w.maps[1].bg_sparse_layer.len(), 2);
}

#[test]
fn blocked_tiles_make_collisions() {
    let w = convert_world(&two_rooms()).unwrap();
    assert_eq!(w.maps[0].collisions, vec![false, true, true, false, false, false]);
    assert_eq!(w.maps[1].collisions, vec![true, false, false, false]);
}

#[test]
fn portals_lead_to_each_other() {
    let w = convert_world(&two_rooms()).unwrap();
    assert_eq!(w.maps[0].portals.len(), 1);
    assert_eq!(w.maps[0].portals[0].position, UVec2 { x: 2, y: 1 });
    assert_eq!(w.maps[0].portals[0].target_room_id, RoomId(1));
    assert_eq!(w.maps[0].portals[0].target_position, UVec2 { x: 1, y: 1 });
    assert_eq!(w.maps[1].portals[0].target_room_id, RoomId(0));
    assert_eq!(w.maps[1].portals[0].target_position, UVec2 { x: 2, y: 1 });
}

#[test]
fn mob_spawns_are_collected() {
    let w = convert_world(&two_rooms()).unwrap();
    assert_eq!(w.maps[0].mob_spawns.len(), 1);
    assert_eq!(w.maps[0].mob_spawns[0].mob_template, "bat");
    assert_eq!(w.maps[0].mob_spawns[0].position, UVec2 { x: 0, y: 1 });
    assert!(w.maps[1].mob_spawns.is_empty());
}

#[test]
fn map_without_tileset_fails() {
    let mut m = two_rooms();
    m.defs.tilesets.clear();
    assert!(matches!(convert_world(&m), Err(MapError::NoTileset)));
}

#[test]
fn tile_off_grid_fails() {
    let mut m = two_rooms();
    m.levels[1].layer_instances[0].grid_tiles[1].px = [3, 0];
    assert!(matches!(convert_world(&m), Err(MapError::TileNotOnGrid)));
}

#[test]
fn missing_portal_target_fails() {
    let mut m = two_rooms();
    m.levels[1].layer_instances[1].entity_instances[0] = portal(1, 1, "p2", "p0");
    match convert_world(&m) {
        Err(MapError::PortalTargetNotFound(iid)) => assert_eq!(iid, "p0"),
        other => panic!("unexpected {:?}", other),
    }
}

#[test]
fn player_start_must_be_unique() {
    let mut m = two_rooms();
    m.levels[0].layer_instances[2].entity_instances.remove(0);
    assert!(matches!(convert_world(&m), Err(MapError::NoPlayerStart)));
    let mut m = two_rooms();
    m.levels[1].layer_instances[1].entity_instances.push(entity("Player_Start", 0, 1, "s2", vec![]));
    assert!(matches!(convert_world(&m), Err(MapError::MultiplePlayerStarts)));
}

#[test]
fn room_sync_round_trips() {
    let w = convert_world(&two_rooms()).unwrap();
    for (i, m) in w.maps.iter().enumerate() {
        let sync = make_room_sync(RoomId(i as u64), m);
        assert_eq!(sync.room_id, RoomId(i as u64));
        let room = load_room_map(sync);
        assert_eq!(room.size, m.size);
        assert_eq!(room.bg_dense_layers, m.bg_dense_layers);
        assert_eq!(room.bg_sparse_layer, m.bg_sparse_layer);
        assert_eq!(room.fg_sparse_layer, m.fg_sparse_layer);
        assert_eq!(room.collisions, m.collisions);
    }
}

#[test]
fn room_sync_compresses_collisions() {
    let w = convert_world(&two_rooms()).unwrap();
    let sync = make_room_sync(RoomId(0), &w.maps[0]);
    let runs: Vec<(bool, u32)> = sync.collisions.runs.iter().map(|r| (r.value, r.count)).collect();
    assert_eq!(runs, vec![(false, 1), (true, 2), (false, 3)]);
}

#[test]
fn moving_into_cells() {
    let w = convert_world(&two_rooms()).unwrap();
    let room = &w.maps[0];
    assert!(collision_at(room.size, &room.collisions, UVec2 { x: 1, y: 0 }));
    assert!(!collision_at(room.size, &room.collisions, UVec2 { x: 1, y: 1 }));
    assert!(collision_at(room.size, &room.collisions, UVec2 { x: 3, y: 0 }));
    assert_eq!(decide_move(room, UVec2 { x: 0, y: 0 }, UVec2 { x: 1, y: 0 }), MoveDecision::Blocked);
    assert_eq!(decide_move(room, UVec2 { x: 0, y: 1 }, UVec2 { x: 1, y: 1 }), MoveDecision::Move);
    assert_eq!(decide_move(room, UVec2 { x: 1, y: 1 }, UVec2 { x: 2, y: 1 }), MoveDecision::Portal(room.portals[0]));
    assert_eq!(decide_move(room, UVec2 { x: 2, y: 1 }, UVec2 { x: 2, y: 1 }), MoveDecision::Move);
}

#[test]
fn map_with_tiles_inside_layers_fits() {
    assert!(map_fits(&two_rooms()));
}

#[test]
fn map_with_tile_outside_its_layer_does_not_fit() {
    let level = LdtkLevel { layer_instances: vec![tiles_layer(2, 2, vec![tile(5, 0, 1)])] };
    assert!(!map_fits(&map(vec![level])));
}

#[test]
fn map_with_zero_grid_and_tiles_does_not_fit() {
    let mut m = two_rooms();
    m.default_grid_size = 0;
    assert!(!map_fits(&m));
}

fn level_with_start(tiles: LdtkLayerInstance) -> LdtkLevel {
    LdtkLevel { layer_instances: vec![tiles, entity_layer(vec![entity("Player_Start", 0, 0, "s", vec![])])] }
}

#[test]
fn dense_tile_past_the_row_end_lands_in_the_next_row() {
    let m = map(vec![level_with_start(tiles_layer(2, 2, vec![tile(3, 0, 7)]))]);
    assert!(map_fits(&m));
    let w = convert_world(&m).unwrap();
    assert_eq!(w.maps[0].bg_dense_layers[0], vec![TileIndex(0), TileIndex(0), TileIndex(0), TileIndex(7)]);
}

#[test]
fn blocked_sparse_tile_past_the_row_end_blocks_the_next_row() {
    let m = map(vec![level_with_start(tiles_layer(2, 2, vec![tile(0, 0, 4), tile(2, 0, 9)]))]);
    assert!(map_fits(&m));
    let w = convert_world(&m).unwrap();
    assert_eq!(w.maps[0].bg_sparse_layer, vec![(UVec2 { x: 2, y: 0 }, TileIndex(9))]);
    assert_eq!(w.maps[0].collisions, vec![false, false, true, false]);
}

#[test]
fn blocked_sparse_tile_outside_the_level_does_not_fit() {
    let m = map(vec![level_with_start(tiles_layer(2, 2, vec![tile(0, 0, 4), tile(0, 5, 9)]))]);
    assert!(!map_fits(&m));
}

#[test]
fn unblocked_sparse_tile_outside_the_level_fits() {
    let m = map(vec![level_with_start(tiles_layer(2, 2, vec![tile(0, 0, 4), tile(0, 5, 1)]))]);
    assert!(map_fits(&m));
    let w = convert_world(&m).unwrap();
    assert_eq!(w.maps[0].bg_sparse_layer, vec![(UVec2 { x: 0, y: 5 }, TileIndex(1))]);
}

#[test]
fn levels_after_a_failing_level_are_not_checked() {
    let off_grid = LdtkLevel {
        layer_instances: vec![tiles_layer(2, 2, vec![LdtkTileInstance { px: [3, 0], t: TileIndex(1) }])],
    };
    let too_far = level_with_start(tiles_layer(2, 2, vec![tile(9, 9, 1)]));
    let m = map(vec![off_grid, too_far]);
    assert!(map_fits(&m));
    assert!(matches!(convert_world(&m), Err(MapError::TileNotOnGrid)));
}

#[test]
fn error_messages() {
    assert_eq!(MapError::NoTileset.message(), "No first tileset");
    assert_eq!(MapError::TileNotOnGrid.message(), "Tile position is not a multiple of the default grid size");
    assert_eq!(MapError::PortalTargetNotFound("p7".to_string()).message(), "Portal target not found: p7");
    assert_eq!(MapError::NoPlayerStart.message(), "No player start found");
    assert_eq!(MapError::MultiplePlayerStarts.message(), "Multiple player starts found");
}
