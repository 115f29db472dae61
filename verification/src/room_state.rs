//! The state of a room that the server keeps.
use vstd::prelude::*;

use crate::room::{ForegroundTile, RoomId, TileIndex, UVec2};

verus! {

/// A place where a mob of the named template appears.
#[derive(Debug, Clone)]
pub struct MobSpawn {
    pub position: UVec2,
    pub mob_template: String,
}

/// The view of a [`MobSpawn`].
pub struct MobSpawnView {
    pub position: UVec2,
    pub mob_template: Seq<char>,
}

impl View for MobSpawn {
    type V = MobSpawnView;

    open spec fn view(&self) -> MobSpawnView {
        MobSpawnView { position: self.position, mob_template: self.mob_template@ }
    }
}

/// A tile that moves a player onto `target_position` of another room.
#[derive(Debug, Clone, Copy, PartialEq, Eq)]
pub struct Portal {
    pub position: UVec2,
    pub target_room_id: RoomId,
    pub target_position: UVec2,
}

/// The static map of a room.
#[derive(Debug, Clone)]
pub struct RoomMap {
    pub size: UVec2,
    pub bg_dense_layers: Vec<Vec<TileIndex>>,
    pub bg_sparse_layer: Vec<(UVec2, TileIndex)>,
    pub fg_sparse_layer: Vec<ForegroundTile>,
    pub collisions: Vec<bool>,
    pub portals: Vec<Portal>,
    pub mob_spawns: Vec<MobSpawn>,
}

/// The view of a [`RoomMap`].
pub struct RoomMapView {
    pub size: UVec2,
    pub bg_dense_layers: Seq<Seq<TileIndex>>,
    pub bg_sparse_layer: Seq<(UVec2, TileIndex)>,
    pub fg_sparse_layer: Seq<ForegroundTile>,
    pub collisions: Seq<bool>,
    pub portals: Seq<Portal>,
    pub mob_spawns: Seq<MobSpawnView>,
}

impl View for RoomMap {
    type V = RoomMapView;

    open spec fn view(&self) -> RoomMapView {
        RoomMapView {
            size: self.size,
            bg_dense_layers: self.bg_dense_layers@.map_values(|l: Vec<TileIndex>| l@),
            bg_sparse_layer: self.bg_sparse_layer@,
            fg_sparse_layer: self.fg_sparse_layer@,
            collisions: self.collisions@,
            portals: self.portals@,
            mob_spawns: self.mob_spawns@.map_values(|m: MobSpawn| m@),
        }
    }
}

} // verus!
