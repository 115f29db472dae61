//! The room as a client keeps it.
use vstd::prelude::*;

use crate::rle::{decode, expand, law_decode_inverts_encode};
use crate::room::{ForegroundTile, RoomId, RoomSync, RoomSyncView, TileIndex, UVec2};
use crate::room_actor::syncs;
use crate::room_state::RoomMapView;

verus! {

/// The room a client is in.
#[derive(Debug, Clone)]
pub struct Room {
    pub room_id: RoomId,
    pub size: UVec2,
    pub bg_dense_layers: Vec<Vec<TileIndex>>,
    pub bg_sparse_layer: Vec<(UVec2, TileIndex)>,
    pub fg_sparse_layer: Vec<ForegroundTile>,
    pub collisions: Vec<bool>,
}

/// The view of a [`Room`].
pub struct RoomView {
    pub room_id: RoomId,
    pub size: UVec2,
    pub bg_dense_layers: Seq<Seq<TileIndex>>,
    pub bg_sparse_layer: Seq<(UVec2, TileIndex)>,
    pub fg_sparse_layer: Seq<ForegroundTile>,
    pub collisions: Seq<bool>,
}

impl View for Room {
    type V = RoomView;

    open spec fn view(&self) -> RoomView {
        RoomView {
            room_id: self.room_id,
            size: self.size,
            bg_dense_layers: self.bg_dense_layers@.map_values(|l: Vec<TileIndex>| l@),
            bg_sparse_layer: self.bg_sparse_layer@,
            fg_sparse_layer: self.fg_sparse_layer@,
            collisions: self.collisions@,
        }
    }
}

/// `room` is what a client makes of `sync`: the same id, size and sparse
/// layers, and each encoded layer expanded.
pub open spec fn loads(room: RoomView, sync: RoomSyncView) -> bool {
    &&& room.room_id == sync.room_id
    &&& room.size == sync.size
    &&& room.bg_dense_layers.len() == sync.bg_dense_layers.len()
    &&& forall|l: int| 0 <= l < sync.bg_dense_layers.len() ==> #[trigger] room.bg_dense_layers[l] == expand(sync.bg_dense_layers[l])
    &&& room.bg_sparse_layer == sync.bg_sparse_layer
    &&& room.fg_sparse_layer == sync.fg_sparse_layer
    &&& room.collisions == expand(sync.collisions)
}

/// The room described by `room_sync`.
pub fn load_room_map(room_sync: RoomSync) -> (room: Room)
    ensures
        loads(room@, room_sync@),
{
    let mut bg_dense_layers: Vec<Vec<TileIndex>> = Vec::new();
    let mut l: usize = 0;
    while l < room_sync.bg_dense_layers.len()
        invariant
            l <= room_sync.bg_dense_layers.len(),
            bg_dense_layers@.len() == l,
            forall|j: int| 0 <= j < l ==> (#[trigger] bg_dense_layers@[j])@ == expand(room_sync.bg_dense_layers@[j]@),
        decreases room_sync.bg_dense_layers.len() - l,
    {
        bg_dense_layers.push(decode(&room_sync.bg_dense_layers[l]));
        l = l + 1;
    }
    let collisions = decode(&room_sync.collisions);
    Room {
        room_id: room_sync.room_id,
        size: room_sync.size,
        bg_dense_layers,
        bg_sparse_layer: room_sync.bg_sparse_layer,
        fg_sparse_layer: room_sync.fg_sparse_layer,
        collisions,
    }
}

/// A client entering a room ends up with exactly the server's map of it:
/// the same size, tile layers and collisions.
pub proof fn law_room_sync_roundtrip(room_id: RoomId, map: RoomMapView, sync: RoomSyncView, room: RoomView)
    requires
        syncs(sync, room_id, map),
        loads(room, sync),
    ensures
        room.room_id == room_id,
        room.size == map.size,
        room.bg_dense_layers == map.bg_dense_layers,
        room.bg_sparse_layer == map.bg_sparse_layer,
        room.fg_sparse_layer == map.fg_sparse_layer,
        room.collisions == map.collisions,
{
    assert forall|l: int| 0 <= l < map.bg_dense_layers.len() implies #[trigger] room.bg_dense_layers[l]
        == map.bg_dense_layers[l] by {
        law_decode_inverts_encode(map.bg_dense_layers[l], sync.bg_dense_layers[l]);
    }
    assert(room.bg_dense_layers =~= map.bg_dense_layers);
}

} // verus!
