//! What a room tells a player that enters it.
use vstd::prelude::*;

use crate::ldtk_map::copy_cells;
use crate::rle::{encode, encodes, runs_fit_u32, Rle};
use crate::room::{lemma_tile_index_concrete_eq, RoomId, RoomSync, RoomSyncView, TileIndex};
use crate::room_state::{RoomMap, RoomMapView};

verus! {

/// `sync` describes room `room_id` with map `map`: the same size and sparse
/// layers, and each dense layer and the collisions run-length encoded.
pub open spec fn syncs(sync: RoomSyncView, room_id: RoomId, map: RoomMapView) -> bool {
    &&& sync.room_id == room_id
    &&& sync.size == map.size
    &&& sync.bg_dense_layers.len() == map.bg_dense_layers.len()
    &&& forall|l: int| 0 <= l < map.bg_dense_layers.len() ==> encodes(#[trigger] sync.bg_dense_layers[l], map.bg_dense_layers[l])
    &&& sync.bg_sparse_layer == map.bg_sparse_layer
    &&& sync.fg_sparse_layer == map.fg_sparse_layer
    &&& encodes(sync.collisions, map.collisions)
}

/// The description of a room sent to a player entering it.
pub fn make_room_sync(room_id: RoomId, map: &RoomMap) -> (r: RoomSync)
    requires
        forall|l: int| 0 <= l < map.bg_dense_layers@.len() ==> runs_fit_u32((#[trigger] map.bg_dense_layers@[l])@),
        runs_fit_u32(map.collisions@),
    ensures
        syncs(r@, room_id, map@),
{
    proof {
        lemma_tile_index_concrete_eq();
    }
    let mut bg_dense_layers: Vec<Rle<TileIndex>> = Vec::new();
    let mut l: usize = 0;
    while l < map.bg_dense_layers.len()
        invariant
            vstd::laws_eq::obeys_concrete_eq::<TileIndex>(),
            forall|l: int| 0 <= l < map.bg_dense_layers@.len() ==> runs_fit_u32((#[trigger] map.bg_dense_layers@[l])@),
            l <= map.bg_dense_layers.len(),
            bg_dense_layers@.len() == l,
            forall|j: int| 0 <= j < l ==> encodes((#[trigger] bg_dense_layers@[j])@, map.bg_dense_layers@[j]@),
        decreases map.bg_dense_layers.len() - l,
    {
        let layer = &map.bg_dense_layers[l];
        let rle = encode(layer.as_slice());
        bg_dense_layers.push(rle);
        l = l + 1;
    }
    let collisions = encode(map.collisions.as_slice());
    let r = RoomSync {
        room_id,
        size: map.size,
        bg_dense_layers,
        bg_sparse_layer: copy_cells(&map.bg_sparse_layer),
        fg_sparse_layer: map.fg_sparse_layer.clone(),
        collisions,
    };
    assert(r@.fg_sparse_layer =~= map@.fg_sparse_layer);
    r
}

} // verus!
