//! Rooms, tiles and the room description sent to clients.
use vstd::prelude::*;
use vstd::std_specs::cmp::PartialEqSpecImpl;
use vstd::laws_eq::obeys_concrete_eq;

use crate::rle::{Rle, Run};

verus! {

/// Identifier of a room; rooms are numbered in the order of the map's levels.
#[derive(Debug, Clone, Copy, PartialEq, Eq, Hash, Structural)]
pub struct RoomId(pub u64);

/// A pair of unsigned integers: a tile position or the size of a grid.
#[derive(Debug, Clone, Copy, PartialEq, Eq, Hash, Structural)]
pub struct UVec2 {
    pub x: u32,
    pub y: u32,
}

/// Index of a tile in the tileset; `0` is the empty tile.
#[derive(Debug, Clone, Copy, Eq, Hash)]
pub struct TileIndex(pub u16);

impl PartialEq for TileIndex {
    fn eq(&self, other: &Self) -> (r: bool) {
        self.0 == other.0
    }
}

impl PartialEqSpecImpl for TileIndex {
    open spec fn obeys_eq_spec() -> bool {
        true
    }

    open spec fn eq_spec(&self, other: &Self) -> bool {
        self.0 == other.0
    }
}

impl TileIndex {
    /// The empty tile.
    pub fn empty() -> (t: TileIndex)
        ensures
            t.0 == 0,
    {
        TileIndex(0)
    }

    /// Whether this is the empty tile.
    pub fn is_empty(&self) -> (b: bool)
        ensures
            b == (self.0 == 0),
    {
        self.0 == 0
    }
}

/// `==` on tile indices is equality of the indices.
pub proof fn lemma_tile_index_concrete_eq()
    ensures
        obeys_concrete_eq::<TileIndex>(),
{
    reveal(obeys_concrete_eq);
}

/// A tile drawn above objects standing south of it.
#[derive(Debug, Clone, Copy, PartialEq, Eq)]
pub struct ForegroundTile {
    pub position: UVec2,
    pub height: u32,
    pub tile_index: TileIndex,
}

/// The description of a room that a client receives when it enters it.
#[derive(Debug, Clone)]
pub struct RoomSync {
    pub room_id: RoomId,
    pub size: UVec2,
    pub bg_dense_layers: Vec<Rle<TileIndex>>,
    pub bg_sparse_layer: Vec<(UVec2, TileIndex)>,
    pub fg_sparse_layer: Vec<ForegroundTile>,
    pub collisions: Rle<bool>,
}

/// The view of a [`RoomSync`].
pub struct RoomSyncView {
    pub room_id: RoomId,
    pub size: UVec2,
    pub bg_dense_layers: Seq<Seq<Run<TileIndex>>>,
    pub bg_sparse_layer: Seq<(UVec2, TileIndex)>,
    pub fg_sparse_layer: Seq<ForegroundTile>,
    pub collisions: Seq<Run<bool>>,
}

impl View for RoomSync {
    type V = RoomSyncView;

    open spec fn view(&self) -> RoomSyncView {
        RoomSyncView {
            room_id: self.room_id,
            size: self.size,
            bg_dense_layers: self.bg_dense_layers@.map_values(|l: Rle<TileIndex>| l@),
            bg_sparse_layer: self.bg_sparse_layer@,
            fg_sparse_layer: self.fg_sparse_layer@,
            collisions: self.collisions@,
        }
    }
}

} // verus!
