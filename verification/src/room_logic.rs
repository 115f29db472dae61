//! Movement rules of players inside a room.
use vstd::prelude::*;

use crate::ldtk_map::{hit_bg, lemma_slot_bound, slot, spec_collisions};
use crate::room::{ForegroundTile, TileIndex, UVec2};
use crate::room_state::{Portal, RoomMap};

verus! {

/// Whether a cell is blocked: cells outside the room are.
pub open spec fn spec_collision_at(size: UVec2, collisions: Seq<bool>, tile: UVec2) -> bool {
    if tile.x < size.x && tile.y < size.y && slot(tile, size.x) < collisions.len() {
        collisions[slot(tile, size.x)]
    } else {
        true
    }
}

/// Whether a cell of the room is blocked; cells outside the room are.
pub fn collision_at(size: UVec2, collisions: &Vec<bool>, tile: UVec2) -> (b: bool)
    ensures
        b == spec_collision_at(size, collisions@, tile),
{
    if tile.x < size.x && tile.y < size.y {
        proof {
            crate::ldtk_map::lemma_slot_bound(tile, size.x, size.y);
            let (x, y) = (size.x as int, size.y as int);
            assert(x * y <= u32::MAX * u32::MAX) by (nonlinear_arith)
                requires
                    0 <= x <= u32::MAX,
                    0 <= y <= u32::MAX,
            ;
            assert(tile.y * size.x <= slot(tile, size.x));
        }
        let idx = tile.y as u64 * size.x as u64 + tile.x as u64;
        if idx < collisions.len() as u64 {
            return collisions[idx as usize];
        }
    }
    true
}

/// The index of the first portal at `tile`.
pub open spec fn first_portal_at(portals: Seq<Portal>, tile: UVec2, from: int) -> Option<int>
    decreases portals.len() - from,
{
    if from < 0 || from >= portals.len() {
        None
    } else if portals[from].position == tile {
        Some(from)
    } else {
        first_portal_at(portals, tile, from + 1)
    }
}

/// The portal a player steps on when moving from `previous_tile` to
/// `new_tile`: only entering a new cell can lead through a portal.
pub open spec fn spec_find_player_portal(portals: Seq<Portal>, previous_tile: UVec2, new_tile: UVec2) -> Option<int> {
    if previous_tile != new_tile {
        first_portal_at(portals, new_tile, 0)
    } else {
        None
    }
}

/// The portal a player steps on when moving between two cells.
pub fn find_player_portal(map: &RoomMap, previous_tile: UVec2, new_tile: UVec2) -> (r: Option<&Portal>)
    ensures
        match spec_find_player_portal(map.portals@, previous_tile, new_tile) {
            None => r is None,
            Some(i) => r is Some && *r.unwrap() == map.portals@[i],
        },
{
    if previous_tile == new_tile {
        return None;
    }
    let mut i: usize = 0;
    while i < map.portals.len()
        invariant
            i <= map.portals.len(),
            previous_tile != new_tile,
            first_portal_at(map.portals@, new_tile, 0) == first_portal_at(map.portals@, new_tile, i as int),
        decreases map.portals.len() - i,
    {
        if map.portals[i].position == new_tile {
            return Some(&map.portals[i]);
        }
        i = i + 1;
    }
    None
}

/// What happens to a player that moves into a cell.
#[derive(Debug, Clone, Copy, PartialEq, Eq)]
pub enum MoveDecision {
    /// The cell is blocked: the player is put back.
    Blocked,
    /// The player steps through this portal into another room.
    Portal(Portal),
    /// The player moves.
    Move,
}

/// The rule for a player moving from `previous_tile` into `new_tile`: a
/// blocked cell stops it, else a portal it enters takes it away, else it
/// moves.
pub open spec fn spec_decide_move(map: RoomMap, previous_tile: UVec2, new_tile: UVec2) -> MoveDecision {
    if spec_collision_at(map.size, map.collisions@, new_tile) {
        MoveDecision::Blocked
    } else {
        match spec_find_player_portal(map.portals@, previous_tile, new_tile) {
            Some(i) => MoveDecision::Portal(map.portals@[i]),
            None => MoveDecision::Move,
        }
    }
}

/// Decides what happens to a player moving from `previous_tile` into
/// `new_tile`.
pub fn decide_move(map: &RoomMap, previous_tile: UVec2, new_tile: UVec2) -> (d: MoveDecision)
    ensures
        d == spec_decide_move(*map, previous_tile, new_tile),
{
    if collision_at(map.size, &map.collisions, new_tile) {
        MoveDecision::Blocked
    } else {
        match find_player_portal(map, previous_tile, new_tile) {
            Some(portal) => MoveDecision::Portal(*portal),
            None => MoveDecision::Move,
        }
    }
}

/// A player never ends up moving onto a blocked cell, and only passes
/// through a portal placed on the cell it enters.
pub proof fn law_moves_respect_map(map: RoomMap, previous_tile: UVec2, new_tile: UVec2)
    ensures
        spec_decide_move(map, previous_tile, new_tile) == MoveDecision::Move ==> !spec_collision_at(
            map.size,
            map.collisions@,
            new_tile,
        ),
        spec_decide_move(map, previous_tile, new_tile) matches MoveDecision::Portal(p) ==> p.position == new_tile
            && previous_tile != new_tile,
{
    lemma_first_portal_at(map.portals@, new_tile, 0);
}

/// Collisions are stored row by row: a cell inside the room is blocked
/// exactly when the entry `y * width + x` says so; cells outside the room,
/// or beyond the stored entries, are blocked.
pub proof fn law_collisions_are_row_major(size: UVec2, collisions: Seq<bool>, tile: UVec2)
    ensures
        tile.x < size.x && tile.y < size.y && tile.y * size.x + tile.x < collisions.len() ==> spec_collision_at(
            size,
            collisions,
            tile,
        ) == collisions[tile.y * size.x + tile.x],
        !(tile.x < size.x && tile.y < size.y) ==> spec_collision_at(size, collisions, tile),
        tile.y * size.x + tile.x >= collisions.len() ==> spec_collision_at(size, collisions, tile),
{
}

/// A blocked tile that a converted room holds in its sparse layer, at a
/// cell inside the room, makes that cell blocked for moving players.
pub proof fn law_blocked_tile_blocks_its_cell(
    size: UVec2,
    dense: Seq<Seq<TileIndex>>,
    bg: Seq<(UVec2, TileIndex)>,
    fg: Seq<ForegroundTile>,
    blocked: Seq<TileIndex>,
    i: int,
)
    requires
        0 <= i < bg.len(),
        blocked.contains(bg[i].1),
        bg[i].0.x < size.x,
        bg[i].0.y < size.y,
    ensures
        spec_collision_at(size, spec_collisions(size, dense, bg, fg, blocked), bg[i].0),
{
    let p = bg[i].0;
    lemma_slot_bound(p, size.x, size.y);
    let k = p.y * size.x + p.x;
    assert(hit_bg(bg, size.x, blocked, bg.len() as int, k));
}

proof fn lemma_first_portal_at(portals: Seq<Portal>, tile: UVec2, from: int)
    ensures
        first_portal_at(portals, tile, from) matches Some(i) ==> from <= i < portals.len() && portals[i].position == tile,
    decreases portals.len() - from,
{
    if 0 <= from < portals.len() && portals[from].position != tile {
        lemma_first_portal_at(portals, tile, from + 1);
    }
}

} // verus!
