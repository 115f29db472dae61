//! Decisions of the server actor, which tracks which room each player is in.
use vstd::prelude::*;

use crate::combat::PlayerVitals;
use crate::object::ObjectId;
use crate::room::RoomId;
use crate::tick::Tick;

verus! {

/// Where a command for a room goes.
#[derive(Debug, Clone, Copy, PartialEq, Eq, Structural)]
pub enum CommandRoute {
    /// To the room, which is the player's.
    Forward,
    /// Nowhere: the player is in another room.
    WrongRoom,
    /// Nowhere: the player is not known.
    UnknownPlayer,
}

/// Routes a command that a player, in room `player_room_id` if known, sent
/// for room `room_id`.
pub fn route_room_command(player_room_id: Option<RoomId>, room_id: RoomId) -> (r: CommandRoute)
    ensures
        r == match player_room_id {
            Some(p) => if p == room_id {
                CommandRoute::Forward
            } else {
                CommandRoute::WrongRoom
            },
            None => CommandRoute::UnknownPlayer,
        },
{
    match player_room_id {
        Some(p) => if p == room_id {
            CommandRoute::Forward
        } else {
            CommandRoute::WrongRoom
        },
        None => CommandRoute::UnknownPlayer,
    }
}

/// Whether no player is in room `room_id`, given the rooms of all players.
pub fn room_is_empty(player_rooms: &Vec<RoomId>, room_id: RoomId) -> (b: bool)
    ensures
        b == !player_rooms@.contains(room_id),
{
    let mut i: usize = 0;
    while i < player_rooms.len()
        invariant
            i <= player_rooms.len(),
            forall|k: int| 0 <= k < i ==> player_rooms@[k] != room_id,
        decreases player_rooms.len() - i,
    {
        if player_rooms[i] == room_id {
            assert(player_rooms@[i as int] == room_id);
            return false;
        }
        i = i + 1;
    }
    true
}

/// The health of a new player: full, and never damaged.
pub fn new_player_vitals(id: ObjectId, max_health: i32) -> (v: PlayerVitals)
    ensures
        v == (PlayerVitals { id, health: max_health, max_health, last_damaged_at: Tick(0) }),
{
    PlayerVitals { id, health: max_health, max_health, last_damaged_at: Tick(0) }
}

} // verus!
