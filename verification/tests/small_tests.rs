use mmo::app_event::MouseButton;
use mmo::metrics::NetStats;
use mmo::object::{all_directions_4, all_directions_8, Direction4, Direction8, ObjectId};
use mmo::player_command::{PlayerHandshake, HANDSHAKE_MAGIC};
use mmo::room::{RoomId, TileIndex};
use mmo::server_actor::{new_player_vitals, room_is_empty, route_room_command, CommandRoute};
use mmo::tick::{Tick, TickDuration, TickRate};
use mmo::update::direction_from_pressed;

#[test]
fn diagonals_face_sideways() {
    assert_eq!(Direction8::Right.to_direction4(), Direction4::Right);
    assert_eq!(Direction8::Down.to_direction4(), Direction4::Down);
    assert_eq!(Direction8::Left.to_direction4(), Direction4::Left);
    assert_eq!(Direction8::Up.to_direction4(), Direction4::Up);
    assert_eq!(Direction8::RightDown.to_direction4(), Direction4::Right);
    assert_eq!(Direction8::RightUp.to_direction4(), Direction4::Right);
    assert_eq!(Direction8::LeftDown.to_direction4(), Direction4::Left);
    assert_eq!(Direction8::LeftUp.to_direction4(), Direction4::Left);
}

#[test]
fn direction_lists_are_clockwise() {
    assert_eq!(all_directions_4(), [Direction4::Right, Direction4::Down, Direction4::Left, Direction4::Up]);
    let d = all_directions_8();
    assert_eq!(d[0], Direction8::Right);
    assert_eq!(d[1], Direction8::RightDown);
    assert_eq!(d[7], Direction8::RightUp);
}

#[test]
fn new_handshake_is_valid() {
    let h = PlayerHandshake::new();
    assert_eq!(h.magic, [111, 197, 49, 147, 243, 227, 34, 189]);
    assert!(h.is_valid());
}

#[test]
fn altered_handshake_is_invalid() {
    let mut magic = HANDSHAKE_MAGIC;
    magic[7] = 0;
    assert!(!PlayerHandshake { magic }.is_valid());
    assert!(!PlayerHandshake { magic: [0; 8] }.is_valid());
}

#[test]
fn empty_tile_index() {
    assert_eq!(TileIndex::empty(), TileIndex(0));
    assert!(TileIndex::empty().is_empty());
    assert!(!TileIndex(3).is_empty());
}

#[test]
fn nth_ticks() {
    assert!(Tick(0).is_nth(TickRate(10)));
    assert!(Tick(20).is_nth(TickRate(10)));
    assert!(!Tick(21).is_nth(TickRate(10)));
    assert!(Tick(7).is_nth(TickRate(1)));
}

#[test]
fn tick_difference() {
    assert_eq!(Tick(15) - Tick(10), TickDuration(5));
    assert_eq!(Tick(3) - Tick(3), TickDuration(0));
}

#[test]
fn mouse_buttons() {
    assert_eq!(MouseButton::from(0), MouseButton::Left);
    assert_eq!(MouseButton::from(1), MouseButton::Middle);
    assert_eq!(MouseButton::from(2), MouseButton::Right);
    assert_eq!(MouseButton::from(3), MouseButton::Button4);
    assert_eq!(MouseButton::from(4), MouseButton::Button5);
    assert_eq!(MouseButton::from(5), MouseButton::Unknown);
    assert_eq!(MouseButton::from(-1), MouseButton::Unknown);
}

#[test]
fn pressed_keys_give_directions() {
    // indexed right, down, left, up
    assert_eq!(direction_from_pressed(&[false, false, false, false]), None);
    assert_eq!(direction_from_pressed(&[true, false, false, false]), Some(Direction8::Right));
    assert_eq!(direction_from_pressed(&[false, true, false, false]), Some(Direction8::Down));
    assert_eq!(direction_from_pressed(&[false, false, true, false]), Some(Direction8::Left));
    assert_eq!(direction_from_pressed(&[false, false, false, true]), Some(Direction8::Up));
    assert_eq!(direction_from_pressed(&[true, true, false, false]), Some(Direction8::RightDown));
    assert_eq!(direction_from_pressed(&[true, false, false, true]), Some(Direction8::RightUp));
    assert_eq!(direction_from_pressed(&[false, true, true, false]), Some(Direction8::LeftDown));
    assert_eq!(direction_from_pressed(&[false, false, true, true]), Some(Direction8::LeftUp));
    assert_eq!(direction_from_pressed(&[true, false, true, false]), None);
    assert_eq!(direction_from_pressed(&[false, true, false, true]), None);
    assert_eq!(direction_from_pressed(&[true, true, true, false]), None);
}

#[test]
fn net_stats_count_traffic() {
    let mut s = NetStats::new();
    s.record_net_event(100, 3);
    s.record_net_event(50, 1);
    s.record_net_command(20, 2);
    assert_eq!(s.in_frames, 2);
    assert_eq!(s.in_events, 4);
    assert_eq!(s.in_bytes, 150);
    assert_eq!(s.out_frames, 1);
    assert_eq!(s.out_commands, 2);
    assert_eq!(s.out_bytes, 20);
}

#[test]
fn room_commands_are_routed() {
    assert_eq!(route_room_command(Some(RoomId(2)), RoomId(2)), CommandRoute::Forward);
    assert_eq!(route_room_command(Some(RoomId(1)), RoomId(2)), CommandRoute::WrongRoom);
    assert_eq!(route_room_command(None, RoomId(2)), CommandRoute::UnknownPlayer);
}

#[test]
fn empty_rooms() {
    let rooms = vec![RoomId(0), RoomId(3)];
    assert!(!room_is_empty(&rooms, RoomId(3)));
    assert!(room_is_empty(&rooms, RoomId(1)));
    assert!(room_is_empty(&vec![], RoomId(0)));
}

#[test]
fn new_players_have_full_health() {
    let v = new_player_vitals(ObjectId(4), 100);
    assert_eq!(v.id, ObjectId(4));
    assert_eq!(v.health, 100);
    assert_eq!(v.max_health, 100);
    assert_eq!(v.last_damaged_at, Tick(0));
}

#[test]
fn sprite_index_keeps_its_number() {
    let s = mmo::animation::SpriteIndex(7);
    let t = s;
    assert_eq!(s, t);
    assert_eq!(t.0, 7);
}
