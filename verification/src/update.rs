//! Turning the client's input into movement.
use vstd::prelude::*;

use crate::object::Direction8;

verus! {

/// The direction that the pressed keys point to, indexed by
/// `Direction4 as usize` (right, down, left, up): one key or two keys at a
/// right angle give a direction; no key, opposite keys or three keys give
/// none.
pub open spec fn spec_direction_from_pressed(pressed: Seq<bool>) -> Option<Direction8> {
    let right = pressed[0];
    let down = pressed[1];
    let left = pressed[2];
    let up = pressed[3];
    if down && !up && !left && !right {
        Some(Direction8::Down)
    } else if !down && up && !left && !right {
        Some(Direction8::Up)
    } else if !down && !up && left && !right {
        Some(Direction8::Left)
    } else if !down && !up && !left && right {
        Some(Direction8::Right)
    } else if down && !up && !left && right {
        Some(Direction8::RightDown)
    } else if !down && up && !left && right {
        Some(Direction8::RightUp)
    } else if down && !up && left && !right {
        Some(Direction8::LeftDown)
    } else if !down && up && left && !right {
        Some(Direction8::LeftUp)
    } else {
        None
    }
}

/// The direction that the pressed keys point to.
pub fn direction_from_pressed(pressed: &[bool; 4]) -> (d: Option<Direction8>)
    ensures
        d == spec_direction_from_pressed(pressed@),
{
    let right = pressed[0];
    let down = pressed[1];
    let left = pressed[2];
    let up = pressed[3];
    match (down, up, left, right) {
        (true, false, false, false) => Some(Direction8::Down),
        (false, true, false, false) => Some(Direction8::Up),
        (false, false, true, false) => Some(Direction8::Left),
        (false, false, false, true) => Some(Direction8::Right),
        (true, false, false, true) => Some(Direction8::RightDown),
        (false, true, false, true) => Some(Direction8::RightUp),
        (true, false, true, false) => Some(Direction8::LeftDown),
        (false, true, true, false) => Some(Direction8::LeftUp),
        _ => None,
    }
}

} // verus!
