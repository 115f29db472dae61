//! Directions of player movement.
use vstd::prelude::*;

verus! {

/// One of the four axis directions a player moves in.
#[derive(Debug, Clone, Copy, PartialEq, Eq, Structural)]
pub enum Direction {
    Right,
    Down,
    Left,
    Up,
}

} // verus!
