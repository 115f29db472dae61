//! Identifiers and directions of objects in a room.
use vstd::prelude::*;

verus! {

/// Identifier of a player or a mob.
#[derive(Debug, Clone, Copy, PartialEq, Eq, Hash, Structural)]
pub struct ObjectId(pub u64);

/// What kind of object an [`ObjectId`] refers to.
#[derive(Debug, Clone, Copy, PartialEq, Eq, Hash, Structural)]
pub enum ObjectType {
    Player,
    Mob,
}

/// One of the four axis directions.
#[derive(Debug, Clone, Copy, PartialEq, Eq, Structural)]
pub enum Direction4 {
    Right,
    Down,
    Left,
    Up,
}

/// One of the eight compass directions.
#[derive(Debug, Clone, Copy, PartialEq, Eq, Structural)]
pub enum Direction8 {
    Right,
    Down,
    Left,
    Up,
    RightDown,
    LeftDown,
    RightUp,
    LeftUp,
}

/// The axis direction that an eight-way direction is shown as: diagonals
/// face left or right.
pub open spec fn spec_to_direction4(d: Direction8) -> Direction4 {
    match d {
        Direction8::Right | Direction8::RightDown | Direction8::RightUp => Direction4::Right,
        Direction8::Left | Direction8::LeftDown | Direction8::LeftUp => Direction4::Left,
        Direction8::Down => Direction4::Down,
        Direction8::Up => Direction4::Up,
    }
}

impl Direction8 {
    /// The axis direction used to draw an object moving in this direction.
    pub fn to_direction4(self) -> (d: Direction4)
        ensures
            d == spec_to_direction4(self),
    {
        match self {
            Direction8::Right => Direction4::Right,
            Direction8::Down => Direction4::Down,
            Direction8::Left => Direction4::Left,
            Direction8::Up => Direction4::Up,
            Direction8::RightDown => Direction4::Right,
            Direction8::RightUp => Direction4::Right,
            Direction8::LeftDown => Direction4::Left,
            Direction8::LeftUp => Direction4::Left,
        }
    }
}

/// The four axis directions, clockwise from right.
pub fn all_directions_4() -> (d: [Direction4; 4])
    ensures
        d@ == seq![Direction4::Right, Direction4::Down, Direction4::Left, Direction4::Up],
{
    let d = [Direction4::Right, Direction4::Down, Direction4::Left, Direction4::Up];
    assert(d@ =~= seq![Direction4::Right, Direction4::Down, Direction4::Left, Direction4::Up]);
    d
}

/// The eight compass directions, clockwise from right.
pub open spec fn spec_all_directions_8() -> Seq<Direction8> {
    seq![
        Direction8::Right,
        Direction8::RightDown,
        Direction8::Down,
        Direction8::LeftDown,
        Direction8::Left,
        Direction8::LeftUp,
        Direction8::Up,
        Direction8::RightUp,
    ]
}

/// The eight compass directions, clockwise from right.
pub fn all_directions_8() -> (d: [Direction8; 8])
    ensures
        d@ == spec_all_directions_8(),
{
    let d = [
        Direction8::Right,
        Direction8::RightDown,
        Direction8::Down,
        Direction8::LeftDown,
        Direction8::Left,
        Direction8::LeftUp,
        Direction8::Up,
        Direction8::RightUp,
    ];
    assert(d@ =~= seq![
        Direction8::Right,
        Direction8::RightDown,
        Direction8::Down,
        Direction8::LeftDown,
        Direction8::Left,
        Direction8::LeftUp,
        Direction8::Up,
        Direction8::RightUp,
    ]);
    d
}

} // verus!
