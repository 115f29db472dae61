//! Sprites of animations.
use vstd::prelude::*;

verus! {

/// Index of a sprite in a sprite sheet.
#[derive(Debug, Clone, Copy, PartialEq, Eq, Structural)]
pub struct SpriteIndex(pub u16);

} // verus!
