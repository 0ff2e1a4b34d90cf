use vstd::prelude::*;

verus! {

/// The direction a movable entity travels in; `Stopped` is the player's
/// initial state and leaves the origin unchanged.
#[derive(Debug, Copy, Clone, PartialEq, Eq, Structural)]
pub enum Direction {
    Up,
    Down,
    Left,
    Right,
    Stopped,
}

/// The discrete facing of a sprite: one of the four 90-degree orientations.
/// `Up` is the identity orientation.
#[derive(Debug, Copy, Clone, PartialEq, Eq, Structural)]
pub enum Rotation {
    Up,
    Right,
    Down,
    Left,
}

impl Default for Direction {
    fn default() -> (r: Self)
        ensures
            r == Direction::Right,
    {
        Direction::Right
    }
}

impl Default for Rotation {
    fn default() -> (r: Self)
        ensures
            r == Rotation::Up,
    {
        Rotation::Up
    }
}

} // verus!
