use vstd::prelude::*;

verus! {

/// The single optional event a tick accepts from the surrounding input loop.
#[derive(Debug, Copy, Clone, PartialEq, Eq, Structural)]
pub enum PlayerInput {
    KeyDown(Key),
}

/// The keys the game recognizes: two keysets for the four directions, five
/// speed-select keys, and the fire key.
#[derive(Debug, Copy, Clone, PartialEq, Eq, Structural)]
pub enum Key {
    Num1,
    Num2,
    Num3,
    Num4,
    Num5,
    SpaceBar,
    W,
    A,
    S,
    D,
    I,
    J,
    K,
    L,
}

} // verus!
