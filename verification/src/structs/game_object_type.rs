use vstd::prelude::*;

verus! {

/// The closed tag that tells the four entity kinds apart; used for
/// collision-rule dispatch and identity, not for behavior dispatch.
#[derive(Debug, Copy, Clone, PartialEq, Eq, Structural)]
pub enum GameObjectType {
    Player,
    Coin,
    Boundary,
    Projectile,
}

} // verus!
