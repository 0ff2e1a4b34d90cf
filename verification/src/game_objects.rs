pub mod boundary;
pub mod coin;
pub mod player;
pub mod projectile;
pub mod spatial;

pub use boundary::Boundary;
pub use coin::Coin;
pub use player::Player;
pub use projectile::Projectile;
pub use spatial::SpatialView;
