pub mod game_object_type;
pub mod movement;
pub mod pixel;
pub mod pixel_map;
pub mod player_input;
pub mod sprite;

pub use game_object_type::GameObjectType;
pub use movement::Direction;
pub use movement::Rotation;
pub use pixel::Color;
pub use pixel::Pixel;
pub use pixel::Point;
pub use sprite::Dimensions;
pub use sprite::Sprite;
pub use sprite::SpriteMetadata;
