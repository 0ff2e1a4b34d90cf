use poly_battle::structs::movement::Rotation;
use poly_battle::structs::pixel::{Color, Pixel, Point};
use poly_battle::structs::pixel_map::PixelMap;
use poly_battle::structs::sprite::{Dimensions, Sprite, SpriteMetadata};

fn l_shape() -> PixelMap {
    let mut pixels = PixelMap::empty();
    pixels.insert(Point::new(0, 0), Pixel::new(Color::RGB(255, 0, 0)));
    pixels.insert(Point::new(0, 1), Pixel::new(Color::RGB(0, 255, 0)));
    pixels.insert(Point::new(1, 1), Pixel::new(Color::RGB(0, 0, 255)));
    pixels
}

fn assert_is_l_shape(pixels: &PixelMap) {
    assert_eq!(pixels.len(), 3);
    assert_eq!(
        pixels.get(Point::new(0, 0)),
        Some(Pixel::new(Color::RGB(255, 0, 0)))
    );
    assert_eq!(
        pixels.get(Point::new(0, 1)),
        Some(Pixel::new(Color::RGB(0, 255, 0)))
    );
    assert_eq!(
        pixels.get(Point::new(1, 1)),
        Some(Pixel::new(Color::RGB(0, 0, 255)))
    );
}

#[test]
fn rotation_round_trip_restores_original() {
    // Rotating an L-shaped sprite to each orientation and back to the
    // identity orientation reproduces the original pixel map exactly.
    for rotation in [Rotation::Up, Rotation::Right, Rotation::Down, Rotation::Left] {
        let mut sprite = Sprite::new(l_shape());
        sprite.rotate_sprite_around_origin(rotation);
        sprite.rotate_sprite_around_origin(Rotation::Up);
        assert_is_l_shape(sprite.pixels());
    }
}

#[test]
fn rotation_right_is_exact() {
    let mut sprite = Sprite::new(l_shape());
    sprite.rotate_sprite_around_origin(Rotation::Right);
    // (x, y) goes to (-y, x).
    let pixels = sprite.pixels();
    assert_eq!(pixels.len(), 3);
    assert!(pixels.contains_key(Point::new(0, 0)));
    assert!(pixels.contains_key(Point::new(-1, 0)));
    assert!(pixels.contains_key(Point::new(-1, 1)));
}

#[test]
fn rotation_left_is_exact() {
    let mut sprite = Sprite::new(l_shape());
    sprite.rotate_sprite_around_origin(Rotation::Left);
    // (x, y) goes to (y, -x).
    let pixels = sprite.pixels();
    assert_eq!(pixels.len(), 3);
    assert!(pixels.contains_key(Point::new(0, 0)));
    assert!(pixels.contains_key(Point::new(1, 0)));
    assert!(pixels.contains_key(Point::new(1, -1)));
}

#[test]
fn rotation_upside_down_is_exact() {
    let mut sprite = Sprite::new(l_shape());
    sprite.rotate_sprite_around_origin(Rotation::Down);
    // (x, y) goes to (x, -y).
    let pixels = sprite.pixels();
    assert_eq!(pixels.len(), 3);
    assert!(pixels.contains_key(Point::new(0, 0)));
    assert!(pixels.contains_key(Point::new(0, -1)));
    assert!(pixels.contains_key(Point::new(1, -1)));
}

#[test]
fn rotation_is_idempotent() {
    // Repeated calls with the same target give the same map: rotation is
    // re-derived from the original data, never accumulated.
    let mut sprite = Sprite::new(l_shape());
    sprite.rotate_sprite_around_origin(Rotation::Right);
    sprite.rotate_sprite_around_origin(Rotation::Right);
    let pixels = sprite.pixels();
    assert_eq!(pixels.len(), 3);
    assert!(pixels.contains_key(Point::new(0, 0)));
    assert!(pixels.contains_key(Point::new(-1, 0)));
    assert!(pixels.contains_key(Point::new(-1, 1)));
}

#[test]
fn dimensions_are_the_coordinate_span() {
    let mut pixels = PixelMap::empty();
    pixels.insert(Point::new(2, 3), Pixel::new(Color::white()));
    pixels.insert(Point::new(-1, 0), Pixel::new(Color::white()));
    let sprite = Sprite::new(pixels);
    assert_eq!(sprite.dimensions(), Dimensions::new(3, 3));
}

#[test]
fn dimensions_of_empty_sprite_are_zero() {
    // A sprite with zero pixels is legal and renders nothing.
    let sprite = Sprite::new(PixelMap::empty());
    assert_eq!(sprite.dimensions(), Dimensions::new(0, 0));
    assert_eq!(sprite.pixels().len(), 0);
}

#[test]
fn default_sprite_is_a_white_block() {
    let sprite = Sprite::default();
    assert_eq!(sprite.pixels().len(), 64);
    assert_eq!(sprite.dimensions(), Dimensions::new(7, 7));
    assert_eq!(
        sprite.pixels().get(Point::new(0, 0)),
        Some(Pixel::new(Color::RGB(255, 255, 255)))
    );
    assert_eq!(
        sprite.pixels().get(Point::new(7, 7)),
        Some(Pixel::new(Color::RGB(255, 255, 255)))
    );
    assert!(!sprite.pixels().contains_key(Point::new(8, 0)));
}

#[test]
fn decoded_image_filters_and_translates() {
    // A fully transparent black pixel is dropped; every kept pixel is
    // translated so the declared origin becomes (0, 0).
    let pixels = vec![
        (0u32, 0u32, Color::RGBA(0, 0, 0, 0)),
        (2u32, 3u32, Color::RGB(255, 0, 0)),
    ];
    let metadata = SpriteMetadata {
        dimensions: Dimensions::new(4, 4),
        origin: Point::new(1, 1),
    };
    let sprite = Sprite::from_decoded_image(&pixels, metadata);
    assert_eq!(sprite.pixels().len(), 1);
    assert_eq!(
        sprite.pixels().get(Point::new(1, 2)),
        Some(Pixel::new(Color::RGB(255, 0, 0)))
    );
    assert_eq!(sprite.dimensions(), Dimensions::new(4, 4));
}

#[test]
fn relocate_point_around_origin_subtracts() {
    let r = Sprite::relocate_point_around_origin(Point::new(1, 2), Point::new(10, 20));
    assert_eq!(r, (9, 18));
}

#[test]
fn pixel_map_insert_replaces() {
    let mut pixels = PixelMap::empty();
    pixels.insert(Point::new(4, 4), Pixel::new(Color::RGB(1, 2, 3)));
    pixels.insert(Point::new(4, 4), Pixel::new(Color::RGB(9, 9, 9)));
    assert_eq!(pixels.len(), 1);
    assert_eq!(
        pixels.get(Point::new(4, 4)),
        Some(Pixel::new(Color::RGB(9, 9, 9)))
    );
    assert_eq!(pixels.get(Point::new(5, 4)), None);
}
