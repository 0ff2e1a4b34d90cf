use vstd::prelude::*;

verus! {

use crate::structs::movement::{Direction, Rotation};
use crate::structs::pixel::{Pixel, Point};
use crate::structs::pixel_map::{rotated_map, translated_map};
use crate::structs::sprite::{default_sprite_map, Dimensions};

/// The spatial state every entity carries: its world-space anchor, its
/// sprite (original data, current orientation, declared bounding box), and
/// the derived world-space pixels and points.
#[verifier::ext_equal]
pub struct SpatialView {
    pub origin: (int, int),
    pub sprite_original: Map<(int, int), Pixel>,
    pub sprite: Map<(int, int), Pixel>,
    pub orientation: Rotation,
    pub dimensions: Dimensions,
    pub effective_pixels: Map<(int, int), Pixel>,
    pub effective_points: Set<(int, int)>,
}

/// The derived fields agree with the primary ones: the current sprite map is
/// the original turned to the current orientation, and the effective pixels
/// and points are the current sprite projected to the origin. Every entity
/// re-establishes this before a tick ends.
pub open spec fn spatial_consistent(s: SpatialView) -> bool {
    &&& s.sprite == rotated_map(s.sprite_original, s.orientation)
    &&& s.effective_pixels == translated_map(s.sprite, s.origin)
    &&& s.effective_points == s.effective_pixels.dom()
}

/// The spatial state of a freshly built default-sprite entity at `origin`.
pub open spec fn default_spatial_at(origin: (int, int)) -> SpatialView {
    SpatialView {
        origin,
        sprite_original: default_sprite_map(),
        sprite: default_sprite_map(),
        orientation: Rotation::Up,
        dimensions: Dimensions { width: 7, height: 7 },
        effective_pixels: translated_map(default_sprite_map(), origin),
        effective_points: translated_map(default_sprite_map(), origin).dom(),
    }
}

/// Where a whole-pixel step of `speed` in `direction` takes `origin`.
pub open spec fn moved_origin(origin: (int, int), direction: Direction, speed: u32) -> (
    int,
    int,
) {
    match direction {
        Direction::Up => (origin.0, origin.1 - speed),
        Direction::Down => (origin.0, origin.1 + speed),
        Direction::Left => (origin.0 - speed, origin.1),
        Direction::Right => (origin.0 + speed, origin.1),
        Direction::Stopped => origin,
    }
}

/// The step stays inside `i32`.
pub open spec fn move_in_range(origin: (int, int), direction: Direction, speed: u32) -> bool {
    let m = moved_origin(origin, direction, speed);
    i32::MIN <= m.0 <= i32::MAX && i32::MIN <= m.1 <= i32::MAX
}

/// The facing that matches a travel direction; `Stopped` keeps `fallback`.
pub open spec fn rotation_for(direction: Direction, fallback: Rotation) -> Rotation {
    match direction {
        Direction::Up => Rotation::Up,
        Direction::Down => Rotation::Down,
        Direction::Left => Rotation::Left,
        Direction::Right => Rotation::Right,
        Direction::Stopped => fallback,
    }
}

/// The travel direction that matches a facing.
pub open spec fn direction_for(rotation: Rotation) -> Direction {
    match rotation {
        Rotation::Up => Direction::Up,
        Rotation::Down => Direction::Down,
        Rotation::Left => Direction::Left,
        Rotation::Right => Direction::Right,
    }
}

/// `x + 1`, stopping at the top of `u32`.
pub open spec fn inc_saturating(x: u32) -> u32 {
    if x < u32::MAX {
        (x + 1) as u32
    } else {
        x
    }
}

/// Compute the next origin of a moving entity.
pub fn compute_moved_origin(origin: Point, direction: Direction, speed: u32) -> (r: Point)
    requires
        move_in_range(origin@, direction, speed),
    ensures
        r@ == moved_origin(origin@, direction, speed),
{
    match direction {
        Direction::Up => Point::new(origin.x, (origin.y as i64 - speed as i64) as i32),
        Direction::Down => Point::new(origin.x, (origin.y as i64 + speed as i64) as i32),
        Direction::Left => Point::new((origin.x as i64 - speed as i64) as i32, origin.y),
        Direction::Right => Point::new((origin.x as i64 + speed as i64) as i32, origin.y),
        Direction::Stopped => origin,
    }
}

/// The facing that matches a travel direction, as executable code.
pub fn compute_rotation_for(direction: Direction, fallback: Rotation) -> (r: Rotation)
    ensures
        r == rotation_for(direction, fallback),
{
    match direction {
        Direction::Up => Rotation::Up,
        Direction::Down => Rotation::Down,
        Direction::Left => Rotation::Left,
        Direction::Right => Rotation::Right,
        Direction::Stopped => fallback,
    }
}

} // verus!
