use vstd::prelude::*;

verus! {

use crate::structs::pixel::Point;
use crate::structs::pixel_map::{
    sets_intersect, translatable, translated_map, PixelMap, PointSet,
};
use crate::structs::sprite::Sprite;

/// The world-space pixels and points of a sprite anchored at `origin`: every
/// local point of the current orientation moved by `origin`, and exactly the
/// key set of that map. Recomputed from scratch, never patched.
pub fn calc_effective_sprite_pixels(sprite: &Sprite, origin: Point) -> (r: (PixelMap, PointSet))
    requires
        translatable(sprite@, origin@),
    ensures
        r.0@ == translated_map(sprite@, origin@),
        r.1@ == r.0@.dom(),
{
    let effective_pixels = sprite.pixels().translated(origin);
    let effective_points = effective_pixels.key_set();
    (effective_pixels, effective_points)
}

/// Whether two entities' effective point sets share at least one point,
/// probing with the smaller set against the larger one.
pub fn has_collided(
    effective_points_for_obj_1: &PointSet,
    effective_points_for_obj_2: &PointSet,
) -> (r: bool)
    ensures
        r == sets_intersect(effective_points_for_obj_1@, effective_points_for_obj_2@),
{
    let r = if effective_points_for_obj_1.len() < effective_points_for_obj_2.len() {
        effective_points_for_obj_1.intersects(effective_points_for_obj_2)
    } else {
        effective_points_for_obj_2.intersects(effective_points_for_obj_1)
    };
    proof {
        lemma_collision_symmetric(effective_points_for_obj_1@, effective_points_for_obj_2@);
    }
    r
}

/// Collision is symmetric: two point sets share a point no matter which of
/// the two drives the probe, so `has_collided(a, b)` and `has_collided(b, a)`
/// always agree.
pub proof fn lemma_collision_symmetric(a: Set<(int, int)>, b: Set<(int, int)>)
    ensures
        sets_intersect(a, b) == sets_intersect(b, a),
{
    if sets_intersect(a, b) {
        let p = choose|p: (int, int)| a.contains(p) && b.contains(p);
        assert(b.contains(p) && a.contains(p));
    }
    if sets_intersect(b, a) {
        let p = choose|p: (int, int)| b.contains(p) && a.contains(p);
        assert(a.contains(p) && b.contains(p));
    }
}

} // verus!
