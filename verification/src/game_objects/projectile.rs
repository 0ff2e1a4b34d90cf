use vstd::prelude::*;

verus! {

use crate::game_objects::spatial::{
    compute_moved_origin, move_in_range, moved_origin, spatial_consistent, SpatialView,
};
use crate::game_util::calc_effective_sprite_pixels;
use crate::structs::game_object_type::GameObjectType;
use crate::structs::movement::{Direction, Rotation};
use crate::structs::pixel::Point;
use crate::structs::pixel_map::{
    rotatable, rotated_map, sets_intersect, translatable, translated_map, PixelMap, PointSet,
};
use crate::structs::sprite::{default_sprite_map, Dimensions, Sprite};

/// A shot entity: it spawns at the firing entity's origin with the firer's
/// facing, keeps that facing while it travels, and is destroyed on wall
/// contact.
#[derive(Debug)]
pub struct Projectile {
    id: u32,
    origin: Point,
    sprite: Sprite,
    effective_sprite_pixels: PixelMap,
    effective_sprite_points: PointSet,
    direction: Direction,
    rotation: Rotation,
    rotation_enabled: bool,
    speed: u32,
}

/// The mathematical state of a projectile.
#[verifier::ext_equal]
pub struct ProjectileView {
    pub id: u32,
    pub spatial: SpatialView,
    pub direction: Direction,
    pub rotation: Rotation,
    pub rotation_enabled: bool,
    pub speed: u32,
}

impl View for Projectile {
    type V = ProjectileView;

    closed spec fn view(&self) -> ProjectileView {
        ProjectileView {
            id: self.id,
            spatial: SpatialView {
                origin: self.origin@,
                sprite_original: self.sprite.original(),
                sprite: self.sprite@,
                orientation: self.sprite.orientation(),
                dimensions: self.sprite.spec_dimensions(),
                effective_pixels: self.effective_sprite_pixels@,
                effective_points: self.effective_sprite_points@,
            },
            direction: self.direction,
            rotation: self.rotation,
            rotation_enabled: self.rotation_enabled,
            speed: self.speed,
        }
    }
}

/// The spatial state of a projectile just fired at `origin` with the
/// firer's facing `rotation`: the default sprite turned to that facing.
pub open spec fn projectile_spatial_at(origin: (int, int), rotation: Rotation) -> SpatialView {
    SpatialView {
        origin,
        sprite_original: default_sprite_map(),
        sprite: rotated_map(default_sprite_map(), rotation),
        orientation: rotation,
        dimensions: Dimensions { width: 7, height: 7 },
        effective_pixels: translated_map(rotated_map(default_sprite_map(), rotation), origin),
        effective_points: translated_map(
            rotated_map(default_sprite_map(), rotation),
            origin,
        ).dom(),
    }
}

/// The projectile state one movement tick later: the origin steps by the
/// speed in the travel direction, the facing stays frozen at what it was at
/// spawn, and the world-space pixels are recomputed.
pub open spec fn spec_projectile_tick(p: ProjectileView) -> ProjectileView {
    let new_o = moved_origin(p.spatial.origin, p.direction, p.speed);
    ProjectileView {
        spatial: SpatialView {
            origin: new_o,
            effective_pixels: translated_map(p.spatial.sprite, new_o),
            effective_points: translated_map(p.spatial.sprite, new_o).dom(),
            ..p.spatial
        },
        ..p
    }
}

/// The arithmetic of one projectile tick stays inside `i32`.
pub open spec fn projectile_tick_ok(p: ProjectileView) -> bool {
    &&& move_in_range(p.spatial.origin, p.direction, p.speed)
    &&& translatable(p.spatial.sprite, moved_origin(p.spatial.origin, p.direction, p.speed))
}

impl Projectile {
    /// The projectile's derived state agrees with its origin and sprite.
    pub open spec fn wf(self) -> bool {
        &&& spatial_consistent(self@.spatial)
        &&& rotatable(self@.spatial.sprite_original)
    }

    /// Build a projectile at the firer's origin, travelling in `direction`
    /// with the firer's facing `rotation` and speed 10. The id is handed in
    /// by the owning engine.
    pub fn new(id: u32, origin: Point, direction: Direction, rotation: Rotation) -> (r:
        Projectile)
        requires
            translatable(rotated_map(default_sprite_map(), rotation), origin@),
        ensures
            r@ == (ProjectileView {
                id,
                spatial: projectile_spatial_at(origin@, rotation),
                direction,
                rotation,
                rotation_enabled: false,
                speed: 10,
            }),
            r.wf(),
    {
        let mut sprite = Sprite::default();
        sprite.rotate_sprite_around_origin(rotation);
        let (effective_sprite_pixels, effective_sprite_points) = calc_effective_sprite_pixels(
            &sprite,
            origin,
        );
        Projectile {
            id,
            origin,
            sprite,
            effective_sprite_pixels,
            effective_sprite_points,
            direction,
            rotation,
            rotation_enabled: false,
            speed: 10,
        }
    }

    /// One movement tick, as `spec_projectile_tick` describes.
    pub fn tick(&mut self)
        requires
            old(self).wf(),
            projectile_tick_ok(old(self)@),
        ensures
            final(self)@ == spec_projectile_tick(old(self)@),
            final(self).wf(),
    {
        let new_origin = compute_moved_origin(self.origin, self.direction, self.speed);
        self.origin = new_origin;
        let (effective_sprite_pixels, effective_sprite_points) = calc_effective_sprite_pixels(
            &self.sprite,
            self.origin,
        );
        self.effective_sprite_pixels = effective_sprite_pixels;
        self.effective_sprite_points = effective_sprite_points;
    }

    /// The kind tag of this entity.
    pub fn game_object_type(&self) -> (r: GameObjectType)
        ensures
            r == GameObjectType::Projectile,
    {
        GameObjectType::Projectile
    }

    /// The id, unique among the projectiles of one engine.
    pub fn id(&self) -> (r: u32)
        ensures
            r == self@.id,
    {
        self.id
    }

    /// The kind tag and id together.
    pub fn identity(&self) -> (r: (GameObjectType, u32))
        ensures
            r == (GameObjectType::Projectile, self@.id),
    {
        (self.game_object_type(), self.id())
    }

    /// The world-space anchor.
    pub fn origin(&self) -> (r: Point)
        ensures
            r@ == self@.spatial.origin,
    {
        self.origin
    }

    /// Move the projectile to `new_origin`, recomputing the derived state.
    pub fn set_origin(&mut self, new_origin: Point)
        requires
            translatable(old(self)@.spatial.sprite, new_origin@),
        ensures
            final(self)@ == (ProjectileView {
                spatial: SpatialView {
                    origin: new_origin@,
                    effective_pixels: translated_map(old(self)@.spatial.sprite, new_origin@),
                    effective_points: translated_map(
                        old(self)@.spatial.sprite,
                        new_origin@,
                    ).dom(),
                    ..old(self)@.spatial
                },
                ..old(self)@
            }),
            old(self).wf() ==> final(self).wf(),
    {
        let (effective_sprite_pixels, effective_sprite_points) = calc_effective_sprite_pixels(
            &self.sprite,
            new_origin,
        );
        self.origin = new_origin;
        self.effective_sprite_pixels = effective_sprite_pixels;
        self.effective_sprite_points = effective_sprite_points;
    }

    /// The sprite.
    pub fn sprite(&self) -> (r: &Sprite)
        ensures
            r@ == self@.spatial.sprite,
            r.original() == self@.spatial.sprite_original,
            r.orientation() == self@.spatial.orientation,
            r.spec_dimensions() == self@.spatial.dimensions,
    {
        &self.sprite
    }

    /// The sprite's declared bounding box.
    pub fn sprite_dimensions(&self) -> (r: Dimensions)
        ensures
            r == self@.spatial.dimensions,
    {
        self.sprite.dimensions()
    }

    /// The world-space pixels, as of the last recomputation.
    pub fn effective_pixels(&self) -> (r: &PixelMap)
        ensures
            r@ == self@.spatial.effective_pixels,
    {
        &self.effective_sprite_pixels
    }

    /// The world-space points, as of the last recomputation.
    pub fn effective_points(&self) -> (r: &PointSet)
        ensures
            r@ == self@.spatial.effective_points,
    {
        &self.effective_sprite_points
    }

    /// Whether this projectile's points share a point with `other_points`.
    pub fn has_collided_with(&self, other_points: &PointSet) -> (r: bool)
        ensures
            r == sets_intersect(self@.spatial.effective_points, other_points@),
    {
        crate::game_util::has_collided(&self.effective_sprite_points, other_points)
    }

    /// The travel direction, fixed at spawn.
    pub fn direction(&self) -> (r: Direction)
        ensures
            r == self@.direction,
    {
        self.direction
    }

    /// Change the travel direction.
    pub fn change_direction(&mut self, new_direction: Direction)
        ensures
            final(self)@ == (ProjectileView { direction: new_direction, ..old(self)@ }),
            old(self).wf() ==> final(self).wf(),
    {
        self.direction = new_direction;
    }

    /// The facing, frozen at the firer's facing at spawn.
    pub fn rotation(&self) -> (r: Rotation)
        ensures
            r == self@.rotation,
    {
        self.rotation
    }

    /// Whether the facing follows the travel direction; off for projectiles,
    /// which keep the firer's facing as they travel.
    pub fn rotation_enabled(&self) -> (r: bool)
        ensures
            r == self@.rotation_enabled,
    {
        self.rotation_enabled
    }

    /// Let the facing follow the travel direction.
    pub fn enable_rotation(&mut self)
        ensures
            final(self)@ == (ProjectileView { rotation_enabled: true, ..old(self)@ }),
            old(self).wf() ==> final(self).wf(),
    {
        self.rotation_enabled = true;
    }

    /// Freeze the facing.
    pub fn disable_rotation(&mut self)
        ensures
            final(self)@ == (ProjectileView { rotation_enabled: false, ..old(self)@ }),
            old(self).wf() ==> final(self).wf(),
    {
        self.rotation_enabled = false;
    }

    /// A projectile's facing never changes after spawn: this does nothing.
    pub fn change_rotation(&mut self, new_rotation: Rotation)
        ensures
            final(self)@ == old(self)@,
            old(self).wf() ==> final(self).wf(),
    {
        let _ = new_rotation;
    }

    /// The movement speed in pixels per tick.
    pub fn speed(&self) -> (r: u32)
        ensures
            r == self@.speed,
    {
        self.speed
    }

    /// Projectiles are destroyed rather than rolled back, so no pre-move
    /// origin is tracked.
    pub fn prev_origin(&self) -> (r: Option<Point>)
        ensures
            r is None,
    {
        None
    }

    /// Projectiles do not track a pre-move origin: this does nothing.
    pub fn set_prev_origin(&mut self, current_origin: Point)
        ensures
            final(self)@ == old(self)@,
            old(self).wf() ==> final(self).wf(),
    {
        let _ = current_origin;
    }
}

} // verus!
