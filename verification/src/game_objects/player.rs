use vstd::prelude::*;

verus! {

use crate::game_objects::spatial::{
    compute_moved_origin, compute_rotation_for, default_spatial_at, inc_saturating, move_in_range,
    moved_origin, rotation_for, spatial_consistent, SpatialView,
};
use crate::game_util::calc_effective_sprite_pixels;
use crate::structs::game_object_type::GameObjectType;
use crate::structs::movement::{Direction, Rotation};
use crate::structs::pixel::Point;
use crate::structs::pixel_map::{
    rotatable, rotated_map, sets_intersect, translatable, translated_map, PixelMap, PointSet,
};
use crate::structs::sprite::{default_sprite_map, Dimensions, Sprite};

/// The player-controlled entity: movable, facing-aware, collecting coins and
/// firing projectiles.
#[derive(Debug)]
pub struct Player {
    id: u32,
    origin: Point,
    prev_origin: Option<Point>,
    sprite: Sprite,
    effective_sprite_pixels: PixelMap,
    effective_sprite_points: PointSet,
    speed: u32,
    current_direction: Direction,
    current_rotation: Rotation,
    rotation_enabled: bool,
    coin_count: u32,
    frames_since_last_shot: u32,
}

/// The mathematical state of the player.
#[verifier::ext_equal]
pub struct PlayerView {
    pub id: u32,
    pub spatial: SpatialView,
    pub prev_origin: Option<(int, int)>,
    pub speed: u32,
    pub direction: Direction,
    pub rotation: Rotation,
    pub rotation_enabled: bool,
    pub coin_count: u32,
    pub frames_since_last_shot: u32,
}

impl View for Player {
    type V = PlayerView;

    closed spec fn view(&self) -> PlayerView {
        PlayerView {
            id: self.id,
            spatial: SpatialView {
                origin: self.origin@,
                sprite_original: self.sprite.original(),
                sprite: self.sprite@,
                orientation: self.sprite.orientation(),
                dimensions: self.sprite.spec_dimensions(),
                effective_pixels: self.effective_sprite_pixels@,
                effective_points: self.effective_sprite_points@,
            },
            prev_origin: match self.prev_origin {
                Some(p) => Some(p@),
                None => None,
            },
            speed: self.speed,
            direction: self.current_direction,
            rotation: self.current_rotation,
            rotation_enabled: self.rotation_enabled,
            coin_count: self.coin_count,
            frames_since_last_shot: self.frames_since_last_shot,
        }
    }
}

/// The player state one movement tick later: the origin steps by the speed
/// in the travel direction, the facing follows the direction when facing
/// tracking is on, the sprite is re-derived from the original data when the
/// facing changed, the pre-move origin is recorded for rollback, and the
/// world-space pixels are recomputed when anything changed.
pub open spec fn spec_player_tick(p: PlayerView) -> PlayerView {
    let new_rot = if p.rotation_enabled {
        rotation_for(p.direction, p.rotation)
    } else {
        p.rotation
    };
    let new_o = moved_origin(p.spatial.origin, p.direction, p.speed);
    let rot_changed = new_rot != p.rotation;
    let o_changed = new_o != p.spatial.origin;
    let new_sprite = if rot_changed {
        rotated_map(p.spatial.sprite_original, new_rot)
    } else {
        p.spatial.sprite
    };
    let new_orientation = if rot_changed {
        new_rot
    } else {
        p.spatial.orientation
    };
    let spatial_moved = SpatialView {
        origin: new_o,
        sprite: new_sprite,
        orientation: new_orientation,
        ..p.spatial
    };
    let spatial_final = if rot_changed || o_changed {
        SpatialView {
            effective_pixels: translated_map(new_sprite, new_o),
            effective_points: translated_map(new_sprite, new_o).dom(),
            ..spatial_moved
        }
    } else {
        spatial_moved
    };
    PlayerView {
        spatial: spatial_final,
        prev_origin: Some(p.spatial.origin),
        rotation: new_rot,
        frames_since_last_shot: inc_saturating(p.frames_since_last_shot),
        ..p
    }
}

/// The arithmetic of one player tick stays inside `i32`.
pub open spec fn player_tick_ok(p: PlayerView) -> bool {
    let new_rot = if p.rotation_enabled {
        rotation_for(p.direction, p.rotation)
    } else {
        p.rotation
    };
    let new_o = moved_origin(p.spatial.origin, p.direction, p.speed);
    let new_sprite = if new_rot != p.rotation {
        rotated_map(p.spatial.sprite_original, new_rot)
    } else {
        p.spatial.sprite
    };
    &&& move_in_range(p.spatial.origin, p.direction, p.speed)
    &&& (new_rot != p.rotation || new_o != p.spatial.origin ==> translatable(new_sprite, new_o))
}

impl Player {
    /// The player's derived state agrees with its origin and sprite, and its
    /// sprite can be turned to any orientation.
    pub open spec fn wf(self) -> bool {
        &&& spatial_consistent(self@.spatial)
        &&& rotatable(self@.spatial.sprite_original)
    }

    /// Build the player with the default sprite at `origin`: travelling and
    /// facing up, with facing tracking on, speed 5, no coins collected, and
    /// free to fire at once.
    pub fn new(origin: Point) -> (r: Player)
        requires
            translatable(default_sprite_map(), origin@),
        ensures
            r@ == (PlayerView {
                id: 0,
                spatial: default_spatial_at(origin@),
                prev_origin: None,
                speed: 5,
                direction: Direction::Up,
                rotation: Rotation::Up,
                rotation_enabled: true,
                coin_count: 0,
                frames_since_last_shot: u32::MAX,
            }),
            r.wf(),
    {
        let sprite = Sprite::default();
        let (effective_sprite_pixels, effective_sprite_points) = calc_effective_sprite_pixels(
            &sprite,
            origin,
        );
        proof {
            crate::structs::sprite::lemma_rotate_identity(default_sprite_map());
        }
        Player {
            id: 0,
            origin,
            prev_origin: None,
            sprite,
            effective_sprite_pixels,
            effective_sprite_points,
            speed: 5,
            current_direction: Direction::Up,
            current_rotation: Rotation::Up,
            rotation_enabled: true,
            coin_count: 0,
            frames_since_last_shot: u32::MAX,
        }
    }

    /// One movement tick, as `spec_player_tick` describes.
    pub fn tick(&mut self)
        requires
            old(self).wf(),
            player_tick_ok(old(self)@),
        ensures
            final(self)@ == spec_player_tick(old(self)@),
            final(self).wf(),
    {
        let prev_rotation = self.current_rotation;
        let current_origin = self.origin;
        let new_origin = compute_moved_origin(current_origin, self.current_direction, self.speed);
        if self.rotation_enabled {
            self.current_rotation = compute_rotation_for(
                self.current_direction,
                self.current_rotation,
            );
        }
        self.prev_origin = Some(current_origin);
        self.origin = new_origin;
        let origin_changed = new_origin != current_origin;
        let rotation_changed = self.current_rotation != prev_rotation;
        if rotation_changed {
            self.sprite.rotate_sprite_around_origin(self.current_rotation);
        }
        if origin_changed || rotation_changed {
            let (effective_sprite_pixels, effective_sprite_points) = calc_effective_sprite_pixels(
                &self.sprite,
                self.origin,
            );
            self.effective_sprite_pixels = effective_sprite_pixels;
            self.effective_sprite_points = effective_sprite_points;
        }
        if self.frames_since_last_shot < u32::MAX {
            self.frames_since_last_shot = self.frames_since_last_shot + 1;
        }
    }

    /// The kind tag of this entity.
    pub fn game_object_type(&self) -> (r: GameObjectType)
        ensures
            r == GameObjectType::Player,
    {
        GameObjectType::Player
    }

    /// The id; there is one player per engine.
    pub fn id(&self) -> (r: u32)
        ensures
            r == self@.id,
    {
        self.id
    }

    /// The kind tag and id together.
    pub fn identity(&self) -> (r: (GameObjectType, u32))
        ensures
            r == (GameObjectType::Player, self@.id),
    {
        (self.game_object_type(), self.id())
    }

    /// The world-space anchor.
    pub fn origin(&self) -> (r: Point)
        ensures
            r@ == self@.spatial.origin,
    {
        self.origin
    }

    /// Move the player to `new_origin`, recording the pre-move origin for
    /// rollback and recomputing the derived state.
    pub fn set_origin(&mut self, new_origin: Point)
        requires
            translatable(old(self)@.spatial.sprite, new_origin@),
        ensures
            final(self)@ == (PlayerView {
                spatial: SpatialView {
                    origin: new_origin@,
                    effective_pixels: translated_map(old(self)@.spatial.sprite, new_origin@),
                    effective_points: translated_map(
                        old(self)@.spatial.sprite,
                        new_origin@,
                    ).dom(),
                    ..old(self)@.spatial
                },
                prev_origin: Some(old(self)@.spatial.origin),
                ..old(self)@
            }),
            old(self).wf() ==> final(self).wf(),
    {
        let (effective_sprite_pixels, effective_sprite_points) = calc_effective_sprite_pixels(
            &self.sprite,
            new_origin,
        );
        self.prev_origin = Some(self.origin);
        self.origin = new_origin;
        self.effective_sprite_pixels = effective_sprite_pixels;
        self.effective_sprite_points = effective_sprite_points;
    }

    /// Replace the sprite, recomputing the derived state at the current
    /// origin; this is how an externally loaded sprite is installed.
    pub fn set_sprite(&mut self, sprite: Sprite)
        requires
            rotatable(sprite.original()),
            translatable(sprite@, old(self)@.spatial.origin),
        ensures
            final(self)@ == (PlayerView {
                spatial: SpatialView {
                    sprite_original: sprite.original(),
                    sprite: sprite@,
                    orientation: sprite.orientation(),
                    dimensions: sprite.spec_dimensions(),
                    effective_pixels: translated_map(sprite@, old(self)@.spatial.origin),
                    effective_points: translated_map(sprite@, old(self)@.spatial.origin).dom(),
                    ..old(self)@.spatial
                },
                ..old(self)@
            }),
            final(self).wf(),
    {
        let (effective_sprite_pixels, effective_sprite_points) = calc_effective_sprite_pixels(
            &sprite,
            self.origin,
        );
        proof {
            use_type_invariant(&sprite);
        }
        self.sprite = sprite;
        self.effective_sprite_pixels = effective_sprite_pixels;
        self.effective_sprite_points = effective_sprite_points;
    }

    /// The sprite.
    pub fn sprite(&self) -> (r: &Sprite)
        ensures
            r@ == self@.spatial.sprite,
            r.original() == self@.spatial.sprite_original,
            r.orientation() == self@.spatial.orientation,
            r.spec_dimensions() == self@.spatial.dimensions,
    {
        &self.sprite
    }

    /// The sprite's declared bounding box.
    pub fn sprite_dimensions(&self) -> (r: Dimensions)
        ensures
            r == self@.spatial.dimensions,
    {
        self.sprite.dimensions()
    }

    /// The world-space pixels, as of the last recomputation.
    pub fn effective_pixels(&self) -> (r: &PixelMap)
        ensures
            r@ == self@.spatial.effective_pixels,
    {
        &self.effective_sprite_pixels
    }

    /// The world-space points, as of the last recomputation.
    pub fn effective_points(&self) -> (r: &PointSet)
        ensures
            r@ == self@.spatial.effective_points,
    {
        &self.effective_sprite_points
    }

    /// Whether the player's points share a point with `other_points`.
    pub fn has_collided_with(&self, other_points: &PointSet) -> (r: bool)
        ensures
            r == sets_intersect(self@.spatial.effective_points, other_points@),
    {
        crate::game_util::has_collided(&self.effective_sprite_points, other_points)
    }

    /// The current travel direction.
    pub fn direction(&self) -> (r: Direction)
        ensures
            r == self@.direction,
    {
        self.current_direction
    }

    /// Change the travel direction; it takes effect at the next tick.
    pub fn change_direction(&mut self, new_direction: Direction)
        ensures
            final(self)@ == (PlayerView { direction: new_direction, ..old(self)@ }),
            old(self).wf() ==> final(self).wf(),
    {
        self.current_direction = new_direction;
    }

    /// The current facing.
    pub fn rotation(&self) -> (r: Rotation)
        ensures
            r == self@.rotation,
    {
        self.current_rotation
    }

    /// Change the facing; the sprite follows at the next tick.
    pub fn change_rotation(&mut self, new_rotation: Rotation)
        ensures
            final(self)@ == (PlayerView { rotation: new_rotation, ..old(self)@ }),
            old(self).wf() ==> final(self).wf(),
    {
        self.current_rotation = new_rotation;
    }

    /// Whether the facing follows the travel direction.
    pub fn rotation_enabled(&self) -> (r: bool)
        ensures
            r == self@.rotation_enabled,
    {
        self.rotation_enabled
    }

    /// Let the facing follow the travel direction.
    pub fn enable_rotation(&mut self)
        ensures
            final(self)@ == (PlayerView { rotation_enabled: true, ..old(self)@ }),
            old(self).wf() ==> final(self).wf(),
    {
        self.rotation_enabled = true;
    }

    /// Freeze the facing: free-roam movement keeps the sprite as it is.
    pub fn disable_rotation(&mut self)
        ensures
            final(self)@ == (PlayerView { rotation_enabled: false, ..old(self)@ }),
            old(self).wf() ==> final(self).wf(),
    {
        self.rotation_enabled = false;
    }

    /// The movement speed in pixels per tick.
    pub fn speed(&self) -> (r: u32)
        ensures
            r == self@.speed,
    {
        self.speed
    }

    /// Replace the movement speed outright.
    pub fn change_speed(&mut self, speed: u32)
        ensures
            final(self)@ == (PlayerView { speed, ..old(self)@ }),
            old(self).wf() ==> final(self).wf(),
    {
        self.speed = speed;
    }

    /// The origin before the last move, if the player has moved at all;
    /// rollback is only valid once it is set.
    pub fn prev_origin(&self) -> (r: Option<Point>)
        ensures
            r is Some <==> self@.prev_origin is Some,
            r matches Some(p) ==> self@.prev_origin == Some(p@),
    {
        match self.prev_origin {
            Some(point) => Some(point),
            None => None,
        }
    }

    /// The origin before the last move, for callers that know a move has
    /// happened.
    pub fn prev_origin_unchecked(&self) -> (r: Point)
        requires
            self@.prev_origin is Some,
        ensures
            Some(r@) == self@.prev_origin,
    {
        match self.prev_origin {
            Some(point) => point,
            None => Point::new(0, 0),
        }
    }

    /// Record `origin` as the origin to roll back to.
    pub fn set_prev_origin(&mut self, origin: Point)
        ensures
            final(self)@ == (PlayerView { prev_origin: Some(origin@), ..old(self)@ }),
            old(self).wf() ==> final(self).wf(),
    {
        self.prev_origin = Some(origin);
    }

    /// How many coins the player has collected.
    pub fn coin_count(&self) -> (r: u32)
        ensures
            r == self@.coin_count,
    {
        self.coin_count
    }

    /// Count one collected coin.
    pub fn increment_coin_count(&mut self)
        requires
            old(self)@.coin_count < u32::MAX,
        ensures
            final(self)@ == (PlayerView {
                coin_count: (old(self)@.coin_count + 1) as u32,
                ..old(self)@
            }),
            old(self).wf() ==> final(self).wf(),
    {
        self.coin_count = self.coin_count + 1;
    }

    /// How many ticks have passed since the last successful shot.
    pub fn frames_since_last_shot(&self) -> (r: u32)
        ensures
            r == self@.frames_since_last_shot,
    {
        self.frames_since_last_shot
    }

    /// Start the fire cooldown over, after a successful shot.
    pub fn reset_frames_since_last_shot(&mut self)
        ensures
            final(self)@ == (PlayerView { frames_since_last_shot: 0, ..old(self)@ }),
            old(self).wf() ==> final(self).wf(),
    {
        self.frames_since_last_shot = 0;
    }
}

impl Default for Player {
    fn default() -> (r: Self)
        ensures
            r@ == (PlayerView {
                id: 0,
                spatial: default_spatial_at((0, 0)),
                prev_origin: None,
                speed: 5,
                direction: Direction::Up,
                rotation: Rotation::Up,
                rotation_enabled: true,
                coin_count: 0,
                frames_since_last_shot: u32::MAX,
            }),
            r.wf(),
    {
        proof {
            assert forall|p: (int, int)| #[trigger]
                default_sprite_map().dom().contains(p) implies i32::MIN <= p.0 + 0 <= i32::MAX
                && i32::MIN <= p.1 + 0 <= i32::MAX by {}
        }
        Player::new(Point::new(0, 0))
    }
}

} // verus!
