use vstd::prelude::*;

verus! {

use crate::game_objects::spatial::{default_spatial_at, spatial_consistent, SpatialView};
use crate::game_util::calc_effective_sprite_pixels;
use crate::structs::game_object_type::GameObjectType;
use crate::structs::pixel::Point;
use crate::structs::pixel_map::{
    sets_intersect, translatable, translated_map, PixelMap, PointSet,
};
use crate::structs::sprite::{default_sprite_map, Dimensions, Sprite};

/// A collectible entity: it never moves and is removed from the world when a
/// projectile touches it.
#[derive(Debug)]
pub struct Coin {
    id: u32,
    origin: Point,
    sprite: Sprite,
    effective_sprite_pixels: PixelMap,
    effective_sprite_points: PointSet,
}

/// The mathematical state of a coin.
#[verifier::ext_equal]
pub struct CoinView {
    pub id: u32,
    pub spatial: SpatialView,
}

impl View for Coin {
    type V = CoinView;

    closed spec fn view(&self) -> CoinView {
        CoinView {
            id: self.id,
            spatial: SpatialView {
                origin: self.origin@,
                sprite_original: self.sprite.original(),
                sprite: self.sprite@,
                orientation: self.sprite.orientation(),
                dimensions: self.sprite.spec_dimensions(),
                effective_pixels: self.effective_sprite_pixels@,
                effective_points: self.effective_sprite_points@,
            },
        }
    }
}

impl Coin {
    /// The coin's derived state agrees with its origin and sprite.
    pub open spec fn wf(self) -> bool {
        &&& spatial_consistent(self@.spatial)
        &&& self@.spatial.dimensions == (Dimensions { width: 7, height: 7 })
    }

    /// Build a coin with the default sprite at `origin`. The id is handed in
    /// by the owning engine, which keeps one counter per entity kind.
    pub fn new(id: u32, origin: Point) -> (r: Coin)
        requires
            translatable(default_sprite_map(), origin@),
        ensures
            r@ == (CoinView { id, spatial: default_spatial_at(origin@) }),
            r.wf(),
    {
        let sprite = Sprite::default();
        let (effective_sprite_pixels, effective_sprite_points) = calc_effective_sprite_pixels(
            &sprite,
            origin,
        );
        proof {
            crate::structs::sprite::lemma_rotate_identity(default_sprite_map());
        }
        Coin { id, origin, sprite, effective_sprite_pixels, effective_sprite_points }
    }

    /// The kind tag of this entity.
    pub fn game_object_type(&self) -> (r: GameObjectType)
        ensures
            r == GameObjectType::Coin,
    {
        GameObjectType::Coin
    }

    /// The id, unique among the coins of one engine.
    pub fn id(&self) -> (r: u32)
        ensures
            r == self@.id,
    {
        self.id
    }

    /// The kind tag and id together.
    pub fn identity(&self) -> (r: (GameObjectType, u32))
        ensures
            r == (GameObjectType::Coin, self@.id),
    {
        (self.game_object_type(), self.id())
    }

    /// The world-space anchor.
    pub fn origin(&self) -> (r: Point)
        ensures
            r@ == self@.spatial.origin,
    {
        self.origin
    }

    /// Move the coin to `new_origin`, recomputing the derived state.
    pub fn set_origin(&mut self, new_origin: Point)
        requires
            translatable(old(self)@.spatial.sprite, new_origin@),
        ensures
            final(self)@ == (CoinView {
                spatial: SpatialView {
                    origin: new_origin@,
                    effective_pixels: translated_map(old(self)@.spatial.sprite, new_origin@),
                    effective_points: translated_map(
                        old(self)@.spatial.sprite,
                        new_origin@,
                    ).dom(),
                    ..old(self)@.spatial
                },
                ..old(self)@
            }),
            old(self).wf() ==> final(self).wf(),
    {
        let (effective_sprite_pixels, effective_sprite_points) = calc_effective_sprite_pixels(
            &self.sprite,
            new_origin,
        );
        self.origin = new_origin;
        self.effective_sprite_pixels = effective_sprite_pixels;
        self.effective_sprite_points = effective_sprite_points;
    }

    /// The sprite.
    pub fn sprite(&self) -> (r: &Sprite)
        ensures
            r@ == self@.spatial.sprite,
            r.original() == self@.spatial.sprite_original,
            r.orientation() == self@.spatial.orientation,
            r.spec_dimensions() == self@.spatial.dimensions,
    {
        &self.sprite
    }

    /// The sprite's declared bounding box.
    pub fn sprite_dimensions(&self) -> (r: Dimensions)
        ensures
            r == self@.spatial.dimensions,
    {
        self.sprite.dimensions()
    }

    /// The world-space pixels, as of the last recomputation.
    pub fn effective_pixels(&self) -> (r: &PixelMap)
        ensures
            r@ == self@.spatial.effective_pixels,
    {
        &self.effective_sprite_pixels
    }

    /// The world-space points, as of the last recomputation.
    pub fn effective_points(&self) -> (r: &PointSet)
        ensures
            r@ == self@.spatial.effective_points,
    {
        &self.effective_sprite_points
    }

    /// Whether this coin's points share a point with `other_points`.
    pub fn has_collided_with(&self, other_points: &PointSet) -> (r: bool)
        ensures
            r == sets_intersect(self@.spatial.effective_points, other_points@),
    {
        crate::game_util::has_collided(&self.effective_sprite_points, other_points)
    }
}

impl Default for Coin {
    fn default() -> (r: Self)
        ensures
            r@ == (CoinView { id: 0, spatial: default_spatial_at((0, 0)) }),
            r.wf(),
    {
        proof {
            assert forall|p: (int, int)| #[trigger]
                default_sprite_map().dom().contains(p) implies i32::MIN <= p.0 + 0 <= i32::MAX
                && i32::MIN <= p.1 + 0 <= i32::MAX by {}
        }
        Coin::new(0, Point::new(0, 0))
    }
}

} // verus!
