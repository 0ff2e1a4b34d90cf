use vstd::prelude::*;

verus! {

use crate::structs::movement::Rotation;
use crate::structs::pixel::{Color, Pixel, Point};
use crate::structs::pixel_map::{
    bounds_ok, inverse_rotation, rotate_point, rotatable, rotated_map, PixelMap,
};

/// The width and height of a sprite's bounding box; derived for sprites
/// built from a pixel map, declared for sprites built from decoded assets.
#[derive(Debug, Copy, Clone, PartialEq, Eq, Structural)]
pub struct Dimensions {
    pub width: u32,
    pub height: u32,
}

impl Dimensions {
    pub fn new(width: u32, height: u32) -> (r: Self)
        ensures
            r == (Dimensions { width, height }),
    {
        Dimensions { width, height }
    }
}

/// What an asset descriptor declares about a sprite: its bounding box and
/// the local point its pixels are anchored to.
#[derive(Debug, Copy, Clone, PartialEq, Eq, Structural)]
pub struct SpriteMetadata {
    pub dimensions: Dimensions,
    pub origin: Point,
}

/// The map of pixels that are "on" for the default square sprite: an 8-by-8
/// white block anchored at its top-left corner.
pub open spec fn default_sprite_map() -> Map<(int, int), Pixel> {
    Map::new(
        |p: (int, int)| 0 <= p.0 < 8 && 0 <= p.1 < 8,
        |p: (int, int)| Pixel { color: Color { r: 255, g: 255, b: 255, a: 255 } },
    )
}

/// The pixel map decoded from an image: fully transparent black pixels are
/// dropped, and every remaining point is translated so that the declared
/// origin becomes (0, 0). Later entries override earlier ones.
pub open spec fn decoded_map(s: Seq<(u32, u32, Color)>, origin: (int, int)) -> Map<
    (int, int),
    Pixel,
>
    decreases s.len(),
{
    if s.len() == 0 {
        Map::empty()
    } else {
        let d = decoded_map(s.drop_last(), origin);
        let (x, y, c) = s.last();
        if c == (Color { r: 0, g: 0, b: 0, a: 0 }) {
            d
        } else {
            d.insert((x - origin.0, y - origin.1), Pixel { color: c })
        }
    }
}

/// A sprite: an immutable original pixel map, the declared bounding box, and
/// the pixel map as currently turned. The current map is always the original
/// map turned to the current orientation, re-derived from the original on
/// every rotation so repeated turning never drifts.
#[derive(Debug)]
pub struct Sprite {
    dimensions: Dimensions,
    origin: Point,
    original_sprite_data: PixelMap,
    sprite_data: PixelMap,
    rotation: Rotation,
}

impl View for Sprite {
    type V = Map<(int, int), Pixel>;

    /// The pixel map of the current orientation.
    closed spec fn view(&self) -> Map<(int, int), Pixel> {
        self.sprite_data@
    }
}

impl Sprite {
    /// The current pixel map is always the original turned to the current
    /// orientation; every sprite satisfies this at all times.
    #[verifier::type_invariant]
    pub open spec fn consistent(self) -> bool {
        self@ == rotated_map(self.original(), self.orientation())
    }

    /// The untouched pixel map the sprite was built from.
    pub closed spec fn original(&self) -> Map<(int, int), Pixel> {
        self.original_sprite_data@
    }

    /// The orientation the sprite is currently turned to.
    pub closed spec fn orientation(&self) -> Rotation {
        self.rotation
    }

    /// The declared bounding box.
    pub closed spec fn spec_dimensions(&self) -> Dimensions {
        self.dimensions
    }

    /// Build a sprite from its pixel map, deriving the bounding box as the
    /// coordinate span of the mapped points (clamped to include 0).
    pub fn new(sprite_data: PixelMap) -> (r: Sprite)
        ensures
            r@ == sprite_data@,
            r.original() == sprite_data@,
            r.orientation() == Rotation::Up,
            exists|xmin: int, xmax: int, ymin: int, ymax: int|
                bounds_ok(sprite_data@, xmin, xmax, ymin, ymax)
                    && r.spec_dimensions().width == xmax - xmin && r.spec_dimensions().height
                    == ymax - ymin,
    {
        let (x_min, x_max, y_min, y_max) = sprite_data.bounding();
        let width_wide: i64 = x_max as i64 - x_min as i64;
        let height_wide: i64 = y_max as i64 - y_min as i64;
        let width: u32 = width_wide as u32;
        let height: u32 = height_wide as u32;
        let current = sprite_data.copied();
        proof {
            assert(width == x_max - x_min);
            assert(height == y_max - y_min);
            assert(rotated_map(sprite_data@, Rotation::Up) =~= sprite_data@);
        }
        Sprite {
            dimensions: Dimensions { width, height },
            origin: Point::new(0, 0),
            original_sprite_data: sprite_data,
            sprite_data: current,
            rotation: Rotation::Up,
        }
    }

    /// Build a sprite from a decoded image and its declared metadata: keep
    /// every pixel that is not fully transparent black, translated so the
    /// declared origin becomes (0, 0); the bounding box is the declared one.
    pub fn from_decoded_image(pixels: &Vec<(u32, u32, Color)>, metadata: SpriteMetadata) -> (r:
        Sprite)
        requires
            forall|k: int|
                0 <= k < pixels@.len() ==> i32::MIN <= #[trigger] pixels@[k].0 - metadata.origin@.0
                    <= i32::MAX,
            forall|k: int|
                0 <= k < pixels@.len() ==> i32::MIN <= #[trigger] pixels@[k].1 - metadata.origin@.1
                    <= i32::MAX,
        ensures
            r@ == decoded_map(pixels@, metadata.origin@),
            r.original() == decoded_map(pixels@, metadata.origin@),
            r.orientation() == Rotation::Up,
            r.spec_dimensions() == metadata.dimensions,
    {
        let n = pixels.len();
        let mut data = PixelMap::empty();
        let mut i: usize = 0;
        while i < n
            invariant
                n == pixels@.len(),
                0 <= i <= n,
                forall|k: int|
                    0 <= k < pixels@.len() ==> i32::MIN <= #[trigger] pixels@[k].0 - metadata
                        .origin@.0 <= i32::MAX,
                forall|k: int|
                    0 <= k < pixels@.len() ==> i32::MIN <= #[trigger] pixels@[k].1 - metadata
                        .origin@.1 <= i32::MAX,
                data@ == decoded_map(pixels@.take(i as int), metadata.origin@),
            decreases n - i,
        {
            let (x, y, c) = pixels[i];
            if c.r != 0 || c.g != 0 || c.b != 0 || c.a != 0 {
                let px = (x as i64 - metadata.origin.x as i64) as i32;
                let py = (y as i64 - metadata.origin.y as i64) as i32;
                proof {
                    assert(pixels@[i as int].0 - metadata.origin@.0 == x as i64 - metadata.origin.x
                        as i64);
                    assert(pixels@[i as int].1 - metadata.origin@.1 == y as i64 - metadata.origin.y
                        as i64);
                }
                data.insert(Point::new(px, py), Pixel::new(c));
            }
            proof {
                let tk = pixels@.take(i as int);
                let tk1 = pixels@.take(i as int + 1);
                assert(tk1.drop_last() =~= tk);
                assert(tk1.last() == pixels@[i as int]);
            }
            i += 1;
        }
        proof {
            assert(pixels@.take(n as int) =~= pixels@);
            assert(rotated_map(data@, Rotation::Up) =~= data@);
        }
        let current = data.copied();
        Sprite {
            dimensions: metadata.dimensions,
            origin: metadata.origin,
            original_sprite_data: data,
            sprite_data: current,
            rotation: Rotation::Up,
        }
    }

    /// The declared bounding box.
    pub fn dimensions(&self) -> (r: Dimensions)
        ensures
            r == self.spec_dimensions(),
    {
        self.dimensions
    }

    /// The pixel map of the current orientation.
    pub fn pixels(&self) -> (r: &PixelMap)
        ensures
            r@ == self@,
    {
        &self.sprite_data
    }

    /// The untouched pixel map the sprite was built from.
    pub fn original_pixels(&self) -> (r: &PixelMap)
        ensures
            r@ == self.original(),
    {
        &self.original_sprite_data
    }

    /// Turn the sprite to the absolute orientation `rotation`, recomputing
    /// the current pixel map from the original one: the result depends only
    /// on the original data and the target orientation, never on the
    /// orientation the sprite happened to be in before.
    pub fn rotate_sprite_around_origin(&mut self, rotation: Rotation)
        requires
            rotatable(old(self).original()),
        ensures
            final(self)@ == rotated_map(old(self).original(), rotation),
            final(self).original() == old(self).original(),
            final(self).orientation() == rotation,
            final(self).spec_dimensions() == old(self).spec_dimensions(),
    {
        let turned = self.original_sprite_data.rotated(rotation);
        let original = self.original_sprite_data.copied();
        *self = Sprite {
            dimensions: self.dimensions,
            origin: self.origin,
            original_sprite_data: original,
            sprite_data: turned,
            rotation,
        };
    }

    /// Where `point` sits relative to `new_origin`.
    pub fn relocate_point_around_origin(new_origin: Point, point: Point) -> (r: (i32, i32))
        requires
            i32::MIN <= point@.0 - new_origin@.0 <= i32::MAX,
            i32::MIN <= point@.1 - new_origin@.1 <= i32::MAX,
        ensures
            r.0 == point@.0 - new_origin@.0,
            r.1 == point@.1 - new_origin@.1,
    {
        let new_x: i32 = (point.x as i64 - new_origin.x as i64) as i32;
        let new_y: i32 = (point.y as i64 - new_origin.y as i64) as i32;
        (new_x, new_y)
    }

    /// The pixel map of the default sprite: an 8-by-8 white block.
    pub fn build_default_sprite() -> (r: PixelMap)
        ensures
            r@ == default_sprite_map(),
    {
        let mut pixels = PixelMap::empty();
        let mut y: usize = 0;
        while y < 8
            invariant
                0 <= y <= 8,
                pixels@ =~= Map::new(
                    |p: (int, int)| 0 <= p.0 < 8 && 0 <= p.1 < y,
                    |p: (int, int)| Pixel { color: Color { r: 255, g: 255, b: 255, a: 255 } },
                ),
            decreases 8 - y,
        {
            let mut x: usize = 0;
            while x < 8
                invariant
                    0 <= y < 8,
                    0 <= x <= 8,
                    pixels@ =~= Map::new(
                        |p: (int, int)| (0 <= p.0 < 8 && 0 <= p.1 < y) || (0 <= p.0 < x && p.1
                            == y),
                        |p: (int, int)| Pixel { color: Color { r: 255, g: 255, b: 255, a: 255 } },
                    ),
                decreases 8 - x,
            {
                pixels.insert(
                    Point::new(x as i32, y as i32),
                    Pixel::new(Color::white()),
                );
                x += 1;
            }
            y += 1;
        }
        proof {
            assert(pixels@ =~= default_sprite_map());
        }
        pixels
    }
}

impl Default for Sprite {
    fn default() -> (r: Self)
        ensures
            r@ == default_sprite_map(),
            r.original() == default_sprite_map(),
            r.orientation() == Rotation::Up,
            r.spec_dimensions() == (Dimensions { width: 7, height: 7 }),
    {
        let r = Sprite::new(Sprite::build_default_sprite());
        proof {
            let (xmin, xmax, ymin, ymax) = choose|xmin: int, xmax: int, ymin: int, ymax: int|
                bounds_ok(default_sprite_map(), xmin, xmax, ymin, ymax)
                    && r.spec_dimensions().width == xmax - xmin && r.spec_dimensions().height
                    == ymax - ymin;
            lemma_default_sprite_bounds(xmin, xmax, ymin, ymax);
        }
        r
    }
}

/// The default sprite's bounding scan is pinned: its span is exactly 7 by 7.
pub proof fn lemma_default_sprite_bounds(xmin: int, xmax: int, ymin: int, ymax: int)
    requires
        bounds_ok(default_sprite_map(), xmin, xmax, ymin, ymax),
    ensures
        xmin == 0 && xmax == 7 && ymin == 0 && ymax == 7,
{
    assert(default_sprite_map().dom().contains((7, 7)));
    assert(default_sprite_map().dom().contains((0, 0)));
    if xmin != 0 {
        let p = choose|p: (int, int)| #[trigger]
            default_sprite_map().dom().contains(p) && p.0 == xmin;
        assert(false);
    }
    if ymin != 0 {
        let p = choose|p: (int, int)| #[trigger]
            default_sprite_map().dom().contains(p) && p.1 == ymin;
        assert(false);
    }
    if xmax != 7 {
        let p = choose|p: (int, int)| #[trigger]
            default_sprite_map().dom().contains(p) && p.0 == xmax;
        assert(false);
    }
    if ymax != 7 {
        let p = choose|p: (int, int)| #[trigger]
            default_sprite_map().dom().contains(p) && p.1 == ymax;
        assert(false);
    }
}

/// Turning a pixel map to the identity orientation leaves it untouched; with
/// rotation always re-derived from the original data, turning a sprite to
/// any orientation and then back to the identity one therefore restores the
/// original pixel map exactly.
pub proof fn lemma_rotate_identity(m: Map<(int, int), Pixel>)
    ensures
        rotated_map(m, Rotation::Up) == m,
{
    assert(rotated_map(m, Rotation::Up) =~= m);
}

/// Turning a pixel map to an orientation and then turning the result by the
/// inverse orientation restores the map exactly: the closed-form transforms
/// are exact inverses, with no drift.
pub proof fn lemma_rotation_round_trip(m: Map<(int, int), Pixel>, r: Rotation)
    ensures
        rotated_map(rotated_map(m, r), inverse_rotation(r)) == m,
{
    let m1 = rotated_map(m, r);
    let m2 = rotated_map(m1, inverse_rotation(r));
    assert forall|p: (int, int)| #[trigger] m2.dom().contains(p) <==> m.dom().contains(p) by {
        assert(rotate_point(inverse_rotation(r), rotate_point(r, p)) == p);
        assert(rotate_point(r, rotate_point(inverse_rotation(r), p)) == p);
        assert(inverse_rotation(inverse_rotation(r)) == r);
    }
    assert forall|p: (int, int)| #[trigger]
        m2.dom().contains(p) && m.dom().contains(p) implies m2[p] == m[p] by {
        assert(rotate_point(inverse_rotation(r), rotate_point(r, p)) == p);
        assert(inverse_rotation(inverse_rotation(r)) == r);
    }
    assert(m2 =~= m);
}

} // verus!
