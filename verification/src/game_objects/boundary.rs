use vstd::prelude::*;

verus! {

use crate::game_objects::spatial::{spatial_consistent, SpatialView};
use crate::game_util::calc_effective_sprite_pixels;
use crate::structs::game_object_type::GameObjectType;
use crate::structs::pixel::{Color, Pixel, Point};
use crate::structs::pixel_map::{
    bounds_ok, translatable, translated_map, PixelMap, PointSet,
};
use crate::structs::sprite::{Dimensions, Sprite};

/// How many pixels thick the arena wall is.
pub const BOUNDARY_WIDTH: u32 = 5;

/// `p` lies on the wall band of an arena `w` pixels wide and `h` pixels
/// high: inside the arena and within `BOUNDARY_WIDTH` pixels of an edge.
pub open spec fn in_band(p: (int, int), w: int, h: int) -> bool {
    &&& 0 <= p.0 < w
    &&& 0 <= p.1 < h
    &&& (p.0 < BOUNDARY_WIDTH || p.0 >= w - BOUNDARY_WIDTH || p.1 < BOUNDARY_WIDTH || p.1 >= h
        - BOUNDARY_WIDTH)
}

/// The pixel map of the arena wall: a white band along all four edges.
pub open spec fn boundary_map(w: int, h: int) -> Map<(int, int), Pixel> {
    Map::new(
        |p: (int, int)| in_band(p, w, h),
        |p: (int, int)| Pixel { color: Color { r: 255, g: 255, b: 255, a: 255 } },
    )
}

/// The static wall entity bounding the arena; it never moves and is used
/// only for collision.
#[derive(Debug)]
pub struct Boundary {
    id: u32,
    origin: Point,
    sprite: Sprite,
    effective_sprite_pixels: PixelMap,
    effective_sprite_points: PointSet,
}

/// The mathematical state of the wall.
#[verifier::ext_equal]
pub struct BoundaryView {
    pub id: u32,
    pub spatial: SpatialView,
}

impl View for Boundary {
    type V = BoundaryView;

    closed spec fn view(&self) -> BoundaryView {
        BoundaryView {
            id: self.id,
            spatial: SpatialView {
                origin: self.origin@,
                sprite_original: self.sprite.original(),
                sprite: self.sprite@,
                orientation: self.sprite.orientation(),
                dimensions: self.sprite.spec_dimensions(),
                effective_pixels: self.effective_sprite_pixels@,
                effective_points: self.effective_sprite_points@,
            },
        }
    }
}

/// The wall's bounding scan is pinned: its span is the whole arena.
proof fn lemma_boundary_bounds(w: int, h: int, xmin: int, xmax: int, ymin: int, ymax: int)
    requires
        10 <= w,
        10 <= h,
        bounds_ok(boundary_map(w, h), xmin, xmax, ymin, ymax),
    ensures
        xmin == 0 && xmax == w - 1 && ymin == 0 && ymax == h - 1,
{
    assert(boundary_map(w, h).dom().contains((0, 0)));
    assert(boundary_map(w, h).dom().contains((w - 1, h - 1)));
    if xmin != 0 {
        let p = choose|p: (int, int)| #[trigger]
            boundary_map(w, h).dom().contains(p) && p.0 == xmin;
        assert(false);
    }
    if ymin != 0 {
        let p = choose|p: (int, int)| #[trigger]
            boundary_map(w, h).dom().contains(p) && p.1 == ymin;
        assert(false);
    }
    if xmax != w - 1 {
        let p = choose|p: (int, int)| #[trigger]
            boundary_map(w, h).dom().contains(p) && p.0 == xmax;
        assert(false);
    }
    if ymax != h - 1 {
        let p = choose|p: (int, int)| #[trigger]
            boundary_map(w, h).dom().contains(p) && p.1 == ymax;
        assert(false);
    }
}

impl Boundary {
    /// The wall's derived state agrees with its origin and sprite.
    pub open spec fn wf(self) -> bool {
        spatial_consistent(self@.spatial)
    }

    /// The state of a freshly built wall for an arena of the given size.
    pub open spec fn spec_initial(map_width: u32, map_height: u32) -> BoundaryView {
        BoundaryView {
            id: 0,
            spatial: SpatialView {
                origin: (0, 0),
                sprite_original: boundary_map(map_width as int, map_height as int),
                sprite: boundary_map(map_width as int, map_height as int),
                orientation: crate::structs::movement::Rotation::Up,
                dimensions: Dimensions {
                    width: (map_width - 1) as u32,
                    height: (map_height - 1) as u32,
                },
                effective_pixels: boundary_map(map_width as int, map_height as int),
                effective_points: boundary_map(map_width as int, map_height as int).dom(),
            },
        }
    }

    /// Build the wall for an arena of the given size. It is anchored at
    /// (0, 0), so its world-space pixels are its local ones.
    pub fn new(map_width: u32, map_height: u32) -> (r: Boundary)
        requires
            10 <= map_width <= i32::MAX,
            10 <= map_height <= i32::MAX,
        ensures
            r@ == Boundary::spec_initial(map_width, map_height),
            r.wf(),
    {
        let origin = Point::new(0, 0);
        let shape = Boundary::get_boundary_shape(map_width, map_height);
        let sprite = Sprite::new(shape);
        let ghost bm = boundary_map(map_width as int, map_height as int);
        proof {
            let (xmin, xmax, ymin, ymax) = choose|xmin: int, xmax: int, ymin: int, ymax: int|
                bounds_ok(bm, xmin, xmax, ymin, ymax) && sprite.spec_dimensions().width == xmax
                    - xmin && sprite.spec_dimensions().height == ymax - ymin;
            lemma_boundary_bounds(map_width as int, map_height as int, xmin, xmax, ymin, ymax);
            assert forall|p: (int, int)| #[trigger]
                bm.dom().contains(p) implies i32::MIN <= p.0 + 0 <= i32::MAX && i32::MIN <= p.1 + 0
                <= i32::MAX by {}
            crate::structs::sprite::lemma_rotate_identity(bm);
        }
        let (effective_sprite_pixels, effective_sprite_points) = calc_effective_sprite_pixels(
            &sprite,
            origin,
        );
        proof {
            assert(translated_map(bm, (0, 0)) =~= bm);
        }
        Boundary { id: 0, origin, sprite, effective_sprite_pixels, effective_sprite_points }
    }

    /// The local pixel map of the wall band for an arena of the given size,
    /// scanning the whole grid and keeping the points near an edge.
    pub fn get_boundary_shape(map_width: u32, map_height: u32) -> (r: PixelMap)
        requires
            10 <= map_width <= i32::MAX,
            10 <= map_height <= i32::MAX,
        ensures
            r@ == boundary_map(map_width as int, map_height as int),
    {
        let w = map_width;
        let h = map_height;
        let mut pixels = PixelMap::empty();
        let mut y: u32 = 0;
        while y < h
            invariant
                10 <= w <= i32::MAX,
                10 <= h <= i32::MAX,
                0 <= y <= h,
                pixels@ =~= Map::new(
                    |p: (int, int)| in_band(p, w as int, h as int) && p.1 < y,
                    |p: (int, int)| Pixel { color: Color { r: 255, g: 255, b: 255, a: 255 } },
                ),
            decreases h - y,
        {
            let mut x: u32 = 0;
            while x < w
                invariant
                    10 <= w <= i32::MAX,
                    10 <= h <= i32::MAX,
                    0 <= y < h,
                    0 <= x <= w,
                    pixels@ =~= Map::new(
                        |p: (int, int)| in_band(p, w as int, h as int) && (p.1 < y || (p.1 == y
                            && p.0 < x)),
                        |p: (int, int)| Pixel { color: Color { r: 255, g: 255, b: 255, a: 255 } },
                    ),
                decreases w - x,
            {
                if x < BOUNDARY_WIDTH || x >= w - BOUNDARY_WIDTH || y < BOUNDARY_WIDTH || y >= h
                    - BOUNDARY_WIDTH {
                    pixels.insert(Point::new(x as i32, y as i32), Pixel::new(Color::white()));
                }
                x += 1;
            }
            y += 1;
        }
        proof {
            assert(pixels@ =~= boundary_map(map_width as int, map_height as int));
        }
        pixels
    }

    /// The kind tag of this entity.
    pub fn game_object_type(&self) -> (r: GameObjectType)
        ensures
            r == GameObjectType::Boundary,
    {
        GameObjectType::Boundary
    }

    /// The id; there is one wall per engine.
    pub fn id(&self) -> (r: u32)
        ensures
            r == self@.id,
    {
        self.id
    }

    /// The kind tag and id together.
    pub fn identity(&self) -> (r: (GameObjectType, u32))
        ensures
            r == (GameObjectType::Boundary, self@.id),
    {
        (self.game_object_type(), self.id())
    }

    /// The world-space anchor; the wall stays at (0, 0).
    pub fn origin(&self) -> (r: Point)
        ensures
            r@ == self@.spatial.origin,
    {
        self.origin
    }

    /// Move the wall, recomputing the derived state. The engine never calls
    /// this; the wall is static.
    pub fn set_origin(&mut self, new_origin: Point)
        requires
            translatable(old(self)@.spatial.sprite, new_origin@),
        ensures
            final(self)@ == (BoundaryView {
                spatial: SpatialView {
                    origin: new_origin@,
                    effective_pixels: translated_map(old(self)@.spatial.sprite, new_origin@),
                    effective_points: translated_map(
                        old(self)@.spatial.sprite,
                        new_origin@,
                    ).dom(),
                    ..old(self)@.spatial
                },
                ..old(self)@
            }),
            old(self).wf() ==> final(self).wf(),
    {
        let (effective_sprite_pixels, effective_sprite_points) = calc_effective_sprite_pixels(
            &self.sprite,
            new_origin,
        );
        self.origin = new_origin;
        self.effective_sprite_pixels = effective_sprite_pixels;
        self.effective_sprite_points = effective_sprite_points;
    }

    /// The sprite.
    pub fn sprite(&self) -> (r: &Sprite)
        ensures
            r@ == self@.spatial.sprite,
            r.original() == self@.spatial.sprite_original,
            r.orientation() == self@.spatial.orientation,
            r.spec_dimensions() == self@.spatial.dimensions,
    {
        &self.sprite
    }

    /// The sprite's declared bounding box.
    pub fn sprite_dimensions(&self) -> (r: Dimensions)
        ensures
            r == self@.spatial.dimensions,
    {
        self.sprite.dimensions()
    }

    /// The world-space pixels, as of the last recomputation.
    pub fn effective_pixels(&self) -> (r: &PixelMap)
        ensures
            r@ == self@.spatial.effective_pixels,
    {
        &self.effective_sprite_pixels
    }

    /// The world-space points, as of the last recomputation.
    pub fn effective_points(&self) -> (r: &PointSet)
        ensures
            r@ == self@.spatial.effective_points,
    {
        &self.effective_sprite_points
    }
}

} // verus!
