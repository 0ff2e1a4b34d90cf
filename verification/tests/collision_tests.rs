use poly_battle::game_util::{calc_effective_sprite_pixels, has_collided};
use poly_battle::structs::pixel::{Color, Pixel, Point};
use poly_battle::structs::pixel_map::{PixelMap, PointSet};
use poly_battle::structs::sprite::Sprite;

fn point_set(points: &[(i32, i32)]) -> PointSet {
    let mut set = PointSet::empty();
    for (x, y) in points {
        set.insert(Point::new(*x, *y));
    }
    set
}

#[test]
fn effective_projection_of_single_pixel() {
    // A sprite with one local pixel at (2, 3) anchored at (10, 20) covers
    // exactly the world point (12, 23).
    let mut pixels = PixelMap::empty();
    pixels.insert(Point::new(2, 3), Pixel::new(Color::white()));
    let sprite = Sprite::new(pixels);
    let (effective_pixels, effective_points) =
        calc_effective_sprite_pixels(&sprite, Point::new(10, 20));
    assert_eq!(effective_points.len(), 1);
    assert!(effective_points.contains(Point::new(12, 23)));
    assert!(!effective_points.contains(Point::new(2, 3)));
    assert_eq!(
        effective_pixels.get(Point::new(12, 23)),
        Some(Pixel::new(Color::white()))
    );
}

#[test]
fn collision_with_shared_point() {
    let a = point_set(&[(5, 5), (5, 6)]);
    let b = point_set(&[(5, 6), (5, 7)]);
    assert!(has_collided(&a, &b));
}

#[test]
fn no_collision_without_shared_point() {
    let a = point_set(&[(5, 5), (5, 6)]);
    let b = point_set(&[(6, 5), (6, 6)]);
    assert!(!has_collided(&a, &b));
}

#[test]
fn collision_is_symmetric() {
    let sets = [
        (vec![(0, 0)], vec![(0, 0), (1, 1)]),
        (vec![(0, 0), (2, 2)], vec![(1, 1)]),
        (vec![], vec![(1, 1)]),
        (vec![(3, 4), (5, 6), (7, 8)], vec![(5, 6)]),
    ];
    for (left, right) in sets {
        let a = point_set(&left);
        let b = point_set(&right);
        assert_eq!(has_collided(&a, &b), has_collided(&b, &a));
    }
}

#[test]
fn empty_sets_never_collide() {
    let a = point_set(&[]);
    let b = point_set(&[]);
    assert!(!has_collided(&a, &b));
    let c = point_set(&[(1, 2)]);
    assert!(!has_collided(&a, &c));
    assert!(!has_collided(&c, &a));
}

#[test]
fn point_set_deduplicates() {
    let mut set = PointSet::empty();
    set.insert(Point::new(1, 1));
    set.insert(Point::new(1, 1));
    set.insert(Point::new(2, 1));
    assert_eq!(set.len(), 2);
    assert!(set.contains(Point::new(1, 1)));
    assert!(set.contains(Point::new(2, 1)));
    assert!(!set.contains(Point::new(1, 2)));
}

#[test]
fn effective_projection_with_negative_coordinates() {
    let mut pixels = PixelMap::empty();
    pixels.insert(Point::new(-1, -2), Pixel::new(Color::white()));
    pixels.insert(Point::new(0, 0), Pixel::new(Color::white()));
    let sprite = Sprite::new(pixels);
    let (_, effective_points) = calc_effective_sprite_pixels(&sprite, Point::new(5, 5));
    assert_eq!(effective_points.len(), 2);
    assert!(effective_points.contains(Point::new(4, 3)));
    assert!(effective_points.contains(Point::new(5, 5)));
}
