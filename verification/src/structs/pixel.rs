use vstd::prelude::*;

verus! {

/// An integer point, used both for local sprite-space coordinates and for
/// world-space coordinates; the two roles differ only in which origin the
/// point is offset from.
#[derive(Debug, Copy, Clone, Eq, PartialEq, Hash, Structural)]
pub struct Point {
    pub x: i32,
    pub y: i32,
}

/// A single "on" pixel of a sprite; its location is the key of the map that
/// holds it.
#[derive(Debug, Copy, Clone, Eq, PartialEq, Structural)]
pub struct Pixel {
    pub color: Color,
}

/// A four-channel color value.
#[derive(Debug, Copy, Clone, PartialEq, Eq, Structural)]
pub struct Color {
    pub r: u8,
    pub g: u8,
    pub b: u8,
    pub a: u8,
}

impl View for Point {
    type V = (int, int);

    open spec fn view(&self) -> (int, int) {
        (self.x as int, self.y as int)
    }
}

impl Point {
    pub fn new(x: i32, y: i32) -> (r: Point)
        ensures
            r.x == x,
            r.y == y,
    {
        Point { x, y }
    }
}

impl Default for Point {
    fn default() -> (r: Self)
        ensures
            r.x == 0,
            r.y == 0,
    {
        Point::new(0, 0)
    }
}

impl Pixel {
    pub fn new(color: Color) -> (r: Self)
        ensures
            r.color == color,
    {
        Pixel { color }
    }
}

impl Color {
    #[allow(non_snake_case)]
    pub fn RGB(r: u8, g: u8, b: u8) -> (c: Self)
        ensures
            c == (Color { r, g, b, a: 255 }),
    {
        Color { r, g, b, a: 255 }
    }

    #[allow(non_snake_case)]
    pub fn RGBA(r: u8, g: u8, b: u8, a: u8) -> (c: Self)
        ensures
            c == (Color { r, g, b, a }),
    {
        Color { r, g, b, a }
    }

    /// The color of the boundary band and of the default sprite.
    pub fn white() -> (c: Self)
        ensures
            c == (Color { r: 255, g: 255, b: 255, a: 255 }),
    {
        Color::RGB(255, 255, 255)
    }
}

} // verus!
