use vstd::prelude::*;

verus! {

/// An axis-aligned rectangle in whole units; `w` and `h` may be negative
/// when content does not fit its container.
#[derive(Debug, Clone, Copy, PartialEq, Eq, Structural)]
pub struct Rect {
    pub x: i64,
    pub y: i64,
    pub w: i64,
    pub h: i64,
}

/// A pointer position.
#[derive(Debug, Clone, Copy, PartialEq, Eq, Structural)]
pub struct Point {
    pub x: i64,
    pub y: i64,
}

/// An RGBA color, one byte per channel.
#[derive(Debug, Clone, Copy, PartialEq, Eq, Structural)]
pub struct Color {
    pub r: u8,
    pub g: u8,
    pub b: u8,
    pub a: u8,
}

impl Rect {
    pub fn new(x: i64, y: i64, w: i64, h: i64) -> (r: Rect)
        ensures
            r == (Rect { x, y, w, h }),
    {
        Rect { x, y, w, h }
    }

    /// Left and top edges are inside, right and bottom edges are not.
    pub open spec fn spec_contains(self, p: Point) -> bool {
        &&& self.x <= p.x
        &&& p.x < self.x + self.w
        &&& self.y <= p.y
        &&& p.y < self.y + self.h
    }

    pub fn contains(&self, p: Point) -> (r: bool)
        ensures
            r == self.spec_contains(p),
    {
        let right = self.x as i128 + self.w as i128;
        let bottom = self.y as i128 + self.h as i128;
        self.x <= p.x && (p.x as i128) < right && self.y <= p.y && (p.y as i128) < bottom
    }
}

} // verus!
