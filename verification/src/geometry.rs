//! Points, sizes and rectangles in logical pixels.
use vstd::prelude::*;

verus! {

#[derive(Debug, Clone, Copy, PartialEq, Eq, Structural)]
pub struct Point {
    pub x: i32,
    pub y: i32,
}

#[derive(Debug, Clone, Copy, PartialEq, Eq, Structural)]
pub struct Size {
    pub w: i32,
    pub h: i32,
}

#[derive(Debug, Clone, Copy, PartialEq, Eq, Structural)]
pub struct Rectangle {
    pub loc: Point,
    pub size: Size,
}

/// The number held between the bounds of a 32-bit coordinate.
pub open spec fn sat(x: int) -> int {
    if x < i32::MIN {
        i32::MIN as int
    } else if x > i32::MAX {
        i32::MAX as int
    } else {
        x
    }
}

pub open spec fn at_least(x: int, low: int) -> int {
    if x < low {
        low
    } else {
        x
    }
}

pub open spec fn at_most(x: int, high: int) -> int {
    if x > high {
        high
    } else {
        x
    }
}

/// Rust's division of signed numbers, which rounds towards zero, by a positive one.
pub open spec fn quotient(a: int, b: int) -> int {
    if a >= 0 {
        a / b
    } else {
        -((-a) / b)
    }
}

pub fn sat_i64(x: i64) -> (r: i32)
    ensures
        r == sat(x as int),
{
    if x < -0x8000_0000 {
        i32::MIN
    } else if x > 0x7FFF_FFFF {
        i32::MAX
    } else {
        x as i32
    }
}

pub fn sat_i128(x: i128) -> (r: i32)
    ensures
        r == sat(x as int),
{
    if x < -0x8000_0000 {
        i32::MIN
    } else if x > 0x7FFF_FFFF {
        i32::MAX
    } else {
        x as i32
    }
}

pub fn max_i32(a: i32, b: i32) -> (r: i32)
    ensures
        r == at_least(a as int, b as int),
{
    if a < b {
        b
    } else {
        a
    }
}

pub fn min_i32(a: i32, b: i32) -> (r: i32)
    ensures
        r == at_most(a as int, b as int),
{
    if a > b {
        b
    } else {
        a
    }
}

pub open spec fn point(x: int, y: int) -> Point {
    Point { x: sat(x) as i32, y: sat(y) as i32 }
}

pub open spec fn rectangle(x: int, y: int, w: int, h: int) -> Rectangle {
    Rectangle {
        loc: Point { x: sat(x) as i32, y: sat(y) as i32 },
        size: Size { w: sat(w) as i32, h: sat(h) as i32 },
    }
}

/// A rectangle from wide coordinates, each held between the 32-bit bounds.
pub fn make_rectangle(x: i64, y: i64, w: i64, h: i64) -> (r: Rectangle)
    ensures
        r == rectangle(x as int, y as int, w as int, h as int),
{
    Rectangle {
        loc: Point { x: sat_i64(x), y: sat_i64(y) },
        size: Size { w: sat_i64(w), h: sat_i64(h) },
    }
}

pub fn make_point(x: i64, y: i64) -> (r: Point)
    ensures
        r == point(x as int, y as int),
{
    Point { x: sat_i64(x), y: sat_i64(y) }
}

impl Rectangle {
    /// Whether a point lies in the rectangle: the left and upper edges belong to
    /// it, the right and lower ones do not.
    pub open spec fn covers(self, p: Point) -> bool {
        &&& self.loc.x <= p.x < sat(self.loc.x + self.size.w)
        &&& self.loc.y <= p.y < sat(self.loc.y + self.size.h)
    }

    pub fn contains(&self, p: Point) -> (r: bool)
        ensures
            r == self.covers(p),
    {
        self.loc.x <= p.x && p.x < sat_i64(self.loc.x as i64 + self.size.w as i64) && self.loc.y
            <= p.y && p.y < sat_i64(self.loc.y as i64 + self.size.h as i64)
    }
}

} // verus!
