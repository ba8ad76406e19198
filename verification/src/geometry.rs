//! Integer geometry in logical compositor coordinates.

use vstd::prelude::*;

verus! {

/// A point in logical coordinates.
#[derive(Clone, Copy, Debug, PartialEq, Eq, Structural)]
pub struct Point {
    pub x: i32,
    pub y: i32,
}

/// A size in logical coordinates.
#[derive(Clone, Copy, Debug, PartialEq, Eq, Structural)]
pub struct Size {
    pub w: i32,
    pub h: i32,
}

/// A rectangle given by its top-left corner and its size.
#[derive(Clone, Copy, Debug, PartialEq, Eq, Structural)]
pub struct Rectangle {
    pub loc: Point,
    pub size: Size,
}

/// `a + b` saturated to the range of `i32`.
pub open spec fn sat_add(a: int, b: int) -> int {
    let s = a + b;
    if s > i32::MAX {
        i32::MAX as int
    } else if s < i32::MIN {
        i32::MIN as int
    } else {
        s
    }
}

/// `a + b`, saturated to the range of `i32`.
pub fn saturating_add(a: i32, b: i32) -> (r: i32)
    ensures
        r == sat_add(a as int, b as int),
{
    let s: i64 = a as i64 + b as i64;
    if s > i32::MAX as i64 {
        i32::MAX
    } else if s < i32::MIN as i64 {
        i32::MIN
    } else {
        s as i32
    }
}

/// Integer division of `a` by a positive `b`, rounding towards zero as Rust does.
pub open spec fn tdiv(a: int, b: int) -> int
    recommends
        b > 0,
{
    if a >= 0 {
        a / b
    } else {
        -((-a) / b)
    }
}

/// `a / 2` as computed by Rust on integers.
pub fn half(a: i32) -> (r: i32)
    ensures
        r == tdiv(a as int, 2),
{
    if a >= 0 {
        a / 2
    } else {
        let n: i64 = -(a as i64);
        let q: i64 = n / 2;
        (-q) as i32
    }
}

/// `a / b` as computed by Rust on integers, for a positive divisor.
pub fn div_trunc(a: i32, b: i32) -> (r: i32)
    requires
        b > 0,
    ensures
        r == tdiv(a as int, b as int),
{
    if a >= 0 {
        a / b
    } else {
        let n: i64 = -(a as i64);
        let q: i64 = n / (b as i64);
        (-q) as i32
    }
}

impl Point {
    pub fn new(x: i32, y: i32) -> (p: Point)
        ensures
            p.x == x,
            p.y == y,
    {
        Point { x, y }
    }
}

impl Size {
    pub fn new(w: i32, h: i32) -> (s: Size)
        ensures
            s.w == w,
            s.h == h,
    {
        Size { w, h }
    }
}

impl Rectangle {
    /// Whether `p` lies in this rectangle: the left and top edges belong to it, the right and
    /// bottom ones do not.
    pub open spec fn spec_contains(self, p: Point) -> bool {
        &&& self.loc.x <= p.x
        &&& p.x < sat_add(self.loc.x as int, self.size.w as int)
        &&& self.loc.y <= p.y
        &&& p.y < sat_add(self.loc.y as int, self.size.h as int)
    }

    pub fn from_loc_and_size(loc: Point, size: Size) -> (r: Rectangle)
        ensures
            r.loc == loc,
            r.size == size,
    {
        Rectangle { loc, size }
    }

    /// Whether `p` lies in this rectangle.
    pub fn contains(&self, p: Point) -> (b: bool)
        ensures
            b == self.spec_contains(p),
    {
        p.x >= self.loc.x && p.x < saturating_add(self.loc.x, self.size.w) && p.y >= self.loc.y
            && p.y < saturating_add(self.loc.y, self.size.h)
    }
}

/// A rectangle of positive size whose far edges are in the range of `i32` holds its top-left
/// corner, and no point of the column just right of it or of the row just below it.
pub proof fn law_rectangle_holds_its_corner(r: Rectangle, p: Point)
    requires
        r.size.w > 0,
        r.size.h > 0,
        r.loc.x + r.size.w <= i32::MAX,
        r.loc.y + r.size.h <= i32::MAX,
    ensures
        r.spec_contains(r.loc),
        p.x == r.loc.x + r.size.w ==> !r.spec_contains(p),
        p.y == r.loc.y + r.size.h ==> !r.spec_contains(p),
{
}

} // verus!
