use vstd::prelude::*;

verus! {

/// A point of a two-dimensional integer coordinate space.
#[derive(Clone, Copy, Debug, PartialEq, Eq, Structural)]
pub struct Point {
    pub x: i32,
    pub y: i32,
}

/// A width and a height.
#[derive(Clone, Copy, Debug, PartialEq, Eq, Structural)]
pub struct Size {
    pub w: i32,
    pub h: i32,
}

/// An axis-aligned rectangle: its top-left corner and its size.
#[derive(Clone, Copy, Debug, PartialEq, Eq, Structural)]
pub struct Rectangle {
    pub loc: Point,
    pub size: Size,
}

impl Point {
    pub fn new(x: i32, y: i32) -> (r: Point)
        ensures
            r == (Point { x, y }),
    {
        Point { x, y }
    }
}

impl Rectangle {
    pub open spec fn spec_from(x: i32, y: i32, w: i32, h: i32) -> Rectangle {
        Rectangle { loc: Point { x, y }, size: Size { w, h } }
    }

    pub fn from_loc_and_size(x: i32, y: i32, w: i32, h: i32) -> (r: Rectangle)
        ensures
            r == Rectangle::spec_from(x, y, w, h),
    {
        Rectangle { loc: Point { x, y }, size: Size { w, h } }
    }

    /// The rectangle at the origin with no extent.
    pub fn zero() -> (r: Rectangle)
        ensures
            r == Rectangle::spec_from(0, 0, 0, 0),
    {
        Rectangle::from_loc_and_size(0, 0, 0, 0)
    }
}

} // verus!
