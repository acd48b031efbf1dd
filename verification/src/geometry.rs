//! Plain integer geometry for the drawing surface: coordinates, extents and
//! axis-aligned rectangles, together with the clipping operations the canvas
//! needs (containment, intersection, the inclusive bottom-right corner, and
//! the row-major enumeration of a rectangle's pixels).

use vstd::prelude::*;
use vstd::arithmetic::div_mod::{lemma_fundamental_div_mod, lemma_mod_bound};
use vstd::math::{max, min};

verus! {

/// A pixel coordinate in the canvas's or the panel's coordinate space.
#[derive(Clone, Copy, Debug, PartialEq, Eq, Structural)]
pub struct Point {
    pub x: i32,
    pub y: i32,
}

impl Point {
    pub fn new(x: i32, y: i32) -> (p: Point)
        ensures
            p == (Point { x, y }),
    {
        Point { x, y }
    }
}

/// The extent of a rectangular region, in pixels.
#[derive(Clone, Copy, Debug, PartialEq, Eq, Structural)]
pub struct Size {
    pub width: u32,
    pub height: u32,
}

impl Size {
    pub fn new(width: u32, height: u32) -> (s: Size)
        ensures
            s == (Size { width, height }),
    {
        Size { width, height }
    }

    /// The number of pixels a region of this extent covers.
    pub open spec fn area(self) -> nat {
        (self.width * self.height) as nat
    }
}

/// An axis-aligned rectangle: a top-left corner and an extent.
#[derive(Clone, Copy, Debug, PartialEq, Eq, Structural)]
pub struct Rectangle {
    pub top_left: Point,
    pub size: Size,
}

impl Rectangle {
    pub fn new(top_left: Point, size: Size) -> (r: Rectangle)
        ensures
            r == (Rectangle { top_left, size }),
    {
        Rectangle { top_left, size }
    }

    pub open spec fn spec_zero() -> Rectangle {
        Rectangle { top_left: Point { x: 0, y: 0 }, size: Size { width: 0, height: 0 } }
    }

    /// The rectangle with no extent, anchored at the origin.
    pub fn zero() -> (r: Rectangle)
        ensures
            r == Self::spec_zero(),
    {
        Rectangle { top_left: Point { x: 0, y: 0 }, size: Size { width: 0, height: 0 } }
    }

    /// True when the rectangle covers no pixels.
    pub open spec fn is_degenerate(self) -> bool {
        self.size.width == 0 || self.size.height == 0
    }

    /// One past the right edge, as an unbounded integer.
    pub open spec fn x_end(self) -> int {
        self.top_left.x + self.size.width
    }

    /// One past the bottom edge, as an unbounded integer.
    pub open spec fn y_end(self) -> int {
        self.top_left.y + self.size.height
    }

    /// Whether `p` lies inside the rectangle.
    pub open spec fn spec_contains(self, p: Point) -> bool {
        &&& self.top_left.x <= p.x < self.x_end()
        &&& self.top_left.y <= p.y < self.y_end()
    }

    pub fn contains(&self, p: Point) -> (r: bool)
        ensures
            r == self.spec_contains(p),
    {
        let x: i64 = p.x as i64;
        let y: i64 = p.y as i64;
        let left: i64 = self.top_left.x as i64;
        let top: i64 = self.top_left.y as i64;
        left <= x && x < left + self.size.width as i64 && top <= y && y < top
            + self.size.height as i64
    }

    /// The inclusive bottom-right corner; `None` when the rectangle is degenerate.
    pub open spec fn spec_bottom_right(self) -> Option<Point> {
        if self.is_degenerate() {
            None
        } else {
            Some(Point { x: (self.x_end() - 1) as i32, y: (self.y_end() - 1) as i32 })
        }
    }

    pub fn bottom_right(&self) -> (r: Option<Point>)
        requires
            !self.is_degenerate() ==> self.x_end() - 1 <= i32::MAX && self.y_end() - 1 <= i32::MAX,
        ensures
            r == self.spec_bottom_right(),
    {
        if self.size.width > 0 && self.size.height > 0 {
            let bx: i64 = self.top_left.x as i64 + self.size.width as i64 - 1;
            let by: i64 = self.top_left.y as i64 + self.size.height as i64 - 1;
            Some(Point { x: bx as i32, y: by as i32 })
        } else {
            None
        }
    }

    /// Whether two rectangles share at least one pixel.
    pub open spec fn spec_overlaps(self, other: Rectangle) -> bool {
        &&& !self.is_degenerate()
        &&& !other.is_degenerate()
        &&& max(self.top_left.x as int, other.top_left.x as int) < min(
            self.x_end(),
            other.x_end(),
        )
        &&& max(self.top_left.y as int, other.top_left.y as int) < min(
            self.y_end(),
            other.y_end(),
        )
    }

    /// Intersection under the drawing layer's convention: overlapping
    /// rectangles meet in the usual way; a degenerate rectangle whose anchor
    /// lies inside the other rectangle is returned unchanged; every other
    /// pair gives the zero rectangle.
    pub open spec fn spec_intersection(self, other: Rectangle) -> Rectangle {
        if self.spec_overlaps(other) {
            Rectangle {
                top_left: Point {
                    x: max(self.top_left.x as int, other.top_left.x as int) as i32,
                    y: max(self.top_left.y as int, other.top_left.y as int) as i32,
                },
                size: Size {
                    width: (min(self.x_end(), other.x_end()) - max(
                        self.top_left.x as int,
                        other.top_left.x as int,
                    )) as u32,
                    height: (min(self.y_end(), other.y_end()) - max(
                        self.top_left.y as int,
                        other.top_left.y as int,
                    )) as u32,
                },
            }
        } else if self.is_degenerate() && !other.is_degenerate() && other.spec_contains(
            self.top_left,
        ) {
            self
        } else if !self.is_degenerate() && other.is_degenerate() && self.spec_contains(
            other.top_left,
        ) {
            other
        } else {
            Self::spec_zero()
        }
    }

    pub fn intersection(&self, other: &Rectangle) -> (r: Rectangle)
        ensures
            r == self.spec_intersection(*other),
    {
        let self_empty: bool = self.size.width == 0 || self.size.height == 0;
        let other_empty: bool = other.size.width == 0 || other.size.height == 0;
        if !self_empty && !other_empty {
            let tlx: i64 = if self.top_left.x >= other.top_left.x {
                self.top_left.x as i64
            } else {
                other.top_left.x as i64
            };
            let tly: i64 = if self.top_left.y >= other.top_left.y {
                self.top_left.y as i64
            } else {
                other.top_left.y as i64
            };
            let self_end_x: i64 = self.top_left.x as i64 + self.size.width as i64;
            let other_end_x: i64 = other.top_left.x as i64 + other.size.width as i64;
            let self_end_y: i64 = self.top_left.y as i64 + self.size.height as i64;
            let other_end_y: i64 = other.top_left.y as i64 + other.size.height as i64;
            let end_x: i64 = if self_end_x <= other_end_x {
                self_end_x
            } else {
                other_end_x
            };
            let end_y: i64 = if self_end_y <= other_end_y {
                self_end_y
            } else {
                other_end_y
            };
            if tlx < end_x && tly < end_y {
                Rectangle {
                    top_left: Point { x: tlx as i32, y: tly as i32 },
                    size: Size { width: (end_x - tlx) as u32, height: (end_y - tly) as u32 },
                }
            } else {
                Rectangle::zero()
            }
        } else if self_empty && !other_empty {
            if other.contains(self.top_left) {
                *self
            } else {
                Rectangle::zero()
            }
        } else if !self_empty && other_empty {
            if self.contains(other.top_left) {
                *other
            } else {
                Rectangle::zero()
            }
        } else {
            Rectangle::zero()
        }
    }

    /// The pixels of the rectangle in row-major scan order: left to right
    /// within a row, rows from top to bottom.
    pub open spec fn points_row_major(self) -> Seq<Point> {
        Seq::new(
            self.size.area(),
            |i: int|
                Point {
                    x: (self.top_left.x + (i % self.size.width as int)) as i32,
                    y: (self.top_left.y + (i / self.size.width as int)) as i32,
                },
        )
    }
}

/// A pixel is inside the intersection of two rectangles exactly when it is
/// inside both.
pub proof fn lemma_intersection_contains(a: Rectangle, b: Rectangle, p: Point)
    ensures
        a.spec_intersection(b).spec_contains(p) <==> (a.spec_contains(p) && b.spec_contains(p)),
{
}

/// Every entry of the row-major enumeration lies inside its rectangle,
/// provided the rectangle's right and bottom edges stay representable.
pub proof fn lemma_points_row_major_in_rect(r: Rectangle, i: int)
    requires
        0 <= i < r.points_row_major().len(),
        r.x_end() <= i32::MAX + 1,
        r.y_end() <= i32::MAX + 1,
    ensures
        r.spec_contains(r.points_row_major()[i]),
{
    let w = r.size.width as int;
    let h = r.size.height as int;
    assert(w > 0 && h > 0) by (nonlinear_arith)
        requires
            0 <= i < w * h,
            w >= 0,
            h >= 0,
    ;
    lemma_fundamental_div_mod(i, w);
    lemma_mod_bound(i, w);
    let q = i / w;
    let m = i % w;
    assert(0 <= q < h) by (nonlinear_arith)
        requires
            0 <= i < w * h,
            w > 0,
            h > 0,
            0 <= m < w,
            i == w * q + m,
    ;
}

} // verus!
