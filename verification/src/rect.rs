//! Axis-aligned rectangles on the panel's pixel grid, and the clipping of a
//! draw request to the visible area.

use vstd::prelude::*;

verus! {

/// A rectangle given by its top-left corner and its size, in pixels.
/// Zero width or height makes it empty.
#[derive(Debug, Clone, Copy, PartialEq, Eq, Structural)]
pub struct Rect {
    pub x: i32,
    pub y: i32,
    pub width: u32,
    pub height: u32,
}

impl Rect {
    /// The column one past the right edge.
    pub open spec fn right(self) -> int {
        self.x + self.width
    }

    /// The row one past the bottom edge.
    pub open spec fn bottom(self) -> int {
        self.y + self.height
    }

    /// Whether the pixel at column `px`, row `py` lies in this rectangle.
    pub open spec fn spec_contains(self, px: int, py: int) -> bool {
        self.x <= px < self.right() && self.y <= py < self.bottom()
    }

    /// Whether the rectangle covers no pixel at all.
    pub open spec fn spec_is_empty(self) -> bool {
        self.width == 0 || self.height == 0
    }

    /// How many pixels the rectangle covers.
    pub open spec fn pixel_count(self) -> nat {
        (self.width * self.height) as nat
    }

    /// Whether every pixel of `self` also lies in `outer`.  An empty
    /// rectangle lies inside everything.
    pub open spec fn inside(self, outer: Rect) -> bool {
        self.spec_is_empty() || {
            &&& outer.x <= self.x
            &&& outer.y <= self.y
            &&& self.right() <= outer.right()
            &&& self.bottom() <= outer.bottom()
        }
    }

    /// The rectangle that covers no pixel.
    pub open spec fn spec_zero() -> Rect {
        Rect { x: 0, y: 0, width: 0, height: 0 }
    }

    /// The overlap of two rectangles: the rectangle covering exactly the
    /// pixels covered by both, or the zero rectangle when they share none.
    pub open spec fn spec_intersection(a: Rect, b: Rect) -> Rect {
        let ix = if a.x >= b.x { a.x as int } else { b.x as int };
        let iy = if a.y >= b.y { a.y as int } else { b.y as int };
        let ir = if a.right() <= b.right() { a.right() } else { b.right() };
        let ib = if a.bottom() <= b.bottom() { a.bottom() } else { b.bottom() };
        if ix < ir && iy < ib {
            Rect { x: ix as i32, y: iy as i32, width: (ir - ix) as u32, height: (ib - iy) as u32 }
        } else {
            Rect::spec_zero()
        }
    }

    /// Whether the rectangle covers no pixel at all.
    pub fn is_empty(&self) -> (r: bool)
        ensures
            r == self.spec_is_empty(),
    {
        self.width == 0 || self.height == 0
    }

    /// The overlap of this rectangle with `other`.
    pub fn intersection(&self, other: &Rect) -> (r: Rect)
        ensures
            r == Rect::spec_intersection(*self, *other),
    {
        let ix: i32 = if self.x >= other.x { self.x } else { other.x };
        let iy: i32 = if self.y >= other.y { self.y } else { other.y };
        let a_right: i64 = self.x as i64 + self.width as i64;
        let b_right: i64 = other.x as i64 + other.width as i64;
        let a_bottom: i64 = self.y as i64 + self.height as i64;
        let b_bottom: i64 = other.y as i64 + other.height as i64;
        let ir: i64 = if a_right <= b_right { a_right } else { b_right };
        let ib: i64 = if a_bottom <= b_bottom { a_bottom } else { b_bottom };
        if (ix as i64) < ir && (iy as i64) < ib {
            Rect { x: ix, y: iy, width: (ir - ix as i64) as u32, height: (ib - iy as i64) as u32 }
        } else {
            Rect { x: 0, y: 0, width: 0, height: 0 }
        }
    }
}

/// The intersection covers exactly the pixels covered by both rectangles.
pub proof fn lemma_intersection_contains(a: Rect, b: Rect, px: int, py: int)
    ensures
        Rect::spec_intersection(a, b).spec_contains(px, py) <==> a.spec_contains(px, py)
            && b.spec_contains(px, py),
{
}

/// Clipping a rectangle that already lies inside the clip area leaves it
/// unchanged; in particular a draw request fully inside the panel is
/// transmitted as requested.
pub proof fn lemma_intersection_inside(a: Rect, b: Rect)
    requires
        a.inside(b),
        !a.spec_is_empty(),
    ensures
        Rect::spec_intersection(a, b) == a,
{
}

} // verus!
