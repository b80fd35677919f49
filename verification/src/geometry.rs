//! Points, offsets and rectangles in the display's coordinate space.
//!
//! Every coordinate the engine carries lies in `[-32767, 32767]`, so any
//! sum or difference of a handful of coordinates fits an `i32` with room
//! to spare.

use vstd::prelude::*;

verus! {

/// True of a coordinate the engine is willing to carry.
pub open spec fn coord_ok(c: int) -> bool {
    -32767 <= c <= 32767
}

/// A displacement in pixels.
#[derive(Clone, Copy, PartialEq, Eq, Structural, Debug)]
pub struct Offset {
    pub x: i32,
    pub y: i32,
}

/// An absolute position in pixels.
#[derive(Clone, Copy, PartialEq, Eq, Structural, Debug)]
pub struct Point {
    pub x: i32,
    pub y: i32,
}

/// An axis-aligned rectangle; `x0`/`y0` are inclusive, `x1`/`y1` exclusive.
#[derive(Clone, Copy, PartialEq, Eq, Structural, Debug)]
pub struct Rect {
    pub x0: i32,
    pub y0: i32,
    pub x1: i32,
    pub y1: i32,
}

impl Offset {
    pub open spec fn wf(self) -> bool {
        coord_ok(self.x as int) && coord_ok(self.y as int)
    }

    pub fn new(x: i32, y: i32) -> (r: Offset)
        ensures
            r == (Offset { x, y }),
    {
        Offset { x, y }
    }

    pub fn zero() -> (r: Offset)
        ensures
            r == (Offset { x: 0, y: 0 }),
    {
        Offset { x: 0, y: 0 }
    }

    pub fn neg(self) -> (r: Offset)
        requires
            self.wf(),
        ensures
            r.x == -self.x,
            r.y == -self.y,
    {
        Offset { x: -self.x, y: -self.y }
    }

    /// True when the componentwise sum stays in the coordinate space.
    pub open spec fn add_wf(self, other: Offset) -> bool {
        coord_ok(self.x + other.x) && coord_ok(self.y + other.y)
    }

    pub fn add(self, other: Offset) -> (r: Offset)
        requires
            self.wf(),
            other.wf(),
        ensures
            r.x == self.x + other.x,
            r.y == self.y + other.y,
    {
        Offset { x: self.x + other.x, y: self.y + other.y }
    }
}

impl Point {
    pub open spec fn wf(self) -> bool {
        coord_ok(self.x as int) && coord_ok(self.y as int)
    }

    pub fn new(x: i32, y: i32) -> (r: Point)
        ensures
            r == (Point { x, y }),
    {
        Point { x, y }
    }

    pub fn ofs(self, o: Offset) -> (r: Point)
        requires
            self.wf(),
            o.wf(),
        ensures
            r.x == self.x + o.x,
            r.y == self.y + o.y,
    {
        Point { x: self.x + o.x, y: self.y + o.y }
    }
}

impl Rect {
    pub open spec fn wf(self) -> bool {
        coord_ok(self.x0 as int) && coord_ok(self.y0 as int) && coord_ok(self.x1 as int)
            && coord_ok(self.y1 as int)
    }

    /// Signed width; negative only for denormalized (empty) rectangles.
    pub open spec fn spec_width(self) -> int {
        self.x1 - self.x0
    }

    pub open spec fn spec_height(self) -> int {
        self.y1 - self.y0
    }

    pub open spec fn spec_is_empty(self) -> bool {
        self.x1 <= self.x0 || self.y1 <= self.y0
    }

    /// True when the pixel at column `x`, row `y` lies inside.
    pub open spec fn contains(self, x: int, y: int) -> bool {
        self.x0 <= x < self.x1 && self.y0 <= y < self.y1
    }

    pub open spec fn spec_intersect(self, other: Rect) -> Rect {
        Rect {
            x0: if self.x0 >= other.x0 { self.x0 } else { other.x0 },
            y0: if self.y0 >= other.y0 { self.y0 } else { other.y0 },
            x1: if self.x1 <= other.x1 { self.x1 } else { other.x1 },
            y1: if self.y1 <= other.y1 { self.y1 } else { other.y1 },
        }
    }

    pub open spec fn spec_translate(self, o: Offset) -> Rect {
        Rect {
            x0: (self.x0 + o.x) as i32,
            y0: (self.y0 + o.y) as i32,
            x1: (self.x1 + o.x) as i32,
            y1: (self.y1 + o.y) as i32,
        }
    }

    pub fn new(x0: i32, y0: i32, x1: i32, y1: i32) -> (r: Rect)
        ensures
            r == (Rect { x0, y0, x1, y1 }),
    {
        Rect { x0, y0, x1, y1 }
    }

    pub fn from_top_left_and_size(p: Point, size: Offset) -> (r: Rect)
        requires
            p.wf(),
            size.wf(),
        ensures
            r.x0 == p.x,
            r.y0 == p.y,
            r.x1 == p.x + size.x,
            r.y1 == p.y + size.y,
    {
        Rect { x0: p.x, y0: p.y, x1: p.x + size.x, y1: p.y + size.y }
    }

    pub fn from_size(size: Offset) -> (r: Rect)
        requires
            size.wf(),
        ensures
            r == (Rect { x0: 0, y0: 0, x1: size.x, y1: size.y }),
    {
        Rect { x0: 0, y0: 0, x1: size.x, y1: size.y }
    }

    pub fn width(self) -> (w: i32)
        requires
            self.wf(),
        ensures
            w == self.spec_width(),
    {
        self.x1 - self.x0
    }

    pub fn height(self) -> (h: i32)
        requires
            self.wf(),
        ensures
            h == self.spec_height(),
    {
        self.y1 - self.y0
    }

    pub fn size(self) -> (s: Offset)
        requires
            self.wf(),
        ensures
            s.x == self.spec_width(),
            s.y == self.spec_height(),
    {
        Offset { x: self.x1 - self.x0, y: self.y1 - self.y0 }
    }

    pub fn top_left(self) -> (p: Point)
        ensures
            p.x == self.x0,
            p.y == self.y0,
    {
        Point { x: self.x0, y: self.y0 }
    }

    pub fn is_empty(self) -> (e: bool)
        ensures
            e == self.spec_is_empty(),
    {
        self.x1 <= self.x0 || self.y1 <= self.y0
    }

    /// The largest rectangle contained in both; the usual composition of
    /// clipping regions.
    pub fn intersect(self, other: Rect) -> (r: Rect)
        ensures
            r == self.spec_intersect(other),
            forall|x: int, y: int|
                r.contains(x, y) <==> self.contains(x, y) && other.contains(x, y),
    {
        Rect {
            x0: if self.x0 >= other.x0 { self.x0 } else { other.x0 },
            y0: if self.y0 >= other.y0 { self.y0 } else { other.y0 },
            x1: if self.x1 <= other.x1 { self.x1 } else { other.x1 },
            y1: if self.y1 <= other.y1 { self.y1 } else { other.y1 },
        }
    }

    pub fn translate(self, o: Offset) -> (r: Rect)
        requires
            self.wf(),
            o.wf(),
        ensures
            r == self.spec_translate(o),
            forall|x: int, y: int|
                r.contains(x, y) <==> self.contains(x - o.x, y - o.y),
    {
        Rect {
            x0: self.x0 + o.x,
            y0: self.y0 + o.y,
            x1: self.x1 + o.x,
            y1: self.y1 + o.y,
        }
    }

    /// True when every pixel of `self` lies inside `outer`.
    pub open spec fn inside(self, outer: Rect) -> bool {
        forall|x: int, y: int| self.contains(x, y) ==> outer.contains(x, y)
    }
}

} // verus!
