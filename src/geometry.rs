use vstd::prelude::*;
use vstd::math::{max, min};

verus! {

/// The axis along which a line is drawn or a rectangle is split.
#[derive(Clone, Copy, Debug, PartialEq, Eq, Structural)]
pub enum Direction {
    Horizontal,
    Vertical,
}

/// A rectangle of grid cells: origin `(x, y)` and extent `width` by `height`.
#[derive(Clone, Copy, Debug, PartialEq, Eq, Structural)]
pub struct Rectangle {
    pub x: u16,
    pub y: u16,
    pub width: u16,
    pub height: u16,
}

impl Rectangle {
    /// The right and bottom edges can be expressed as grid coordinates.
    pub open spec fn wf(self) -> bool {
        self.x + self.width <= u16::MAX && self.y + self.height <= u16::MAX
    }

    /// Nothing can be drawn in it.
    pub open spec fn is_empty(self) -> bool {
        self.width == 0 || self.height == 0
    }

    /// The extent along `dir`.
    pub open spec fn extent(self, dir: Direction) -> int {
        match dir {
            Direction::Horizontal => self.width as int,
            Direction::Vertical => self.height as int,
        }
    }

    /// The extent across `dir`.
    pub open spec fn cross_extent(self, dir: Direction) -> int {
        match dir {
            Direction::Horizontal => self.height as int,
            Direction::Vertical => self.width as int,
        }
    }

    /// The cell `(px, py)` lies inside.
    pub open spec fn contains(self, px: int, py: int) -> bool {
        self.x <= px < self.x + self.width && self.y <= py < self.y + self.height
    }

    /// Every cell of `self` lies inside `outer`.
    pub open spec fn inside(self, outer: Rectangle) -> bool {
        outer.x <= self.x && self.x + self.width <= outer.x + outer.width && outer.y <= self.y
            && self.y + self.height <= outer.y + outer.height
    }

    /// The part of `self` that lies inside `outer`, moved onto `outer`'s
    /// nearest edge with zero extent where nothing of it does.
    pub open spec fn clamped(self, outer: Rectangle) -> Rectangle {
        let lo_x = min(max(self.x as int, outer.x as int), outer.x + outer.width);
        let hi_x = max(min(self.x + self.width, outer.x + outer.width), lo_x);
        let lo_y = min(max(self.y as int, outer.y as int), outer.y + outer.height);
        let hi_y = max(min(self.y + self.height, outer.y + outer.height), lo_y);
        Rectangle {
            x: lo_x as u16,
            y: lo_y as u16,
            width: (hi_x - lo_x) as u16,
            height: (hi_y - lo_y) as u16,
        }
    }

    /// The part of `self` that lies inside `outer`.
    pub fn clamp_into(&self, outer: Rectangle) -> (r: Rectangle)
        requires
            outer.wf(),
        ensures
            r == self.clamped(outer),
            r.wf(),
            r.inside(outer),
    {
        let outer_right: u32 = outer.x as u32 + outer.width as u32;
        let outer_bottom: u32 = outer.y as u32 + outer.height as u32;
        let lo_x: u32 = if (self.x as u32) < (outer.x as u32) { outer.x as u32 } else { self.x as u32 };
        let lo_x: u32 = if lo_x < outer_right { lo_x } else { outer_right };
        let right: u32 = self.x as u32 + self.width as u32;
        let hi_x: u32 = if right < outer_right { right } else { outer_right };
        let hi_x: u32 = if hi_x < lo_x { lo_x } else { hi_x };
        let lo_y: u32 = if (self.y as u32) < (outer.y as u32) { outer.y as u32 } else { self.y as u32 };
        let lo_y: u32 = if lo_y < outer_bottom { lo_y } else { outer_bottom };
        let bottom: u32 = self.y as u32 + self.height as u32;
        let hi_y: u32 = if bottom < outer_bottom { bottom } else { outer_bottom };
        let hi_y: u32 = if hi_y < lo_y { lo_y } else { hi_y };
        Rectangle {
            x: lo_x as u16,
            y: lo_y as u16,
            width: (hi_x - lo_x) as u16,
            height: (hi_y - lo_y) as u16,
        }
    }

    pub fn new(x: u16, y: u16, width: u16, height: u16) -> (r: Rectangle)
        ensures
            r == (Rectangle { x, y, width, height }),
    {
        Rectangle { x, y, width, height }
    }

    /// The extent along `dir`.
    pub fn extent_along(&self, dir: Direction) -> (r: u16)
        ensures
            r == self.extent(dir),
    {
        match dir {
            Direction::Horizontal => self.width,
            Direction::Vertical => self.height,
        }
    }
}

/// Every cell of a rectangle inside `outer` is a cell of `outer`.
pub proof fn lemma_inside_contains(inner: Rectangle, outer: Rectangle)
    requires
        inner.inside(outer),
    ensures
        forall|px: int, py: int| inner.contains(px, py) ==> outer.contains(px, py),
{
}

} // verus!
