use vstd::prelude::*;

verus! {

/// Micro-units per world unit, the scale of positions and sizes.
pub const POS_SCALE: i64 = 1_000_000;

/// Milli-units per second for one unit per second, the scale of velocities.
/// A velocity times a duration in milliseconds is then a distance in
/// micro-units.
pub const VEL_SCALE: i64 = 1_000;

/// Height of the band at the top of an enemy that counts as its head.
pub const ENEMY_HEAD_HEIGHT: i64 = 10 * POS_SCALE;

/// Height of the band at the bottom of the hero that counts as its feet.
pub const HERO_FEET_HEIGHT: i64 = 10 * POS_SCALE;

/// A point or a displacement in the plane.
#[derive(Clone, Copy, Debug, PartialEq, Eq, Structural)]
pub struct Vector {
    pub x: i64,
    pub y: i64,
}

impl Vector {
    pub fn new(x: i64, y: i64) -> (r: Vector)
        ensures
            r.x == x,
            r.y == y,
    {
        Vector { x, y }
    }
}

/// The width and height of a sprite, cached once it has been drawn.
#[derive(Clone, Copy, Debug, PartialEq, Eq, Structural)]
pub struct Size {
    pub width: i64,
    pub height: i64,
}

impl Size {
    pub open spec fn valid(self) -> bool {
        0 <= self.width <= POS_SCALE * 1_000_000 && 0 <= self.height <= POS_SCALE * 1_000_000
    }
}

/// An axis-aligned rectangle given by its top-left corner and its size;
/// `y` grows downward.
#[derive(Clone, Copy, Debug, PartialEq, Eq, Structural)]
pub struct Rectangle {
    pub x: i64,
    pub y: i64,
    pub width: i64,
    pub height: i64,
}

/// Two rectangles overlap when their interiors meet: touching edges do not
/// count.
pub open spec fn overlaps_spec(a: Rectangle, b: Rectangle) -> bool {
    &&& a.x < b.x + b.width
    &&& a.x + a.width > b.x
    &&& a.y < b.y + b.height
    &&& a.y + a.height > b.y
}

/// A position fits in the range where a sprite can be centred on it without
/// overflow.
pub open spec fn centre_in_range(p: Vector) -> bool {
    -0x1000_0000_0000_0000 <= p.x <= 0x1000_0000_0000_0000
        && -0x1000_0000_0000_0000 <= p.y <= 0x1000_0000_0000_0000
}

/// The rectangle of size `s` centred on `c`.
pub open spec fn with_center_spec(s: Size, c: Vector) -> Rectangle {
    Rectangle {
        x: (c.x - s.width / 2) as i64,
        y: (c.y - s.height / 2) as i64,
        width: s.width,
        height: s.height,
    }
}

impl Rectangle {
    pub open spec fn bounded(self) -> bool {
        &&& -0x2000_0000_0000_0000 <= self.x <= 0x2000_0000_0000_0000
        &&& -0x2000_0000_0000_0000 <= self.y <= 0x2000_0000_0000_0000
        &&& -0x1000_0000_0000_0000 <= self.width <= 0x1000_0000_0000_0000
        &&& -0x1000_0000_0000_0000 <= self.height <= 0x1000_0000_0000_0000
    }

    pub fn overlaps(&self, other: &Rectangle) -> (r: bool)
        requires
            self.bounded(),
            other.bounded(),
        ensures
            r == overlaps_spec(*self, *other),
    {
        self.x < other.x + other.width && self.x + self.width > other.x && self.y < other.y
            + other.height && self.y + self.height > other.y
    }
}

/// Centres a sprite of size `s` on `c`.
pub fn with_center(s: Size, c: Vector) -> (r: Rectangle)
    requires
        s.valid(),
        centre_in_range(c),
    ensures
        r == with_center_spec(s, c),
        r.bounded(),
{
    Rectangle { x: c.x - s.width / 2, y: c.y - s.height / 2, width: s.width, height: s.height }
}

} // verus!
