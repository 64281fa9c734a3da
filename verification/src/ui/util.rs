use vstd::prelude::*;
use vstd::std_specs::convert::FromSpecImpl;
use vstd::std_specs::ops::{AddSpecImpl, SubSpecImpl};

verus! {

/// A string together with the number of terminal columns it takes.
#[derive(Clone, Copy, Debug)]
pub struct WStr {
    pub val: &'static str,
    pub width: u16,
}

/// A position or a size on the terminal, in columns and rows.
#[derive(Clone, Copy, Debug, PartialEq, Eq, Structural, Hash)]
pub struct Xy {
    pub x: u16,
    pub y: u16,
}

impl Xy {
    /// The origin, or an empty size.
    pub fn zero() -> (r: Xy)
        ensures
            r == (Xy { x: 0, y: 0 }),
    {
        Xy { x: 0, y: 0 }
    }

    /// Moved `offset` columns right.
    pub fn add_x(self, offset: u16) -> (r: Xy)
        requires
            self.x + offset <= u16::MAX,
        ensures
            r == (Xy { x: (self.x + offset) as u16, y: self.y }),
    {
        Xy { x: self.x + offset, y: self.y }
    }

    /// Moved `offset` rows down.
    pub fn add_y(self, offset: u16) -> (r: Xy)
        requires
            self.y + offset <= u16::MAX,
        ensures
            r == (Xy { x: self.x, y: (self.y + offset) as u16 }),
    {
        Xy { x: self.x, y: self.y + offset }
    }

    /// Moved `offset` columns left.
    pub fn sub_x(self, offset: u16) -> (r: Xy)
        requires
            offset <= self.x,
        ensures
            r == (Xy { x: (self.x - offset) as u16, y: self.y }),
    {
        Xy { x: self.x - offset, y: self.y }
    }

    /// Moved `offset` rows up.
    pub fn sub_y(self, offset: u16) -> (r: Xy)
        requires
            offset <= self.y,
        ensures
            r == (Xy { x: self.x, y: (self.y - offset) as u16 }),
    {
        Xy { x: self.x, y: self.y - offset }
    }
}

impl core::ops::Add for Xy {
    type Output = Xy;

    fn add(self, other: Xy) -> (r: Xy) {
        Xy { x: self.x + other.x, y: self.y + other.y }
    }
}

impl AddSpecImpl for Xy {
    open spec fn obeys_add_spec() -> bool {
        true
    }

    open spec fn add_req(self, other: Xy) -> bool {
        self.x + other.x <= u16::MAX && self.y + other.y <= u16::MAX
    }

    open spec fn add_spec(self, other: Xy) -> Xy {
        Xy { x: (self.x + other.x) as u16, y: (self.y + other.y) as u16 }
    }
}

impl core::ops::Sub for Xy {
    type Output = Xy;

    fn sub(self, other: Xy) -> (r: Xy) {
        Xy { x: self.x - other.x, y: self.y - other.y }
    }
}

impl SubSpecImpl for Xy {
    open spec fn obeys_sub_spec() -> bool {
        true
    }

    open spec fn sub_req(self, other: Xy) -> bool {
        other.x <= self.x && other.y <= self.y
    }

    open spec fn sub_spec(self, other: Xy) -> Xy {
        Xy { x: (self.x - other.x) as u16, y: (self.y - other.y) as u16 }
    }
}

impl From<(u16, u16)> for Xy {
    fn from(pair: (u16, u16)) -> (r: Xy) {
        Xy { x: pair.0, y: pair.1 }
    }
}

impl FromSpecImpl<(u16, u16)> for Xy {
    open spec fn obeys_from_spec() -> bool {
        true
    }

    open spec fn from_spec(pair: (u16, u16)) -> Xy {
        Xy { x: pair.0, y: pair.1 }
    }
}

/// A rectangle on the terminal: its top left corner and its size.
#[derive(Clone, Copy, Debug, PartialEq, Eq, Structural, Hash)]
pub struct Rect {
    pub top_left: Xy,
    pub size: Xy,
}

impl Rect {
    /// The empty rectangle at the origin.
    pub fn zero() -> (r: Rect)
        ensures
            r == (Rect { top_left: Xy { x: 0, y: 0 }, size: Xy { x: 0, y: 0 } }),
    {
        Rect { top_left: Xy::zero(), size: Xy::zero() }
    }

    /// The column just right of the rectangle.
    pub open spec fn spec_right(self) -> int {
        self.top_left.x + self.size.x
    }

    /// The row just below the rectangle.
    pub open spec fn spec_bottom(self) -> int {
        self.top_left.y + self.size.y
    }

    /// Whether cell `(x, y)` lies in the rectangle.
    pub open spec fn covers(self, x: int, y: int) -> bool {
        self.top_left.x <= x < self.spec_right() && self.top_left.y <= y < self.spec_bottom()
    }

    /// Whether the rectangle lies inside a screen of size `screen`.
    pub open spec fn within(self, screen: Xy) -> bool {
        self.spec_right() <= screen.x && self.spec_bottom() <= screen.y
    }

    pub fn width(self) -> (r: u16)
        ensures
            r == self.size.x,
    {
        self.size.x
    }

    pub fn height(self) -> (r: u16)
        ensures
            r == self.size.y,
    {
        self.size.y
    }

    pub fn left(self) -> (r: u16)
        ensures
            r == self.top_left.x,
    {
        self.top_left.x
    }

    pub fn top(self) -> (r: u16)
        ensures
            r == self.top_left.y,
    {
        self.top_left.y
    }

    pub fn right(self) -> (r: u16)
        requires
            self.spec_right() <= u16::MAX,
        ensures
            r == self.spec_right(),
    {
        self.top_left.x + self.size.x
    }

    pub fn bottom(self) -> (r: u16)
        requires
            self.spec_bottom() <= u16::MAX,
        ensures
            r == self.spec_bottom(),
    {
        self.top_left.y + self.size.y
    }

    pub fn top_left(self) -> (r: Xy)
        ensures
            r == self.top_left,
    {
        self.top_left
    }

    pub fn top_right(self) -> (r: Xy)
        requires
            self.spec_right() <= u16::MAX,
        ensures
            r == (Xy { x: self.spec_right() as u16, y: self.top_left.y }),
    {
        self.top_left.add_x(self.size.x)
    }

    pub fn bottom_left(self) -> (r: Xy)
        requires
            self.spec_bottom() <= u16::MAX,
        ensures
            r == (Xy { x: self.top_left.x, y: self.spec_bottom() as u16 }),
    {
        self.top_left.add_y(self.size.y)
    }

    pub fn bottom_right(self) -> (r: Xy)
        requires
            self.spec_right() <= u16::MAX,
            self.spec_bottom() <= u16::MAX,
        ensures
            r == (Xy { x: self.spec_right() as u16, y: self.spec_bottom() as u16 }),
    {
        self.top_left + self.size
    }

    /// The part of the rectangle left of column `at` (counted from its left edge), and the
    /// part from there on.
    pub open spec fn spec_hsplit_at(self, at: u16) -> (Rect, Rect) {
        (
            Rect { top_left: self.top_left, size: Xy { x: at, y: self.size.y } },
            Rect {
                top_left: Xy { x: (self.top_left.x + at) as u16, y: self.top_left.y },
                size: Xy { x: (self.size.x - at) as u16, y: self.size.y },
            },
        )
    }

    /// The part of the rectangle above row `at` (counted from its top edge), and the part
    /// from there on.
    pub open spec fn spec_vsplit_at(self, at: u16) -> (Rect, Rect) {
        (
            Rect { top_left: self.top_left, size: Xy { x: self.size.x, y: at } },
            Rect {
                top_left: Xy { x: self.top_left.x, y: (self.top_left.y + at) as u16 },
                size: Xy { x: self.size.x, y: (self.size.y - at) as u16 },
            },
        )
    }

    /// Splits the rectangle at column `at`; it panics if `at` is beyond the right edge.
    pub fn hsplit_at(self, at: u16) -> (r: (Rect, Rect))
        requires
            at <= self.size.x,
            self.top_left.x + at <= u16::MAX,
        ensures
            r == self.spec_hsplit_at(at),
            r.0.size.x + r.1.size.x == self.size.x,
            r.1.top_left.x == r.0.spec_right(),
            r.1.spec_right() == self.spec_right(),
    {
        (
            Rect { top_left: self.top_left, size: Xy { x: at, y: self.size.y } },
            Rect {
                top_left: Xy { x: self.top_left.x + at, y: self.top_left.y },
                size: Xy { x: self.size.x - at, y: self.size.y },
            },
        )
    }

    /// Splits the rectangle at row `at`; it panics if `at` is beyond the bottom edge.
    pub fn vsplit_at(self, at: u16) -> (r: (Rect, Rect))
        requires
            at <= self.size.y,
            self.top_left.y + at <= u16::MAX,
        ensures
            r == self.spec_vsplit_at(at),
            r.0.size.y + r.1.size.y == self.size.y,
            r.1.top_left.y == r.0.spec_bottom(),
            r.1.spec_bottom() == self.spec_bottom(),
    {
        (
            Rect { top_left: self.top_left, size: Xy { x: self.size.x, y: at } },
            Rect {
                top_left: Xy { x: self.top_left.x, y: self.top_left.y + at },
                size: Xy { x: self.size.x, y: self.size.y - at },
            },
        )
    }
}

/// Splitting a rectangle leaves no gap and no overlap: every cell of it lies in exactly one
/// of the two parts.
pub proof fn lemma_split_partitions(r: Rect, at: u16, x: int, y: int)
    requires
        at <= r.size.x,
        at <= r.size.y,
        r.top_left.x + at <= u16::MAX,
        r.top_left.y + at <= u16::MAX,
    ensures
        r.covers(x, y) == (r.spec_hsplit_at(at).0.covers(x, y) || r.spec_hsplit_at(at).1.covers(x, y)),
        !(r.spec_hsplit_at(at).0.covers(x, y) && r.spec_hsplit_at(at).1.covers(x, y)),
        r.covers(x, y) == (r.spec_vsplit_at(at).0.covers(x, y) || r.spec_vsplit_at(at).1.covers(x, y)),
        !(r.spec_vsplit_at(at).0.covers(x, y) && r.spec_vsplit_at(at).1.covers(x, y)),
{
}

} // verus!
