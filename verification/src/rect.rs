use vstd::prelude::*;
use crate::vec2::{Vec2, vec_add, vec_sub, add_fits, le_both};

verus! {

/// A rectangle on the character grid: its top-left corner and its size.
#[derive(Clone, Copy, Debug, PartialEq, Eq, Structural)]
pub struct Rect {
    pub start: Vec2,
    pub size: Vec2,
}

/// Whether `p` lies inside `r`: at or right of its left edge, left of its
/// right edge, and likewise vertically.
pub open spec fn rect_contains(r: Rect, p: Vec2) -> bool {
    &&& r.start.x <= p.x
    &&& p.x < r.start.x + r.size.x
    &&& r.start.y <= p.y
    &&& p.y < r.start.y + r.size.y
}

/// Whether `p` lies inside `r` or on its far edges: between its corners,
/// both included.
pub open spec fn rect_contains_inclusive(r: Rect, p: Vec2) -> bool {
    &&& r.start.x <= p.x <= r.start.x + r.size.x
    &&& r.start.y <= p.y <= r.start.y + r.size.y
}

/// Whether `contains` can test `p` against `r` without overflow: the sums
/// that it reaches, in the order it reaches them, fit in `u16`.
pub open spec fn contains_ok(r: Rect, p: Vec2) -> bool {
    &&& p.x >= r.start.x ==> r.start.x + r.size.x <= u16::MAX
    &&& (p.x >= r.start.x && p.x < r.start.x + r.size.x && p.y >= r.start.y)
        ==> r.start.y + r.size.y <= u16::MAX
}

/// The rectangle with its corner moved by `add` and its size shrunk by as much.
pub open spec fn spec_add_start(r: Rect, add: Vec2) -> Rect {
    Rect { start: vec_add(r.start, add), size: vec_sub(r.size, add) }
}

/// The rectangle with its size shrunk by `sub`.
pub open spec fn spec_sub_size(r: Rect, sub: Vec2) -> Rect {
    Rect { start: r.start, size: vec_sub(r.size, sub) }
}

/// The corner diagonally opposite the start.
pub open spec fn rect_end(r: Rect) -> Vec2 {
    vec_add(r.start, r.size)
}

impl From<(Vec2, Vec2)> for Rect {
    fn from(p: (Vec2, Vec2)) -> (r: Rect)
        ensures
            r == (Rect { start: p.0, size: p.1 }),
    {
        Rect { start: p.0, size: p.1 }
    }
}

impl vstd::std_specs::convert::FromSpecImpl<(Vec2, Vec2)> for Rect {
    open spec fn obeys_from_spec() -> bool {
        true
    }

    open spec fn from_spec(p: (Vec2, Vec2)) -> Rect {
        Rect { start: p.0, size: p.1 }
    }
}

impl Rect {
    pub fn new(start: Vec2, size: Vec2) -> (r: Self)
        ensures
            r.start == start,
            r.size == size,
    {
        Self { start, size }
    }

    pub fn contains(self, p: Vec2) -> (r: bool)
        requires
            contains_ok(self, p),
        ensures
            r == rect_contains(self, p),
    {
        p.x >= self.x() && p.x < (self.x() + self.w()) && p.y >= self.y() && p.y < (self.y()
            + self.h())
    }

    /// Whether `p` lies between the corners, both included.
    pub fn contains_inclusive(self, p: Vec2) -> (r: bool)
        ensures
            r == rect_contains_inclusive(self, p),
    {
        p.x >= self.start.x && p.y >= self.start.y && p.x - self.start.x <= self.size.x && p.y
            - self.start.y <= self.size.y
    }

    /// Moves the corner by `add`, shrinking the size so that the far corner stays.
    pub fn add_start(self, add: Vec2) -> (r: Self)
        requires
            add_fits(self.start, add),
            le_both(add, self.size),
        ensures
            r == spec_add_start(self, add),
    {
        Self { start: self.start + add, size: self.size - add }
    }

    pub fn sub_size(self, sub: Vec2) -> (r: Self)
        requires
            le_both(sub, self.size),
        ensures
            r == spec_sub_size(self, sub),
    {
        Self { start: self.start, size: self.size - sub }
    }

    /// Shrinks the rectangle by `margin` cells on the top and left.
    pub fn with_margin(self, margin: u16) -> (r: Self)
        requires
            self.start.x + margin <= u16::MAX,
            self.start.y + margin <= u16::MAX,
            2 * margin <= self.size.x,
            2 * margin <= self.size.y,
        ensures
            r == spec_sub_size(spec_add_start(self, Vec2 { x: margin, y: margin }), Vec2 { x: margin, y: margin }),
            r.start.x == self.start.x + margin,
            r.start.y == self.start.y + margin,
            r.size.x == self.size.x - 2 * margin,
            r.size.y == self.size.y - 2 * margin,
    {
        let m = Vec2::new(margin, margin);
        self.add_start(m).sub_size(m)
    }

    /// Cuts the rectangle into the `pos` rows on top and the rows below.
    /// The first row below must lie inside the rectangle.
    pub fn split_vertical(self, pos: u16) -> (r: (Self, Self))
        requires
            pos < self.size.y,
            0 < self.size.x,
            self.start.x + self.size.x <= u16::MAX,
            self.start.y + self.size.y <= u16::MAX,
        ensures
            r.0 == (Rect { start: self.start, size: Vec2 { x: self.size.x, y: pos } }),
            r.1 == (Rect {
                start: Vec2 { x: self.start.x, y: (self.start.y + pos) as u16 },
                size: Vec2 { x: self.size.x, y: (self.size.y - pos) as u16 },
            }),
    {
        let up = Self { start: self.start, size: Vec2 { y: pos, ..self.size } };
        let down = Self {
            start: self.start.add_y(pos),
            size: Vec2 { y: self.size.y - pos, ..self.size },
        };
        (up, down)
    }

    pub fn end(self) -> (r: Vec2)
        requires
            add_fits(self.start, self.size),
        ensures
            r == rect_end(self),
    {
        self.start + self.size
    }

    pub fn start(self) -> (r: Vec2)
        ensures
            r == self.start,
    {
        self.start
    }

    pub fn size(self) -> (r: Vec2)
        ensures
            r == self.size,
    {
        self.size
    }

    pub fn x(self) -> (r: u16)
        ensures
            r == self.start.x,
    {
        self.start.x
    }

    pub fn y(self) -> (r: u16)
        ensures
            r == self.start.y,
    {
        self.start.y
    }

    pub fn w(self) -> (r: u16)
        ensures
            r == self.size.x,
    {
        self.size.x
    }

    pub fn h(self) -> (r: u16)
        ensures
            r == self.size.y,
    {
        self.size.y
    }
}

/// Moving the corner with `add_start` keeps the far corner where it was.
pub proof fn lemma_add_start_keeps_end(r: Rect, add: Vec2)
    requires
        add_fits(r.start, add),
        le_both(add, r.size),
        add_fits(r.start, r.size),
    ensures
        add_fits(spec_add_start(r, add).start, spec_add_start(r, add).size),
        rect_end(spec_add_start(r, add)) == rect_end(r),
{
}

/// The two halves of `split_vertical` stack: the lower one starts where the
/// upper one ends, their heights add up to the whole, both keep the width,
/// and the first row of the lower half lies inside the rectangle.
pub proof fn lemma_split_vertical(r: Rect, pos: u16)
    requires
        pos < r.size.y,
        0 < r.size.x,
        r.start.x + r.size.x <= u16::MAX,
        r.start.y + r.size.y <= u16::MAX,
    ensures
        ({
            let up = Rect { start: r.start, size: Vec2 { x: r.size.x, y: pos } };
            let down = Rect {
                start: Vec2 { x: r.start.x, y: (r.start.y + pos) as u16 },
                size: Vec2 { x: r.size.x, y: (r.size.y - pos) as u16 },
            };
            &&& down.start.y == up.start.y + up.size.y
            &&& up.size.y + down.size.y == r.size.y
            &&& up.size.x == r.size.x && down.size.x == r.size.x
            &&& rect_contains(r, down.start)
            &&& rect_end(down) == rect_end(r)
        }),
{
}

} // verus!
