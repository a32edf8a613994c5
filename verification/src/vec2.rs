use vstd::prelude::*;

verus! {

/// A position or a size on a character grid.
#[derive(Debug, Clone, Copy, PartialEq, Eq, Structural)]
pub struct Vec2 {
    pub x: u16,
    pub y: u16,
}

/// The smaller of two integers.
pub open spec fn min_int(a: int, b: int) -> int {
    if a <= b { a } else { b }
}

/// The larger of two integers.
pub open spec fn max_int(a: int, b: int) -> int {
    if a >= b { a } else { b }
}

/// `a + b` clamped to the range of `u16`.
pub open spec fn sat_add(a: int, b: int) -> int {
    min_int(a + b, u16::MAX as int)
}

/// `a - b` clamped at zero.
pub open spec fn sat_sub(a: int, b: int) -> int {
    max_int(a - b, 0)
}

impl Vec2 {
    pub fn new(x: u16, y: u16) -> (r: Self)
        ensures
            r.x == x,
            r.y == y,
    {
        Self { x, y }
    }

    pub fn add_x(self, x: u16) -> (r: Self)
        requires
            self.x + x <= u16::MAX,
        ensures
            r.x == self.x + x,
            r.y == self.y,
    {
        Self { x: self.x + x, ..self }
    }

    pub fn add_y(self, y: u16) -> (r: Self)
        requires
            self.y + y <= u16::MAX,
        ensures
            r.x == self.x,
            r.y == self.y + y,
    {
        Self { y: self.y + y, ..self }
    }

    pub fn sub_x(self, x: u16) -> (r: Self)
        requires
            x <= self.x,
        ensures
            r.x == self.x - x,
            r.y == self.y,
    {
        Self { x: self.x - x, ..self }
    }

    pub fn sub_y(self, y: u16) -> (r: Self)
        requires
            y <= self.y,
        ensures
            r.x == self.x,
            r.y == self.y - y,
    {
        Self { y: self.y - y, ..self }
    }

    /// In-place componentwise sum.
    pub fn add_assign(&mut self, rhs: Vec2)
        requires
            old(self).x + rhs.x <= u16::MAX,
            old(self).y + rhs.y <= u16::MAX,
        ensures
            final(self).x == old(self).x + rhs.x,
            final(self).y == old(self).y + rhs.y,
    {
        self.x = self.x + rhs.x;
        self.y = self.y + rhs.y;
    }

    /// In-place componentwise difference.
    pub fn sub_assign(&mut self, rhs: Vec2)
        requires
            rhs.x <= old(self).x,
            rhs.y <= old(self).y,
        ensures
            final(self).x == old(self).x - rhs.x,
            final(self).y == old(self).y - rhs.y,
    {
        self.x = self.x - rhs.x;
        self.y = self.y - rhs.y;
    }

    pub fn checked_sub(self, other: Self) -> (r: Option<Self>)
        ensures
            r is Some <==> (other.x <= self.x && other.y <= self.y),
            r matches Some(v) ==> v.x == self.x - other.x && v.y == self.y - other.y,
    {
        let x = match self.x.checked_sub(other.x) {
            Some(x) => x,
            None => return None,
        };
        let y = match self.y.checked_sub(other.y) {
            Some(y) => y,
            None => return None,
        };
        Some(Self { x, y })
    }

    pub fn checked_sub_x(self, x: u16) -> (r: Option<Self>)
        ensures
            r is Some <==> x <= self.x,
            r matches Some(v) ==> v.x == self.x - x && v.y == self.y,
    {
        match self.x.checked_sub(x) {
            Some(nx) => Some(Self { x: nx, y: self.y }),
            None => None,
        }
    }

    pub fn checked_sub_y(self, y: u16) -> (r: Option<Self>)
        ensures
            r is Some <==> y <= self.y,
            r matches Some(v) ==> v.x == self.x && v.y == self.y - y,
    {
        match self.y.checked_sub(y) {
            Some(ny) => Some(Self { x: self.x, y: ny }),
            None => None,
        }
    }

    pub fn saturating_add(self, other: Self) -> (r: Self)
        ensures
            r.x == sat_add(self.x as int, other.x as int),
            r.y == sat_add(self.y as int, other.y as int),
    {
        Self { x: self.x.saturating_add(other.x), y: self.y.saturating_add(other.y) }
    }

    pub fn saturating_sub(self, other: Self) -> (r: Self)
        ensures
            r.x == sat_sub(self.x as int, other.x as int),
            r.y == sat_sub(self.y as int, other.y as int),
    {
        Self { x: self.x.saturating_sub(other.x), y: self.y.saturating_sub(other.y) }
    }

    pub fn saturating_add_x(self, x: u16) -> (r: Self)
        ensures
            r.x == sat_add(self.x as int, x as int),
            r.y == self.y,
    {
        Self { x: self.x.saturating_add(x), ..self }
    }

    pub fn saturating_add_y(self, y: u16) -> (r: Self)
        ensures
            r.x == self.x,
            r.y == sat_add(self.y as int, y as int),
    {
        Self { y: self.y.saturating_add(y), ..self }
    }

    pub fn saturating_sub_x(self, x: u16) -> (r: Self)
        ensures
            r.x == sat_sub(self.x as int, x as int),
            r.y == self.y,
    {
        Self { x: self.x.saturating_sub(x), ..self }
    }

    pub fn saturating_sub_y(self, y: u16) -> (r: Self)
        ensures
            r.x == self.x,
            r.y == sat_sub(self.y as int, y as int),
    {
        Self { y: self.y.saturating_sub(y), ..self }
    }

    pub fn max_x(self, x: u16) -> (r: Self)
        ensures
            r.x == max_int(self.x as int, x as int),
            r.y == self.y,
    {
        Self { x: if self.x >= x { self.x } else { x }, ..self }
    }

    pub fn max_y(self, y: u16) -> (r: Self)
        ensures
            r.x == self.x,
            r.y == max_int(self.y as int, y as int),
    {
        Self { y: if self.y >= y { self.y } else { y }, ..self }
    }

    pub fn min_x(self, x: u16) -> (r: Self)
        ensures
            r.x == min_int(self.x as int, x as int),
            r.y == self.y,
    {
        Self { x: if self.x <= x { self.x } else { x }, ..self }
    }

    pub fn min_y(self, y: u16) -> (r: Self)
        ensures
            r.x == self.x,
            r.y == min_int(self.y as int, y as int),
    {
        Self { y: if self.y <= y { self.y } else { y }, ..self }
    }
}

impl core::ops::Add for Vec2 {
    type Output = Vec2;

    /// Componentwise sum; both components must stay within `u16`.
    fn add(self, rhs: Vec2) -> (r: Vec2)
        ensures
            r == vec_add(self, rhs),
    {
        Vec2 { x: self.x + rhs.x, y: self.y + rhs.y }
    }
}

impl vstd::std_specs::ops::AddSpecImpl for Vec2 {
    open spec fn obeys_add_spec() -> bool {
        true
    }

    open spec fn add_req(self, rhs: Vec2) -> bool {
        add_fits(self, rhs)
    }

    open spec fn add_spec(self, rhs: Vec2) -> Vec2 {
        vec_add(self, rhs)
    }
}

impl core::ops::Sub for Vec2 {
    type Output = Vec2;

    /// Componentwise difference; neither component may go below zero.
    fn sub(self, rhs: Vec2) -> (r: Vec2)
        ensures
            r == vec_sub(self, rhs),
    {
        Vec2 { x: self.x - rhs.x, y: self.y - rhs.y }
    }
}

impl vstd::std_specs::ops::SubSpecImpl for Vec2 {
    open spec fn obeys_sub_spec() -> bool {
        true
    }

    open spec fn sub_req(self, rhs: Vec2) -> bool {
        le_both(rhs, self)
    }

    open spec fn sub_spec(self, rhs: Vec2) -> Vec2 {
        vec_sub(self, rhs)
    }
}

impl From<(u16, u16)> for Vec2 {
    fn from(p: (u16, u16)) -> (r: Vec2)
        ensures
            r == (Vec2 { x: p.0, y: p.1 }),
    {
        Vec2 { x: p.0, y: p.1 }
    }
}

impl vstd::std_specs::convert::FromSpecImpl<(u16, u16)> for Vec2 {
    open spec fn obeys_from_spec() -> bool {
        true
    }

    open spec fn from_spec(p: (u16, u16)) -> Vec2 {
        Vec2 { x: p.0, y: p.1 }
    }
}

/// The componentwise sum.
pub open spec fn vec_add(a: Vec2, b: Vec2) -> Vec2 {
    Vec2 { x: (a.x + b.x) as u16, y: (a.y + b.y) as u16 }
}

/// The componentwise difference.
pub open spec fn vec_sub(a: Vec2, b: Vec2) -> Vec2 {
    Vec2 { x: (a.x - b.x) as u16, y: (a.y - b.y) as u16 }
}

/// Whether `a + b` stays within `u16` in both components.
pub open spec fn add_fits(a: Vec2, b: Vec2) -> bool {
    a.x + b.x <= u16::MAX && a.y + b.y <= u16::MAX
}

/// Whether `b` is at most `a` in both components, so that `a - b` is defined.
pub open spec fn le_both(b: Vec2, a: Vec2) -> bool {
    b.x <= a.x && b.y <= a.y
}

/// Subtracting what was added gives back the starting vector.
pub proof fn lemma_add_sub_inverse(a: Vec2, b: Vec2)
    requires
        add_fits(a, b),
    ensures
        le_both(b, vec_add(a, b)),
        vec_sub(vec_add(a, b), b) == a,
{
}

/// Adding back what was subtracted gives the starting vector.
pub proof fn lemma_sub_add_inverse(a: Vec2, b: Vec2)
    requires
        le_both(b, a),
    ensures
        add_fits(vec_sub(a, b), b),
        vec_add(vec_sub(a, b), b) == a,
{
}

} // verus!
