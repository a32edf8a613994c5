use vstd::prelude::*;
use crate::css::calc::Calc;
use crate::css::combine::Combine;
use crate::css::css_val::CssVal;
use crate::css::size::{CssSize, calc_size_ok, spec_calc_size, parse_size_val, spec_parse_size_val};
use crate::rect::{Rect, spec_add_start, spec_sub_size};
use crate::text::chars_of;
use crate::vec2::{Vec2, add_fits, le_both, vec_sub};

verus! {

/// The four sides of a box (margin, padding or border) as declared.
#[derive(Clone, Copy, Debug, PartialEq, Eq, Structural)]
pub struct CssRect {
    pub top: CssVal<CssSize>,
    pub bottom: CssVal<CssSize>,
    pub left: CssVal<CssSize>,
    pub right: CssVal<CssSize>,
}

/// The four sides of a box, resolved.
#[derive(Clone, Copy, Debug, PartialEq, Eq, Structural)]
pub struct CalcCssRect {
    pub top: CssSize,
    pub bottom: CssSize,
    pub left: CssSize,
    pub right: CssSize,
}

/// A box with every side declared as `inherit`.
pub open spec fn inherit_rect() -> CssRect {
    CssRect {
        top: CssVal::Inherit,
        bottom: CssVal::Inherit,
        left: CssVal::Inherit,
        right: CssVal::Inherit,
    }
}

/// A box with every side zero.
pub open spec fn zero_calc_rect() -> CalcCssRect {
    CalcCssRect {
        top: CssSize::Fixed(0),
        bottom: CssSize::Fixed(0),
        left: CssSize::Fixed(0),
        right: CssSize::Fixed(0),
    }
}

impl Default for CssRect {
    fn default() -> (r: Self)
        ensures
            r == inherit_rect(),
    {
        CssRect {
            top: CssVal::Inherit,
            bottom: CssVal::Inherit,
            left: CssVal::Inherit,
            right: CssVal::Inherit,
        }
    }
}

impl Default for CalcCssRect {
    fn default() -> (r: Self)
        ensures
            r == zero_calc_rect(),
    {
        CalcCssRect {
            top: CssSize::Fixed(0),
            bottom: CssSize::Fixed(0),
            left: CssSize::Fixed(0),
            right: CssSize::Fixed(0),
        }
    }
}

impl Combine for CssRect {
    /// Side by side.
    open spec fn spec_combine(self, other: Self) -> Self {
        CssRect {
            top: self.top.spec_combine(other.top),
            left: self.left.spec_combine(other.left),
            right: self.right.spec_combine(other.right),
            bottom: self.bottom.spec_combine(other.bottom),
        }
    }

    fn combine(self, other: Self) -> (r: Self) {
        Self {
            top: self.top.combine(other.top),
            left: self.left.combine(other.left),
            right: self.right.combine(other.right),
            bottom: self.bottom.combine(other.bottom),
        }
    }
}

impl Calc for CssRect {
    type Output = CalcCssRect;

    /// Side by side: a declared side is used, an inherited one is the parent's.
    open spec fn spec_calc(self, parent: CalcCssRect) -> CalcCssRect {
        CalcCssRect {
            top: self.top.spec_calc(parent.top),
            bottom: self.bottom.spec_calc(parent.bottom),
            left: self.left.spec_calc(parent.left),
            right: self.right.spec_calc(parent.right),
        }
    }

    fn calc(self, parent: CalcCssRect) -> (r: CalcCssRect) {
        CalcCssRect {
            top: self.top.calc(parent.top),
            bottom: self.bottom.calc(parent.bottom),
            left: self.left.calc(parent.left),
            right: self.right.calc(parent.right),
        }
    }
}

/// Whether every side of `r` can be computed against `size`.
pub open spec fn calc_rect_ok(r: CalcCssRect, size: Vec2) -> bool {
    &&& calc_size_ok(r.left, size.x)
    &&& calc_size_ok(r.top, size.y)
    &&& calc_size_ok(r.right, size.x)
    &&& calc_size_ok(r.bottom, size.y)
}

/// The sizes of the sides against `size`: the top-left amount (left, top) and
/// the bottom-right amount (right, bottom).
pub open spec fn spec_calc_rect(r: CalcCssRect, size: Vec2) -> (Vec2, Vec2) {
    (
        Vec2 { x: spec_calc_size(r.left, size.x), y: spec_calc_size(r.top, size.y) },
        Vec2 { x: spec_calc_size(r.right, size.x), y: spec_calc_size(r.bottom, size.y) },
    )
}

/// Whether `calc_bound` can shrink `bound` by the sides of `r`.
pub open spec fn calc_bound_ok(r: CalcCssRect, bound: Rect) -> bool {
    let (start, size) = spec_calc_rect(r, bound.size);
    &&& calc_rect_ok(r, bound.size)
    &&& add_fits(bound.start, start)
    &&& le_both(start, bound.size)
    &&& le_both(size, vec_sub(bound.size, start))
}

impl CalcCssRect {
    pub fn calc_rect(self, size: Vec2) -> (r: (Vec2, Vec2))
        requires
            calc_rect_ok(self, size),
        ensures
            r == spec_calc_rect(self, size),
    {
        (
            Vec2::new(self.left.calc_size(size.x), self.top.calc_size(size.y)),
            Vec2::new(self.right.calc_size(size.x), self.bottom.calc_size(size.y)),
        )
    }

    /// The part of `bound` inside the sides.
    pub fn calc_bound(self, bound: Rect) -> (r: Rect)
        requires
            calc_bound_ok(self, bound),
        ensures
            r == spec_sub_size(
                spec_add_start(bound, spec_calc_rect(self, bound.size).0),
                spec_calc_rect(self, bound.size).1,
            ),
    {
        let (start, size) = self.calc_rect(bound.size());
        bound.add_start(start).sub_size(size)
    }
}

/// The pieces of `s` between the occurrences of `sep`, as `str::split` gives them.
pub open spec fn split_on(s: Seq<char>, sep: char) -> Seq<Seq<char>>
    decreases s.len(),
{
    if s.len() == 0 {
        seq![Seq::<char>::empty()]
    } else {
        let prev = split_on(s.drop_last(), sep);
        if s.last() == sep {
            prev.push(Seq::<char>::empty())
        } else {
            prev.update(prev.len() - 1, prev.last().push(s.last()))
        }
    }
}

proof fn lemma_split_on_nonempty(s: Seq<char>, sep: char)
    ensures
        split_on(s, sep).len() >= 1,
    decreases s.len(),
{
    if s.len() > 0 {
        lemma_split_on_nonempty(s.drop_last(), sep);
    }
}

/// The box that a CSS shorthand of one to four space-separated sizes denotes:
/// one size for all sides; two for top and bottom, then left and right;
/// three for top, left and right, bottom; four for top, right, bottom, left.
/// Pieces after the fourth are not read.
pub open spec fn spec_parse_css_rect(s: Seq<char>) -> Option<CssRect> {
    let parts = split_on(s, ' ');
    match spec_parse_size_val(parts[0]) {
        None => None,
        Some(first) => if parts.len() == 1 {
            Some(CssRect { top: first, bottom: first, left: first, right: first })
        } else {
            match spec_parse_size_val(parts[1]) {
                None => None,
                Some(second) => if parts.len() == 2 {
                    Some(CssRect { top: first, bottom: first, left: second, right: second })
                } else {
                    match spec_parse_size_val(parts[2]) {
                        None => None,
                        Some(third) => if parts.len() == 3 {
                            Some(CssRect { top: first, bottom: third, left: second, right: second })
                        } else {
                            match spec_parse_size_val(parts[3]) {
                                None => None,
                                Some(fourth) => Some(
                                    CssRect { top: first, bottom: third, left: fourth, right: second },
                                ),
                            }
                        }
                    }
                }
            }
        }
    }
}

/// The character ranges of the pieces of `s` between spaces.
fn split_ranges(s: &str) -> (r: Vec<(usize, usize)>)
    ensures
        r@.len() == split_on(s@, ' ').len(),
        forall|k: int| #![trigger r@[k]] 0 <= k < r@.len() ==> {
            &&& r@[k].0 <= r@[k].1 <= s@.len()
            &&& split_on(s@, ' ')[k] == s@.subrange(r@[k].0 as int, r@[k].1 as int)
        },
{
    let v = chars_of(s);
    let n = v.len();
    let mut ranges: Vec<(usize, usize)> = Vec::new();
    let mut start: usize = 0;
    let mut i: usize = 0;
    while i < n
        invariant
            n == s@.len(),
            v@ == s@,
            start <= i <= n,
            ranges@.len() + 1 == split_on(s@.take(i as int), ' ').len(),
            forall|k: int| #![trigger ranges@[k]] 0 <= k < ranges@.len() ==> {
                &&& ranges@[k].0 <= ranges@[k].1 <= i
                &&& split_on(s@.take(i as int), ' ')[k] == s@.subrange(
                    ranges@[k].0 as int,
                    ranges@[k].1 as int,
                )
            },
            split_on(s@.take(i as int), ' ').last() == s@.subrange(start as int, i as int),
        decreases n - i,
    {
        proof {
            assert(s@.take(i + 1).drop_last() =~= s@.take(i as int));
            assert(s@.take(i + 1).last() == s@[i as int]);
            lemma_split_on_nonempty(s@.take(i as int), ' ');
        }
        let ghost prev = split_on(s@.take(i as int), ' ');
        let ghost next = split_on(s@.take(i + 1), ' ');
        let ghost old_ranges = ranges@;
        if v[i] == ' ' {
            ranges.push((start, i));
            start = i + 1;
            proof {
                assert(s@.subrange(start as int, i + 1) =~= Seq::<char>::empty());
                assert(next == prev.push(Seq::<char>::empty()));
                assert forall|k: int| #![trigger ranges@[k]] 0 <= k < ranges@.len() implies {
                    &&& ranges@[k].0 <= ranges@[k].1 <= i + 1
                    &&& next[k] == s@.subrange(ranges@[k].0 as int, ranges@[k].1 as int)
                } by {
                    if k < old_ranges.len() {
                        assert(ranges@[k] == old_ranges[k]);
                        assert(next[k] == prev[k]);
                    } else {
                        assert(next[k] == prev.last());
                    }
                }
            }
        } else {
            proof {
                assert(s@.subrange(start as int, i + 1) =~= s@.subrange(start as int, i as int).push(
                    s@[i as int],
                ));
                assert(next == prev.update(prev.len() - 1, prev.last().push(s@[i as int])));
                assert forall|k: int| #![trigger ranges@[k]] 0 <= k < ranges@.len() implies {
                    &&& ranges@[k].0 <= ranges@[k].1 <= i + 1
                    &&& next[k] == s@.subrange(ranges@[k].0 as int, ranges@[k].1 as int)
                } by {
                    assert(next[k] == prev[k]);
                }
            }
        }
        i = i + 1;
    }
    let ghost old_ranges = ranges@;
    ranges.push((start, n));
    proof {
        assert(s@.take(n as int) =~= s@);
        let parts = split_on(s@, ' ');
        assert forall|k: int| #![trigger ranges@[k]] 0 <= k < ranges@.len() implies {
            &&& ranges@[k].0 <= ranges@[k].1 <= s@.len()
            &&& parts[k] == s@.subrange(ranges@[k].0 as int, ranges@[k].1 as int)
        } by {
            if k < old_ranges.len() {
                assert(ranges@[k] == old_ranges[k]);
            } else {
                assert(k == old_ranges.len());
                assert(ranges@[k] == (start, n));
                assert(start <= n);
            }
        }
    }
    ranges
}

/// The piece `k` of `s`, as a string.
fn piece<'a>(s: &'a str, ranges: &Vec<(usize, usize)>, k: usize) -> (r: &'a str)
    requires
        k < ranges@.len(),
        ranges@[k as int].0 <= ranges@[k as int].1 <= s@.len(),
    ensures
        r@ == s@.subrange(ranges@[k as int].0 as int, ranges@[k as int].1 as int),
{
    s.substring_char(ranges[k].0, ranges[k].1)
}

impl CssRect {
    /// Parses a CSS box shorthand such as `1`, `1 2`, `1 2 3` or `1 2 3 4`.
    pub fn parse(s: &str) -> (r: Option<CssRect>)
        ensures
            r == spec_parse_css_rect(s@),
    {
        let ranges = split_ranges(s);
        let ghost parts = split_on(s@, ' ');
        proof {
            lemma_split_on_nonempty(s@, ' ');
            assert(parts[0] == s@.subrange(ranges@[0].0 as int, ranges@[0].1 as int));
        }
        let first = match parse_size_val(piece(s, &ranges, 0)) {
            Some(v) => v,
            None => return None,
        };
        if ranges.len() == 1 {
            return Some(CssRect { top: first, bottom: first, left: first, right: first });
        }
        proof {
            assert(parts[1] == s@.subrange(ranges@[1].0 as int, ranges@[1].1 as int));
        }
        let second = match parse_size_val(piece(s, &ranges, 1)) {
            Some(v) => v,
            None => return None,
        };
        if ranges.len() == 2 {
            return Some(CssRect { top: first, bottom: first, left: second, right: second });
        }
        proof {
            assert(parts[2] == s@.subrange(ranges@[2].0 as int, ranges@[2].1 as int));
        }
        let third = match parse_size_val(piece(s, &ranges, 2)) {
            Some(v) => v,
            None => return None,
        };
        if ranges.len() == 3 {
            return Some(CssRect { top: first, bottom: third, left: second, right: second });
        }
        proof {
            assert(parts[3] == s@.subrange(ranges@[3].0 as int, ranges@[3].1 as int));
        }
        let fourth = match parse_size_val(piece(s, &ranges, 3)) {
            Some(v) => v,
            None => return None,
        };
        Some(CssRect { top: first, bottom: third, left: fourth, right: second })
    }
}

impl core::str::FromStr for CssRect {
    type Err = ();

    /// `parse`, with `Err(())` in place of `None`.
    fn from_str(s: &str) -> (r: Result<Self, ()>)
        ensures
            r == match spec_parse_css_rect(s@) {
                Some(v) => Ok(v),
                None => Err(()),
            },
    {
        match CssRect::parse(s) {
            Some(r) => Ok(r),
            None => Err(()),
        }
    }
}

} // verus!
