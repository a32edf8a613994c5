use vstd::prelude::*;
use crate::css::combine::Combine;
use crate::css::number::{parse_u16, spec_parse_u16};
use crate::text::{chars_of, str_eq};
use crate::css::css_val::CssVal;

verus! {

/// A length: a fixed number of cells, or a percentage.
#[derive(Clone, Copy, Debug, PartialEq, Eq, Structural)]
pub enum CssSize {
    Fixed(u16),
    Percent(u16),
}

/// The number a size carries, whichever its kind.
pub open spec fn size_amount(s: CssSize) -> u16 {
    match s {
        CssSize::Fixed(x) => x,
        CssSize::Percent(x) => x,
    }
}

/// Whether `calc_size` can compute `s` against `max` without overflow or a
/// division by zero.
pub open spec fn calc_size_ok(s: CssSize, max: u16) -> bool {
    match s {
        CssSize::Fixed(_) => true,
        CssSize::Percent(p) => p != 0 && max * 100 <= u16::MAX,
    }
}

/// The number of cells `s` asks for against the available `max`, before
/// clamping: a fixed size as is, a percentage as `max * 100 / p`.
pub open spec fn size_want(s: CssSize, max: u16) -> int {
    match s {
        CssSize::Fixed(x) => x as int,
        CssSize::Percent(p) => (max * 100) / (p as int),
    }
}

/// The resolved size: what `s` asks for, at most `max`.
pub open spec fn spec_calc_size(s: CssSize, max: u16) -> u16 {
    let want = size_want(s, max);
    if want <= max { want as u16 } else { max }
}

/// The size that a CSS length denotes: digits for a fixed size, digits
/// followed by `%` for a percentage.
pub open spec fn spec_parse_size(s: Seq<char>) -> Option<CssSize> {
    if s.len() > 0 && s.last() == '%' {
        match spec_parse_u16(s.drop_last()) {
            Some(p) => Some(CssSize::Percent(p)),
            None => None,
        }
    } else {
        match spec_parse_u16(s) {
            Some(x) => Some(CssSize::Fixed(x)),
            None => None,
        }
    }
}

impl Combine for CssSize {
    /// A percentage wins over a fixed size; of two of a kind the larger wins.
    open spec fn spec_combine(self, other: Self) -> Self {
        match (self, other) {
            (CssSize::Percent(x), CssSize::Percent(y)) => CssSize::Percent(
                if x >= y { x } else { y },
            ),
            (CssSize::Percent(p), _) => CssSize::Percent(p),
            (_, CssSize::Percent(p)) => CssSize::Percent(p),
            (CssSize::Fixed(x), CssSize::Fixed(y)) => CssSize::Fixed(if x >= y { x } else { y }),
        }
    }

    fn combine(self, other: Self) -> (r: Self) {
        match (self, other) {
            (CssSize::Percent(x), CssSize::Percent(y)) => CssSize::Percent(
                if x >= y { x } else { y },
            ),
            (CssSize::Percent(p), _) | (_, CssSize::Percent(p)) => CssSize::Percent(p),
            (CssSize::Fixed(x), CssSize::Fixed(y)) => CssSize::Fixed(if x >= y { x } else { y }),
        }
    }
}

impl Default for CssSize {
    fn default() -> (r: Self)
        ensures
            r == CssSize::Fixed(0),
    {
        CssSize::Fixed(0)
    }
}

impl CssSize {
    pub fn is_zero(self) -> (r: bool)
        ensures
            r == (size_amount(self) == 0),
    {
        match self {
            CssSize::Fixed(x) | CssSize::Percent(x) => x == 0,
        }
    }

    /// Whether `calc_size` can resolve the size against `max`.
    pub fn can_calc_size(self, max: u16) -> (r: bool)
        ensures
            r == calc_size_ok(self, max),
    {
        match self {
            CssSize::Fixed(_) => true,
            CssSize::Percent(p) => p != 0 && (max as u32) * 100 <= 0xffff,
        }
    }

    pub fn calc_size(self, max: u16) -> (r: u16)
        requires
            calc_size_ok(self, max),
        ensures
            r == spec_calc_size(self, max),
            r <= max,
    {
        let want = match self {
            CssSize::Fixed(x) => x,
            CssSize::Percent(p) => max * 100 / p,
        };
        if want <= max { want } else { max }
    }

    /// Parses a CSS length: `12` is `Fixed(12)`, `50%` is `Percent(50)`.
    pub fn parse(s: &str) -> (r: Option<CssSize>)
        ensures
            r == spec_parse_size(s@),
    {
        let v = chars_of(s);
        let n = v.len();
        if n > 0 && v[n - 1] == '%' {
            let body = s.substring_char(0, n - 1);
            proof {
                assert(body@ =~= s@.drop_last());
            }
            match parse_u16(body) {
                Some(p) => Some(CssSize::Percent(p)),
                None => None,
            }
        } else {
            match parse_u16(s) {
                Some(x) => Some(CssSize::Fixed(x)),
                None => None,
            }
        }
    }
}

/// The value that a CSS length declaration denotes: `inherit`, or a length.
pub open spec fn spec_parse_size_val(s: Seq<char>) -> Option<CssVal<CssSize>> {
    if s == "inherit"@ {
        Some(CssVal::Inherit)
    } else {
        match spec_parse_size(s) {
            Some(v) => Some(CssVal::Val(v)),
            None => None,
        }
    }
}

/// Parses a CSS length declaration: `inherit`, or a length.
pub fn parse_size_val(s: &str) -> (r: Option<CssVal<CssSize>>)
    ensures
        r == spec_parse_size_val(s@),
{
    if str_eq(s, "inherit") {
        Some(CssVal::Inherit)
    } else {
        match CssSize::parse(s) {
            Some(v) => Some(CssVal::Val(v)),
            None => None,
        }
    }
}

impl core::str::FromStr for CssSize {
    type Err = ();

    /// `parse`, with `Err(())` in place of `None`.
    fn from_str(s: &str) -> (r: Result<Self, ()>)
        ensures
            r == match spec_parse_size(s@) {
                Some(v) => Ok(v),
                None => Err(()),
            },
    {
        match CssSize::parse(s) {
            Some(v) => Ok(v),
            None => Err(()),
        }
    }
}

} // verus!
