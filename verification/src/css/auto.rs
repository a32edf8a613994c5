use vstd::prelude::*;
use crate::css::calc::Calc;
use crate::css::combine::Combine;
use crate::css::size::{CssSize, calc_size_ok, spec_calc_size, spec_parse_size};
use crate::text::str_eq;

verus! {

/// A value given by hand, or `auto`, where the layout decides.
#[derive(Clone, Copy, Debug, PartialEq, Eq, Structural)]
pub enum CssAuto<T> {
    Manual(T),
    Auto,
}

impl CssAuto<CssSize> {
    /// The size a manual length resolves to against `max`; nothing for `auto`.
    pub fn calc_size(self, max: u16) -> (r: Option<u16>)
        requires
            self matches CssAuto::Manual(v) ==> calc_size_ok(v, max),
        ensures
            r == (match self {
                CssAuto::Manual(v) => Some(spec_calc_size(v, max)),
                CssAuto::Auto => None,
            }),
    {
        match self {
            CssAuto::Manual(val) => Some(val.calc_size(max)),
            _ => None,
        }
    }

    /// Parses `auto`, or a length.
    pub fn parse(s: &str) -> (r: Option<CssAuto<CssSize>>)
        ensures
            r == (if s@ == "auto"@ {
                Some(CssAuto::Auto)
            } else {
                match spec_parse_size(s@) {
                    Some(v) => Some(CssAuto::Manual(v)),
                    None => None,
                }
            }),
    {
        if str_eq(s, "auto") {
            Some(CssAuto::Auto)
        } else {
            match CssSize::parse(s) {
                Some(v) => Some(CssAuto::Manual(v)),
                None => None,
            }
        }
    }
}

impl<T> Calc for CssAuto<T> {
    type Output = T;

    /// A manual value is used; `auto` takes what it is given.
    open spec fn spec_calc(self, other: T) -> T {
        match self {
            CssAuto::Manual(v) => v,
            CssAuto::Auto => other,
        }
    }

    fn calc(self, other: T) -> (r: T) {
        match self {
            CssAuto::Manual(val) => val,
            CssAuto::Auto => other,
        }
    }
}

impl<T> Default for CssAuto<T> {
    fn default() -> (r: Self)
        ensures
            r is Auto,
    {
        CssAuto::Auto
    }
}

impl<T> Combine for CssAuto<T> {
    /// A manual value wins over `auto`; of two manual values the later one.
    open spec fn spec_combine(self, other: Self) -> Self {
        match (self, other) {
            (_, CssAuto::Manual(v)) => CssAuto::Manual(v),
            (CssAuto::Manual(v), _) => CssAuto::Manual(v),
            _ => CssAuto::Auto,
        }
    }

    fn combine(self, other: Self) -> (r: Self) {
        match (self, other) {
            (_, ret @ CssAuto::Manual(_)) | (ret @ CssAuto::Manual(_), _) => ret,
            _ => CssAuto::Auto,
        }
    }
}

impl core::str::FromStr for CssAuto<CssSize> {
    type Err = ();

    /// `parse`, with `Err(())` in place of `None`.
    fn from_str(s: &str) -> (r: Result<Self, ()>)
        ensures
            r == (if s@ == "auto"@ {
                Ok(CssAuto::Auto)
            } else {
                match spec_parse_size(s@) {
                    Some(v) => Ok(CssAuto::Manual(v)),
                    None => Err(()),
                }
            }),
    {
        match CssAuto::<CssSize>::parse(s) {
            Some(v) => Ok(v),
            None => Err(()),
        }
    }
}

} // verus!
