use vstd::prelude::*;
use crate::css::calc::Calc;
use crate::css::combine::Combine;

verus! {

/// A declared CSS value, or `Inherit` where the element takes its parent's.
#[derive(Clone, Copy, Debug, PartialEq, Eq, Structural)]
pub enum CssVal<T: Copy> {
    Val(T),
    Inherit,
}

impl<T: Copy + Combine> Combine for CssVal<T> {
    /// Two values merge by their own rule; a value wins over `Inherit`.
    open spec fn spec_combine(self, rhs: Self) -> Self {
        match (self, rhs) {
            (CssVal::Val(l), CssVal::Val(r)) => CssVal::Val(l.spec_combine(r)),
            (CssVal::Val(v), _) => CssVal::Val(v),
            (_, CssVal::Val(v)) => CssVal::Val(v),
            _ => CssVal::Inherit,
        }
    }

    fn combine(self, rhs: Self) -> (r: Self) {
        match (self, rhs) {
            (CssVal::Val(l), CssVal::Val(r)) => CssVal::Val(l.combine(r)),
            (CssVal::Val(v), _) | (_, CssVal::Val(v)) => CssVal::Val(v),
            _ => CssVal::Inherit,
        }
    }
}

impl<T: Copy> Calc for CssVal<T> {
    type Output = T;

    /// A declared value is used as is; `Inherit` takes the parent's.
    open spec fn spec_calc(self, parent: T) -> T {
        match self {
            CssVal::Val(v) => v,
            CssVal::Inherit => parent,
        }
    }

    fn calc(self, parent: T) -> (r: T) {
        match self {
            CssVal::Val(v) => v,
            _ => parent,
        }
    }
}

impl<T: Copy> Default for CssVal<T> {
    fn default() -> (r: Self)
        ensures
            r == CssVal::<T>::Inherit,
    {
        CssVal::Inherit
    }
}

impl<T: Copy> CssVal<T> {
    /// Resolves a declared value against its parent with the value's own
    /// `Calc`; `Inherit` takes the parent as it is.
    pub fn nest_calc<U>(self, parent: U) -> (r: U) where T: Calc<Output = U>
        ensures
            r == (match self {
                CssVal::Val(v) => v.spec_calc(parent),
                CssVal::Inherit => parent,
            }),
    {
        match self {
            CssVal::Val(val) => val.calc(parent),
            CssVal::Inherit => parent,
        }
    }

    pub fn and_then<F: FnOnce(T) -> Self>(self, f: F) -> (r: Self)
        requires
            self matches CssVal::Val(v) ==> call_requires(f, (v,)),
        ensures
            self matches CssVal::Val(v) ==> call_ensures(f, (v,), r),
            self is Inherit ==> r is Inherit,
    {
        match self {
            CssVal::Val(val) => f(val),
            CssVal::Inherit => CssVal::Inherit,
        }
    }

    pub fn map<U: Copy, F: FnOnce(T) -> U>(self, f: F) -> (r: CssVal<U>)
        requires
            self matches CssVal::Val(v) ==> call_requires(f, (v,)),
        ensures
            self matches CssVal::Val(v) ==> (r matches CssVal::Val(u) && call_ensures(f, (v,), u)),
            self is Inherit ==> r is Inherit,
    {
        match self {
            CssVal::Val(val) => CssVal::Val(f(val)),
            CssVal::Inherit => CssVal::Inherit,
        }
    }

    /// The declared value, after storing `v` where there was none.
    pub fn get_or_insert(&mut self, v: T) -> (r: &mut T)
        ensures
            *r == (match *old(self) {
                CssVal::Val(x) => x,
                CssVal::Inherit => v,
            }),
            *final(self) == CssVal::Val(*final(r)),
        decreases 0nat,
    {
        if let CssVal::Inherit = *self {
            *self = CssVal::Val(v);
        }
        match self {
            CssVal::Val(val) => val,
            CssVal::Inherit => self.get_or_insert(v),
        }
    }
}

} // verus!
