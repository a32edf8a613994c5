use vstd::prelude::*;

verus! {

/// Resolving a CSS value against the value computed for the parent element.
pub trait Calc: Sized {
    type Output;

    /// The resolved value, as a mathematical function.
    spec fn spec_calc(self, parent: Self::Output) -> Self::Output;

    fn calc(self, parent: Self::Output) -> (r: Self::Output)
        ensures
            r == self.spec_calc(parent),
    ;
}

} // verus!
