use vstd::prelude::*;

verus! {

/// Merging two declarations of the same CSS property into one.
pub trait Combine: Sized {
    /// The merged value, as a mathematical function.
    spec fn spec_combine(self, other: Self) -> Self;

    fn combine(self, other: Self) -> (r: Self)
        ensures
            r == self.spec_combine(other),
    ;
}

} // verus!
