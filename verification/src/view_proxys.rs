//! Views that stand in front of another view and change what it is given
//! or what it answers.

use vstd::prelude::*;
use core::marker::PhantomData;

verus! {

/// An inner view whose messages are passed through `f`.
pub struct MapView<V, U, F> {
    inner: V,
    f: F,
    _marker: PhantomData<U>,
}

impl<V, U, F> MapView<V, U, F> {
    pub closed spec fn spec_inner(&self) -> V {
        self.inner
    }

    pub closed spec fn spec_f(&self) -> F {
        self.f
    }

    pub fn new(inner: V, f: F) -> (r: Self)
        ensures
            r.spec_inner() == inner,
            r.spec_f() == f,
    {
        MapView { inner, f, _marker: PhantomData }
    }
}

/// An inner view whose events are passed through `f` before it sees them.
pub struct MapE<V, E, F> {
    inner: V,
    f: F,
    _marker: PhantomData<E>,
}

impl<V, E, F> MapE<V, E, F> {
    pub closed spec fn spec_inner(&self) -> V {
        self.inner
    }

    pub closed spec fn spec_f(&self) -> F {
        self.f
    }

    pub fn new(inner: V, f: F) -> (r: Self)
        ensures
            r.spec_inner() == inner,
            r.spec_f() == f,
    {
        MapE { inner, f, _marker: PhantomData }
    }
}

} // verus!
