//! Views that change what their inner view answers.

use vstd::prelude::*;
use core::marker::PhantomData;

verus! {

/// An inner view whose answers are passed through `f`.
pub struct MapMsg<H, U, F> {
    inner: H,
    f: F,
    _marker: PhantomData<U>,
}

impl<H, U, F> MapMsg<H, U, F> {
    pub closed spec fn spec_inner(&self) -> H {
        self.inner
    }

    pub closed spec fn spec_f(&self) -> F {
        self.f
    }

    pub fn new(inner: H, f: F) -> (r: Self)
        ensures
            r.spec_inner() == inner,
            r.spec_f() == f,
    {
        MapMsg { inner, f, _marker: PhantomData }
    }
}

/// An inner view that `f` gets to answer first; the inner view answers what
/// `f` leaves.
pub struct OrElseFirst<H, F> {
    inner: H,
    f: F,
}

impl<H, F> OrElseFirst<H, F> {
    pub closed spec fn spec_inner(&self) -> H {
        self.inner
    }

    pub closed spec fn spec_f(&self) -> F {
        self.f
    }

    pub fn new(inner: H, f: F) -> (r: Self)
        ensures
            r.spec_inner() == inner,
            r.spec_f() == f,
    {
        OrElseFirst { inner, f }
    }
}

/// An inner view that answers first; `f` answers what it leaves.
pub struct OrElse<H, F> {
    inner: H,
    f: F,
}

impl<H, F> OrElse<H, F> {
    pub closed spec fn spec_inner(&self) -> H {
        self.inner
    }

    pub closed spec fn spec_f(&self) -> F {
        self.f
    }

    pub fn new(inner: H, f: F) -> (r: Self)
        ensures
            r.spec_inner() == inner,
            r.spec_f() == f,
    {
        OrElse { inner, f }
    }
}

/// The inner view shows through.
impl<H, U, F> core::ops::Deref for MapMsg<H, U, F> {
    type Target = H;

    fn deref(&self) -> (r: &H)
        ensures
            *r == self.spec_inner(),
    {
        &self.inner
    }
}

/// The inner view shows through.
impl<H, F> core::ops::Deref for OrElseFirst<H, F> {
    type Target = H;

    fn deref(&self) -> (r: &H)
        ensures
            *r == self.spec_inner(),
    {
        &self.inner
    }
}

/// The inner view shows through.
impl<H, F> core::ops::Deref for OrElse<H, F> {
    type Target = H;

    fn deref(&self) -> (r: &H)
        ensures
            *r == self.spec_inner(),
    {
        &self.inner
    }
}

} // verus!
