use vstd::prelude::*;

verus! {

/// A test on events that decides whether a view reacts to one.
pub trait EventPredicate<E> {
    /// Whether the predicate holds of `e`, as a mathematical function.
    spec fn spec_test(&self, e: E) -> bool;

    fn test(&self, e: &E) -> (r: bool)
        ensures
            r == self.spec_test(*e),
    ;
}

/// A message that a view sends when an event passes its predicate.
#[verifier::reject_recursive_types(E)]
pub struct EventFilter<'a, E, M> {
    pub filter: &'a dyn EventPredicate<E>,
    pub msg: M,
}

impl<'a, E, M: Copy> Clone for EventFilter<'a, E, M> {
    fn clone(&self) -> (r: Self)
        ensures
            r == *self,
    {
        *self
    }
}

impl<'a, E, M: Copy> Copy for EventFilter<'a, E, M> {
}

/// What a filter answers to an event: its message if its predicate holds.
pub open spec fn spec_check<'a, E, M>(f: EventFilter<'a, E, M>, e: E) -> Option<M> {
    if f.filter.spec_test(e) {
        Some(f.msg)
    } else {
        None
    }
}

impl<'a, E, M: Copy> EventFilter<'a, E, M> {
    pub fn new(filter: &'a dyn EventPredicate<E>, msg: M) -> (r: Self)
        ensures
            r.msg == msg,
            r == (EventFilter { filter, msg }),
    {
        Self { filter, msg }
    }

    pub fn check(&self, e: &E) -> (r: Option<M>)
        ensures
            r == spec_check(*self, *e),
    {
        if self.filter.test(e) {
            Some(self.msg)
        } else {
            None
        }
    }
}

} // verus!
