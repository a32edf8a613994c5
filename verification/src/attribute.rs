//! The classes and event filters attached to a view.

use vstd::prelude::*;
use crate::event_filter::EventFilter;

verus! {

/// A view's classes, for the style sheet, and its event filters.
#[verifier::reject_recursive_types(E)]
pub struct Attribute<'a, E, M> {
    pub class: &'a [&'a str],
    pub events: &'a [EventFilter<'a, E, M>],
}

impl<'a, E, M> Clone for Attribute<'a, E, M> {
    fn clone(&self) -> (r: Self)
        ensures
            r == *self,
    {
        *self
    }
}

impl<'a, E, M> Copy for Attribute<'a, E, M> {
}

impl<'a, E, M> Default for Attribute<'a, E, M> {
    /// No classes and no event filters.
    fn default() -> (r: Self)
        ensures
            r.class@.len() == 0,
            r.events@.len() == 0,
    {
        Self::new(&[], &[])
    }
}

impl<'a, E, M> Attribute<'a, E, M> {
    pub fn new(class: &'a [&'a str], events: &'a [EventFilter<'a, E, M>]) -> (r: Self)
        ensures
            r.class == class,
            r.events == events,
    {
        Self { class, events }
    }
}

} // verus!
