//! Building view trees in an arena.

use vstd::prelude::*;
use crate::event::{EventLike, KeyEventLike, MouseEventLike};
use crate::event_filter::{EventFilter, EventPredicate};
use crate::util::{str_width, unicode_str_width};
use crate::view::{Tag, TuiView, ViewBody, ViewState};

verus! {

broadcast use vstd::slice::group_slice_axioms;

#[verifier::external_type_specification]
#[verifier::external_body]
pub struct ExBump<const MIN_ALIGN: usize>(bumpalo::Bump<MIN_ALIGN>);

/// Calls `bumpalo::Bump::alloc`. Trusted: the arena holds `v` as it was given
/// and hands back a reference to it; it panics only when memory runs out.
#[verifier::external_body]
fn bump_alloc<'a, T>(b: &'a bumpalo::Bump, v: T) -> (r: &'a T)
    ensures
        *r == v,
{
    b.alloc(v)
}

/// Calls `bumpalo::Bump::alloc_str`. Trusted: the arena holds a copy of `s`.
#[verifier::external_body]
fn bump_alloc_str<'a>(b: &'a bumpalo::Bump, s: &str) -> (r: &'a str)
    ensures
        r@ == s@,
{
    b.alloc_str(s)
}

/// Calls `bumpalo::Bump::alloc_slice_copy`. Trusted: the arena holds a copy of
/// the elements of `v`, in order.
#[verifier::external_body]
fn bump_alloc_slice<'a, T: Copy>(b: &'a bumpalo::Bump, v: &[T]) -> (r: &'a [T])
    ensures
        r@ == v@,
{
    b.alloc_slice_copy(v)
}

/// The event predicate of `ctrl_char`: a character typed with the control key.
#[derive(Clone, Copy, Debug, PartialEq, Eq, Structural)]
pub struct CtrlCharFilter {
    pub ch: char,
}

impl<E: EventLike> EventPredicate<E> for CtrlCharFilter {
    open spec fn spec_test(&self, e: E) -> bool {
        match e.spec_key() {
            Some(k) => k.spec_ctrl_char() == Some(self.ch),
            None => false,
        }
    }

    fn test(&self, e: &E) -> (r: bool) {
        match e.try_key() {
            Some(ke) => match ke.try_ctrl_char() {
                Some(c) => c == self.ch,
                None => false,
            },
            None => false,
        }
    }
}

/// The event predicate of `click`: the left mouse button pressed.
#[derive(Clone, Copy, Debug, PartialEq, Eq, Structural)]
pub struct ClickFilter;

impl<E: EventLike> EventPredicate<E> for ClickFilter {
    open spec fn spec_test(&self, e: E) -> bool {
        match e.spec_mouse() {
            Some(m) => m.spec_left_down() is Some,
            None => false,
        }
    }

    fn test(&self, e: &E) -> (r: bool) {
        match e.try_mouse() {
            Some(me) => me.try_left_down().is_some(),
            None => false,
        }
    }
}

/// Collects the event filters of a view.
#[verifier::reject_recursive_types(E)]
pub struct EventBuilder<'a, E, M> {
    b: &'a bumpalo::Bump,
    events: Vec<EventFilter<'a, E, M>>,
}

impl<'a, E, M> EventBuilder<'a, E, M> {
    pub closed spec fn spec_events(&self) -> Seq<EventFilter<'a, E, M>> {
        self.events@
    }

    pub fn new(b: &'a bumpalo::Bump) -> (r: Self)
        ensures
            r.spec_events() == Seq::<EventFilter<'a, E, M>>::empty(),
    {
        Self { b, events: Vec::new() }
    }
}

impl<'a, E: EventLike + 'a, M: Copy> EventBuilder<'a, E, M> {
    /// Adds a filter that sends `msg` on `ch` typed with the control key.
    pub fn ctrl_char(self, ch: char, msg: M) -> (r: Self)
        ensures
            r.spec_events().len() == self.spec_events().len() + 1,
            r.spec_events().drop_last() == self.spec_events(),
            r.spec_events().last().msg == msg,
    {
        let mut s = self;
        let f: &'a CtrlCharFilter = bump_alloc(s.b, CtrlCharFilter { ch });
        s.events.push(EventFilter::new(f, msg));
        proof {
            assert(s.events@.drop_last() =~= self.events@);
        }
        s
    }

    /// Adds a filter that sends `msg` on a left click.
    pub fn click(self, msg: M) -> (r: Self)
        ensures
            r.spec_events().len() == self.spec_events().len() + 1,
            r.spec_events().drop_last() == self.spec_events(),
            r.spec_events().last().msg == msg,
    {
        let mut s = self;
        let f: &'a ClickFilter = bump_alloc(s.b, ClickFilter);
        s.events.push(EventFilter::new(f, msg));
        proof {
            assert(s.events@.drop_last() =~= self.events@);
        }
        s
    }
}

/// Collects the children of a view.
#[verifier::reject_recursive_types(E)]
pub struct BodyBuilder<'a, E, M> {
    b: &'a bumpalo::Bump,
    children: Vec<TuiView<'a, E, M>>,
}

impl<'a, E, M> BodyBuilder<'a, E, M> {
    pub closed spec fn spec_children(&self) -> Seq<TuiView<'a, E, M>> {
        self.children@
    }

    pub fn new(b: &'a bumpalo::Bump) -> (r: Self)
        ensures
            r.spec_children() == Seq::<TuiView<'a, E, M>>::empty(),
    {
        Self { b, children: Vec::new() }
    }

    /// A copy of `text` in the arena.
    pub fn text(self, text: &str) -> (r: &'a str)
        ensures
            r@ == text@,
    {
        bump_alloc_str(self.b, text)
    }

    pub fn child(self, child: TuiView<'a, E, M>) -> (r: Self)
        ensures
            r.spec_children() == self.spec_children().push(child),
    {
        let mut s = self;
        s.children.push(child);
        s
    }
}

/// A value that builds into a part of a view.
pub trait Builder<T>: Sized {
    /// Whether `t` is what this value builds into.
    spec fn builds_into(&self, t: T) -> bool;

    fn build(self) -> (r: T)
        ensures
            self.builds_into(r),
    ;
}

impl<'a, E, M> Builder<ViewBody<'a, E, M>> for BodyBuilder<'a, E, M> {
    /// The children, in order.
    open spec fn builds_into(&self, t: ViewBody<'a, E, M>) -> bool {
        t matches ViewBody::Children(cs) && cs@ == self.spec_children()
    }

    fn build(self) -> (r: ViewBody<'a, E, M>) {
        ViewBody::Children(bump_alloc_slice(self.b, self.children.as_slice()))
    }
}

impl<'a, E, M> Builder<ViewBody<'a, E, M>> for &'a str {
    /// The text with its display width.
    open spec fn builds_into(&self, t: ViewBody<'a, E, M>) -> bool {
        t == ViewBody::<'a, E, M>::Text(*self, unicode_str_width(self@) as u16)
    }

    fn build(self) -> (r: ViewBody<'a, E, M>) {
        ViewBody::Text(self, str_width(self) as u16)
    }
}

impl<'a, E, M: Copy> Builder<&'a [EventFilter<'a, E, M>]> for EventBuilder<'a, E, M> {
    /// The filters, in order.
    open spec fn builds_into(&self, t: &'a [EventFilter<'a, E, M>]) -> bool {
        t@ == self.spec_events()
    }

    fn build(self) -> (r: &'a [EventFilter<'a, E, M>]) {
        bump_alloc_slice(self.b, self.events.as_slice())
    }
}

impl<'a, T> Builder<&'a [T]> for () {
    /// Nothing.
    open spec fn builds_into(&self, t: &'a [T]) -> bool {
        t@ == Seq::<T>::empty()
    }

    fn build(self) -> (r: &'a [T]) {
        let r: &'a [T] = &[];
        assert(r@ =~= Seq::<T>::empty());
        r
    }
}

impl<T> Builder<T> for T {
    /// The value itself.
    open spec fn builds_into(&self, t: T) -> bool {
        t == *self
    }

    fn build(self) -> (r: T) {
        self
    }
}

/// A copy of `classes` in the arena.
pub fn class_ref<'a>(b: &'a bumpalo::Bump, classes: &[&'a str]) -> (r: &'a [&'a str])
    ensures
        r@ == classes@,
{
    bump_alloc_slice(b, classes)
}

/// Copies of `classes` and of their names in the arena.
pub fn class<'a, 'b>(b: &'a bumpalo::Bump, classes: &[&'b str]) -> (r: &'a [&'a str])
    ensures
        r@.len() == classes@.len(),
        forall|i: int| 0 <= i < classes@.len() ==> r@[i]@ == classes@[i]@,
{
    let mut v: Vec<&'a str> = Vec::new();
    let mut i: usize = 0;
    while i < classes.len()
        invariant
            i <= classes@.len(),
            v@.len() == i,
            forall|j: int| 0 <= j < i ==> v@[j]@ == classes@[j]@,
        decreases classes@.len() - i,
    {
        v.push(bump_alloc_str(b, classes[i]));
        i = i + 1;
    }
    bump_alloc_slice(b, v.as_slice())
}

pub fn event<'a, E, M>(b: &'a bumpalo::Bump) -> (r: EventBuilder<'a, E, M>)
    ensures
        r.spec_events() == Seq::<EventFilter<'a, E, M>>::empty(),
{
    EventBuilder::new(b)
}

pub fn body<'a, E, M>(b: &'a bumpalo::Bump) -> (r: BodyBuilder<'a, E, M>)
    ensures
        r.spec_children() == Seq::<TuiView<'a, E, M>>::empty(),
{
    BodyBuilder::new(b)
}

/// A `div` element with what `classes`, `events` and `body` build into.
pub fn div<'a, E, M, C, V, B>(classes: C, events: V, body: B) -> (r: TuiView<'a, E, M>) where
    C: Builder<&'a [&'a str]>,
    V: Builder<&'a [EventFilter<'a, E, M>]>,
    B: Builder<ViewBody<'a, E, M>>,

    ensures
        r.tag == Tag::Div,
        r.state@ == Set::<ViewState>::empty(),
        classes.builds_into(r.classes),
        events.builds_into(r.events),
        body.builds_into(r.body),
{
    let c = classes.build();
    let e = events.build();
    let bd = body.build();
    TuiView::new(Tag::Div, c, e, bd)
}

} // verus!
