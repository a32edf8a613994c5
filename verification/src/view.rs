//! The view tree: elements with a tag, classes, event filters and a body.

use vstd::prelude::*;
use std::hash::{Hash, Hasher};
use crate::event::EventLike;
use crate::event_filter::{EventFilter, spec_check};
use crate::text::str_eq;

verus! {

/// The kind of an element.
#[derive(Clone, Copy, Debug, PartialEq, Eq, Hash, Structural)]
pub enum Tag {
    Div,
    Button,
}

/// The tag that a selector's element name denotes.
pub open spec fn spec_parse_tag(s: Seq<char>) -> Option<Tag> {
    if s == "div"@ {
        Some(Tag::Div)
    } else if s == "button"@ {
        Some(Tag::Button)
    } else {
        None
    }
}

impl Tag {
    pub fn parse(s: &str) -> (r: Option<Tag>)
        ensures
            r == spec_parse_tag(s@),
    {
        if str_eq(s, "div") {
            Some(Tag::Div)
        } else if str_eq(s, "button") {
            Some(Tag::Button)
        } else {
            None
        }
    }
}

impl core::str::FromStr for Tag {
    type Err = ();

    /// `parse`, with `Err(())` in place of `None`.
    fn from_str(s: &str) -> (r: Result<Tag, ()>)
        ensures
            r == match spec_parse_tag(s@) {
                Some(t) => Ok(t),
                None => Err(()),
            },
    {
        match Tag::parse(s) {
            Some(t) => Ok(t),
            None => Err(()),
        }
    }
}

/// An interaction state of an element.
#[derive(Clone, Copy, Debug, PartialEq, Eq, Hash, Structural)]
pub enum ViewState {
    Normal,
    Focus,
    Hover,
}

/// A set of interaction states.
#[derive(Clone, Copy, Debug, PartialEq, Eq, Hash, Structural)]
pub struct ViewStateSet {
    pub normal: bool,
    pub focus: bool,
    pub hover: bool,
}

impl View for ViewStateSet {
    type V = Set<ViewState>;

    open spec fn view(&self) -> Set<ViewState> {
        Set::new(
            |s: ViewState|
                match s {
                    ViewState::Normal => self.normal,
                    ViewState::Focus => self.focus,
                    ViewState::Hover => self.hover,
                },
        )
    }
}

impl ViewStateSet {
    pub fn new() -> (r: ViewStateSet)
        ensures
            r@ == Set::<ViewState>::empty(),
    {
        let r = ViewStateSet { normal: false, focus: false, hover: false };
        assert(r@ =~= Set::<ViewState>::empty());
        r
    }

    pub fn contains(self, s: ViewState) -> (r: bool)
        ensures
            r == self@.contains(s),
    {
        match s {
            ViewState::Normal => self.normal,
            ViewState::Focus => self.focus,
            ViewState::Hover => self.hover,
        }
    }
}

/// The content of an element: a text with its display width, or children.
#[verifier::reject_recursive_types(E)]
pub enum ViewBody<'a, E, M> {
    Text(&'a str, u16),
    Children(&'a [TuiView<'a, E, M>]),
}

/// An element of the view tree.
#[verifier::reject_recursive_types(E)]
pub struct TuiView<'a, E, M> {
    pub tag: Tag,
    pub state: ViewStateSet,
    pub classes: &'a [&'a str],
    pub events: &'a [EventFilter<'a, E, M>],
    pub body: ViewBody<'a, E, M>,
    pub hash_tag: u64,
}

impl<'a, E, M> Clone for ViewBody<'a, E, M> {
    fn clone(&self) -> (r: Self)
        ensures
            r == *self,
    {
        *self
    }
}

impl<'a, E, M> Copy for ViewBody<'a, E, M> {
}

impl<'a, E, M> Clone for TuiView<'a, E, M> {
    fn clone(&self) -> (r: Self)
        ensures
            r == *self,
    {
        *self
    }
}

impl<'a, E, M> Copy for TuiView<'a, E, M> {
}

impl<'a, E, M> Hash for ViewBody<'a, E, M> {
    /// Feeds the text, or the children, to the hasher.
    #[verifier::external_body]
    fn hash<H: Hasher>(&self, state: &mut H) {
        match self {
            ViewBody::Text(text, _) => text.hash(state),
            ViewBody::Children(children) => children.hash(state),
        }
    }
}

impl<'a, E, M> Hash for TuiView<'a, E, M> {
    /// Feeds the tag, the classes, the state and the body to the hasher.
    #[verifier::external_body]
    fn hash<H: Hasher>(&self, state: &mut H) {
        self.tag.hash(state);
        self.classes.hash(state);
        self.state.hash(state);
        self.body.hash(state);
    }
}

/// Hashes a view with `ahash::AHasher::default()`. Trusted, with nothing
/// promised of the result: the hasher's keys are drawn when the crate is built.
#[verifier::external_body]
fn hash_view<'a, E, M>(view: &TuiView<'a, E, M>) -> u64 {
    let mut hasher = ahash::AHasher::default();
    view.hash(&mut hasher);
    hasher.finish()
}

/// The message of the first filter in `events` that `e` passes.
pub open spec fn first_event_msg<'a, E, M>(events: Seq<EventFilter<'a, E, M>>, e: E) -> Option<M>
    decreases events.len(),
{
    if events.len() == 0 {
        None
    } else {
        match spec_check(events[0], e) {
            Some(m) => Some(m),
            None => first_event_msg(events.drop_first(), e),
        }
    }
}

/// The message a view answers an event with, looking at most `depth` levels
/// down: that of its own first passing filter, else that of its first child,
/// in order, that answers at all.
pub open spec fn spec_on_event<'a, E, M>(v: TuiView<'a, E, M>, e: E, depth: nat) -> Option<M>
    decreases depth, 0nat,
{
    if depth == 0 {
        None
    } else {
        match first_event_msg(v.events@, e) {
            Some(m) => Some(m),
            None => match v.body {
                ViewBody::Text(..) => None,
                ViewBody::Children(cs) => spec_children_event(cs@, e, (depth - 1) as nat),
            },
        }
    }
}

/// The message of the first view of `cs`, in order, that answers `e`.
pub open spec fn spec_children_event<'a, E, M>(cs: Seq<TuiView<'a, E, M>>, e: E, depth: nat) -> Option<M>
    decreases depth, cs.len(),
{
    if cs.len() == 0 {
        None
    } else {
        match spec_on_event(cs[0], e, depth) {
            Some(m) => Some(m),
            None => spec_children_event(cs.drop_first(), e, depth),
        }
    }
}

/// The depth to which event handling and layout look into the view tree: no
/// tree that fits in memory is deeper.
pub open spec fn max_depth() -> nat {
    u64::MAX as nat
}

impl<'a, E, M> TuiView<'a, E, M> {
    pub fn new(
        tag: Tag,
        classes: &'a [&'a str],
        events: &'a [EventFilter<'a, E, M>],
        body: ViewBody<'a, E, M>,
    ) -> (r: Self)
        ensures
            r.tag == tag,
            r.state@ == Set::<ViewState>::empty(),
            r.classes == classes,
            r.events == events,
            r.body == body,
    {
        let mut view = Self { tag, state: ViewStateSet::new(), classes, events, body, hash_tag: 0 };
        view.hash_tag = hash_view(&view);
        view
    }

    pub fn hash_tag(self) -> (r: u64)
        ensures
            r == self.hash_tag,
    {
        self.hash_tag
    }

    pub fn tag(self) -> (r: Tag)
        ensures
            r == self.tag,
    {
        self.tag
    }

    pub fn classes(self) -> (r: &'a [&'a str])
        ensures
            r == self.classes,
    {
        self.classes
    }

    pub fn state(self) -> (r: ViewStateSet)
        ensures
            r == self.state,
    {
        self.state
    }

    pub fn has_state(self, state: ViewState) -> (r: bool)
        ensures
            r == self.state@.contains(state),
    {
        self.state.contains(state)
    }

    pub fn body(self) -> (r: ViewBody<'a, E, M>)
        ensures
            r == self.body,
    {
        self.body
    }

    pub fn children(self) -> (r: &'a [TuiView<'a, E, M>])
        ensures
            r@ == (match self.body {
                ViewBody::Children(cs) => cs@,
                ViewBody::Text(..) => Seq::<TuiView<'a, E, M>>::empty(),
            }),
    {
        match self.body {
            ViewBody::Children(children) => children,
            _ => &[],
        }
    }
}

fn first_event_msg_exec<'a, E, M: Copy>(events: &'a [EventFilter<'a, E, M>], e: &E) -> (r: Option<M>)
    ensures
        r == first_event_msg(events@, *e),
{
    let mut i: usize = 0;
    proof {
        assert(events@.skip(0) =~= events@);
    }
    while i < events.len()
        invariant
            i <= events@.len(),
            first_event_msg(events@, *e) == first_event_msg(events@.skip(i as int), *e),
        decreases events@.len() - i,
    {
        proof {
            assert(events@.skip(i as int).drop_first() =~= events@.skip(i + 1));
        }
        if let Some(m) = events[i].check(e) {
            return Some(m);
        }
        i = i + 1;
    }
    None
}

impl<'a, E: EventLike + Copy, M: Copy> TuiView<'a, E, M> {
    /// The message this view answers `e` with, if any: its own filters first,
    /// then its children in order.
    pub fn on_event(self, e: E) -> (r: Option<M>)
        ensures
            r == spec_on_event(self, e, max_depth()),
    {
        self.on_event_within(e, u64::MAX)
    }

    fn on_event_within(self, e: E, depth: u64) -> (r: Option<M>)
        ensures
            r == spec_on_event(self, e, depth as nat),
        decreases depth, 0nat,
    {
        if depth == 0 {
            return None;
        }
        if let Some(m) = first_event_msg_exec(self.events, &e) {
            return Some(m);
        }
        match self.body {
            ViewBody::Text(..) => None,
            ViewBody::Children(children) => children_on_event(children, e, depth - 1),
        }
    }
}

fn children_on_event<'a, E: EventLike + Copy, M: Copy>(
    children: &'a [TuiView<'a, E, M>],
    e: E,
    depth: u64,
) -> (r: Option<M>)
    ensures
        r == spec_children_event(children@, e, depth as nat),
    decreases depth, children@.len(),
{
    let mut i: usize = 0;
    proof {
        assert(children@.skip(0) =~= children@);
    }
    while i < children.len()
        invariant
            i <= children@.len(),
            spec_children_event(children@, e, depth as nat) == spec_children_event(
                children@.skip(i as int),
                e,
                depth as nat,
            ),
        decreases children@.len() - i,
    {
        proof {
            assert(children@.skip(i as int).drop_first() =~= children@.skip(i + 1));
        }
        if let Some(m) = children[i].on_event_within(e, depth) {
            return Some(m);
        }
        i = i + 1;
    }
    None
}

/// Whether two lists of class names hold the same names in the same order.
pub open spec fn strs_eq(a: Seq<&str>, b: Seq<&str>) -> bool {
    a.len() == b.len() && forall|i: int| 0 <= i < a.len() ==> #[trigger] a[i]@ == b[i]@
}

/// Whether two views are equal, looking at most `depth` levels down: the
/// same tag, classes and state, and equal bodies. Event filters are not
/// compared.
pub open spec fn views_eq<'a, E, M>(a: TuiView<'a, E, M>, b: TuiView<'a, E, M>, depth: nat) -> bool
    decreases depth, 1nat, 0nat,
{
    &&& a.tag == b.tag
    &&& strs_eq(a.classes@, b.classes@)
    &&& a.state == b.state
    &&& bodies_eq(a.body, b.body, depth)
}

/// Whether two bodies are equal, looking at most `depth` levels down: the
/// same text (whatever width is given with it), or children equal one by one.
pub open spec fn bodies_eq<'a, E, M>(a: ViewBody<'a, E, M>, b: ViewBody<'a, E, M>, depth: nat) -> bool
    decreases depth, 0nat, 0nat,
{
    match a {
        ViewBody::Text(l, _) => match b {
            ViewBody::Text(r, _) => l@ == r@,
            ViewBody::Children(_) => false,
        },
        ViewBody::Children(l) => match b {
            ViewBody::Text(..) => false,
            ViewBody::Children(r) => depth > 0 && children_eq(l@, r@, (depth - 1) as nat),
        },
    }
}

/// Whether two lists of views are equal one by one, looking at most
/// `depth` levels down.
pub open spec fn children_eq<'a, E, M>(l: Seq<TuiView<'a, E, M>>, r: Seq<TuiView<'a, E, M>>, depth: nat) -> bool
    decreases depth, 2nat, l.len(),
{
    if l.len() != r.len() {
        false
    } else if l.len() == 0 {
        true
    } else {
        views_eq(l[0], r[0], depth) && children_eq(l.drop_first(), r.drop_first(), depth)
    }
}

fn strs_eq_exec(a: &[&str], b: &[&str]) -> (r: bool)
    ensures
        r == strs_eq(a@, b@),
{
    if a.len() != b.len() {
        return false;
    }
    let mut i: usize = 0;
    while i < a.len()
        invariant
            i <= a@.len(),
            a@.len() == b@.len(),
            forall|k: int| 0 <= k < i ==> #[trigger] a@[k]@ == b@[k]@,
        decreases a@.len() - i,
    {
        if !str_eq(a[i], b[i]) {
            return false;
        }
        i = i + 1;
    }
    true
}

fn views_eq_within<'a, E, M>(a: &TuiView<'a, E, M>, b: &TuiView<'a, E, M>, depth: u64) -> (r: bool)
    ensures
        r == views_eq(*a, *b, depth as nat),
    decreases depth, 1nat, 0nat,
{
    a.tag == b.tag && strs_eq_exec(a.classes, b.classes) && a.state.normal == b.state.normal
        && a.state.focus == b.state.focus && a.state.hover == b.state.hover && bodies_eq_within(
        &a.body,
        &b.body,
        depth,
    )
}

fn bodies_eq_within<'a, E, M>(a: &ViewBody<'a, E, M>, b: &ViewBody<'a, E, M>, depth: u64) -> (r: bool)
    ensures
        r == bodies_eq(*a, *b, depth as nat),
    decreases depth, 0nat, 0nat,
{
    match (*a, *b) {
        (ViewBody::Text(l, _), ViewBody::Text(r, _)) => str_eq(l, r),
        (ViewBody::Children(l), ViewBody::Children(r)) => {
            if depth == 0 {
                return false;
            }
            children_eq_within(l, r, depth - 1)
        },
        _ => false,
    }
}

fn children_eq_within<'a, E, M>(l: &'a [TuiView<'a, E, M>], r: &'a [TuiView<'a, E, M>], depth: u64) -> (res: bool)
    ensures
        res == children_eq(l@, r@, depth as nat),
    decreases depth, 2nat, l@.len(),
{
    if l.len() != r.len() {
        return false;
    }
    let mut i: usize = 0;
    proof {
        assert(l@.skip(0) =~= l@);
        assert(r@.skip(0) =~= r@);
    }
    while i < l.len()
        invariant
            i <= l@.len(),
            l@.len() == r@.len(),
            children_eq(l@, r@, depth as nat) == children_eq(
                l@.skip(i as int),
                r@.skip(i as int),
                depth as nat,
            ),
        decreases l@.len() - i,
    {
        proof {
            assert(l@.skip(i as int).drop_first() =~= l@.skip(i + 1));
            assert(r@.skip(i as int).drop_first() =~= r@.skip(i + 1));
        }
        if !views_eq_within(&l[i], &r[i], depth) {
            return false;
        }
        i = i + 1;
    }
    true
}

impl<'a, E, M> PartialEq for ViewBody<'a, E, M> {
    fn eq(&self, other: &Self) -> (r: bool) {
        bodies_eq_within(self, other, u64::MAX)
    }
}

impl<'a, E, M> vstd::std_specs::cmp::PartialEqSpecImpl for ViewBody<'a, E, M> {
    open spec fn obeys_eq_spec() -> bool {
        true
    }

    open spec fn eq_spec(&self, other: &Self) -> bool {
        bodies_eq(*self, *other, max_depth())
    }
}

impl<'a, E, M> PartialEq for TuiView<'a, E, M> {
    fn eq(&self, other: &Self) -> (r: bool) {
        views_eq_within(self, other, u64::MAX)
    }
}

impl<'a, E, M> vstd::std_specs::cmp::PartialEqSpecImpl for TuiView<'a, E, M> {
    open spec fn obeys_eq_spec() -> bool {
        true
    }

    open spec fn eq_spec(&self, other: &Self) -> bool {
        views_eq(*self, *other, max_depth())
    }
}

impl<'a, E, M> Eq for TuiView<'a, E, M> {
}

} // verus!
