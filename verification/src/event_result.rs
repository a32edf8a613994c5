use vstd::prelude::*;

verus! {

/// What handling an event came to: consumed, and whether the screen must be
/// redrawn, or ignored.
#[derive(Clone, Copy, Debug, PartialEq, Eq, Structural)]
pub enum EventResult {
    Consume(bool),
    Ignored,
}

/// Consumed, and the screen must be redrawn.
pub fn redraw() -> (r: EventResult)
    ensures
        r == EventResult::Consume(true),
{
    EventResult::Consume(true)
}

/// Consumed, with nothing to redraw.
pub fn nodraw() -> (r: EventResult)
    ensures
        r == EventResult::Consume(false),
{
    EventResult::Consume(false)
}

/// Not consumed.
pub const IGNORE: EventResult = EventResult::Ignored;

/// Two results merged: a redraw wins; otherwise the right one, unless it
/// ignored the event, in which case the left one.
pub open spec fn spec_or(l: EventResult, r: EventResult) -> EventResult {
    if l == EventResult::Consume(true) || r == EventResult::Consume(true) {
        EventResult::Consume(true)
    } else if r == EventResult::Ignored {
        l
    } else {
        r
    }
}

impl EventResult {
    pub fn is_consume(self) -> (r: bool)
        ensures
            r == (self is Consume),
    {
        !self.is_ignored()
    }

    pub fn is_ignored(self) -> (r: bool)
        ensures
            r == (self == EventResult::Ignored),
    {
        self == IGNORE
    }

    pub fn is_redraw(self) -> (r: bool)
        ensures
            r == (self == EventResult::Consume(true)),
    {
        self == EventResult::Consume(true)
    }

    pub fn is_nodraw(self) -> (r: bool)
        ensures
            r == (self == EventResult::Consume(false)),
    {
        self == EventResult::Consume(false)
    }
}

impl core::ops::BitOr for EventResult {
    type Output = EventResult;

    fn bitor(self, rhs: EventResult) -> (r: EventResult)
        ensures
            r == spec_or(self, rhs),
    {
        if self.is_redraw() || rhs.is_redraw() {
            EventResult::Consume(true)
        } else if rhs.is_ignored() {
            self
        } else {
            rhs
        }
    }
}

impl vstd::std_specs::ops::BitOrSpecImpl for EventResult {
    open spec fn obeys_bitor_spec() -> bool {
        true
    }

    open spec fn bitor_req(self, rhs: EventResult) -> bool {
        true
    }

    open spec fn bitor_spec(self, rhs: EventResult) -> EventResult {
        spec_or(self, rhs)
    }
}

/// Merging results is associative and commutative, `IGNORE` changes nothing,
/// and a consumed event that asks for a redraw absorbs everything.
pub proof fn lemma_event_result_or(a: EventResult, b: EventResult, c: EventResult)
    ensures
        spec_or(spec_or(a, b), c) == spec_or(a, spec_or(b, c)),
        spec_or(a, b) == spec_or(b, a),
        spec_or(a, EventResult::Ignored) == a,
        spec_or(EventResult::Ignored, a) == a,
        spec_or(a, EventResult::Consume(true)) == EventResult::Consume(true),
        spec_or(a, a) == a,
{
}

} // verus!
