use vstd::prelude::*;

verus! {

/// What a model's update came to.
#[derive(Clone, Copy, Debug, PartialEq, Eq, Structural)]
pub enum UpdateResult {
    Redraw,
    Ignore,
    Exit,
}

pub use UpdateResult::{Exit, Ignore, Redraw};

/// Two results merged: a redraw wins, then an exit; otherwise `Ignore`.
pub open spec fn spec_or(l: UpdateResult, r: UpdateResult) -> UpdateResult {
    if l == UpdateResult::Redraw || r == UpdateResult::Redraw {
        UpdateResult::Redraw
    } else if l == UpdateResult::Exit || r == UpdateResult::Exit {
        UpdateResult::Exit
    } else if r == UpdateResult::Ignore {
        l
    } else {
        UpdateResult::Ignore
    }
}

impl UpdateResult {
    pub fn is_exit(self) -> (r: bool)
        ensures
            r == (self == UpdateResult::Exit),
    {
        self == Exit
    }

    pub fn is_ignore(self) -> (r: bool)
        ensures
            r == (self == UpdateResult::Ignore),
    {
        self == Ignore
    }

    pub fn is_redraw(self) -> (r: bool)
        ensures
            r == (self == UpdateResult::Redraw),
    {
        self == Redraw
    }
}

impl core::ops::BitOr for UpdateResult {
    type Output = UpdateResult;

    fn bitor(self, rhs: UpdateResult) -> (r: UpdateResult)
        ensures
            r == spec_or(self, rhs),
    {
        if self.is_redraw() || rhs.is_redraw() {
            Redraw
        } else if self.is_exit() || rhs.is_exit() {
            Exit
        } else if rhs.is_ignore() {
            self
        } else {
            Ignore
        }
    }
}

impl vstd::std_specs::ops::BitOrSpecImpl for UpdateResult {
    open spec fn obeys_bitor_spec() -> bool {
        true
    }

    open spec fn bitor_req(self, rhs: UpdateResult) -> bool {
        true
    }

    open spec fn bitor_spec(self, rhs: UpdateResult) -> UpdateResult {
        spec_or(self, rhs)
    }
}

/// Merging results is associative and commutative, `Ignore` changes nothing,
/// `Redraw` absorbs everything, and an `Exit` is only outranked by `Redraw`.
pub proof fn lemma_update_result_or(a: UpdateResult, b: UpdateResult, c: UpdateResult)
    ensures
        spec_or(spec_or(a, b), c) == spec_or(a, spec_or(b, c)),
        spec_or(a, b) == spec_or(b, a),
        spec_or(a, UpdateResult::Ignore) == a,
        spec_or(UpdateResult::Ignore, a) == a,
        spec_or(a, UpdateResult::Redraw) == UpdateResult::Redraw,
        a != UpdateResult::Redraw ==> spec_or(a, UpdateResult::Exit) == UpdateResult::Exit,
        spec_or(a, a) == a,
{
}

} // verus!
