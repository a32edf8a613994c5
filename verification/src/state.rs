//! Application state that knows whether the screen must be redrawn.

use vstd::prelude::*;

verus! {

/// State that carries a redraw flag.
pub trait RedrawState {
    spec fn spec_need_redraw(&self) -> bool;

    fn set_need_redraw(&mut self, need_redraw: bool)
        ensures
            final(self).spec_need_redraw() == need_redraw,
    ;

    fn is_need_redraw(&self) -> (r: bool)
        ensures
            r == self.spec_need_redraw(),
    ;
}

/// A bare flag is the simplest such state.
impl RedrawState for bool {
    open spec fn spec_need_redraw(&self) -> bool {
        *self
    }

    fn set_need_redraw(&mut self, need_redraw: bool) {
        *self = need_redraw;
    }

    fn is_need_redraw(&self) -> (r: bool) {
        *self
    }
}

} // verus!
