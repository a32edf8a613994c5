//! What a view that can be laid out, drawn and fed events offers.

use vstd::prelude::*;
use crate::backend::{Backend, DrawOp, draws, through_ops};
use crate::event_result::EventResult;
use crate::printer::Printer;
use crate::rect::Rect;
use crate::vec2::Vec2;

verus! {

/// A view with its own state, drawn into a printer's bound and fed events
/// of type `E` along with the application state `S`.
pub trait Widget<S, E> {
    /// The size `desired_size` gives; a view whose desired size matters to
    /// a proof states it.
    open spec fn spec_desired_size(&self) -> Vec2 {
        arbitrary()
    }

    /// Whether `render` can draw into `bound`.
    open spec fn can_render(&self, bound: Rect) -> bool {
        true
    }

    /// Whether handling `event` takes the view to `after` and the application
    /// state from `state` to `after_state`, answering `r`; a view whose
    /// handling matters to a proof states it.
    open spec fn handled(
        &self,
        after: &Self,
        state: S,
        after_state: S,
        event: E,
        r: EventResult,
    ) -> bool {
        true
    }

    /// What drawing the view into `bound` does, in the printer's own
    /// positions, where the view states it; a view whose drawing matters to
    /// a proof states it.
    open spec fn render_ops(&self, bound: Rect) -> Option<Seq<DrawOp>> {
        None
    }

    /// Draws the view into the printer's bound, which it leaves in place with
    /// the printer's slices; the backend goes through `render_ops`, seen
    /// through those slices, where the view states them.
    fn render<B: Backend>(&self, printer: &mut Printer<'_, B>)
        requires
            self.can_render(old(printer).spec_bound()),
        ensures
            final(printer).spec_bound() == old(printer).spec_bound(),
            final(printer).spec_offsets() == old(printer).spec_offsets(),
            self.render_ops(old(printer).spec_bound()) matches Some(ops) ==> draws(
                old(printer).spec_backend(),
                final(printer).spec_backend(),
                through_ops(old(printer).spec_offsets(), ops),
            ),
    ;

    /// Lays the view out for `size` cells.
    fn layout(&mut self, size: Vec2);

    /// The cells the view would like to have.
    fn desired_size(&self) -> (r: Vec2)
        ensures
            r == self.spec_desired_size(),
    ;

    /// Handles `event`.
    fn on_event(&mut self, state: &mut S, event: E) -> (r: EventResult)
        ensures
            old(self).handled(final(self), *old(state), *final(state), event, r),
    ;
}

} // verus!
