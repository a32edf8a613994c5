//! An application: state that messages update and that builds its views.

use vstd::prelude::*;
use crate::update_result::UpdateResult;
use crate::view::TuiView;

verus! {

/// An application's model: it takes messages and builds the view tree for
/// its current state in an arena.
pub trait Model<E> {
    type Msg;

    fn update(&mut self, msg: Self::Msg) -> UpdateResult;

    fn view<'a>(&self, b: &'a bumpalo::Bump) -> TuiView<'a, E, Self::Msg>;
}

} // verus!
