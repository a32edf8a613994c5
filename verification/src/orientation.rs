//! Which way a view lays out or scrolls.

use vstd::prelude::*;

verus! {

/// Along the rows (horizontal) or along the columns (vertical).
#[derive(Clone, Copy, Debug, PartialEq, Eq, Structural)]
pub enum Orientation {
    Horizontal,
    Vertical,
}

} // verus!
