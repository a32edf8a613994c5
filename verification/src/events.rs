//! Messages that ready-made views send.

use vstd::prelude::*;

verus! {

/// A view was clicked.
#[derive(Clone, Copy, Debug, PartialEq, Eq, Structural)]
pub struct ClickEvent;

/// A character was typed.
#[derive(Clone, Copy, Debug, PartialEq, Eq, Structural)]
pub struct CharEvent(pub char);

/// Enter was pressed.
#[derive(Clone, Copy, Debug, PartialEq, Eq, Structural)]
pub struct EnterEvent;

/// Backspace was pressed.
#[derive(Clone, Copy, Debug, PartialEq, Eq, Structural)]
pub struct BackspaceEvent;

} // verus!
