//! What the library needs to know of an input event, whatever its source.

use vstd::prelude::*;
use crate::vec2::Vec2;

pub mod term;
pub mod window;

verus! {

/// A mouse event: which button did what, and where.
pub trait MouseEventLike: Sized {
    spec fn spec_left_down(&self) -> Option<Vec2>;

    spec fn spec_left_up(&self) -> Option<Vec2>;

    spec fn spec_drag(&self) -> Option<Vec2>;

    spec fn spec_scroll_up(&self) -> Option<Vec2>;

    spec fn spec_scroll_down(&self) -> Option<Vec2>;

    spec fn spec_pos(&self) -> Vec2;

    fn try_left_down(&self) -> (r: Option<Vec2>)
        ensures
            r == self.spec_left_down(),
    ;

    fn try_left_up(&self) -> (r: Option<Vec2>)
        ensures
            r == self.spec_left_up(),
    ;

    fn try_drag(&self) -> (r: Option<Vec2>)
        ensures
            r == self.spec_drag(),
    ;

    fn try_scroll_up(&self) -> (r: Option<Vec2>)
        ensures
            r == self.spec_scroll_up(),
    ;

    fn try_scroll_down(&self) -> (r: Option<Vec2>)
        ensures
            r == self.spec_scroll_down(),
    ;

    fn pos(&self) -> (r: Vec2)
        ensures
            r == self.spec_pos(),
    ;

    /// Moves the event's position through `f`.
    fn map_pos<F: FnOnce(Vec2) -> Vec2>(&mut self, f: F)
        requires
            forall|p: Vec2| call_requires(f, (p,)),
    ;

    /// Moves the event's position through `f`, unless `f` gives nothing.
    fn filter_map_pos<F: FnOnce(Vec2) -> Option<Vec2>>(&mut self, f: F) -> bool
        requires
            forall|p: Vec2| call_requires(f, (p,)),
    ;

    fn from_left_down(pos: Vec2) -> Self;

    fn from_left_up(pos: Vec2) -> Self;
}

/// A key event: which key, if any of those the library reacts to.
pub trait KeyEventLike {
    spec fn spec_char(&self) -> Option<char>;

    spec fn spec_ctrl_char(&self) -> Option<char>;

    spec fn spec_enter(&self) -> bool;

    spec fn spec_up(&self) -> bool;

    spec fn spec_down(&self) -> bool;

    spec fn spec_left(&self) -> bool;

    spec fn spec_right(&self) -> bool;

    spec fn spec_backspace(&self) -> bool;

    spec fn spec_tab(&self) -> bool;

    fn try_char(&self) -> (r: Option<char>)
        ensures
            r == self.spec_char(),
    ;

    fn try_ctrl_char(&self) -> (r: Option<char>)
        ensures
            r == self.spec_ctrl_char(),
    ;

    fn try_enter(&self) -> (r: bool)
        ensures
            r == self.spec_enter(),
    ;

    fn try_up(&self) -> (r: bool)
        ensures
            r == self.spec_up(),
    ;

    fn try_down(&self) -> (r: bool)
        ensures
            r == self.spec_down(),
    ;

    fn try_left(&self) -> (r: bool)
        ensures
            r == self.spec_left(),
    ;

    fn try_right(&self) -> (r: bool)
        ensures
            r == self.spec_right(),
    ;

    fn try_backspace(&self) -> (r: bool)
        ensures
            r == self.spec_backspace(),
    ;

    fn try_tab(&self) -> (r: bool)
        ensures
            r == self.spec_tab(),
    ;
}

/// An input event: a mouse event, a key event, a resize, or something else.
pub trait EventLike: Sized {
    type MouseEvent: MouseEventLike;

    type KeyEvent: KeyEventLike;

    spec fn spec_mouse(&self) -> Option<Self::MouseEvent>;

    spec fn spec_key(&self) -> Option<Self::KeyEvent>;

    spec fn spec_resize(&self) -> Option<Vec2>;

    fn try_mouse(&self) -> (r: Option<&Self::MouseEvent>)
        ensures
            r matches Some(m) ==> self.spec_mouse() == Some(*m),
            r is None ==> self.spec_mouse() is None,
    ;

    fn try_mouse_mut(&mut self) -> (r: Option<&mut Self::MouseEvent>)
        ensures
            r is Some <==> old(self).spec_mouse() is Some,
            r matches Some(m) ==> old(self).spec_mouse() == Some(*m),
    ;

    fn try_key(&self) -> (r: Option<&Self::KeyEvent>)
        ensures
            r matches Some(k) ==> self.spec_key() == Some(*k),
            r is None ==> self.spec_key() is None,
    ;

    fn try_key_mut(&mut self) -> (r: Option<&mut Self::KeyEvent>)
        ensures
            r is Some <==> old(self).spec_key() is Some,
            r matches Some(k) ==> old(self).spec_key() == Some(*k),
    ;

    fn try_resize(&self) -> (r: Option<Vec2>)
        ensures
            r == self.spec_resize(),
    ;
}

impl MouseEventLike for () {
    open spec fn spec_left_down(&self) -> Option<Vec2> {
        None
    }

    open spec fn spec_left_up(&self) -> Option<Vec2> {
        None
    }

    open spec fn spec_drag(&self) -> Option<Vec2> {
        None
    }

    open spec fn spec_scroll_up(&self) -> Option<Vec2> {
        None
    }

    open spec fn spec_scroll_down(&self) -> Option<Vec2> {
        None
    }

    open spec fn spec_pos(&self) -> Vec2 {
        Vec2 { x: 0, y: 0 }
    }

    fn try_left_down(&self) -> (r: Option<Vec2>) {
        None
    }

    fn try_left_up(&self) -> (r: Option<Vec2>) {
        None
    }

    fn try_drag(&self) -> (r: Option<Vec2>) {
        None
    }

    fn try_scroll_up(&self) -> (r: Option<Vec2>) {
        None
    }

    fn try_scroll_down(&self) -> (r: Option<Vec2>) {
        None
    }

    fn pos(&self) -> (r: Vec2) {
        Vec2::new(0, 0)
    }

    fn map_pos<F: FnOnce(Vec2) -> Vec2>(&mut self, f: F) {
    }

    /// There is no position to move: answers `false`.
    fn filter_map_pos<F: FnOnce(Vec2) -> Option<Vec2>>(&mut self, f: F) -> (r: bool)
        ensures
            !r,
    {
        false
    }

    fn from_left_down(pos: Vec2) -> Self {
    }

    fn from_left_up(pos: Vec2) -> Self {
    }
}

impl KeyEventLike for () {
    open spec fn spec_char(&self) -> Option<char> {
        None
    }

    open spec fn spec_ctrl_char(&self) -> Option<char> {
        None
    }

    open spec fn spec_enter(&self) -> bool {
        false
    }

    open spec fn spec_up(&self) -> bool {
        false
    }

    open spec fn spec_down(&self) -> bool {
        false
    }

    open spec fn spec_left(&self) -> bool {
        false
    }

    open spec fn spec_right(&self) -> bool {
        false
    }

    open spec fn spec_backspace(&self) -> bool {
        false
    }

    open spec fn spec_tab(&self) -> bool {
        false
    }

    fn try_char(&self) -> (r: Option<char>) {
        None
    }

    fn try_ctrl_char(&self) -> (r: Option<char>) {
        None
    }

    fn try_enter(&self) -> (r: bool) {
        false
    }

    fn try_up(&self) -> (r: bool) {
        false
    }

    fn try_down(&self) -> (r: bool) {
        false
    }

    fn try_left(&self) -> (r: bool) {
        false
    }

    fn try_right(&self) -> (r: bool) {
        false
    }

    fn try_backspace(&self) -> (r: bool) {
        false
    }

    fn try_tab(&self) -> (r: bool) {
        false
    }
}

impl EventLike for () {
    type KeyEvent = ();

    type MouseEvent = ();

    open spec fn spec_mouse(&self) -> Option<()> {
        None
    }

    open spec fn spec_key(&self) -> Option<()> {
        None
    }

    open spec fn spec_resize(&self) -> Option<Vec2> {
        None
    }

    fn try_mouse(&self) -> (r: Option<&()>) {
        None
    }

    fn try_mouse_mut(&mut self) -> Option<&mut ()> {
        None
    }

    fn try_key(&self) -> (r: Option<&()>) {
        None
    }

    fn try_key_mut(&mut self) -> Option<&mut ()> {
        None
    }

    fn try_resize(&self) -> (r: Option<Vec2>) {
        None
    }
}

} // verus!
