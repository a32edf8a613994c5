//! Terminal input events, as a terminal backend reports them.

use vstd::prelude::*;
use crate::event::{EventLike, KeyEventLike, MouseEventLike};
use crate::vec2::Vec2;

verus! {

/// The modifier keys held down with a key or a mouse event.
#[derive(Clone, Copy, Debug, PartialEq, Eq, Hash, Structural)]
pub struct KeyModifiers {
    pub bits: u8,
}

impl KeyModifiers {
    /// The control key alone.
    pub fn control() -> (r: KeyModifiers)
        ensures
            r.bits == 2,
    {
        KeyModifiers { bits: 2 }
    }

    pub fn empty() -> (r: KeyModifiers)
        ensures
            r.bits == 0,
    {
        KeyModifiers { bits: 0 }
    }

    pub fn is_empty(self) -> (r: bool)
        ensures
            r == (self.bits == 0),
    {
        self.bits == 0
    }
}

/// A key of the keyboard.
#[derive(Clone, Copy, Debug, PartialEq, Eq, Hash, Structural)]
pub enum KeyCode {
    Backspace,
    Enter,
    Left,
    Right,
    Up,
    Down,
    Home,
    End,
    PageUp,
    PageDown,
    Tab,
    BackTab,
    Delete,
    Insert,
    F(u8),
    Char(char),
    Null,
    Esc,
}

/// A key press.
#[derive(Clone, Copy, Debug, PartialEq, Eq, Hash, Structural)]
pub struct KeyEvent {
    pub code: KeyCode,
    pub modifiers: KeyModifiers,
}

/// A mouse button.
#[derive(Clone, Copy, Debug, PartialEq, Eq, Hash, Structural)]
pub enum MouseButton {
    Left,
    Right,
    Middle,
}

/// A mouse event at a column and a row.
#[derive(Clone, Copy, Debug, PartialEq, Eq, Hash, Structural)]
pub enum MouseEvent {
    Down(MouseButton, u16, u16, KeyModifiers),
    Up(MouseButton, u16, u16, KeyModifiers),
    Drag(MouseButton, u16, u16, KeyModifiers),
    ScrollDown(u16, u16, KeyModifiers),
    ScrollUp(u16, u16, KeyModifiers),
}

/// A terminal event.
#[derive(Clone, Copy, Debug, PartialEq, Eq, Hash, Structural)]
pub enum Event {
    Key(KeyEvent),
    Mouse(MouseEvent),
    Resize(u16, u16),
}

/// Whether `e` is the key `code` pressed alone.
pub open spec fn code_is(e: KeyEvent, code: KeyCode) -> bool {
    e.code == code && e.modifiers.bits == 0
}

fn code_is_exec(e: &KeyEvent, code: KeyCode) -> (r: bool)
    ensures
        r == code_is(*e, code),
{
    e.code == code && e.modifiers.is_empty()
}

impl KeyEventLike for KeyEvent {
    open spec fn spec_char(&self) -> Option<char> {
        match self.code {
            KeyCode::Char(c) => if self.modifiers.bits == 0 { Some(c) } else { None },
            _ => None,
        }
    }

    /// A character typed with the control key alone.
    open spec fn spec_ctrl_char(&self) -> Option<char> {
        match self.code {
            KeyCode::Char(c) => if self.modifiers.bits == 2 { Some(c) } else { None },
            _ => None,
        }
    }

    open spec fn spec_enter(&self) -> bool {
        code_is(*self, KeyCode::Enter)
    }

    open spec fn spec_up(&self) -> bool {
        code_is(*self, KeyCode::Up)
    }

    open spec fn spec_down(&self) -> bool {
        code_is(*self, KeyCode::Down)
    }

    open spec fn spec_left(&self) -> bool {
        code_is(*self, KeyCode::Left)
    }

    open spec fn spec_right(&self) -> bool {
        code_is(*self, KeyCode::Right)
    }

    open spec fn spec_backspace(&self) -> bool {
        code_is(*self, KeyCode::Backspace)
    }

    open spec fn spec_tab(&self) -> bool {
        code_is(*self, KeyCode::Tab)
    }

    fn try_char(&self) -> (r: Option<char>) {
        match self.code {
            KeyCode::Char(ch) => if self.modifiers.is_empty() { Some(ch) } else { None },
            _ => None,
        }
    }

    fn try_ctrl_char(&self) -> (r: Option<char>) {
        match self.code {
            KeyCode::Char(ch) => if self.modifiers.bits == 2 { Some(ch) } else { None },
            _ => None,
        }
    }

    fn try_enter(&self) -> (r: bool) {
        code_is_exec(self, KeyCode::Enter)
    }

    fn try_up(&self) -> (r: bool) {
        code_is_exec(self, KeyCode::Up)
    }

    fn try_down(&self) -> (r: bool) {
        code_is_exec(self, KeyCode::Down)
    }

    fn try_left(&self) -> (r: bool) {
        code_is_exec(self, KeyCode::Left)
    }

    fn try_right(&self) -> (r: bool) {
        code_is_exec(self, KeyCode::Right)
    }

    fn try_backspace(&self) -> (r: bool) {
        code_is_exec(self, KeyCode::Backspace)
    }

    fn try_tab(&self) -> (r: bool) {
        code_is_exec(self, KeyCode::Tab)
    }
}

/// The position of a mouse event.
pub open spec fn mouse_pos(e: MouseEvent) -> Vec2 {
    match e {
        MouseEvent::Down(_, x, y, _) => Vec2 { x, y },
        MouseEvent::Up(_, x, y, _) => Vec2 { x, y },
        MouseEvent::Drag(_, x, y, _) => Vec2 { x, y },
        MouseEvent::ScrollUp(x, y, _) => Vec2 { x, y },
        MouseEvent::ScrollDown(x, y, _) => Vec2 { x, y },
    }
}

/// The same mouse event at another position.
pub open spec fn with_mouse_pos(e: MouseEvent, p: Vec2) -> MouseEvent {
    match e {
        MouseEvent::Down(b, _, _, m) => MouseEvent::Down(b, p.x, p.y, m),
        MouseEvent::Up(b, _, _, m) => MouseEvent::Up(b, p.x, p.y, m),
        MouseEvent::Drag(b, _, _, m) => MouseEvent::Drag(b, p.x, p.y, m),
        MouseEvent::ScrollUp(_, _, m) => MouseEvent::ScrollUp(p.x, p.y, m),
        MouseEvent::ScrollDown(_, _, m) => MouseEvent::ScrollDown(p.x, p.y, m),
    }
}

impl MouseEvent {
    fn set_pos(&mut self, p: Vec2)
        ensures
            *final(self) == with_mouse_pos(*old(self), p),
    {
        *self = match *self {
            MouseEvent::Down(b, _, _, m) => MouseEvent::Down(b, p.x, p.y, m),
            MouseEvent::Up(b, _, _, m) => MouseEvent::Up(b, p.x, p.y, m),
            MouseEvent::Drag(b, _, _, m) => MouseEvent::Drag(b, p.x, p.y, m),
            MouseEvent::ScrollUp(_, _, m) => MouseEvent::ScrollUp(p.x, p.y, m),
            MouseEvent::ScrollDown(_, _, m) => MouseEvent::ScrollDown(p.x, p.y, m),
        };
    }
}

impl MouseEventLike for MouseEvent {
    open spec fn spec_left_down(&self) -> Option<Vec2> {
        match *self {
            MouseEvent::Down(MouseButton::Left, x, y, _) => Some(Vec2 { x, y }),
            _ => None,
        }
    }

    open spec fn spec_left_up(&self) -> Option<Vec2> {
        match *self {
            MouseEvent::Up(MouseButton::Left, x, y, _) => Some(Vec2 { x, y }),
            _ => None,
        }
    }

    open spec fn spec_drag(&self) -> Option<Vec2> {
        match *self {
            MouseEvent::Drag(MouseButton::Left, x, y, _) => Some(Vec2 { x, y }),
            _ => None,
        }
    }

    open spec fn spec_scroll_up(&self) -> Option<Vec2> {
        match *self {
            MouseEvent::ScrollUp(x, y, _) => Some(Vec2 { x, y }),
            _ => None,
        }
    }

    open spec fn spec_scroll_down(&self) -> Option<Vec2> {
        match *self {
            MouseEvent::ScrollDown(x, y, _) => Some(Vec2 { x, y }),
            _ => None,
        }
    }

    open spec fn spec_pos(&self) -> Vec2 {
        mouse_pos(*self)
    }

    fn try_left_down(&self) -> (r: Option<Vec2>) {
        match *self {
            MouseEvent::Down(MouseButton::Left, x, y, _) => Some(Vec2::from((x, y))),
            _ => None,
        }
    }

    fn try_left_up(&self) -> (r: Option<Vec2>) {
        match *self {
            MouseEvent::Up(MouseButton::Left, x, y, _) => Some(Vec2::from((x, y))),
            _ => None,
        }
    }

    fn try_drag(&self) -> (r: Option<Vec2>) {
        match *self {
            MouseEvent::Drag(MouseButton::Left, x, y, _) => Some(Vec2::from((x, y))),
            _ => None,
        }
    }

    fn try_scroll_up(&self) -> (r: Option<Vec2>) {
        match *self {
            MouseEvent::ScrollUp(x, y, _) => Some(Vec2::from((x, y))),
            _ => None,
        }
    }

    fn try_scroll_down(&self) -> (r: Option<Vec2>) {
        match *self {
            MouseEvent::ScrollDown(x, y, _) => Some(Vec2::from((x, y))),
            _ => None,
        }
    }

    fn pos(&self) -> (r: Vec2) {
        match *self {
            MouseEvent::Down(_, x, y, _)
            | MouseEvent::Up(_, x, y, _)
            | MouseEvent::Drag(_, x, y, _)
            | MouseEvent::ScrollUp(x, y, _)
            | MouseEvent::ScrollDown(x, y, _) => Vec2::new(x, y),
        }
    }

    /// Moves the event to where `f` sends its position; the rest stays.
    fn map_pos<F: FnOnce(Vec2) -> Vec2>(&mut self, f: F)
        ensures
            exists|p: Vec2|
                call_ensures(f, (mouse_pos(*old(self)),), p) && *final(self) == with_mouse_pos(
                    *old(self),
                    p,
                ),
    {
        let pos = self.pos();
        let pos = f(pos);
        self.set_pos(pos);
    }

    /// Moves the event to where `f` sends its position, unless `f` gives
    /// nothing, which leaves the event as it was and answers `false`.
    fn filter_map_pos<F: FnOnce(Vec2) -> Option<Vec2>>(&mut self, f: F) -> (r: bool)
        ensures
            r ==> exists|p: Vec2|
                call_ensures(f, (mouse_pos(*old(self)),), Some(p)) && *final(self)
                    == with_mouse_pos(*old(self), p),
            !r ==> *final(self) == *old(self) && call_ensures(f, (mouse_pos(*old(self)),), None),
    {
        let pos = self.pos();
        let pos = match f(pos) {
            Some(pos) => pos,
            None => return false,
        };
        self.set_pos(pos);
        true
    }

    /// A press of the left button at `pos`, with no modifier held.
    fn from_left_down(pos: Vec2) -> (r: Self)
        ensures
            r == MouseEvent::Down(MouseButton::Left, pos.x, pos.y, (KeyModifiers { bits: 0 })),
    {
        MouseEvent::Down(MouseButton::Left, pos.x, pos.y, KeyModifiers::empty())
    }

    /// A release of the left button at `pos`, with no modifier held.
    fn from_left_up(pos: Vec2) -> (r: Self)
        ensures
            r == MouseEvent::Up(MouseButton::Left, pos.x, pos.y, (KeyModifiers { bits: 0 })),
    {
        MouseEvent::Up(MouseButton::Left, pos.x, pos.y, KeyModifiers::empty())
    }
}

impl EventLike for Event {
    type KeyEvent = KeyEvent;

    type MouseEvent = MouseEvent;

    open spec fn spec_mouse(&self) -> Option<MouseEvent> {
        match *self {
            Event::Mouse(me) => Some(me),
            _ => None,
        }
    }

    open spec fn spec_key(&self) -> Option<KeyEvent> {
        match *self {
            Event::Key(ke) => Some(ke),
            _ => None,
        }
    }

    open spec fn spec_resize(&self) -> Option<Vec2> {
        match *self {
            Event::Resize(x, y) => Some(Vec2 { x, y }),
            _ => None,
        }
    }

    fn try_mouse(&self) -> (r: Option<&MouseEvent>) {
        match self {
            Event::Mouse(me) => Some(me),
            _ => None,
        }
    }

    /// The mouse event inside, to change in place.
    fn try_mouse_mut(&mut self) -> (r: Option<&mut MouseEvent>)
        ensures
            r matches Some(m) ==> *final(self) == Event::Mouse(*final(m)),
            r is None ==> *final(self) == *old(self),
    {
        match self {
            Event::Mouse(me) => Some(me),
            _ => None,
        }
    }

    fn try_key(&self) -> (r: Option<&KeyEvent>) {
        match self {
            Event::Key(ke) => Some(ke),
            _ => None,
        }
    }

    /// The key event inside, to change in place.
    fn try_key_mut(&mut self) -> (r: Option<&mut KeyEvent>)
        ensures
            r matches Some(k) ==> *final(self) == Event::Key(*final(k)),
            r is None ==> *final(self) == *old(self),
    {
        match self {
            Event::Key(ke) => Some(ke),
            _ => None,
        }
    }

    fn try_resize(&self) -> (r: Option<Vec2>) {
        match *self {
            Event::Resize(x, y) => Some(Vec2::new(x, y)),
            _ => None,
        }
    }
}

} // verus!
