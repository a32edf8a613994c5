//! Input events of a graphical window, with the state that turns the
//! window's raw input into terminal-like events: the cursor cell, whether
//! the left button is held (so that a move is a drag) and whether control is
//! held (so that a character is a control character).

use vstd::prelude::*;
use crate::event::{EventLike, KeyEventLike, MouseEventLike};
use crate::vec2::Vec2;

verus! {

/// A mouse button of the window.
#[derive(Clone, Copy, Debug, PartialEq, Eq, Structural)]
pub enum WindowButton {
    Left,
    Right,
    Middle,
    Other(u16),
}

/// The keys a window reports that the library reacts to.
#[derive(Clone, Copy, Debug, PartialEq, Eq, Structural)]
pub enum WindowKey {
    Return,
    Up,
    Down,
    Left,
    Right,
    Back,
    Tab,
    Other,
}

/// Which way the wheel turned: along the rows (`true` away from the user)
/// or along the columns (`true` to the right).
#[derive(Clone, Copy, Debug, PartialEq, Eq, Structural)]
pub enum ScrollDirection {
    Vertical(bool),
    Horizontal(bool),
}

/// A window event, with positions and sizes already in terminal cells.
#[derive(Clone, Copy, Debug, PartialEq, Eq, Structural)]
pub enum WindowInput {
    /// The cursor moved onto a cell.
    CursorMoved(Vec2),
    /// A mouse button was pressed (`true`) or released.
    MouseInput(WindowButton, bool),
    /// The modifier keys changed; whether control is held now.
    ModifiersChanged(bool),
    /// A character was typed.
    ReceivedCharacter(char),
    /// A key was pressed or released, with its code where the window knows it.
    KeyboardInput(Option<WindowKey>),
    /// The wheel turned.
    MouseWheel(ScrollDirection),
    /// The window now holds this many cells.
    Resized(Vec2),
    /// Anything else.
    Other,
}

/// What the window remembers between events.
#[derive(Clone, Copy, Debug, PartialEq, Eq, Structural)]
pub struct WrapWindowEventState {
    pub ctrl: bool,
    pub clicked: bool,
    pub mouse_pos: Vec2,
}

/// A window event with the remembered state it came with.
#[derive(Clone, Copy, Debug, PartialEq, Eq, Structural)]
pub struct WrapWindowEvent {
    pub e: WindowInput,
    pub ctrl: bool,
    pub drag: bool,
    pub mouse_pos: Vec2,
}

/// The state after `e`: a cursor move takes the cursor's cell, a press or
/// release of any button sets or clears the held flag, a modifier change sets
/// whether control is held.
pub open spec fn spec_next_state(s: WrapWindowEventState, e: WindowInput) -> WrapWindowEventState {
    match e {
        WindowInput::CursorMoved(p) => WrapWindowEventState { mouse_pos: p, ..s },
        WindowInput::MouseInput(_, pressed) => WrapWindowEventState { clicked: pressed, ..s },
        WindowInput::ModifiersChanged(ctrl) => WrapWindowEventState { ctrl, ..s },
        _ => s,
    }
}

/// The event that `e` is reported as: with the new state's control flag and
/// cursor cell, and a drag where the cursor moved while a button was held.
pub open spec fn spec_wrap(s: WrapWindowEventState, e: WindowInput) -> WrapWindowEvent {
    let n = spec_next_state(s, e);
    WrapWindowEvent {
        e,
        ctrl: n.ctrl,
        drag: e is CursorMoved && s.clicked,
        mouse_pos: n.mouse_pos,
    }
}

/// A cursor move is a drag exactly while a button is held: after a press
/// it is one, after a release it is not, and the cursor takes the new cell
/// either way.
pub proof fn lemma_drag_follows_button(s: WrapWindowEventState, b: WindowButton, p: Vec2)
    ensures
        spec_wrap(spec_next_state(s, WindowInput::MouseInput(b, true)), WindowInput::CursorMoved(p)).drag,
        !spec_wrap(spec_next_state(s, WindowInput::MouseInput(b, false)), WindowInput::CursorMoved(p)).drag,
        spec_next_state(s, WindowInput::CursorMoved(p)).mouse_pos == p,
{
}

/// A typed character is a control character exactly while control is held,
/// as the last modifier change said.
pub proof fn lemma_ctrl_follows_modifiers(s: WrapWindowEventState, ctrl: bool, c: char)
    ensures
        ({
            let e = spec_wrap(
                spec_next_state(s, WindowInput::ModifiersChanged(ctrl)),
                WindowInput::ReceivedCharacter(c),
            );
            e.spec_ctrl_char() == if ctrl { Some(c) } else { None }
        }),
{
}

impl WrapWindowEventState {
    /// No modifier, no button held, the cursor at the origin.
    pub fn new() -> (r: Self)
        ensures
            r == (WrapWindowEventState {
                ctrl: false,
                clicked: false,
                mouse_pos: Vec2 { x: 0, y: 0 },
            }),
    {
        WrapWindowEventState { ctrl: false, clicked: false, mouse_pos: Vec2::new(0, 0) }
    }

    /// Takes in `e` and reports it with the state it comes with.
    pub fn next_event(&mut self, e: WindowInput) -> (r: WrapWindowEvent)
        ensures
            *final(self) == spec_next_state(*old(self), e),
            r == spec_wrap(*old(self), e),
    {
        let mut drag = false;
        match e {
            WindowInput::CursorMoved(p) => {
                drag = self.clicked;
                self.mouse_pos = p;
            },
            WindowInput::MouseInput(_, pressed) => {
                self.clicked = pressed;
            },
            WindowInput::ModifiersChanged(ctrl) => {
                self.ctrl = ctrl;
            },
            _ => {},
        }
        WrapWindowEvent { e, ctrl: self.ctrl, drag, mouse_pos: self.mouse_pos }
    }
}

impl WrapWindowEvent {
    pub fn new(e: WindowInput, ctrl: bool, drag: bool, mouse_pos: Vec2) -> (r: Self)
        ensures
            r == (WrapWindowEvent { e, ctrl, drag, mouse_pos }),
    {
        WrapWindowEvent { e, ctrl, drag, mouse_pos }
    }
}

/// Whether `e` is the key `key`.
pub open spec fn key_is(e: WindowInput, key: WindowKey) -> bool {
    e == WindowInput::KeyboardInput(Some(key))
}

fn key_is_exec(e: WindowInput, key: WindowKey) -> (r: bool)
    ensures
        r == key_is(e, key),
{
    match e {
        WindowInput::KeyboardInput(Some(k)) => k == key,
        _ => false,
    }
}

impl KeyEventLike for WrapWindowEvent {
    open spec fn spec_char(&self) -> Option<char> {
        match self.e {
            WindowInput::ReceivedCharacter(c) => Some(c),
            _ => None,
        }
    }

    /// A typed character while control is held.
    open spec fn spec_ctrl_char(&self) -> Option<char> {
        match self.e {
            WindowInput::ReceivedCharacter(c) => if self.ctrl { Some(c) } else { None },
            _ => None,
        }
    }

    open spec fn spec_enter(&self) -> bool {
        key_is(self.e, WindowKey::Return)
    }

    open spec fn spec_up(&self) -> bool {
        key_is(self.e, WindowKey::Up)
    }

    open spec fn spec_down(&self) -> bool {
        key_is(self.e, WindowKey::Down)
    }

    open spec fn spec_left(&self) -> bool {
        key_is(self.e, WindowKey::Left)
    }

    open spec fn spec_right(&self) -> bool {
        key_is(self.e, WindowKey::Right)
    }

    open spec fn spec_backspace(&self) -> bool {
        key_is(self.e, WindowKey::Back)
    }

    open spec fn spec_tab(&self) -> bool {
        key_is(self.e, WindowKey::Tab)
    }

    fn try_char(&self) -> (r: Option<char>) {
        match self.e {
            WindowInput::ReceivedCharacter(c) => Some(c),
            _ => None,
        }
    }

    fn try_ctrl_char(&self) -> (r: Option<char>) {
        match self.e {
            WindowInput::ReceivedCharacter(c) => if self.ctrl {
                Some(c)
            } else {
                None
            },
            _ => None,
        }
    }

    fn try_enter(&self) -> (r: bool) {
        key_is_exec(self.e, WindowKey::Return)
    }

    fn try_up(&self) -> (r: bool) {
        key_is_exec(self.e, WindowKey::Up)
    }

    fn try_down(&self) -> (r: bool) {
        key_is_exec(self.e, WindowKey::Down)
    }

    fn try_left(&self) -> (r: bool) {
        key_is_exec(self.e, WindowKey::Left)
    }

    fn try_right(&self) -> (r: bool) {
        key_is_exec(self.e, WindowKey::Right)
    }

    fn try_backspace(&self) -> (r: bool) {
        key_is_exec(self.e, WindowKey::Back)
    }

    fn try_tab(&self) -> (r: bool) {
        key_is_exec(self.e, WindowKey::Tab)
    }
}

impl MouseEventLike for WrapWindowEvent {
    open spec fn spec_left_down(&self) -> Option<Vec2> {
        if self.e == WindowInput::MouseInput(WindowButton::Left, true) {
            Some(self.mouse_pos)
        } else {
            None
        }
    }

    open spec fn spec_left_up(&self) -> Option<Vec2> {
        if self.e == WindowInput::MouseInput(WindowButton::Left, false) {
            Some(self.mouse_pos)
        } else {
            None
        }
    }

    /// A cursor move while a button is held.
    open spec fn spec_drag(&self) -> Option<Vec2> {
        if self.drag && self.e is CursorMoved {
            Some(self.mouse_pos)
        } else {
            None
        }
    }

    open spec fn spec_scroll_up(&self) -> Option<Vec2> {
        if self.e == WindowInput::MouseWheel(ScrollDirection::Vertical(true)) {
            Some(self.mouse_pos)
        } else {
            None
        }
    }

    open spec fn spec_scroll_down(&self) -> Option<Vec2> {
        if self.e == WindowInput::MouseWheel(ScrollDirection::Vertical(false)) {
            Some(self.mouse_pos)
        } else {
            None
        }
    }

    open spec fn spec_pos(&self) -> Vec2 {
        self.mouse_pos
    }

    fn try_left_down(&self) -> (r: Option<Vec2>) {
        match self.e {
            WindowInput::MouseInput(WindowButton::Left, true) => Some(self.mouse_pos),
            _ => None,
        }
    }

    fn try_left_up(&self) -> (r: Option<Vec2>) {
        match self.e {
            WindowInput::MouseInput(WindowButton::Left, false) => Some(self.mouse_pos),
            _ => None,
        }
    }

    fn try_drag(&self) -> (r: Option<Vec2>) {
        if self.drag {
            match self.e {
                WindowInput::CursorMoved(_) => Some(self.mouse_pos),
                _ => None,
            }
        } else {
            None
        }
    }

    fn try_scroll_up(&self) -> (r: Option<Vec2>) {
        match self.e {
            WindowInput::MouseWheel(ScrollDirection::Vertical(true)) => Some(self.mouse_pos),
            _ => None,
        }
    }

    fn try_scroll_down(&self) -> (r: Option<Vec2>) {
        match self.e {
            WindowInput::MouseWheel(ScrollDirection::Vertical(false)) => Some(self.mouse_pos),
            _ => None,
        }
    }

    fn pos(&self) -> (r: Vec2) {
        self.mouse_pos
    }

    /// Moves the cursor cell through `f`; the rest stays.
    fn map_pos<F: FnOnce(Vec2) -> Vec2>(&mut self, f: F)
        ensures
            call_ensures(f, (old(self).mouse_pos,), final(self).mouse_pos),
            final(self).e == old(self).e,
            final(self).ctrl == old(self).ctrl,
            final(self).drag == old(self).drag,
    {
        self.mouse_pos = f(self.mouse_pos);
    }

    /// Moves the cursor cell through `f`, unless `f` gives nothing, which
    /// leaves the event as it was and answers `false`.
    fn filter_map_pos<F: FnOnce(Vec2) -> Option<Vec2>>(&mut self, f: F) -> (r: bool)
        ensures
            r ==> call_ensures(f, (old(self).mouse_pos,), Some(final(self).mouse_pos)),
            !r ==> *final(self) == *old(self) && call_ensures(f, (old(self).mouse_pos,), None),
            final(self).e == old(self).e,
            final(self).ctrl == old(self).ctrl,
            final(self).drag == old(self).drag,
    {
        match f(self.mouse_pos) {
            Some(pos) => {
                self.mouse_pos = pos;
                true
            },
            None => false,
        }
    }

    /// A left press at `pos`, with no modifier and no drag.
    fn from_left_down(pos: Vec2) -> (r: Self)
        ensures
            r == (WrapWindowEvent {
                e: WindowInput::MouseInput(WindowButton::Left, true),
                ctrl: false,
                drag: false,
                mouse_pos: pos,
            }),
    {
        WrapWindowEvent {
            e: WindowInput::MouseInput(WindowButton::Left, true),
            ctrl: false,
            drag: false,
            mouse_pos: pos,
        }
    }

    /// A left release at `pos`, with no modifier and no drag.
    fn from_left_up(pos: Vec2) -> (r: Self)
        ensures
            r == (WrapWindowEvent {
                e: WindowInput::MouseInput(WindowButton::Left, false),
                ctrl: false,
                drag: false,
                mouse_pos: pos,
            }),
    {
        WrapWindowEvent {
            e: WindowInput::MouseInput(WindowButton::Left, false),
            ctrl: false,
            drag: false,
            mouse_pos: pos,
        }
    }
}

/// Whether `e` is a mouse event: a wheel turn, a button, or a cursor move.
pub open spec fn is_mouse_input(e: WindowInput) -> bool {
    e is MouseWheel || e is MouseInput || e is CursorMoved
}

/// Whether `e` is a key event: a key or a typed character.
pub open spec fn is_key_input(e: WindowInput) -> bool {
    e is KeyboardInput || e is ReceivedCharacter
}

impl EventLike for WrapWindowEvent {
    type KeyEvent = Self;

    type MouseEvent = Self;

    open spec fn spec_mouse(&self) -> Option<Self> {
        if is_mouse_input(self.e) {
            Some(*self)
        } else {
            None
        }
    }

    open spec fn spec_key(&self) -> Option<Self> {
        if is_key_input(self.e) {
            Some(*self)
        } else {
            None
        }
    }

    open spec fn spec_resize(&self) -> Option<Vec2> {
        match self.e {
            WindowInput::Resized(size) => Some(size),
            _ => None,
        }
    }

    fn try_mouse(&self) -> (r: Option<&Self>) {
        match self.e {
            WindowInput::MouseWheel(_) | WindowInput::MouseInput(..) | WindowInput::CursorMoved(
                _,
            ) => Some(self),
            _ => None,
        }
    }

    /// The event itself, to change in place, when it is a mouse event.
    fn try_mouse_mut(&mut self) -> (r: Option<&mut Self>)
        ensures
            r matches Some(m) ==> *final(self) == *final(m),
            r is None ==> *final(self) == *old(self),
    {
        match self.e {
            WindowInput::MouseWheel(_) | WindowInput::MouseInput(..) | WindowInput::CursorMoved(
                _,
            ) => Some(self),
            _ => None,
        }
    }

    fn try_key(&self) -> (r: Option<&Self>) {
        match self.e {
            WindowInput::KeyboardInput(_) | WindowInput::ReceivedCharacter(_) => Some(self),
            _ => None,
        }
    }

    /// The event itself, to change in place, when it is a key event.
    fn try_key_mut(&mut self) -> (r: Option<&mut Self>)
        ensures
            r matches Some(k) ==> *final(self) == *final(k),
            r is None ==> *final(self) == *old(self),
    {
        match self.e {
            WindowInput::KeyboardInput(_) | WindowInput::ReceivedCharacter(_) => Some(self),
            _ => None,
        }
    }

    fn try_resize(&self) -> (r: Option<Vec2>) {
        match self.e {
            WindowInput::Resized(size) => Some(size),
            _ => None,
        }
    }
}

} // verus!
