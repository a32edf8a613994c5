use turi::attribute::Attribute;
use turi::converters::{MapMsg, OrElse, OrElseFirst};
use turi::event::window::{
    ScrollDirection, WindowButton, WindowInput, WindowKey, WrapWindowEvent, WrapWindowEventState,
};
use turi::event::{EventLike, KeyEventLike, MouseEventLike};
use turi::events::{CharEvent, ClickEvent};
use turi::modifires::Modifiers;
use turi::state::RedrawState;
use turi::vec2::Vec2;
use turi::view_proxys::{MapE, MapView};

#[test]
fn window_state_tracks_buttons_and_modifiers() {
    let mut s = WrapWindowEventState::new();
    let moved = s.next_event(WindowInput::CursorMoved(Vec2::new(3, 4)));
    assert!(!moved.drag);
    assert_eq!(moved.pos(), Vec2::new(3, 4));
    let press = s.next_event(WindowInput::MouseInput(WindowButton::Left, true));
    assert_eq!(press.try_left_down(), Some(Vec2::new(3, 4)));
    let drag = s.next_event(WindowInput::CursorMoved(Vec2::new(5, 4)));
    assert_eq!(drag.try_drag(), Some(Vec2::new(5, 4)));
    let release = s.next_event(WindowInput::MouseInput(WindowButton::Left, false));
    assert_eq!(release.try_left_up(), Some(Vec2::new(5, 4)));
    let moved = s.next_event(WindowInput::CursorMoved(Vec2::new(6, 4)));
    assert_eq!(moved.try_drag(), None);

    let ch = s.next_event(WindowInput::ReceivedCharacter('a'));
    assert_eq!(ch.try_char(), Some('a'));
    assert_eq!(ch.try_ctrl_char(), None);
    s.next_event(WindowInput::ModifiersChanged(true));
    let ch = s.next_event(WindowInput::ReceivedCharacter('c'));
    assert_eq!(ch.try_ctrl_char(), Some('c'));
}

#[test]
fn window_events_sort_into_keys_and_mice() {
    let e = WrapWindowEvent::new(WindowInput::KeyboardInput(Some(WindowKey::Up)), false, false, Vec2::new(0, 0));
    assert!(e.try_key().unwrap().try_up());
    assert!(e.try_mouse().is_none());
    let w = WrapWindowEvent::new(
        WindowInput::MouseWheel(ScrollDirection::Vertical(false)),
        false,
        false,
        Vec2::new(1, 2),
    );
    assert_eq!(w.try_mouse().unwrap().try_scroll_down(), Some(Vec2::new(1, 2)));
    let r = WrapWindowEvent::new(WindowInput::Resized(Vec2::new(80, 24)), false, false, Vec2::new(0, 0));
    assert_eq!(r.try_resize(), Some(Vec2::new(80, 24)));
    let mut m = WrapWindowEvent::from_left_down(Vec2::new(4, 4));
    m.map_pos(|p| Vec2::new(p.x + 1, p.y));
    assert_eq!(m.pos(), Vec2::new(5, 4));
    assert!(!m.filter_map_pos(|_| None));
    assert_eq!(m.pos(), Vec2::new(5, 4));
}

#[test]
fn modifier_bits_are_distinct() {
    assert_eq!(Modifiers::Bold.bits(), 1);
    assert_eq!(Modifiers::Italic.bits(), 2);
    assert_eq!(Modifiers::Reverse.bits(), 4);
}

#[test]
fn bool_is_a_redraw_state() {
    let mut s = false;
    s.set_need_redraw(true);
    assert!(s.is_need_redraw());
    s.set_need_redraw(false);
    assert!(!s.is_need_redraw());
}

#[test]
fn attribute_defaults_to_nothing() {
    let a: Attribute<(), ()> = Attribute::default();
    assert!(a.class.is_empty());
    assert!(a.events.is_empty());
    let classes = ["x"];
    let b: Attribute<(), ()> = Attribute::new(&classes, &[]);
    assert_eq!(b.class, &["x"]);
}

#[test]
fn small_messages_compare() {
    assert_eq!(ClickEvent, ClickEvent);
    assert_eq!(CharEvent('a'), CharEvent('a'));
    assert_ne!(CharEvent('a'), CharEvent('b'));
}

#[test]
fn wrappers_hold_what_they_wrap() {
    let _m = MapMsg::<u8, u8, fn(u8) -> u8>::new(1, |x| x);
    let o = OrElse::new(1u8, 2u8);
    let f = OrElseFirst::new(3u8, 2u8);
    assert_eq!(*o, 1);
    assert_eq!(*f, 3);
    let m = MapMsg::<u8, u8, u8>::new(5, 0);
    assert_eq!(*m, 5);
    let _v = MapView::<u8, u8, u8>::new(1, 2);
    let _e = MapE::<u8, u8, u8>::new(1, 2);
}
