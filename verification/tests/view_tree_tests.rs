use turi::builder::{body, class, div, event};
use turi::event::term::{Event, KeyCode, KeyEvent, KeyModifiers, MouseButton, MouseEvent};
use turi::view::{Tag, ViewBody, ViewState};

fn ctrl(c: char) -> Event {
    Event::Key(KeyEvent { code: KeyCode::Char(c), modifiers: KeyModifiers::control() })
}

#[test]
fn view_answers_with_first_matching_filter() {
    let b = bumpalo::Bump::new();
    let view = div(
        class(&b, &["root"]),
        event(&b).ctrl_char('q', 1u32).ctrl_char('q', 2u32).click(3u32),
        "text",
    );
    assert_eq!(view.tag(), Tag::Div);
    assert_eq!(view.classes(), &["root"]);
    assert!(!view.has_state(ViewState::Focus));
    assert_eq!(view.on_event(ctrl('q')), Some(1));
    assert_eq!(view.on_event(ctrl('x')), None);
    let click = Event::Mouse(MouseEvent::Down(MouseButton::Left, 0, 0, KeyModifiers::empty()));
    assert_eq!(view.on_event(click), Some(3));
    assert!(matches!(view.body(), ViewBody::Text("text", 4)));
}

#[test]
fn children_answer_in_order() {
    let b = bumpalo::Bump::new();
    let view = div(
        (),
        (),
        body(&b)
            .child(div((), event(&b).ctrl_char('a', 'A'), "one"))
            .child(div((), event(&b).ctrl_char('a', 'B').ctrl_char('b', 'b'), "two")),
    );
    assert_eq!(view.children().len(), 2);
    assert_eq!(view.on_event(ctrl('a')), Some('A'));
    assert_eq!(view.on_event(ctrl('b')), Some('b'));
    // a plain character is no control character
    let plain = Event::Key(KeyEvent { code: KeyCode::Char('a'), modifiers: KeyModifiers::empty() });
    assert_eq!(view.on_event(plain), None);
}

#[test]
fn tags_parse() {
    assert_eq!(Tag::parse("div"), Some(Tag::Div));
    assert_eq!(Tag::parse("button"), Some(Tag::Button));
    assert_eq!(Tag::parse("span"), None);
    assert_eq!("button".parse::<Tag>(), Ok(Tag::Button));
}

#[test]
fn views_compare_without_their_filters() {
    let b = bumpalo::Bump::new();
    let a = div::<Event, u32, _, _, _>(class(&b, &["c"]), (), "x");
    let with_filter = div::<Event, u32, _, _, _>(class(&b, &["c"]), event(&b).click(1u32), "x");
    let other_text = div::<Event, u32, _, _, _>(class(&b, &["c"]), (), "y");
    let other_class = div::<Event, u32, _, _, _>(class(&b, &["d"]), (), "x");
    assert!(a == with_filter);
    assert!(a != other_text);
    assert!(a != other_class);
    let tree1 = div::<Event, u32, _, _, _>((), (), body(&b).child(a).child(other_text));
    let tree2 = div::<Event, u32, _, _, _>((), (), body(&b).child(with_filter).child(other_text));
    let tree3 = div::<Event, u32, _, _, _>((), (), body(&b).child(a));
    assert!(tree1 == tree2);
    assert!(tree1 != tree3);
}
