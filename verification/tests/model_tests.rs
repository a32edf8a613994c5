use turi::builder::{body, class_ref, div, event};
use turi::event::term::{Event, KeyCode, KeyEvent, KeyModifiers};
use turi::model::Model;
use turi::update_result::{Exit, Ignore, UpdateResult};
use turi::view::TuiView;

struct Simple;

impl Model<Event> for Simple {
    type Msg = bool;

    fn update(&mut self, msg: Self::Msg) -> UpdateResult {
        if msg {
            Exit
        } else {
            Ignore
        }
    }

    fn view<'a>(&self, b: &'a bumpalo::Bump) -> TuiView<'a, Event, Self::Msg> {
        div(
            (),
            event(b).ctrl_char('c', true),
            body(b)
                .child(div(class_ref(b, &["hello"]), (), "Hello"))
                .child(div((), (), "World!")),
        )
    }
}

#[test]
fn div_builds_the_documented_model_view() {
    let b = bumpalo::Bump::new();
    let mut model = Simple;
    let view = model.view(&b);
    assert_eq!(view.children().len(), 2);
    assert_eq!(view.children()[0].classes(), &["hello"]);
    let ctrl_c = Event::Key(KeyEvent { code: KeyCode::Char('c'), modifiers: KeyModifiers::control() });
    let msg = view.on_event(ctrl_c).unwrap();
    assert_eq!(model.update(msg), Exit);
    assert_eq!(model.update(false), Ignore);
}
