use turi::backend::{Backend, TestBackend};
use turi::event::term::{Event, KeyCode, KeyEvent, KeyModifiers, MouseButton, MouseEvent};
use turi::event_result::EventResult;
use turi::orientation::Orientation;
use turi::printer::Printer;
use turi::vec2::Vec2;
use turi::view_wrappers::{ScrollView, SizeCacher};
use turi::widget::Widget;

struct Column {
    rows: u16,
    events_seen: u32,
}

impl Widget<(), Event> for Column {
    fn render<B: Backend>(&self, printer: &mut Printer<'_, B>) {
        for i in 0..self.rows {
            printer.print(Vec2::new(0, i), &format!("{}", i % 10));
        }
    }

    fn layout(&mut self, _size: Vec2) {}

    fn desired_size(&self) -> Vec2 {
        Vec2::new(1, self.rows)
    }

    fn on_event(&mut self, _state: &mut (), _event: Event) -> EventResult {
        self.events_seen += 1;
        EventResult::Consume(false)
    }
}

fn key(code: KeyCode) -> Event {
    Event::Key(KeyEvent { code, modifiers: KeyModifiers::empty() })
}

#[test]
fn size_cacher_remembers_layout() {
    let mut cacher = SizeCacher::new(Column { rows: 3, events_seen: 0 });
    assert_eq!(cacher.prev_size(), Vec2::new(0, 0));
    Widget::<(), Event>::layout(&mut cacher, Vec2::new(7, 4));
    assert_eq!(cacher.prev_size(), Vec2::new(7, 4));
}

#[test]
fn scroll_view_keys_scroll_within_layout() {
    let mut view = ScrollView::new(Column { rows: 20, events_seen: 0 }, Orientation::Vertical);
    let mut state = ();
    Widget::<(), Event>::layout(&mut view, Vec2::new(5, 3));
    // the inner view got one column less; down scrolls while below the height
    assert_eq!(view.on_event(&mut state, key(KeyCode::Down)), EventResult::Consume(true));
    assert_eq!(view.on_event(&mut state, key(KeyCode::Down)), EventResult::Consume(true));
    assert_eq!(view.on_event(&mut state, key(KeyCode::Down)), EventResult::Consume(false));
    // up scrolls back, telling whether it is still scrolled
    assert_eq!(view.on_event(&mut state, key(KeyCode::Up)), EventResult::Consume(true));
    assert_eq!(view.on_event(&mut state, key(KeyCode::Up)), EventResult::Consume(false));
    assert_eq!(view.on_event(&mut state, key(KeyCode::Up)), EventResult::Consume(false));
}

#[test]
fn scroll_view_passes_other_events_on() {
    let mut view = ScrollView::new(Column { rows: 20, events_seen: 0 }, Orientation::Vertical);
    let mut state = ();
    Widget::<(), Event>::layout(&mut view, Vec2::new(5, 3));
    assert_eq!(view.on_event(&mut state, key(KeyCode::Enter)), EventResult::Consume(false));
    // a horizontal view ignores up, which goes to the inner view
    let mut h = ScrollView::new(Column { rows: 1, events_seen: 0 }, Orientation::Horizontal);
    assert_eq!(h.on_event(&mut state, key(KeyCode::Up)), EventResult::Consume(false));
}

#[test]
fn scroll_view_bar_press_and_drag() {
    let mut view = ScrollView::new(Column { rows: 20, events_seen: 0 }, Orientation::Vertical);
    let mut state = ();
    Widget::<(), Event>::layout(&mut view, Vec2::new(5, 6));
    // the bar is the column just past the inner layout's width (4)
    let down = Event::Mouse(MouseEvent::Down(MouseButton::Left, 4, 2, KeyModifiers::empty()));
    assert_eq!(view.on_event(&mut state, down), EventResult::Consume(true));
    let drag = Event::Mouse(MouseEvent::Drag(MouseButton::Left, 4, 5, KeyModifiers::empty()));
    assert_eq!(view.on_event(&mut state, drag), EventResult::Consume(true));
    let up = Event::Mouse(MouseEvent::Up(MouseButton::Left, 4, 5, KeyModifiers::empty()));
    // releasing lets go of the bar and goes on to the inner view
    assert_eq!(view.on_event(&mut state, up), EventResult::Consume(false));
    let drag = Event::Mouse(MouseEvent::Drag(MouseButton::Left, 4, 1, KeyModifiers::empty()));
    assert_eq!(view.on_event(&mut state, drag), EventResult::Consume(false));
}

#[test]
fn scroll_view_renders_shifted_with_bar() {
    let mut backend = TestBackend::new(Vec2::new(3, 4), std::iter::empty::<()>());
    let mut view = ScrollView::new(Column { rows: 8, events_seen: 0 }, Orientation::Vertical);
    let mut state = ();
    Widget::<(), Event>::layout(&mut view, Vec2::new(3, 4));
    view.on_event(&mut state, key(KeyCode::Down));
    view.on_event(&mut state, key(KeyCode::Down));
    {
        let mut printer = Printer::new(&mut backend);
        view.render(&mut printer);
    }
    // 8 rows in 4: 4 hidden, scrolled 2 of 3 steps: shifted by 4 * 2 / 3 = 2
    assert_eq!(backend.lines(), &["2 │", "3 │", "4 ░", "5 │"]);
}

#[test]
fn scroll_view_without_overflow_renders_inner_only() {
    let mut backend = TestBackend::new(Vec2::new(3, 4), std::iter::empty::<()>());
    let mut view = ScrollView::new(Column { rows: 2, events_seen: 0 }, Orientation::Vertical);
    Widget::<(), Event>::layout(&mut view, Vec2::new(3, 4));
    {
        let mut printer = Printer::new(&mut backend);
        view.render(&mut printer);
    }
    assert_eq!(backend.lines(), &["0  ", "1  ", "   ", "   "]);
}

#[test]
fn scroll_view_desired_size_adds_bar() {
    let view = ScrollView::new(Column { rows: 2, events_seen: 0 }, Orientation::Horizontal);
    assert_eq!(Widget::<(), Event>::desired_size(&view), Vec2::new(1, 3));
}

#[test]
fn size_cacher_keeps_the_last_layout_through_other_calls() {
    let mut backend = TestBackend::new(Vec2::new(3, 3), std::iter::empty::<()>());
    let mut cacher = SizeCacher::new(Column { rows: 1, events_seen: 0 });
    let mut state = ();
    Widget::<(), Event>::layout(&mut cacher, Vec2::new(2, 2));
    Widget::<(), Event>::layout(&mut cacher, Vec2::new(3, 1));
    {
        let mut printer = Printer::new(&mut backend);
        Widget::<(), Event>::render(&cacher, &mut printer);
    }
    assert_eq!(Widget::<(), Event>::desired_size(&cacher), Vec2::new(1, 1));
    cacher.on_event(&mut state, key(KeyCode::Enter));
    assert_eq!(cacher.prev_size(), Vec2::new(3, 1));
}
