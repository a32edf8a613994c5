use turi::event_result::{EventResult, IGNORE};
use turi::update_result::{Exit, Ignore, Redraw};

const REDRAW: EventResult = EventResult::Consume(true);
const NODRAW: EventResult = EventResult::Consume(false);

#[test]
fn event_result_or_test() {
    assert_eq!(REDRAW | REDRAW, REDRAW);
    assert_eq!(REDRAW | NODRAW, REDRAW);
    assert_eq!(REDRAW | IGNORE, REDRAW);
    assert_eq!(NODRAW | REDRAW, REDRAW);
    assert_eq!(NODRAW | NODRAW, NODRAW);
    assert_eq!(NODRAW | IGNORE, NODRAW);
    assert_eq!(IGNORE | REDRAW, REDRAW);
    assert_eq!(IGNORE | NODRAW, NODRAW);
    assert_eq!(IGNORE | IGNORE, IGNORE);
}

#[test]
fn update_result_or_test() {
    assert_eq!(Redraw | Redraw, Redraw);
    assert_eq!(Redraw | Ignore, Redraw);
    assert_eq!(Ignore | Redraw, Redraw);
    assert_eq!(Ignore | Ignore, Ignore);
}

#[test]
fn update_result_exit_wins_over_ignore() {
    assert_eq!(Exit | Ignore, Exit);
    assert_eq!(Ignore | Exit, Exit);
    assert_eq!(Exit | Redraw, Redraw);
}

#[test]
fn redraw_and_nodraw_are_consumed_results() {
    assert_eq!(turi::event_result::redraw(), REDRAW);
    assert_eq!(turi::event_result::nodraw(), NODRAW);
    assert!(turi::event_result::redraw().is_consume());
}
