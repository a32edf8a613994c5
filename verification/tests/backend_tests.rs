use turi::backend::{Backend, DummyBackend, SlicedBackend, TestBackend};
use turi::vec2::Vec2;

#[test]
fn test_backend_test() {
    let mut backend = TestBackend::new(Vec2::new(10, 5), std::iter::empty::<()>());
    backend.print_at(Vec2::new(2, 2), "가나다");
    backend.print_at(Vec2::new(2, 1), "ABC");
    backend.print_at(Vec2::new(7, 2), "라");

    assert_eq!(
        backend.lines(),
        &[
            "          ",
            "  ABC     ",
            "  가나 라 ",
            "          ",
            "          ",
        ]
    );
}

#[test]
fn test_backend_clear_blanks_every_line() {
    let mut backend = TestBackend::new(Vec2::new(4, 2), std::iter::empty::<()>());
    backend.print_at(Vec2::new(0, 0), "abcd");
    backend.print_at(Vec2::new(1, 1), "x");
    backend.clear();
    assert_eq!(backend.lines(), &["    ", "    "]);
    assert_eq!(backend.size(), Vec2::new(4, 2));
}

#[test]
fn test_backend_empty_text_inside_wide_char_keeps_line() {
    let mut backend = TestBackend::new(Vec2::new(6, 1), std::iter::empty::<()>());
    backend.print_at(Vec2::new(0, 0), "가나");
    backend.print_at(Vec2::new(1, 0), "");
    assert_eq!(backend.lines(), &["가나  "]);
}

#[test]
fn sliced_backend_shifts_and_cuts() {
    let mut inner = TestBackend::new(Vec2::new(6, 2), std::iter::empty::<()>());
    {
        let mut sliced = SlicedBackend::new(&mut inner, Vec2::new(2, 1));
        // above the offset: dropped
        sliced.print_at(Vec2::new(3, 0), "zz");
        // right of the offset: shifted by it
        sliced.print_at(Vec2::new(3, 1), "ab");
        // left of the offset: the hidden columns are cut off
        sliced.print_at(Vec2::new(0, 2), "xyzw");
        assert_eq!(sliced.size(), Vec2::new(8, 3));
    }
    assert_eq!(inner.lines(), &[" ab   ", "zw    "]);
}

#[test]
fn dummy_backend_has_no_size() {
    let mut backend = DummyBackend;
    backend.print_at(Vec2::new(3, 3), "ignored");
    assert_eq!(backend.size(), Vec2::new(0, 0));
}
