use turi::backend::TestBackend;
use turi::printer::Printer;
use turi::rect::Rect;
use turi::vec2::Vec2;

#[test]
fn print_cuts_at_right_edge() {
    let mut backend = TestBackend::new(Vec2::new(6, 2), std::iter::empty::<()>());
    {
        let mut printer = Printer::new(&mut backend);
        printer.print(Vec2::new(2, 0), "abcdef");
        // past the bottom edge (with the edge itself included): nothing
        printer.print(Vec2::new(0, 3), "x");
    }
    assert_eq!(backend.lines(), &["  abcd", "      "]);
}

#[test]
fn print_rect_draws_frame() {
    let mut backend = TestBackend::new(Vec2::new(4, 3), std::iter::empty::<()>());
    {
        let mut printer = Printer::new(&mut backend);
        printer.print_rect();
    }
    assert_eq!(backend.lines(), &["┌──┐", "│  │", "└──┘"]);
}

#[test]
fn with_bound_restores_bound() {
    let mut backend = TestBackend::new(Vec2::new(5, 3), std::iter::empty::<()>());
    {
        let mut printer = Printer::new(&mut backend);
        let before = printer.bound();
        printer.with_bound(Rect::new(Vec2::new(1, 1), Vec2::new(3, 1)), |p| {
            p.print(Vec2::new(0, 0), "xyz!");
        });
        assert_eq!(printer.bound(), before);
    }
    assert_eq!(backend.lines(), &["     ", " xyz!", "     "]);
}

#[test]
fn sliced_printer_shifts_origin() {
    let mut backend = TestBackend::new(Vec2::new(4, 2), std::iter::empty::<()>());
    {
        let mut printer = Printer::new(&mut backend);
        printer.sliced(Vec2::new(0, 1), |p| {
            p.print(Vec2::new(0, 1), "ab");
            p.print(Vec2::new(0, 0), "zz");
        });
    }
    assert_eq!(backend.lines(), &["ab  ", "    "]);
}

#[test]
fn nested_slices_cut_in_turn() {
    let mut backend = TestBackend::new(Vec2::new(4, 3), std::iter::empty::<()>());
    {
        let mut printer = Printer::new(&mut backend);
        printer.sliced(Vec2::new(1, 1), |p| {
            p.sliced(Vec2::new(1, 0), |q| {
                // the inner slice cuts one column, the outer one more and a row
                q.print(Vec2::new(0, 1), "abcd");
                // above the outer slice: dropped
                q.print(Vec2::new(2, 0), "zz");
            });
        });
    }
    assert_eq!(backend.lines(), &["cd  ", "    ", "    "]);
}
