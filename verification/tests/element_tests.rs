use std::collections::HashMap;
use turi::backend::{Backend, TestBackend};
use turi::builder::{body, class, div};
use turi::css::calc::Calc;
use turi::css::css_val::CssVal;
use turi::css::property::CalcCssProperty;
use turi::css::size::CssSize;
use turi::css::style_sheet::StyleSheet;
use turi::element_view::ElementView;
use turi::printer::Printer;
use turi::rect::Rect;
use turi::style::AnsiColor;
use turi::vec2::Vec2;

const SIMPLE_CSS: &str = ".hello { width: 10; height: 10; color: darkred; }";

#[test]
fn style_test() {
    let css = StyleSheet::parse(SIMPLE_CSS);

    let b = bumpalo::Bump::new();
    let view = div(
        (),
        (),
        body(&b)
            .child(div(class(&b, &["hello"]), (), "Hi"))
            .child(div((), (), "wi")),
    );
    let element = ElementView::<(), ()>::with_view(view);
    let element_prop = css.calc_prop(&element).calc(Default::default());
    let child = element.make_child(0).unwrap();

    assert_eq!(child.view().classes(), &["hello"]);

    let prop = css.calc_prop(&child);
    assert_eq!(prop.width, CssVal::Val(CssSize::Fixed(10)));
    assert_eq!(prop.height, CssVal::Val(CssSize::Fixed(10)));

    let calc_prop = prop.calc(element_prop);
    assert_eq!(calc_prop.width, CssSize::Fixed(10));
    assert_eq!(calc_prop.height, CssSize::Fixed(10));
    assert_eq!(calc_prop.style.foreground, Some(AnsiColor::Red));
}

#[test]
fn style_sheet_orders_rules_by_selector_length() {
    // the shorter selector comes first; combining keeps the color that was
    // there before, so the first matching rule's color stays
    let css = StyleSheet::parse("div.hello { color: darkblue; } .hello { color: darkred; }");
    let b = bumpalo::Bump::new();
    let view = div(class(&b, &["hello"]), (), "x");
    let element = ElementView::<(), ()>::with_view(view);
    let prop = css.calc_prop(&element).calc(CalcCssProperty::default());
    assert_eq!(prop.style.foreground, Some(AnsiColor::Red));
}

#[test]
fn unmatched_rules_leave_properties_inherited() {
    let css = StyleSheet::parse(".other { color: red; }");
    let b = bumpalo::Bump::new();
    let view = div(class(&b, &["hello"]), (), "x");
    let element = ElementView::<(), ()>::with_view(view);
    let prop = css.calc_prop(&element);
    assert_eq!(prop.foreground, CssVal::Inherit);
}

#[test]
fn layout_and_render_children() {
    let css = StyleSheet::parse("");
    let b = bumpalo::Bump::new();
    let view = div(
        (),
        (),
        body(&b).child(div((), (), "Hi")).child(div((), (), "wi")),
    );
    let element = ElementView::<(), ()>::with_view(view);
    let mut cache = HashMap::new();
    let bound = Rect::new(Vec2::new(0, 0), Vec2::new(6, 3));
    let property = css.calc_prop(&element).calc(CalcCssProperty::default());
    let layout = element.layout(&css, property, &mut cache, bound).unwrap();
    // the second child's bound starts right of and below the first: the
    // running size (widest so far, total height) moves both ways
    assert_eq!(layout.content.size, Vec2::new(2, 2));
    assert_eq!(layout.size, Vec2::new(2, 2));
    // laid out again, it comes from the cache
    let again = element.layout(&css, property, &mut cache, Rect::new(Vec2::new(1, 1), Vec2::new(2, 2)));
    assert_eq!(again, Some(layout));

    let mut backend = TestBackend::new(Vec2::new(6, 3), std::iter::empty::<()>());
    {
        let mut printer = Printer::new(&mut backend);
        assert_eq!(element.render(&css, &mut printer, &cache), Some(layout));
    }
    // the second child's border box starts right of the left edge, so a
    // frame is drawn around it, over its text
    assert_eq!(backend.lines(), &["Hi    ", "  └┘  ", "      "]);
}

#[test]
fn render_without_layout_gives_none() {
    let css = StyleSheet::parse("");
    let b = bumpalo::Bump::new();
    let view = div((), (), body(&b).child(div((), (), "Hi")));
    let element = ElementView::<(), ()>::with_view(view);
    let cache = HashMap::new();
    let mut backend = TestBackend::new(Vec2::new(4, 1), std::iter::empty::<()>());
    let mut printer = Printer::new(&mut backend);
    assert_eq!(element.render(&css, &mut printer, &cache), None);
}

#[test]
fn text_layout_is_one_row_at_most() {
    let css = StyleSheet::parse("");
    let view = div::<(), (), _, _, _>((), (), "Hello");
    let element = ElementView::<(), ()>::with_view(view);
    let mut cache = HashMap::new();
    let property = CalcCssProperty::default();
    let layout = element
        .layout(&css, property, &mut cache, Rect::new(Vec2::new(0, 0), Vec2::new(3, 2)))
        .unwrap();
    // (5, 1) against (3, 2): (3, 2) is the smaller in the order of x, then y
    assert_eq!(layout.content.size, Vec2::new(3, 2));
}

#[test]
fn equal_selector_lengths_keep_their_order() {
    // both selectors are as long; the first written stays first, and its
    // color is kept
    let css = StyleSheet::parse(".a { color: darkred; } .b { color: darkblue; }");
    let b = bumpalo::Bump::new();
    let view = div(class(&b, &["a", "b"]), (), "x");
    let element = ElementView::<(), ()>::with_view(view);
    let prop = css.calc_prop(&element).calc(CalcCssProperty::default());
    assert_eq!(prop.style.foreground, Some(AnsiColor::Red));
    let css = StyleSheet::parse(".b { color: darkblue; } .a { color: darkred; }");
    let prop = css.calc_prop(&element).calc(CalcCssProperty::default());
    assert_eq!(prop.style.foreground, Some(AnsiColor::Blue));
}

#[test]
fn properties_turn_into_styles_over_the_parent() {
    let css = StyleSheet::parse(".x { background: black; font-weight: bold; }");
    let b = bumpalo::Bump::new();
    let view = div(class(&b, &["x"]), (), "x");
    let element = ElementView::<(), ()>::with_view(view);
    let mut parent = turi::style::AnsiStyle::new();
    parent.foreground = Some(AnsiColor::Green);
    let style = css.calc_prop(&element).to_style(parent);
    assert_eq!(style.foreground, Some(AnsiColor::Green));
    assert_eq!(style.background, Some(AnsiColor::Black));
    // combining starts from every property inherited, and a font style
    // combined onto an inherited one stays inherited: rules never set it
    assert!(!style.is_bold);
    assert!(!style.is_italic);
}

#[test]
fn css_values_map_and_fill() {
    let mut v: CssVal<CssSize> = CssVal::Inherit;
    assert_eq!(v.map(|s| s.is_zero()), CssVal::Inherit);
    *v.get_or_insert(CssSize::Fixed(2)) = CssSize::Fixed(3);
    assert_eq!(v, CssVal::Val(CssSize::Fixed(3)));
    assert_eq!(v.map(|s| s.is_zero()), CssVal::Val(false));
    assert_eq!(v.and_then(|_| CssVal::Inherit), CssVal::Inherit);
}

#[test]
fn render_puts_the_style_back() {
    let css = StyleSheet::parse(".hello { color: darkred; }");
    let b = bumpalo::Bump::new();
    let view = div((), (), body(&b).child(div(class(&b, &["hello"]), (), "Hi")));
    let element = ElementView::<(), ()>::with_view(view);
    let mut cache = HashMap::new();
    let bound = Rect::new(Vec2::new(0, 0), Vec2::new(4, 1));
    let property = css.calc_prop(&element).calc(CalcCssProperty::default());
    let layout = element.layout(&css, property, &mut cache, bound).unwrap();
    let mut backend = TestBackend::new(Vec2::new(4, 1), std::iter::empty::<()>());
    let before = backend.style();
    {
        let mut printer = Printer::new(&mut backend);
        assert_eq!(element.render(&css, &mut printer, &cache), Some(layout));
    }
    assert_eq!(backend.style(), before);
    assert_eq!(backend.lines(), &["Hi  "]);
}
