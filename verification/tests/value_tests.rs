use turi::css::auto::CssAuto;
use turi::css::color::{CssColor, CssColorError};
use turi::css::combine::Combine;
use turi::css::css_val::CssVal;
use turi::css::font_style::{CssFontStyle, CssFontStyleSet};
use turi::css::number::parse_u16;
use turi::css::property::CssProperty;
use turi::css::rect::{CalcCssRect, CssRect};
use turi::css::rule::{convert_declar, CssDeclaration};
use turi::css::size::{parse_size_val, CssSize};
use turi::rect::Rect;
use turi::style::AnsiColor;
use turi::text::{str_contains, str_eq, str_starts_with};
use turi::vec2::Vec2;

#[test]
fn vec2_add_then_sub_gives_back() {
    let a = Vec2::new(3, 4);
    let b = Vec2::new(10, 20);
    assert_eq!((a + b) - b, a);
    assert_eq!(a.saturating_sub(b), Vec2::new(0, 0));
    assert_eq!(Vec2::new(65535, 1).saturating_add(b), Vec2::new(65535, 21));
    assert_eq!(a.checked_sub(b), None);
    assert_eq!(b.checked_sub(a), Some(Vec2::new(7, 16)));
}

#[test]
fn rect_contains_and_split() {
    let r = Rect::new(Vec2::new(1, 1), Vec2::new(3, 4));
    assert!(r.contains(Vec2::new(1, 1)));
    assert!(!r.contains(Vec2::new(4, 1)));
    assert!(r.contains_inclusive(Vec2::new(4, 5)));
    assert!(!r.contains_inclusive(Vec2::new(5, 5)));
    let (up, down) = r.split_vertical(1);
    assert_eq!(up, Rect::new(Vec2::new(1, 1), Vec2::new(3, 1)));
    assert_eq!(down, Rect::new(Vec2::new(1, 2), Vec2::new(3, 3)));
    // moving the corner keeps the far corner
    assert_eq!(r.add_start(Vec2::new(1, 2)).end(), r.end());
    assert_eq!(r.with_margin(1), Rect::new(Vec2::new(2, 2), Vec2::new(1, 2)));
}

#[test]
fn parse_numbers_and_sizes() {
    assert_eq!(parse_u16("65535"), Some(65535));
    assert_eq!(parse_u16("+12"), Some(12));
    assert_eq!(parse_u16("65536"), None);
    assert_eq!(parse_u16(""), None);
    assert_eq!(parse_u16("1a"), None);
    assert_eq!(CssSize::parse("12"), Some(CssSize::Fixed(12)));
    assert_eq!(CssSize::parse("50%"), Some(CssSize::Percent(50)));
    assert_eq!(CssSize::parse("%"), None);
    assert_eq!(parse_size_val("inherit"), Some(CssVal::Inherit));
    assert_eq!(parse_size_val("7"), Some(CssVal::Val(CssSize::Fixed(7))));
    assert_eq!("x".parse::<CssSize>().is_err(), true);
}

#[test]
fn sizes_resolve_against_the_room() {
    assert_eq!(CssSize::Fixed(30).calc_size(20), 20);
    assert_eq!(CssSize::Fixed(5).calc_size(20), 5);
    // a percentage asks for max * 100 / p cells, at most max
    assert_eq!(CssSize::Percent(200).calc_size(20), 10);
    assert_eq!(CssSize::Percent(50).calc_size(20), 20);
    assert!(CssSize::Percent(0).is_zero());
    assert_eq!(CssAuto::Manual(CssSize::Fixed(3)).calc_size(9), Some(3));
    assert_eq!(CssAuto::<CssSize>::Auto.calc_size(9), None);
    assert_eq!(CssAuto::parse("auto"), Some(CssAuto::Auto));
}

#[test]
fn rect_shorthand_parses_one_to_four_values() {
    let f = |n| CssVal::Val(CssSize::Fixed(n));
    assert_eq!(
        CssRect::parse("1 2"),
        Some(CssRect { top: f(1), bottom: f(1), left: f(2), right: f(2) })
    );
    assert_eq!(
        CssRect::parse("1 2 3"),
        Some(CssRect { top: f(1), bottom: f(3), left: f(2), right: f(2) })
    );
    assert_eq!(
        CssRect::parse("1 2 3 4"),
        Some(CssRect { top: f(1), right: f(2), bottom: f(3), left: f(4) })
    );
    assert_eq!(CssRect::parse("a"), None);
    let (start, size) = CalcCssRect {
        top: CssSize::Fixed(1),
        bottom: CssSize::Fixed(2),
        left: CssSize::Fixed(3),
        right: CssSize::Fixed(4),
    }
    .calc_rect(Vec2::new(10, 10));
    assert_eq!((start, size), (Vec2::new(3, 1), Vec2::new(4, 2)));
}

#[test]
fn colors_parse_by_name_and_by_value() {
    assert_eq!(CssColor::parse("darkred"), Ok(CssColor::new(Some(AnsiColor::Red))));
    assert_eq!(CssColor::parse("red"), Ok(CssColor::new(Some(AnsiColor::Fixed(9)))));
    assert_eq!(CssColor::parse("transparent"), Ok(CssColor::new(None)));
    // other colors go through the color parser
    assert_eq!(CssColor::parse("#ff0011"), Ok(CssColor::new(Some(AnsiColor::RGB(255, 0, 17)))));
    assert_eq!(
        CssColor::parse("rgb(1, 2, 3)"),
        Ok(CssColor::new(Some(AnsiColor::RGB(1, 2, 3))))
    );
    assert_eq!(CssColor::parse("not a color"), Err(CssColorError));
    // combining keeps the other color
    let a = CssColor::new(Some(AnsiColor::Red));
    let b = CssColor::new(Some(AnsiColor::Blue));
    assert_eq!(a.combine(b), b);
}

#[test]
fn font_style_sets() {
    let mut s = CssFontStyleSet::new();
    assert!(s.is_empty());
    s.insert(CssFontStyle::Italic);
    assert!(s.contains(CssFontStyle::Italic));
    assert!(!s.contains(CssFontStyle::Bold));
    let b = CssFontStyleSet::only(CssFontStyle::Bold);
    assert_eq!(s.union(b), s | b);
    assert!(s.intersection(b).is_empty());
}

#[test]
fn declarations_convert_to_properties() {
    let decls = vec![
        CssDeclaration { name: "color", value: "darkred" },
        CssDeclaration { name: "width", value: "10" },
        CssDeclaration { name: "margin", value: "1 2" },
        CssDeclaration { name: "font-weight", value: "bold" },
        CssDeclaration { name: "unknown", value: "x" },
        CssDeclaration { name: "height", value: "oops" },
    ];
    let p = convert_declar(&decls);
    assert_eq!(p.foreground, CssVal::Val(CssColor::new(Some(AnsiColor::Red))));
    assert_eq!(p.width, CssVal::Val(CssSize::Fixed(10)));
    assert_eq!(p.height, CssVal::Inherit);
    assert_eq!(p.margin, CssVal::Val(CssRect::parse("1 2").unwrap()));
    assert!(matches!(p.font_style, CssVal::Val(s) if s.contains(CssFontStyle::Bold)));
    assert_eq!(convert_declar(&vec![]), CssProperty::default());
}

#[test]
fn string_helpers() {
    assert!(str_eq("abc", "abc"));
    assert!(!str_eq("abc", "abd"));
    assert!(str_starts_with("hello", "he"));
    assert!(!str_starts_with("he", "hello"));
    assert!(str_contains("hello", "ll"));
    assert!(str_contains("hello", ""));
    assert!(!str_contains("hello", "lo!"));
}

#[test]
fn ignored_declaration_changes_nothing_wherever_it_stands() {
    let base = vec![
        CssDeclaration { name: "color", value: "darkred" },
        CssDeclaration { name: "width", value: "10" },
    ];
    let expected = convert_declar(&base);
    for k in 0..=base.len() {
        for ignored in [
            CssDeclaration { name: "unknown", value: "1" },
            CssDeclaration { name: "width", value: "wide" },
            CssDeclaration { name: "font-style", value: "normal" },
        ] {
            let mut with = base.clone();
            with.insert(k, ignored);
            assert_eq!(convert_declar(&with), expected);
        }
    }
    assert_eq!(convert_declar(&Vec::new()), CssProperty::default());
}
