use turi::css::calc::Calc;
use turi::css::combine::Combine;
use turi::css::css_val::CssVal;
use turi::css::font_style::CssFontStyle;
use turi::css::rect::{CalcCssRect, CssRect};
use turi::css::size::CssSize;

#[test]
fn combine_test() {
    let l = CssFontStyle::Bold | CssFontStyle::Dimmed;
    let r = CssFontStyle::Bold | CssFontStyle::Reverse;
    assert_eq!(l.combine(r), l | r);
}

#[test]
fn parse_test() {
    assert_eq!(
        Ok(CssRect {
            top: CssVal::Val(CssSize::Fixed(12)),
            bottom: CssVal::Val(CssSize::Fixed(12)),
            left: CssVal::Val(CssSize::Fixed(12)),
            right: CssVal::Val(CssSize::Fixed(12)),
        }),
        "12".parse()
    );
}

#[test]
fn calc_test() {
    let ret = CssVal::Val(CssRect {
        top: CssVal::Val(CssSize::Fixed(12)),
        ..Default::default()
    })
    .nest_calc(CalcCssRect {
        ..Default::default()
    });
    assert_eq!(ret.top, CssSize::Fixed(12));
}

#[test]
fn css_val_calc_inherit_takes_parent() {
    let v: CssVal<CssSize> = CssVal::Inherit;
    assert_eq!(v.calc(CssSize::Percent(3)), CssSize::Percent(3));
}
