use vstd::prelude::*;
use crate::css::calc::Calc;
use crate::css::color::CssColor;
use crate::css::combine::Combine;
use crate::css::css_val::CssVal;
use crate::css::font_style::{CssFontStyle, CssFontStyleSet};
use crate::css::rect::{CalcCssRect, CssRect, zero_calc_rect};
use crate::css::size::CssSize;
use crate::style::{AnsiColor, AnsiStyle, plain_style};

verus! {

/// The properties of an element, resolved against its parent.
#[derive(Clone, Copy, Debug, PartialEq, Eq, Structural)]
pub struct CalcCssProperty {
    pub style: AnsiStyle,
    pub width: CssSize,
    pub height: CssSize,
    pub padding: CalcCssRect,
    pub margin: CalcCssRect,
    pub border_width: CalcCssRect,
    pub border_color: Option<AnsiColor>,
}

/// The properties of an element as its matching style rules declare them.
#[derive(Clone, Copy, Debug, PartialEq, Eq, Structural)]
pub struct CssProperty {
    pub foreground: CssVal<CssColor>,
    pub background: CssVal<CssColor>,
    pub font_style: CssVal<CssFontStyleSet>,
    pub width: CssVal<CssSize>,
    pub height: CssVal<CssSize>,
    pub padding: CssVal<CssRect>,
    pub margin: CssVal<CssRect>,
    pub border_width: CssVal<CssRect>,
    pub border_color: CssVal<CssColor>,
}

/// The properties that declare nothing: every one inherits.
pub open spec fn inherit_property() -> CssProperty {
    CssProperty {
        foreground: CssVal::Inherit,
        background: CssVal::Inherit,
        font_style: CssVal::Inherit,
        width: CssVal::Inherit,
        height: CssVal::Inherit,
        padding: CssVal::Inherit,
        margin: CssVal::Inherit,
        border_width: CssVal::Inherit,
        border_color: CssVal::Inherit,
    }
}

/// The properties of the root: plain style, zero sizes, no border color.
pub open spec fn root_calc_property() -> CalcCssProperty {
    CalcCssProperty {
        style: plain_style(),
        width: CssSize::Fixed(0),
        height: CssSize::Fixed(0),
        padding: zero_calc_rect(),
        margin: zero_calc_rect(),
        border_width: zero_calc_rect(),
        border_color: None,
    }
}

impl Default for CssProperty {
    fn default() -> (r: Self)
        ensures
            r == inherit_property(),
    {
        CssProperty {
            foreground: CssVal::Inherit,
            background: CssVal::Inherit,
            font_style: CssVal::Inherit,
            width: CssVal::Inherit,
            height: CssVal::Inherit,
            padding: CssVal::Inherit,
            margin: CssVal::Inherit,
            border_width: CssVal::Inherit,
            border_color: CssVal::Inherit,
        }
    }
}

impl Default for CalcCssProperty {
    fn default() -> (r: Self)
        ensures
            r == root_calc_property(),
    {
        CalcCssProperty {
            style: AnsiStyle::new(),
            width: CssSize::Fixed(0),
            height: CssSize::Fixed(0),
            padding: CalcCssRect::default(),
            margin: CalcCssRect::default(),
            border_width: CalcCssRect::default(),
            border_color: None,
        }
    }
}

/// The font styles two declarations have in common; if either leaves them
/// undeclared, they are undeclared.
pub open spec fn spec_combine_font_style(
    l: CssVal<CssFontStyleSet>,
    r: CssVal<CssFontStyleSet>,
) -> CssVal<CssFontStyleSet> {
    match (l, r) {
        (CssVal::Val(a), CssVal::Val(b)) => CssVal::Val(CssFontStyleSet { bits: a.bits & b.bits }),
        _ => CssVal::Inherit,
    }
}

/// Two sets of declarations merged: property by property, `rhs`'s value
/// merged with `self`'s by the value's own rule; font styles are kept where
/// both declare them.
pub open spec fn spec_combine_property(l: CssProperty, r: CssProperty) -> CssProperty {
    CssProperty {
        foreground: r.foreground.spec_combine(l.foreground),
        background: r.background.spec_combine(l.background),
        width: r.width.spec_combine(l.width),
        height: r.height.spec_combine(l.height),
        padding: r.padding.spec_combine(l.padding),
        margin: r.margin.spec_combine(l.margin),
        border_width: r.border_width.spec_combine(l.border_width),
        border_color: r.border_color.spec_combine(l.border_color),
        font_style: spec_combine_font_style(l.font_style, r.font_style),
    }
}

/// Whether a declared set of font styles holds `s`.
pub open spec fn declares_style(f: CssVal<CssFontStyleSet>, s: CssFontStyle) -> bool {
    f matches CssVal::Val(set) && set@.contains(s)
}

/// The style of an element: its parent's, with declared colors replacing the
/// parent's and declared font styles switched on.
pub open spec fn spec_to_style(p: CssProperty, parent: AnsiStyle) -> AnsiStyle {
    AnsiStyle {
        foreground: match p.foreground {
            CssVal::Val(c) => c.color,
            CssVal::Inherit => parent.foreground,
        },
        background: match p.background {
            CssVal::Val(c) => c.color,
            CssVal::Inherit => parent.background,
        },
        is_bold: parent.is_bold || declares_style(p.font_style, CssFontStyle::Bold),
        is_dimmed: parent.is_dimmed || declares_style(p.font_style, CssFontStyle::Dimmed),
        is_italic: parent.is_italic || declares_style(p.font_style, CssFontStyle::Italic),
        is_underline: parent.is_underline || declares_style(p.font_style, CssFontStyle::Underline),
        is_blink: parent.is_blink || declares_style(p.font_style, CssFontStyle::Blink),
        is_reverse: parent.is_reverse || declares_style(p.font_style, CssFontStyle::Reverse),
        is_hidden: parent.is_hidden || declares_style(p.font_style, CssFontStyle::Hidden),
        is_strikethrough: parent.is_strikethrough || declares_style(
            p.font_style,
            CssFontStyle::StrikeThrough,
        ),
    }
}

impl CssProperty {
    pub fn combine(self, rhs: Self) -> (r: Self)
        ensures
            r == spec_combine_property(self, rhs),
    {
        let font_style = match (self.font_style, rhs.font_style) {
            (CssVal::Val(f), CssVal::Val(rf)) => CssVal::Val(f.intersection(rf)),
            _ => CssVal::Inherit,
        };
        let r = Self {
            foreground: rhs.foreground.combine(self.foreground),
            background: rhs.background.combine(self.background),
            width: rhs.width.combine(self.width),
            height: rhs.height.combine(self.height),
            padding: rhs.padding.combine(self.padding),
            margin: rhs.margin.combine(self.margin),
            border_width: rhs.border_width.combine(self.border_width),
            border_color: rhs.border_color.combine(self.border_color),
            font_style,
        };
        r
    }

    pub fn to_style(self, parent_style: AnsiStyle) -> (r: AnsiStyle)
        ensures
            r == spec_to_style(self, parent_style),
    {
        let mut ret = parent_style;
        if let CssVal::Val(fg) = self.foreground {
            ret.foreground = fg.color();
        }
        if let CssVal::Val(bg) = self.background {
            ret.background = bg.color();
        }
        if let CssVal::Val(font_style) = self.font_style {
            if font_style.contains(CssFontStyle::Bold) {
                ret.is_bold = true;
            }
            if font_style.contains(CssFontStyle::Dimmed) {
                ret.is_dimmed = true;
            }
            if font_style.contains(CssFontStyle::Italic) {
                ret.is_italic = true;
            }
            if font_style.contains(CssFontStyle::Underline) {
                ret.is_underline = true;
            }
            if font_style.contains(CssFontStyle::Blink) {
                ret.is_blink = true;
            }
            if font_style.contains(CssFontStyle::Reverse) {
                ret.is_reverse = true;
            }
            if font_style.contains(CssFontStyle::Hidden) {
                ret.is_hidden = true;
            }
            if font_style.contains(CssFontStyle::StrikeThrough) {
                ret.is_strikethrough = true;
            }
        }
        ret
    }
}

/// An element's properties resolved against its parent's: the style by
/// `to_style`, sizes and boxes by their own resolution, the border color by
/// the declared color or the parent's.
pub open spec fn spec_calc_property(p: CssProperty, parent: CalcCssProperty) -> CalcCssProperty {
    CalcCssProperty {
        style: spec_to_style(p, parent.style),
        width: p.width.spec_calc(parent.width),
        height: p.height.spec_calc(parent.height),
        padding: match p.padding {
            CssVal::Val(v) => v.spec_calc(parent.padding),
            CssVal::Inherit => parent.padding,
        },
        margin: match p.margin {
            CssVal::Val(v) => v.spec_calc(parent.margin),
            CssVal::Inherit => parent.margin,
        },
        border_width: match p.border_width {
            CssVal::Val(v) => v.spec_calc(parent.border_width),
            CssVal::Inherit => parent.border_width,
        },
        border_color: match p.border_color {
            CssVal::Val(c) => c.color,
            CssVal::Inherit => parent.border_color,
        },
    }
}

impl Calc for CssProperty {
    type Output = CalcCssProperty;

    open spec fn spec_calc(self, parent: CalcCssProperty) -> CalcCssProperty {
        spec_calc_property(self, parent)
    }

    fn calc(self, parent: CalcCssProperty) -> (r: CalcCssProperty) {
        CalcCssProperty {
            style: self.to_style(parent.style),
            width: self.width.calc(parent.width),
            height: self.height.calc(parent.height),
            padding: self.padding.nest_calc(parent.padding),
            margin: self.margin.nest_calc(parent.margin),
            border_width: self.border_width.nest_calc(parent.border_width),
            border_color: match self.border_color {
                CssVal::Val(c) => c.color(),
                CssVal::Inherit => parent.border_color,
            },
        }
    }
}


/// Combining two sets of declarations works property by property: each
/// property of the result comes from that same property of the two inputs
/// alone (two pairs of inputs that agree on it give the same result).
pub proof fn lemma_combine_is_per_property(l1: CssProperty, r1: CssProperty, l2: CssProperty, r2: CssProperty)
    ensures
        l1.foreground == l2.foreground && r1.foreground == r2.foreground ==> spec_combine_property(l1, r1).foreground
            == spec_combine_property(l2, r2).foreground,
        l1.background == l2.background && r1.background == r2.background ==> spec_combine_property(l1, r1).background
            == spec_combine_property(l2, r2).background,
        l1.width == l2.width && r1.width == r2.width ==> spec_combine_property(l1, r1).width
            == spec_combine_property(l2, r2).width,
        l1.height == l2.height && r1.height == r2.height ==> spec_combine_property(l1, r1).height
            == spec_combine_property(l2, r2).height,
        l1.padding == l2.padding && r1.padding == r2.padding ==> spec_combine_property(l1, r1).padding
            == spec_combine_property(l2, r2).padding,
        l1.margin == l2.margin && r1.margin == r2.margin ==> spec_combine_property(l1, r1).margin
            == spec_combine_property(l2, r2).margin,
        l1.border_width == l2.border_width && r1.border_width == r2.border_width ==> spec_combine_property(l1, r1).border_width
            == spec_combine_property(l2, r2).border_width,
        l1.border_color == l2.border_color && r1.border_color == r2.border_color ==> spec_combine_property(l1, r1).border_color
            == spec_combine_property(l2, r2).border_color,
        l1.font_style == l2.font_style && r1.font_style == r2.font_style ==> spec_combine_property(
            l1,
            r1,
        ).font_style == spec_combine_property(l2, r2).font_style,
{
}

/// A property that neither side declares stays undeclared when two sets of
/// declarations are combined; one that only one side declares takes that
/// side's value.
pub proof fn lemma_combine_declared_only(l: CssProperty, r: CssProperty)
    ensures
        l.foreground is Inherit && r.foreground is Inherit ==> spec_combine_property(l, r).foreground is Inherit,
        l.foreground is Inherit ==> spec_combine_property(l, r).foreground == r.foreground,
        r.foreground is Inherit ==> spec_combine_property(l, r).foreground == l.foreground,
        l.background is Inherit && r.background is Inherit ==> spec_combine_property(l, r).background is Inherit,
        l.background is Inherit ==> spec_combine_property(l, r).background == r.background,
        r.background is Inherit ==> spec_combine_property(l, r).background == l.background,
        l.width is Inherit && r.width is Inherit ==> spec_combine_property(l, r).width is Inherit,
        l.width is Inherit ==> spec_combine_property(l, r).width == r.width,
        r.width is Inherit ==> spec_combine_property(l, r).width == l.width,
        l.height is Inherit && r.height is Inherit ==> spec_combine_property(l, r).height is Inherit,
        l.height is Inherit ==> spec_combine_property(l, r).height == r.height,
        r.height is Inherit ==> spec_combine_property(l, r).height == l.height,
        l.padding is Inherit && r.padding is Inherit ==> spec_combine_property(l, r).padding is Inherit,
        l.padding is Inherit ==> spec_combine_property(l, r).padding == r.padding,
        r.padding is Inherit ==> spec_combine_property(l, r).padding == l.padding,
        l.margin is Inherit && r.margin is Inherit ==> spec_combine_property(l, r).margin is Inherit,
        l.margin is Inherit ==> spec_combine_property(l, r).margin == r.margin,
        r.margin is Inherit ==> spec_combine_property(l, r).margin == l.margin,
        l.border_width is Inherit && r.border_width is Inherit ==> spec_combine_property(l, r).border_width is Inherit,
        l.border_width is Inherit ==> spec_combine_property(l, r).border_width == r.border_width,
        r.border_width is Inherit ==> spec_combine_property(l, r).border_width == l.border_width,
        l.border_color is Inherit && r.border_color is Inherit ==> spec_combine_property(l, r).border_color is Inherit,
        l.border_color is Inherit ==> spec_combine_property(l, r).border_color == r.border_color,
        r.border_color is Inherit ==> spec_combine_property(l, r).border_color == l.border_color,
        l.font_style is Inherit || r.font_style is Inherit ==> spec_combine_property(l, r).font_style is Inherit,
{
}

/// Resolving declared properties against a parent works property by
/// property: each resolved property comes from that same property of the
/// declarations and of the parent alone.
pub proof fn lemma_calc_is_per_property(
    p1: CssProperty,
    parent1: CalcCssProperty,
    p2: CssProperty,
    parent2: CalcCssProperty,
)
    ensures
        p1.width == p2.width && parent1.width == parent2.width ==> spec_calc_property(p1, parent1).width
            == spec_calc_property(p2, parent2).width,
        p1.height == p2.height && parent1.height == parent2.height ==> spec_calc_property(p1, parent1).height
            == spec_calc_property(p2, parent2).height,
        p1.padding == p2.padding && parent1.padding == parent2.padding ==> spec_calc_property(p1, parent1).padding
            == spec_calc_property(p2, parent2).padding,
        p1.margin == p2.margin && parent1.margin == parent2.margin ==> spec_calc_property(p1, parent1).margin
            == spec_calc_property(p2, parent2).margin,
        p1.border_width == p2.border_width && parent1.border_width == parent2.border_width ==> spec_calc_property(p1, parent1).border_width
            == spec_calc_property(p2, parent2).border_width,
        p1.border_color == p2.border_color && parent1.border_color == parent2.border_color ==> spec_calc_property(p1, parent1).border_color
            == spec_calc_property(p2, parent2).border_color,
{
}

/// A property that is not declared takes the parent's value of that same
/// property.
pub proof fn lemma_calc_inherits_from_parent(p: CssProperty, parent: CalcCssProperty)
    ensures
        p.width is Inherit ==> spec_calc_property(p, parent).width == parent.width,
        p.height is Inherit ==> spec_calc_property(p, parent).height == parent.height,
        p.padding is Inherit ==> spec_calc_property(p, parent).padding == parent.padding,
        p.margin is Inherit ==> spec_calc_property(p, parent).margin == parent.margin,
        p.border_width is Inherit ==> spec_calc_property(p, parent).border_width == parent.border_width,
        p.border_color is Inherit ==> spec_calc_property(p, parent).border_color == parent.border_color,
{
}


/// An element's style keeps every font style its parent has and switches on
/// exactly those its declarations add; its colors are the declared ones, or
/// the parent's where none is declared.
pub proof fn lemma_style_from_parent_and_declarations(p: CssProperty, parent: AnsiStyle)
    ensures
        p.foreground is Inherit ==> spec_to_style(p, parent).foreground == parent.foreground,
        p.background is Inherit ==> spec_to_style(p, parent).background == parent.background,
        p.foreground matches CssVal::Val(c) ==> spec_to_style(p, parent).foreground == c.color,
        p.background matches CssVal::Val(c) ==> spec_to_style(p, parent).background == c.color,
        spec_to_style(p, parent).is_bold <==> (parent.is_bold || declares_style(p.font_style, CssFontStyle::Bold)),
        spec_to_style(p, parent).is_dimmed <==> (parent.is_dimmed || declares_style(p.font_style, CssFontStyle::Dimmed)),
        spec_to_style(p, parent).is_italic <==> (parent.is_italic || declares_style(p.font_style, CssFontStyle::Italic)),
        spec_to_style(p, parent).is_underline <==> (parent.is_underline || declares_style(p.font_style, CssFontStyle::Underline)),
        spec_to_style(p, parent).is_blink <==> (parent.is_blink || declares_style(p.font_style, CssFontStyle::Blink)),
        spec_to_style(p, parent).is_reverse <==> (parent.is_reverse || declares_style(p.font_style, CssFontStyle::Reverse)),
        spec_to_style(p, parent).is_hidden <==> (parent.is_hidden || declares_style(p.font_style, CssFontStyle::Hidden)),
        spec_to_style(p, parent).is_strikethrough <==> (parent.is_strikethrough || declares_style(p.font_style, CssFontStyle::StrikeThrough)),
{
}

} // verus!
