//! A view tree element seen with its place in the tree, for matching style
//! rules and for layout.

use vstd::prelude::*;
use std::collections::HashMap;
use crate::css::calc::Calc;
use crate::css::property::{CalcCssProperty, spec_calc_property};
use crate::css::rect::{CalcCssRect, calc_rect_ok, spec_calc_rect};
use crate::css::size::{size_amount, spec_calc_size};
use crate::css::style_sheet::{StyleSheet, combine_matched, rule_props, sheet_matches};
use crate::css::rule::CssRule;
use crate::backend::{Backend, restores_style, DrawOp, through_op, through_ops, lemma_through_push_op, lemma_through_concat, draws, draw_chain, draw_step, print_steps, lemma_draw_chain_push, lemma_draw_chain_concat, lemma_prints_draw};
use crate::printer::{Printer, MAX_HORIZONTAL_LINE, print_clip, rect_ops};
use crate::rect::{Rect, spec_add_start};
use crate::style::{AnsiColor, AnsiStyle, plain_style};
use crate::text::{str_eq, str_starts_with, str_contains, contains_seq};
use crate::vec2::{Vec2, add_fits};
use crate::view::{Tag, TuiView, ViewBody, ViewState, spec_parse_tag, max_depth};

verus! {

broadcast use vstd::std_specs::hash::group_hash_axioms;

#[verifier::external_type_specification]
#[verifier::external_body]
pub struct ExAttributeOperator<'a>(simplecss::AttributeOperator<'a>);

#[verifier::external_type_specification]
#[verifier::external_body]
pub struct ExPseudoClass<'a>(simplecss::PseudoClass<'a>);

/// What an attribute selector asks of an attribute's value.
#[derive(Clone, Copy, Debug)]
pub enum AttrMatch<'a> {
    /// The attribute is there.
    Exists,
    /// The value is this.
    Matches(&'a str),
    /// The value contains this.
    Contains(&'a str),
    /// The value starts with this.
    StartsWith(&'a str),
}

/// A pseudo-class of a selector.
#[derive(Clone, Copy, Debug)]
pub enum PseudoMatch<'a> {
    FirstChild,
    Link,
    Visited,
    Hover,
    Active,
    Focus,
    Lang(&'a str),
}

/// Tells the variants of `simplecss::AttributeOperator` apart, one arm
/// each, moving the string. Trusted: the outside type is opaque here, so
/// nothing is stated of the result.
#[verifier::external_body]
fn attr_match_of<'b>(op: simplecss::AttributeOperator<'b>) -> AttrMatch<'b> {
    match op {
        simplecss::AttributeOperator::Exists => AttrMatch::Exists,
        simplecss::AttributeOperator::Matches(v) => AttrMatch::Matches(v),
        simplecss::AttributeOperator::Contains(v) => AttrMatch::Contains(v),
        simplecss::AttributeOperator::StartsWith(v) => AttrMatch::StartsWith(v),
    }
}

/// Tells the variants of `simplecss::PseudoClass` apart, one arm each,
/// moving the language. Trusted: the outside type is opaque here, so nothing
/// is stated of the result.
#[verifier::external_body]
fn pseudo_match_of<'b>(class: simplecss::PseudoClass<'b>) -> PseudoMatch<'b> {
    match class {
        simplecss::PseudoClass::FirstChild => PseudoMatch::FirstChild,
        simplecss::PseudoClass::Link => PseudoMatch::Link,
        simplecss::PseudoClass::Visited => PseudoMatch::Visited,
        simplecss::PseudoClass::Hover => PseudoMatch::Hover,
        simplecss::PseudoClass::Active => PseudoMatch::Active,
        simplecss::PseudoClass::Focus => PseudoMatch::Focus,
        simplecss::PseudoClass::Lang(l) => PseudoMatch::Lang(l),
    }
}

/// Whether a view with `classes` has a class attribute that meets `op`:
/// some class equal to, containing, or starting with the given name, or,
/// for a bare attribute test, any class at all.
pub open spec fn class_matches(classes: Seq<&str>, op: AttrMatch) -> bool {
    match op {
        AttrMatch::Exists => classes.len() > 0,
        AttrMatch::Matches(n) => exists|i: int| 0 <= i < classes.len() && #[trigger] classes[i]@ == n@,
        AttrMatch::Contains(n) => exists|i: int|
            0 <= i < classes.len() && contains_seq(#[trigger] classes[i]@, n@),
        AttrMatch::StartsWith(n) => exists|i: int|
            0 <= i < classes.len() && n@.len() <= classes[i]@.len() && #[trigger] classes[i]@.take(
                n@.len() as int,
            ) == n@,
    }
}

/// Whether a view with `classes` has the attribute `name` meeting `op`: the
/// only attribute a view has is `class`.
pub open spec fn spec_attribute_matches(classes: Seq<&str>, name: Seq<char>, op: AttrMatch) -> bool {
    name == "class"@ && class_matches(classes, op)
}

/// Whether a view in the states `state` meets the pseudo-class `class`:
/// focus and hover where the view has that state; no other pseudo-class.
pub open spec fn spec_pseudo_class_matches(state: Set<ViewState>, class: PseudoMatch) -> bool {
    match class {
        PseudoMatch::Focus => state.contains(ViewState::Focus),
        PseudoMatch::Hover => state.contains(ViewState::Hover),
        _ => false,
    }
}

/// What a selector can learn of one element: its tag, its classes and its
/// states.
pub struct NodeFacts {
    pub tag: Tag,
    pub classes: Seq<Seq<char>>,
    pub state: Set<ViewState>,
}

/// The tag, classes and states of `v`.
pub open spec fn node_facts<'a, E, M>(v: TuiView<'a, E, M>) -> NodeFacts {
    NodeFacts {
        tag: v.tag,
        classes: v.classes@.map_values(|c: &str| c@),
        state: v.state@,
    }
}

/// An element of the view tree with its parent and its index among the
/// parent's children.
#[verifier::reject_recursive_types(E)]
pub struct ElementView<'a, E, M> {
    parent: Option<&'a ElementView<'a, E, M>>,
    pos: usize,
    view: TuiView<'a, E, M>,
}

impl<'a, E, M> Clone for ElementView<'a, E, M> {
    fn clone(&self) -> (r: Self)
        ensures
            r == *self,
    {
        *self
    }
}

impl<'a, E, M> Copy for ElementView<'a, E, M> {
}

/// What a selector can learn of an element through its `simplecss::Element`
/// answers, level by level from the element up to the root: at each level,
/// the facts of the children of the parent before the element there (those
/// its earlier siblings are made from), then of that element itself.
pub closed spec fn element_facts<'a, E, M>(el: ElementView<'a, E, M>) -> Seq<Seq<NodeFacts>>
    decreases el,
{
    match el.parent {
        Some(p) => {
            let cs = child_views(p.view);
            let before = if el.pos <= cs.len() {
                cs.take(el.pos as int)
            } else {
                Seq::empty()
            };
            seq![before.map_values(|v: TuiView<'a, E, M>| node_facts(v)).push(node_facts(el.view))]
                + element_facts(*p)
        },
        None => seq![seq![node_facts(el.view)]],
    }
}

impl<'a, E, M> ElementView<'a, E, M> {
    pub closed spec fn spec_parent(&self) -> Option<&'a ElementView<'a, E, M>> {
        self.parent
    }

    pub closed spec fn spec_pos(&self) -> usize {
        self.pos
    }

    pub closed spec fn spec_view(&self) -> TuiView<'a, E, M> {
        self.view
    }

    /// The root of a tree: no parent, first place.
    pub fn with_view(view: TuiView<'a, E, M>) -> (r: Self)
        ensures
            r.spec_parent() is None,
            r.spec_pos() == 0,
            r.spec_view() == view,
    {
        Self::with_parent(None, 0, view)
    }

    fn with_parent(parent: Option<&'a Self>, pos: usize, view: TuiView<'a, E, M>) -> (r: Self)
        ensures
            r.spec_parent() == parent,
            r.spec_pos() == pos,
            r.spec_view() == view,
    {
        Self { parent, pos, view }
    }

    /// The child at `pos`, with this element as its parent; `None` past the
    /// last child.
    pub fn make_child(&'a self, pos: usize) -> (r: Option<Self>)
        ensures
            (pos as int) < child_views(self.spec_view()).len() <==> r is Some,
            r matches Some(c) ==> c.spec_parent() == Some(self) && c.spec_pos() == pos
                && c.spec_view() == child_views(self.spec_view())[pos as int],
    {
        let children = self.view.children();
        if pos < children.len() {
            Some(Self { parent: Some(self), pos, view: children[pos] })
        } else {
            None
        }
    }

    pub fn view(self) -> (r: TuiView<'a, E, M>)
        ensures
            r == self.spec_view(),
    {
        self.view
    }

    /// Whether the element's class attribute meets `op`; no other
    /// attribute is known.
    #[verifier::loop_isolation(false)]
    pub fn matches_attribute(&self, local_name: &str, op: AttrMatch) -> (r: bool)
        ensures
            r == spec_attribute_matches(self.spec_view().classes@, local_name@, op),
    {
        proof {
            reveal_strlit("class");
        }
        if !str_eq(local_name, "class") {
            return false;
        }
        let classes = self.view.classes();
        let n = classes.len();
        match op {
            AttrMatch::Exists => n > 0,
            AttrMatch::Matches(name) => {
                let mut i: usize = 0;
                while i < n
                    invariant
                        i <= n,
                        n == classes@.len(),
                        forall|k: int| 0 <= k < i ==> #[trigger] classes@[k]@ != name@,
                    decreases n - i,
                {
                    if str_eq(classes[i], name) {
                        assert(classes@[i as int]@ == name@);
                        return true;
                    }
                    i = i + 1;
                }
                false
            },
            AttrMatch::Contains(name) => {
                let mut i: usize = 0;
                while i < n
                    invariant
                        i <= n,
                        n == classes@.len(),
                        forall|k: int| 0 <= k < i ==> !contains_seq(#[trigger] classes@[k]@, name@),
                    decreases n - i,
                {
                    if str_contains(classes[i], name) {
                        assert(contains_seq(classes@[i as int]@, name@));
                        return true;
                    }
                    i = i + 1;
                }
                false
            },
            AttrMatch::StartsWith(name) => {
                let mut i: usize = 0;
                while i < n
                    invariant
                        i <= n,
                        n == classes@.len(),
                        forall|k: int|
                            0 <= k < i ==> !(name@.len() <= classes@[k]@.len()
                                && #[trigger] classes@[k]@.take(name@.len() as int) == name@),
                    decreases n - i,
                {
                    if str_starts_with(classes[i], name) {
                        assert(classes@[i as int]@.take(name@.len() as int) == name@);
                        return true;
                    }
                    i = i + 1;
                }
                false
            },
        }
    }

    /// Whether the element is in the state a pseudo-class names: focus and
    /// hover are known, no other pseudo-class holds.
    pub fn matches_pseudo_class(&self, class: PseudoMatch) -> (r: bool)
        ensures
            r == spec_pseudo_class_matches(self.spec_view().state@, class),
    {
        match class {
            PseudoMatch::Focus => self.view.has_state(ViewState::Focus),
            PseudoMatch::Hover => self.view.has_state(ViewState::Hover),
            _ => false,
        }
    }
}

/// The children of a view; none for a text.
pub open spec fn child_views<'a, E, M>(v: TuiView<'a, E, M>) -> Seq<TuiView<'a, E, M>> {
    match v.body {
        crate::view::ViewBody::Children(cs) => cs@,
        crate::view::ViewBody::Text(..) => Seq::empty(),
    }
}

impl<'a, E, M> simplecss::Element for ElementView<'a, E, M> {
    fn parent_element(&self) -> (r: Option<Self>)
        ensures
            r == match self.spec_parent() {
                Some(p) => Some(*p),
                None => None,
            },
    {
        match self.parent {
            Some(p) => Some(*p),
            None => None,
        }
    }

    /// The child before this one of the same parent; none for the first
    /// child or the root.
    fn prev_sibling_element(&self) -> (r: Option<Self>)
        ensures
            r is Some <==> (self.spec_parent() is Some && self.spec_pos() > 0 && self.spec_pos()
                - 1 < child_views(self.spec_parent()->0.spec_view()).len()),
            r matches Some(c) ==> c.spec_pos() == self.spec_pos() - 1 && c.spec_view()
                == child_views(self.spec_parent()->0.spec_view())[self.spec_pos() - 1],
    {
        match self.parent {
            Some(p) => {
                if self.pos > 0 {
                    p.make_child(self.pos - 1)
                } else {
                    None
                }
            },
            None => None,
        }
    }

    /// Whether `name` parses to this element's tag.
    fn has_local_name(&self, name: &str) -> (r: bool)
        ensures
            r == (spec_parse_tag(name@) == Some(self.spec_view().tag)),
    {
        match Tag::parse(name) {
            Some(t) => t == self.view.tag(),
            None => false,
        }
    }

    /// Whether the attribute `local_name` meets the operator, as
    /// `matches_attribute` decides for the operator's variant.
    fn attribute_matches(&self, local_name: &str, operator: simplecss::AttributeOperator<'_>) -> (r: bool)
        ensures
            exists|op: AttrMatch|
                r == #[trigger] spec_attribute_matches(self.spec_view().classes@, local_name@, op),
    {
        self.matches_attribute(local_name, attr_match_of(operator))
    }

    /// Whether the element meets the pseudo-class, as
    /// `matches_pseudo_class` decides for its variant.
    fn pseudo_class_matches(&self, class: simplecss::PseudoClass<'_>) -> (r: bool)
        ensures
            exists|c: PseudoMatch|
                r == #[trigger] spec_pseudo_class_matches(self.spec_view().state@, c),
    {
        self.matches_pseudo_class(pseudo_match_of(class))
    }
}

/// Where an element was laid out: the cells it takes with its margin, its
/// border, padding and content boxes, and the styles it is drawn with.
#[derive(Clone, Copy, Debug, PartialEq, Eq, Structural)]
pub struct LayoutResult {
    pub size: Vec2,
    pub border: Rect,
    pub padding: Rect,
    pub content: Rect,
    pub style: AnsiStyle,
    pub border_style: AnsiStyle,
}

impl Default for LayoutResult {
    /// Empty boxes at the origin, plain styles.
    fn default() -> (r: Self)
        ensures
            r.size == (Vec2 { x: 0, y: 0 }),
            r.border == (Rect { start: Vec2 { x: 0, y: 0 }, size: Vec2 { x: 0, y: 0 } }),
            r.padding == r.border,
            r.content == r.border,
            r.style == plain_style(),
            r.border_style == plain_style(),
    {
        let z = Rect::new(Vec2::new(0, 0), Vec2::new(0, 0));
        LayoutResult {
            size: Vec2::new(0, 0),
            border: z,
            padding: z,
            content: z,
            style: AnsiStyle::new(),
            border_style: AnsiStyle::new(),
        }
    }
}

/// Whether every side of `r` is zero.
pub open spec fn rect_is_zero(r: CalcCssRect) -> bool {
    size_amount(r.top) == 0 && size_amount(r.bottom) == 0 && size_amount(r.left) == 0
        && size_amount(r.right) == 0
}

impl CalcCssRect {
    /// Whether every side is zero.
    pub fn is_zero(self) -> (r: bool)
        ensures
            r == rect_is_zero(self),
    {
        self.top.is_zero() && self.bottom.is_zero() && self.left.is_zero() && self.right.is_zero()
    }

    /// Whether `calc_rect` can resolve the sides against `size`.
    pub fn can_calc_rect(self, size: Vec2) -> (r: bool)
        ensures
            r == calc_rect_ok(self, size),
    {
        self.left.can_calc_size(size.x) && self.top.can_calc_size(size.y)
            && self.right.can_calc_size(size.x) && self.bottom.can_calc_size(size.y)
    }
}

/// The cells a border takes on each side: one where any border is declared.
pub open spec fn border_size(p: CalcCssProperty) -> Vec2 {
    if rect_is_zero(p.border_width) {
        Vec2 { x: 0, y: 0 }
    } else {
        Vec2 { x: 1, y: 1 }
    }
}

/// The shares that margin, border and padding take of a bound, and the
/// bound left for the content.
#[derive(Clone, Copy, Debug, PartialEq, Eq, Structural)]
pub struct BoxArea {
    pub margin_start: Vec2,
    pub margin_size: Vec2,
    pub border: Vec2,
    pub padding_start: Vec2,
    pub padding_size: Vec2,
    pub content: Rect,
}

/// Whether `v` is a number of cells a `u16` holds.
pub open spec fn fits(v: int) -> bool {
    0 <= v <= u16::MAX
}

/// The box of an element with property `p` inside `b`: margin and padding
/// resolved against `b`'s size, a one-cell border where one is declared,
/// and the content bound `b` less the shares before it (moving its corner)
/// and after it (shrinking it). `None` where a share cannot be resolved,
/// a sum leaves `u16`, or the shares do not fit into `b`.
pub open spec fn spec_box_area(p: CalcCssProperty, b: Rect) -> Option<BoxArea> {
    if !calc_rect_ok(p.margin, b.size) || !calc_rect_ok(p.padding, b.size) {
        None
    } else {
        let (ms, msz) = spec_calc_rect(p.margin, b.size);
        let bs = border_size(p);
        let (ps, psz) = spec_calc_rect(p.padding, b.size);
        let ax = ms.x + bs.x + ps.x;
        let ay = ms.y + bs.y + ps.y;
        let zx = msz.x + bs.x + psz.x;
        let zy = msz.y + bs.y + psz.y;
        if fits(ax) && fits(ay) && fits(zx) && fits(zy) && fits(b.start.x + ax) && fits(
            b.start.y + ay,
        ) && ax <= b.size.x && ay <= b.size.y && zx <= b.size.x - ax && zy <= b.size.y - ay {
            Some(
                BoxArea {
                    margin_start: ms,
                    margin_size: msz,
                    border: bs,
                    padding_start: ps,
                    padding_size: psz,
                    content: Rect {
                        start: Vec2 { x: (b.start.x + ax) as u16, y: (b.start.y + ay) as u16 },
                        size: Vec2 { x: (b.size.x - ax - zx) as u16, y: (b.size.y - ay - zy) as u16 },
                    },
                },
            )
        } else {
            None
        }
    }
}

/// The style a border is drawn with: its color in front, nothing else.
pub open spec fn border_style_of(c: Option<AnsiColor>) -> AnsiStyle {
    AnsiStyle { foreground: c, ..plain_style() }
}

/// The layout of an element with property `p` whose content takes `content`
/// cells in `area`: the content box at the area's corner, the padding box
/// around it, the border box around that, and the size with the margin.
/// `None` where a size leaves `u16`.
pub open spec fn spec_finish_box(p: CalcCssProperty, area: BoxArea, content: Vec2) -> Option<LayoutResult> {
    let ps = area.padding_start;
    let psz = area.padding_size;
    let bs = area.border;
    let px = content.x + psz.x;
    let py = content.y + psz.y;
    let bx = px + bs.x;
    let by = py + bs.y;
    let sx = bx + area.margin_start.x + area.margin_size.x;
    let sy = by + area.margin_start.y + area.margin_size.y;
    if fits(px) && fits(py) && fits(bx) && fits(by) && fits(bx + area.margin_start.x) && fits(
        by + area.margin_start.y,
    ) && fits(sx) && fits(sy) {
        let cb = Rect { start: area.content.start, size: content };
        let pb = Rect {
            start: Vec2 { x: (cb.start.x - ps.x) as u16, y: (cb.start.y - ps.y) as u16 },
            size: Vec2 { x: px as u16, y: py as u16 },
        };
        let bb = Rect {
            start: Vec2 { x: (pb.start.x - bs.x) as u16, y: (pb.start.y - bs.y) as u16 },
            size: Vec2 { x: bx as u16, y: by as u16 },
        };
        Some(
            LayoutResult {
                size: Vec2 { x: sx as u16, y: sy as u16 },
                border: bb,
                padding: pb,
                content: cb,
                style: p.style,
                border_style: border_style_of(p.border_color),
            },
        )
    } else {
        None
    }
}

/// The smaller of two vectors ordered by `x`, then by `y`; the first where
/// they are equal.
pub open spec fn lex_min(a: Vec2, b: Vec2) -> Vec2 {
    if a.x < b.x || (a.x == b.x && a.y <= b.y) {
        a
    } else {
        b
    }
}

/// The cells a text of display width `w` asks for in a content bound of
/// `size`: one row of `w` cells or `size`, whichever is smaller in the
/// order of `x`, then `y`.
pub open spec fn text_content_size(w: u16, size: Vec2) -> Vec2 {
    lex_min(Vec2 { x: w, y: 1 }, size)
}

fn box_area(p: CalcCssProperty, b: Rect) -> (r: Option<BoxArea>)
    ensures
        r == spec_box_area(p, b),
{
    if !p.margin.can_calc_rect(b.size) || !p.padding.can_calc_rect(b.size) {
        return None;
    }
    let (ms, msz) = p.margin.calc_rect(b.size);
    let bs = if p.border_width.is_zero() {
        Vec2::new(0, 0)
    } else {
        Vec2::new(1, 1)
    };
    let (ps, psz) = p.padding.calc_rect(b.size);
    let ax = ms.x as u32 + bs.x as u32 + ps.x as u32;
    let ay = ms.y as u32 + bs.y as u32 + ps.y as u32;
    let zx = msz.x as u32 + bs.x as u32 + psz.x as u32;
    let zy = msz.y as u32 + bs.y as u32 + psz.y as u32;
    if ax <= 0xffff && ay <= 0xffff && zx <= 0xffff && zy <= 0xffff && b.start.x as u32 + ax
        <= 0xffff && b.start.y as u32 + ay <= 0xffff && ax <= b.size.x as u32 && ay
        <= b.size.y as u32 && zx <= b.size.x as u32 - ax && zy <= b.size.y as u32 - ay {
        Some(
            BoxArea {
                margin_start: ms,
                margin_size: msz,
                border: bs,
                padding_start: ps,
                padding_size: psz,
                content: Rect::new(
                    Vec2::new((b.start.x as u32 + ax) as u16, (b.start.y as u32 + ay) as u16),
                    Vec2::new(
                        (b.size.x as u32 - ax - zx) as u16,
                        (b.size.y as u32 - ay - zy) as u16,
                    ),
                ),
            },
        )
    } else {
        None
    }
}

fn finish_box(p: CalcCssProperty, area: BoxArea, content: Vec2) -> (r: Option<LayoutResult>)
    requires
        area.content.start.x >= area.padding_start.x + area.border.x,
        area.content.start.y >= area.padding_start.y + area.border.y,
    ensures
        r == spec_finish_box(p, area, content),
{
    let ps = area.padding_start;
    let psz = area.padding_size;
    let bs = area.border;
    let px = content.x as u32 + psz.x as u32;
    let py = content.y as u32 + psz.y as u32;
    let bx = px + bs.x as u32;
    let by = py + bs.y as u32;
    let sx = bx + area.margin_start.x as u32 + area.margin_size.x as u32;
    let sy = by + area.margin_start.y as u32 + area.margin_size.y as u32;
    if px <= 0xffff && py <= 0xffff && bx <= 0xffff && by <= 0xffff && bx
        + area.margin_start.x as u32 <= 0xffff && by + area.margin_start.y as u32 <= 0xffff && sx
        <= 0xffff && sy <= 0xffff {
        let cb = Rect::new(area.content.start, content);
        let pb = Rect::new(
            Vec2::new(cb.start.x - ps.x, cb.start.y - ps.y),
            Vec2::new(px as u16, py as u16),
        );
        let bb = Rect::new(
            Vec2::new(pb.start.x - bs.x, pb.start.y - bs.y),
            Vec2::new(bx as u16, by as u16),
        );
        let mut border_style = AnsiStyle::new();
        border_style.foreground = p.border_color;
        Some(
            LayoutResult {
                size: Vec2::new(sx as u16, sy as u16),
                border: bb,
                padding: pb,
                content: cb,
                style: p.style,
                border_style,
            },
        )
    } else {
        None
    }
}

fn lex_min_exec(a: Vec2, b: Vec2) -> (r: Vec2)
    ensures
        r == lex_min(a, b),
{
    if a.x < b.x || (a.x == b.x && a.y <= b.y) {
        a
    } else {
        b
    }
}

/// The content bound of an area leaves room before it for the padding and
/// the border.
proof fn lemma_area_room(p: CalcCssProperty, b: Rect)
    requires
        spec_box_area(p, b) is Some,
    ensures
        ({
            let a = spec_box_area(p, b)->0;
            &&& a.content.start.x >= a.padding_start.x + a.border.x
            &&& a.content.start.y >= a.padding_start.y + a.border.y
        }),
{
}

/// Whether `l` is a layout of a view `v` with property `p` in bound `b`:
/// the box resolves in `b`, and `l` finishes it around the content, which
/// for a text is `text_content_size` of its width and for children is the
/// extent of their layouts in `cache`, all of which are there.
pub open spec fn laid_out<'a, E, M>(
    p: CalcCssProperty,
    b: Rect,
    v: TuiView<'a, E, M>,
    cache: Map<u64, LayoutResult>,
    l: LayoutResult,
) -> bool {
    match spec_box_area(p, b) {
        None => false,
        Some(area) => match v.body {
            ViewBody::Text(_, w) => spec_finish_box(p, area, text_content_size(w, area.content.size))
                == Some(l),
            ViewBody::Children(cs) => {
                &&& all_cached(cs@, cache)
                &&& spec_finish_box(p, area, children_extent(cs@, cache)) == Some(l)
            },
        },
    }
}

/// Whether the layout of every view of `cs` is in `cache`.
pub open spec fn all_cached<'a, E, M>(cs: Seq<TuiView<'a, E, M>>, cache: Map<u64, LayoutResult>) -> bool {
    forall|i: int| 0 <= i < cs.len() ==> cache.contains_key(#[trigger] cs[i].hash_tag)
}

/// The cells that views laid out one below the other take, with the
/// layouts in `cache`: as wide as the widest, as high as all together.
pub open spec fn children_extent<'a, E, M>(cs: Seq<TuiView<'a, E, M>>, cache: Map<u64, LayoutResult>) -> Vec2
    decreases cs.len(),
{
    if cs.len() == 0 {
        Vec2 { x: 0, y: 0 }
    } else {
        let prev = children_extent(cs.drop_last(), cache);
        let s = cache[cs.last().hash_tag].size;
        Vec2 {
            x: if prev.x >= s.x { prev.x } else { s.x },
            y: (prev.y + s.y) as u16,
        }
    }
}

/// The extent of views whose layouts are all in `c1` is the same in a
/// cache that holds `c1`.
proof fn lemma_extent_in_larger_cache<'a, E, M>(
    cs: Seq<TuiView<'a, E, M>>,
    c1: Map<u64, LayoutResult>,
    c2: Map<u64, LayoutResult>,
)
    requires
        all_cached(cs, c1),
        c1.submap_of(c2),
    ensures
        children_extent(cs, c1) == children_extent(cs, c2),
        all_cached(cs, c2),
    decreases cs.len(),
{
    if cs.len() > 0 {
        assert(c1.contains_key(cs[cs.len() - 1].hash_tag));
        assert(all_cached(cs.drop_last(), c1)) by {
            assert forall|i: int| 0 <= i < cs.drop_last().len() implies c1.contains_key(
                #[trigger] cs.drop_last()[i].hash_tag,
            ) by {
                assert(cs.drop_last()[i] == cs[i]);
            }
        }
        lemma_extent_in_larger_cache(cs.drop_last(), c1, c2);
    }
    assert forall|i: int| 0 <= i < cs.len() implies c2.contains_key(#[trigger] cs[i].hash_tag) by {
        assert(c1.contains_key(cs[i].hash_tag));
    }
}

/// The hash tags of `v` and of the views below it, `depth` levels of
/// children deep.
pub open spec fn subtree_tags<'a, E, M>(v: TuiView<'a, E, M>, depth: nat) -> Set<u64>
    decreases depth, 1nat, 0nat,
{
    match v.body {
        ViewBody::Children(cs) => if depth > 0 {
            set![v.hash_tag] + children_tags(cs@, (depth - 1) as nat)
        } else {
            set![v.hash_tag]
        },
        ViewBody::Text(..) => set![v.hash_tag],
    }
}

/// The hash tags of the views `cs` and of the views below them.
pub open spec fn children_tags<'a, E, M>(cs: Seq<TuiView<'a, E, M>>, depth: nat) -> Set<u64>
    decreases depth, 2nat, cs.len(),
{
    if cs.len() == 0 {
        Set::empty()
    } else {
        children_tags(cs.drop_last(), depth) + subtree_tags(cs.last(), depth)
    }
}

/// The tags below a prefix of `cs` are among those below a longer prefix.
proof fn lemma_children_tags_prefix<'a, E, M>(cs: Seq<TuiView<'a, E, M>>, depth: nat, i: int, j: int)
    requires
        0 <= i <= j <= cs.len(),
    ensures
        children_tags(cs.take(i), depth).subset_of(children_tags(cs.take(j), depth)),
    decreases j - i,
{
    if i < j {
        lemma_children_tags_prefix(cs, depth, i, j - 1);
        assert(cs.take(j).drop_last() =~= cs.take(j - 1));
    }
}

/// What a selector can learn of child `i` of a view `v` of which it learns
/// `facts` (see `element_facts`).
pub open spec fn facts_of_child<'a, E, M>(v: TuiView<'a, E, M>, facts: Seq<Seq<NodeFacts>>, i: int) -> Seq<Seq<NodeFacts>> {
    let cs = child_views(v);
    seq![cs.take(i).map_values(|c: TuiView<'a, E, M>| node_facts(c)).push(node_facts(cs[i]))]
        + facts
}

/// The property that the rules of a style sheet give an element of which
/// a selector learns `facts`, resolved against its parent's `p`: the rules
/// matching it combined in order.
pub open spec fn property_from(rules: Seq<CssRule>, p: CalcCssProperty, facts: Seq<Seq<NodeFacts>>) -> CalcCssProperty {
    spec_calc_property(combine_matched(rule_props(rules), sheet_matches(rules, facts)), p)
}

/// What a selector can learn of child `i` of `parent` (see `element_facts`).
pub closed spec fn child_facts<'a, E, M>(parent: ElementView<'a, E, M>, i: int) -> Seq<Seq<NodeFacts>> {
    facts_of_child(parent.view, element_facts(parent), i)
}

/// The property that the rules of a style sheet give child `i` of `parent`,
/// resolved against the parent's `p`.
pub open spec fn child_property<'a, E, M>(
    rules: Seq<CssRule>,
    p: CalcCssProperty,
    parent: ElementView<'a, E, M>,
    i: int,
) -> CalcCssProperty {
    property_from(rules, p, child_facts(parent, i))
}

/// What laying out a view `v`, of which a selector learns `facts`, with
/// property `p` in bound `b` gives, starting from `cache`, `depth` levels
/// of children deep: its layout (`None` where it fails) and the cache
/// after. A view found in the cache is not laid out again. Otherwise its
/// box is resolved in `b`; a text's content is `text_content_size` of its
/// width; children are laid out in turn (`children_layout`), each in what
/// is left of the content bound, and their extent is the content. The
/// layout found is put into the cache under the view's tag.
pub open spec fn layout_result<'a, E, M>(
    v: TuiView<'a, E, M>,
    facts: Seq<Seq<NodeFacts>>,
    rules: Seq<CssRule>,
    p: CalcCssProperty,
    b: Rect,
    cache: Map<u64, LayoutResult>,
    depth: nat,
) -> (Option<LayoutResult>, Map<u64, LayoutResult>)
    decreases depth, 0nat,
{
    if cache.contains_key(v.hash_tag) {
        (Some(cache[v.hash_tag]), cache)
    } else {
        match spec_box_area(p, b) {
            None => (None, cache),
            Some(area) => match v.body {
                ViewBody::Text(_, w) => match spec_finish_box(p, area, text_content_size(w, area.content.size)) {
                    Some(l) => (Some(l), cache.insert(v.hash_tag, l)),
                    None => (None, cache),
                },
                ViewBody::Children(cs) => if depth == 0 {
                    (None, cache)
                } else {
                    let (ok, c, ext) = children_layout(
                        v,
                        facts,
                        rules,
                        p,
                        area.content,
                        cache,
                        (depth - 1) as nat,
                        cs@.len(),
                    );
                    if !ok {
                        (None, c)
                    } else {
                        match spec_finish_box(p, area, ext) {
                            Some(l) => (Some(l), c.insert(v.hash_tag, l)),
                            None => (None, c),
                        }
                    }
                },
            },
        }
    }
}

/// Laying out the first `n` children of `v` (a parent with property `p`
/// and content bound `content`) in turn from `cache`: whether all of them
/// succeeded, the cache after, and the room they take (the widest across,
/// all of them down). Each child starts at the content bound moved by the
/// room before it, which must fit in it, and gets the property the style
/// sheet gives it; the room must stay within `u16`.
pub open spec fn children_layout<'a, E, M>(
    v: TuiView<'a, E, M>,
    facts: Seq<Seq<NodeFacts>>,
    rules: Seq<CssRule>,
    p: CalcCssProperty,
    content: Rect,
    cache: Map<u64, LayoutResult>,
    depth: nat,
    n: nat,
) -> (bool, Map<u64, LayoutResult>, Vec2)
    decreases depth, n + 1,
{
    if n == 0 {
        (true, cache, Vec2 { x: 0, y: 0 })
    } else {
        let (ok, c, ret) = children_layout(v, facts, rules, p, content, cache, depth, (n - 1) as nat);
        if !ok {
            (false, c, ret)
        } else {
            let i = n - 1;
            let cf = facts_of_child(v, facts, i);
            if !(content.start.x + ret.x <= u16::MAX && content.start.y + ret.y <= u16::MAX && ret.x
                <= content.size.x && ret.y <= content.size.y) {
                (false, c, ret)
            } else {
                let (r, c2) = layout_result(
                    child_views(v)[i],
                    cf,
                    rules,
                    property_from(rules, p, cf),
                    spec_add_start(content, ret),
                    c,
                    depth,
                );
                match r {
                    None => (false, c2, ret),
                    Some(cl) => {
                        let wx = if ret.x >= cl.size.x { ret.x } else { cl.size.x };
                        if ret.y + cl.size.y > u16::MAX {
                            (false, c2, ret)
                        } else {
                            (true, c2, Vec2 { x: wx, y: (ret.y + cl.size.y) as u16 })
                        }
                    },
                }
            }
        }
    }
}

/// Where laying out the first `k` children fails, laying out all of them
/// fails with the cache it left, and the view's layout fails with it.
proof fn lemma_children_step_fails<'a, E, M>(
    v: TuiView<'a, E, M>,
    facts: Seq<Seq<NodeFacts>>,
    rules: Seq<CssRule>,
    p: CalcCssProperty,
    content: Rect,
    cache: Map<u64, LayoutResult>,
    depth: nat,
    k: nat,
)
    requires
        k <= child_views(v).len(),
        !children_layout(v, facts, rules, p, content, cache, depth, k).0,
    ensures
        !children_layout(v, facts, rules, p, content, cache, depth, child_views(v).len()).0,
        children_layout(v, facts, rules, p, content, cache, depth, child_views(v).len()).1
            == children_layout(v, facts, rules, p, content, cache, depth, k).1,
{
    lemma_children_layout_fails(v, facts, rules, p, content, cache, depth, k, child_views(v).len());
}

/// A failure among the first children is the failure of all of them, with
/// the cache it left.
proof fn lemma_children_layout_fails<'a, E, M>(
    v: TuiView<'a, E, M>,
    facts: Seq<Seq<NodeFacts>>,
    rules: Seq<CssRule>,
    p: CalcCssProperty,
    content: Rect,
    cache: Map<u64, LayoutResult>,
    depth: nat,
    k: nat,
    n: nat,
)
    requires
        k <= n,
        !children_layout(v, facts, rules, p, content, cache, depth, k).0,
    ensures
        !children_layout(v, facts, rules, p, content, cache, depth, n).0,
        children_layout(v, facts, rules, p, content, cache, depth, n).1 == children_layout(
            v,
            facts,
            rules,
            p,
            content,
            cache,
            depth,
            k,
        ).1,
    decreases n - k,
{
    if k < n {
        lemma_children_layout_fails(v, facts, rules, p, content, cache, depth, k, (n - 1) as nat);
    }
}

/// Whether `l` is the box of an element with property `cp` laid out in
/// `bound`, around some content.
pub open spec fn boxed_in(cp: CalcCssProperty, bound: Rect, l: LayoutResult) -> bool {
    match spec_box_area(cp, bound) {
        None => false,
        Some(area) => exists|c: Vec2| #[trigger] spec_finish_box(cp, area, c) == Some(l),
    }
}

/// Whether child `i` of `parent` (its children `cs`), laid out with the
/// parent's property `p` and content bound `content`, has its layout in
/// `cache` from where it was placed: its tag was in the cache `old` before
/// the parent was laid out, or among the tags of the children before it, or
/// its box was laid out with the property the style sheet gives it
/// (`child_property`) in `content` less the room the children before it
/// take (the widest of them across, all of them down).
pub open spec fn child_placed<'a, E, M>(
    rules: Seq<CssRule>,
    p: CalcCssProperty,
    content: Rect,
    parent: ElementView<'a, E, M>,
    cs: Seq<TuiView<'a, E, M>>,
    depth: nat,
    old: Map<u64, LayoutResult>,
    cache: Map<u64, LayoutResult>,
    i: int,
) -> bool {
    ||| old.contains_key(cs[i].hash_tag)
    ||| children_tags(cs.take(i), depth).contains(cs[i].hash_tag)
    ||| boxed_in(
        child_property(rules, p, parent, i),
        spec_add_start(content, children_extent(cs.take(i), cache)),
        cache[cs[i].hash_tag],
    )
}

/// Whether every child of `el`, laid out with `p` in `b`, has its layout in
/// `cache` from where it was placed (`child_placed`).
pub open spec fn children_placed<'a, E, M>(
    rules: Seq<CssRule>,
    p: CalcCssProperty,
    b: Rect,
    el: ElementView<'a, E, M>,
    depth: nat,
    old: Map<u64, LayoutResult>,
    cache: Map<u64, LayoutResult>,
) -> bool {
    match el.spec_view().body {
        ViewBody::Children(cs) => forall|i: int|
            0 <= i < cs@.len() ==> #[trigger] child_placed(
                rules,
                p,
                spec_box_area(p, b)->0.content,
                el,
                cs@,
                depth,
                old,
                cache,
                i,
            ),
        ViewBody::Text(..) => true,
    }
}

/// The tags below the first children of a view are among its own.
proof fn lemma_tags_in_subtree<'a, E, M>(v: TuiView<'a, E, M>, cs: Seq<TuiView<'a, E, M>>, depth: nat, j: int)
    requires
        v.body matches ViewBody::Children(c) && c@ == cs,
        depth > 0,
        0 <= j <= cs.len(),
    ensures
        children_tags(cs.take(j), (depth - 1) as nat).subset_of(subtree_tags(v, depth)),
{
    lemma_children_tags_prefix(cs, (depth - 1) as nat, j, cs.len() as int);
    assert(cs.take(cs.len() as int) =~= cs);
}

/// The tags below one more child are those below the children before it
/// and those below it.
proof fn lemma_child_tags_step<'a, E, M>(cs: Seq<TuiView<'a, E, M>>, depth: nat, i: int)
    requires
        0 <= i < cs.len(),
    ensures
        children_tags(cs.take(i + 1), depth) == children_tags(cs.take(i), depth) + subtree_tags(
            cs[i],
            depth,
        ),
{
    assert(cs.take(i + 1).drop_last() =~= cs.take(i));
    assert(cs.take(i + 1).last() == cs[i]);
}

/// Where a child was placed stays so in a cache that holds the one it was
/// placed in, as long as the children up to it are there.
proof fn lemma_placed_in_larger_cache<'a, E, M>(
    rules: Seq<CssRule>,
    p: CalcCssProperty,
    content: Rect,
    parent: ElementView<'a, E, M>,
    cs: Seq<TuiView<'a, E, M>>,
    depth: nat,
    old: Map<u64, LayoutResult>,
    c1: Map<u64, LayoutResult>,
    c2: Map<u64, LayoutResult>,
    j: int,
    i: int,
)
    requires
        0 <= j < i <= cs.len(),
        all_cached(cs.take(i), c1),
        cache_grows(c1, c2),
        child_placed(rules, p, content, parent, cs, depth, old, c1, j),
    ensures
        child_placed(rules, p, content, parent, cs, depth, old, c2, j),
{
    assert(cs.take(i)[j] == cs[j]);
    assert(c1.contains_key(cs.take(i)[j].hash_tag));
    assert(c1.submap_of(c2));
    assert(c1.dom().contains(cs[j].hash_tag));
    assert(c2.dom().contains(cs[j].hash_tag));
    assert(c2[cs[j].hash_tag] == c1[cs[j].hash_tag]);
    assert(all_cached(cs.take(j), c1)) by {
        assert forall|t: int| 0 <= t < cs.take(j).len() implies c1.contains_key(
            #[trigger] cs.take(j)[t].hash_tag,
        ) by {
            assert(cs.take(j)[t] == cs.take(i)[t]);
        }
    }
    lemma_extent_in_larger_cache(cs.take(j), c1, c2);
    if !old.contains_key(cs[j].hash_tag) && !children_tags(cs.take(j), depth).contains(cs[j].hash_tag) {
        let b = spec_add_start(content, children_extent(cs.take(j), c1));
        assert(boxed_in(child_property(rules, p, parent, j), b, c2[cs[j].hash_tag]));
    }
}

/// A child made from its parent is what `child_facts` says of it.
proof fn lemma_child_facts<'a, E, M>(parent: &ElementView<'a, E, M>, i: usize, child: ElementView<'a, E, M>)
    requires
        child.spec_parent() == Some(parent),
        child.spec_pos() == i,
        i < child_views(parent.spec_view()).len(),
        child.spec_view() == child_views(parent.spec_view())[i as int],
    ensures
        element_facts(child) == child_facts(*parent, i as int),
{
}

/// A layout is the box of its view in its bound.
proof fn lemma_laid_out_boxed<'a, E, M>(
    p: CalcCssProperty,
    b: Rect,
    v: TuiView<'a, E, M>,
    cache: Map<u64, LayoutResult>,
    l: LayoutResult,
)
    requires
        laid_out(p, b, v, cache, l),
    ensures
        boxed_in(p, b, l),
{
    let area = spec_box_area(p, b)->0;
    match v.body {
        ViewBody::Text(_, w) => {
            assert(spec_finish_box(p, area, text_content_size(w, area.content.size)) == Some(l));
        },
        ViewBody::Children(cs) => {
            assert(spec_finish_box(p, area, children_extent(cs@, cache)) == Some(l));
        },
    }
}

/// Whether `new` holds every entry of `old` unchanged.
pub open spec fn cache_grows(old: Map<u64, LayoutResult>, new: Map<u64, LayoutResult>) -> bool {
    old.submap_of(new)
}

proof fn lemma_cache_grows_trans(
    a: Map<u64, LayoutResult>,
    b: Map<u64, LayoutResult>,
    c: Map<u64, LayoutResult>,
)
    requires
        cache_grows(a, b),
        cache_grows(b, c),
    ensures
        cache_grows(a, c),
{
    vstd::map_lib::lemma_submap_of_trans(a, b, c);
}

impl<'a, E, M> ElementView<'a, E, M> {
    /// Lays the element out in `max_bound` with `property`, and its
    /// children below each other in its content bound, each with the
    /// properties the style sheet gives it computed against `property`.
    /// Layouts are kept in `layout_cache` under the view's hash tag: a view
    /// found there is not laid out again. `None` where a size leaves `u16`
    /// or a box does not fit its bound.
    pub fn layout(
        &self,
        css: &StyleSheet<'a>,
        property: CalcCssProperty,
        layout_cache: &mut HashMap<u64, LayoutResult>,
        max_bound: Rect,
    ) -> (r: Option<LayoutResult>)
        ensures
            cache_grows(old(layout_cache)@, final(layout_cache)@),
            old(layout_cache)@.contains_key(self.spec_view().hash_tag) ==> r == Some(
                old(layout_cache)@[self.spec_view().hash_tag],
            ) && final(layout_cache)@ == old(layout_cache)@,
            r matches Some(l) ==> final(layout_cache)@.contains_key(self.spec_view().hash_tag)
                && final(layout_cache)@[self.spec_view().hash_tag] == l,
            !old(layout_cache)@.contains_key(self.spec_view().hash_tag) ==> (r matches Some(l)
                ==> exists|mid: Map<u64, LayoutResult>|
                cache_grows(old(layout_cache)@, mid) && final(layout_cache)@ == mid.insert(
                    self.spec_view().hash_tag,
                    l,
                ) && laid_out(property, max_bound, self.spec_view(), mid, l) && children_placed(
                    css.spec_rules(),
                    property,
                    max_bound,
                    *self,
                    (max_depth() - 1) as nat,
                    old(layout_cache)@,
                    mid,
                )),
            forall|k: u64|
                #[trigger] final(layout_cache)@.contains_key(k) ==> old(layout_cache)@.contains_key(k)
                    || subtree_tags(self.spec_view(), max_depth()).contains(k),
            !old(layout_cache)@.contains_key(self.spec_view().hash_tag)
                && self.spec_view().body is Text ==> (r is Some <==> (spec_box_area(
                property,
                max_bound,
            ) matches Some(area) && spec_finish_box(
                property,
                area,
                text_content_size(self.spec_view().body->1, area.content.size),
            ) is Some)),
            (r, final(layout_cache)@) == layout_result(
                self.spec_view(),
                element_facts(*self),
                css.spec_rules(),
                property,
                max_bound,
                old(layout_cache)@,
                max_depth(),
            ),
    {
        self.layout_within(css, property, layout_cache, max_bound, u64::MAX)
    }

    #[verifier::rlimit(60)]
    fn layout_within(
        &self,
        css: &StyleSheet<'a>,
        property: CalcCssProperty,
        layout_cache: &mut HashMap<u64, LayoutResult>,
        max_bound: Rect,
        depth: u64,
    ) -> (r: Option<LayoutResult>)
        ensures
            cache_grows(old(layout_cache)@, final(layout_cache)@),
            old(layout_cache)@.contains_key(self.spec_view().hash_tag) ==> r == Some(
                old(layout_cache)@[self.spec_view().hash_tag],
            ) && final(layout_cache)@ == old(layout_cache)@,
            r matches Some(l) ==> final(layout_cache)@.contains_key(self.spec_view().hash_tag)
                && final(layout_cache)@[self.spec_view().hash_tag] == l,
            !old(layout_cache)@.contains_key(self.spec_view().hash_tag) ==> (r matches Some(l)
                ==> exists|mid: Map<u64, LayoutResult>|
                cache_grows(old(layout_cache)@, mid) && final(layout_cache)@ == mid.insert(
                    self.spec_view().hash_tag,
                    l,
                ) && laid_out(property, max_bound, self.spec_view(), mid, l) && children_placed(
                    css.spec_rules(),
                    property,
                    max_bound,
                    *self,
                    (depth - 1) as nat,
                    old(layout_cache)@,
                    mid,
                )),
            forall|k: u64|
                #[trigger] final(layout_cache)@.contains_key(k) ==> old(layout_cache)@.contains_key(k)
                    || subtree_tags(self.spec_view(), depth as nat).contains(k),
            !old(layout_cache)@.contains_key(self.spec_view().hash_tag)
                && self.spec_view().body is Text ==> (r is Some <==> (spec_box_area(
                property,
                max_bound,
            ) matches Some(area) && spec_finish_box(
                property,
                area,
                text_content_size(self.spec_view().body->1, area.content.size),
            ) is Some)),
            (r, final(layout_cache)@) == layout_result(
                self.spec_view(),
                element_facts(*self),
                css.spec_rules(),
                property,
                max_bound,
                old(layout_cache)@,
                depth as nat,
            ),
        decreases depth,
    {
        let ghost facts = element_facts(*self);
        let h = self.view.hash_tag();
        if let Some(l) = layout_cache.get(&h) {
            return Some(*l);
        }
        let area = match box_area(property, max_bound) {
            Some(a) => a,
            None => return None,
        };
        proof {
            lemma_area_room(property, max_bound);
        }
        let content_size = match self.view.body() {
            ViewBody::Text(_, width) => lex_min_exec(Vec2::new(width, 1), area.content.size),
            ViewBody::Children(children) => {
                if depth == 0 {
                    return None;
                }
                let ghost dd = (depth - 1) as nat;
                let ghost rules = css.spec_rules();
                let ghost n = children@.len();
                let mut ret = Vec2::new(0, 0);
                let mut i: usize = 0;
                proof {
                    assert(children@.take(0) =~= Seq::<TuiView<'a, E, M>>::empty());
                }
                while i < children.len()
                    invariant
                        i <= children@.len(),
                        cache_grows(old(layout_cache)@, layout_cache@),
                        dd == depth - 1,
                        rules == css.spec_rules(),
                        facts == element_facts(*self),
                        n == children@.len(),
                        children_layout(
                            self.spec_view(),
                            facts,
                            rules,
                            property,
                            area.content,
                            old(layout_cache)@,
                            dd,
                            i as nat,
                        ) == (true, layout_cache@, ret),
                        spec_box_area(property, max_bound) == Some(area),
                        forall|k: u64|
                            #[trigger] layout_cache@.contains_key(k) ==> old(layout_cache)@.contains_key(k)
                                || children_tags(children@.take(i as int), dd).contains(k),
                        forall|j: int|
                            0 <= j < i ==> #[trigger] child_placed(
                                rules,
                                property,
                                area.content,
                                *self,
                                children@,
                                dd,
                                old(layout_cache)@,
                                layout_cache@,
                                j,
                            ),
                        !old(layout_cache)@.contains_key(h),
                        h == self.spec_view().hash_tag,
                        self.spec_view().body is Children,
                        depth > 0,
                        self.spec_view().body == ViewBody::Children(children),
                        all_cached(children@.take(i as int), layout_cache@),
                        ret == children_extent(children@.take(i as int), layout_cache@),
                    decreases children@.len() - i,
                {
                    let child = ElementView::with_parent(Some(self), i, children[i]);
                    let cprop = css.calc_prop(&child);
                    let child_property = cprop.calc(property);
                    let c = area.content;
                    if !(c.start.x as u32 + ret.x as u32 <= 0xffff && c.start.y as u32 + ret.y as u32
                        <= 0xffff && ret.x <= c.size.x && ret.y <= c.size.y) {
                        proof {
                            lemma_tags_in_subtree(self.spec_view(), children@, depth as nat, i as int);
                            assert(children_layout(
                                self.spec_view(),
                                facts,
                                rules,
                                property,
                                area.content,
                                old(layout_cache)@,
                                dd,
                                ((i + 1) as nat - 1) as nat,
                            ) == (true, layout_cache@, ret));
                            lemma_children_step_fails(
                                self.spec_view(),
                                facts,
                                rules,
                                property,
                                area.content,
                                old(layout_cache)@,
                                dd,
                                (i + 1) as nat,
                            );
                        }
                        return None;
                    }
                    let child_bound = c.add_start(ret);
                    let ghost before = layout_cache@;
                    let child_layout = match child.layout_within(
                        css,
                        child_property,
                        layout_cache,
                        child_bound,
                        depth - 1,
                    ) {
                        Some(l) => l,
                        None => {
                            proof {
                                lemma_cache_grows_trans(old(layout_cache)@, before, layout_cache@);
                                lemma_child_tags_step(children@, dd, i as int);
                                lemma_tags_in_subtree(self.spec_view(), children@, depth as nat, i + 1);
                                assert(child.spec_view() == children@[i as int]);
                                lemma_child_facts(self, i, child);
                                lemma_children_step_fails(
                                    self.spec_view(),
                                    facts,
                                    rules,
                                    property,
                                    area.content,
                                    old(layout_cache)@,
                                    dd,
                                    (i + 1) as nat,
                                );
                            }
                            return None;
                        },
                    };
                    proof {
                        lemma_cache_grows_trans(old(layout_cache)@, before, layout_cache@);
                        lemma_child_tags_step(children@, dd, i as int);
                        let after = layout_cache@;
                        let hi = children@[i as int].hash_tag;
                        assert(child.spec_view() == children@[i as int]);
                        assert forall|j: int| 0 <= j < i implies #[trigger] child_placed(
                            rules,
                            property,
                            area.content,
                            *self,
                            children@,
                            dd,
                            old(layout_cache)@,
                            after,
                            j,
                        ) by {
                            lemma_placed_in_larger_cache(
                                rules,
                                property,
                                area.content,
                                *self,
                                children@,
                                dd,
                                old(layout_cache)@,
                                before,
                                after,
                                j,
                                i as int,
                            );
                        }
                        if !before.contains_key(hi) {
                            let mid = choose|mid: Map<u64, LayoutResult>|
                                cache_grows(before, mid) && after == mid.insert(hi, child_layout)
                                    && laid_out(child_property, child_bound, children@[i as int], mid, child_layout)
                                    && #[trigger] children_placed(
                                    rules,
                                    child_property,
                                    child_bound,
                                    child,
                                    (dd - 1) as nat,
                                    before,
                                    mid,
                                );
                            lemma_laid_out_boxed(child_property, child_bound, children@[i as int], mid, child_layout);
                            lemma_child_facts(self, i, child);
                            assert(child_property == self::child_property(rules, property, *self, i as int));
                        }
                        lemma_extent_in_larger_cache(children@.take(i as int), before, layout_cache@);
                        assert(child_placed(
                            rules,
                            property,
                            area.content,
                            *self,
                            children@,
                            dd,
                            old(layout_cache)@,
                            after,
                            i as int,
                        ));
                        lemma_extent_in_larger_cache(children@.take(i as int), before, layout_cache@);
                        assert(children@.take(i + 1).drop_last() =~= children@.take(i as int));
                        assert(children@.take(i + 1).last() == children@[i as int]);
                        assert(child.spec_view() == children@[i as int]);
                        assert forall|j: int| 0 <= j < i + 1 implies layout_cache@.contains_key(
                            #[trigger] children@.take(i + 1)[j].hash_tag,
                        ) by {
                            if j < i {
                                assert(children@.take(i + 1)[j] == children@.take(i as int)[j]);
                            }
                        }
                    }
                    let ghost step = children_layout(
                        self.spec_view(),
                        facts,
                        rules,
                        property,
                        area.content,
                        old(layout_cache)@,
                        dd,
                        (i + 1) as nat,
                    );
                    proof {
                        lemma_child_facts(self, i, child);
                        assert(children_layout(
                            self.spec_view(),
                            facts,
                            rules,
                            property,
                            area.content,
                            old(layout_cache)@,
                            dd,
                            ((i + 1) as nat - 1) as nat,
                        ) == (true, before, ret));
                        assert(step.1 == layout_cache@);
                    }
                    let wider = ret.max_x(child_layout.size.x);
                    if wider.y as u32 + child_layout.size.y as u32 > 0xffff {
                        proof {
                            lemma_tags_in_subtree(self.spec_view(), children@, depth as nat, i + 1);
                            lemma_children_step_fails(
                                self.spec_view(),
                                facts,
                                rules,
                                property,
                                area.content,
                                old(layout_cache)@,
                                dd,
                                (i + 1) as nat,
                            );
                        }
                        return None;
                    }
                    ret = wider.add_y(child_layout.size.y);
                    proof {
                        assert(step == (true, layout_cache@, ret));
                    }
                    i = i + 1;
                }
                proof {
                    assert(children@.take(i as int) =~= children@);
                    lemma_tags_in_subtree(self.spec_view(), children@, depth as nat, i as int);
                    assert(children_placed(
                        rules,
                        property,
                        max_bound,
                        *self,
                        dd,
                        old(layout_cache)@,
                        layout_cache@,
                    ));
                }
                ret
            },
        };
        let l = match finish_box(property, area, content_size) {
            Some(l) => l,
            None => return None,
        };
        let ghost mid = layout_cache@;
        proof {
            assert(cache_grows(old(layout_cache)@, mid));
        }
        layout_cache.insert(h, l);
        proof {
            assert(laid_out(property, max_bound, self.spec_view(), mid, l));
            assert(layout_cache@ == mid.insert(h, l));
            assert(cache_grows(old(layout_cache)@, mid) && layout_cache@ == mid.insert(h, l)
                && laid_out(property, max_bound, self.spec_view(), mid, l));
        }
        Some(l)
    }
}

/// Whether a frame can be drawn along the edges of `b`: it is at least one
/// column wide and not wider than the longest line plus one, and its last
/// cell fits.
pub open spec fn frame_fits(b: Rect) -> bool {
    let w = (b.size.x - 1) as u16;
    let h = if b.size.y >= 1 { (b.size.y - 1) as u16 } else { 0u16 };
    &&& b.size.x >= 1
    &&& b.size.x - 1 <= MAX_HORIZONTAL_LINE
    &&& add_fits(b.start, Vec2 { x: w, y: h })
}

/// Whether the far corner of `b` fits in `u16`.
pub open spec fn box_fits(b: Rect) -> bool {
    b.start.x + b.size.x <= u16::MAX && b.start.y + b.size.y <= u16::MAX
}

/// Whether drawing `v` from the layouts in `cache`, looking `depth` levels
/// of children deep, succeeds: its layout is there; a text's content box
/// fits; the children, where it has any room to look, each draw in turn in
/// what is left of the content box; and where the border box does not start
/// at the left edge, its frame can be drawn.
pub open spec fn render_ok<'a, E, M>(v: TuiView<'a, E, M>, cache: Map<u64, LayoutResult>, depth: nat) -> bool
    decreases depth, 1nat, 0nat,
{
    cache.contains_key(v.hash_tag) && {
        let l = cache[v.hash_tag];
        &&& match v.body {
            ViewBody::Text(..) => box_fits(l.content),
            ViewBody::Children(cs) => depth > 0 && children_render_ok(
                cs@,
                cache,
                l.content,
                (depth - 1) as nat,
            ),
        }
        &&& l.border.start.x > 0 ==> frame_fits(l.border)
    }
}

/// Whether the views `cs` draw one below the other from the top of `bound`:
/// each has its layout in `cache`, draws (as `render_ok` says), and is no
/// taller than what is left, which then starts below it.
pub open spec fn children_render_ok<'a, E, M>(
    cs: Seq<TuiView<'a, E, M>>,
    cache: Map<u64, LayoutResult>,
    bound: Rect,
    depth: nat,
) -> bool
    decreases depth, 2nat, cs.len(),
{
    if cs.len() == 0 {
        true
    } else {
        let c = cs[0];
        &&& cache.contains_key(c.hash_tag)
        &&& render_ok(c, cache, depth)
        &&& bound.start.y + cache[c.hash_tag].size.y <= u16::MAX
        &&& cache[c.hash_tag].size.y <= bound.size.y
        &&& children_render_ok(
            cs.skip(1),
            cache,
            spec_add_start(bound, Vec2 { x: 0, y: cache[c.hash_tag].size.y }),
            depth,
        )
    }
}

/// What drawing the frame of a layout does: where the border box does not
/// start at the left edge, the border style is set, the frame is printed
/// along the border box, and the style from before is set again; else
/// nothing.
pub open spec fn frame_ops(l: LayoutResult) -> Seq<DrawOp> {
    if l.border.start.x > 0 {
        let r = print_steps(rect_ops(l.border));
        seq![DrawOp::Style(l.border_style)] + r + seq![DrawOp::Restore(r.len() + 1)]
    } else {
        Seq::empty()
    }
}

/// What drawing `v` from the layouts in `cache` does to the backend, looking
/// `depth` levels of children deep: the element's style is set; a text is
/// printed at the corner of the content box, cut as `print` cuts it, or the
/// children are drawn one after another; the frame is drawn; and the style
/// from before is set again.
pub open spec fn element_ops<'a, E, M>(v: TuiView<'a, E, M>, cache: Map<u64, LayoutResult>, depth: nat) -> Seq<DrawOp>
    decreases depth, 1nat, 0nat,
{
    let l = cache[v.hash_tag];
    let body = match v.body {
        ViewBody::Text(t, _) => match print_clip(l.content, Vec2 { x: 0, y: 0 }, t@) {
            Some((p, tt)) => seq![DrawOp::Print(p, tt)],
            None => Seq::empty(),
        },
        ViewBody::Children(cs) => if depth > 0 {
            children_ops(cs@, cache, (depth - 1) as nat)
        } else {
            Seq::empty()
        },
    };
    let inner = seq![DrawOp::Style(l.style)] + body + frame_ops(l);
    inner.push(DrawOp::Restore(inner.len()))
}

/// What drawing the views `cs` one after another does.
pub open spec fn children_ops<'a, E, M>(cs: Seq<TuiView<'a, E, M>>, cache: Map<u64, LayoutResult>, depth: nat) -> Seq<DrawOp>
    decreases depth, 2nat, cs.len(),
{
    if cs.len() == 0 {
        Seq::empty()
    } else {
        children_ops(cs.drop_last(), cache, depth) + element_ops(cs.last(), cache, depth)
    }
}

impl<'a, E, M> ElementView<'a, E, M> {
    /// Draws the element as `layout_cache` holds its layout: with its style,
    /// the text or the children (one below the other, each as far down as
    /// the ones before it reach) in its content box, then, where the border
    /// box does not start at the left edge, a frame in the border style
    /// around the border box. Gives the element's layout. `None` where a
    /// layout is missing from the cache or a box leaves `u16`.
    pub fn render<B: Backend>(
        self,
        css: &StyleSheet<'a>,
        printer: &mut Printer<'_, B>,
        layout_cache: &HashMap<u64, LayoutResult>,
    ) -> (r: Option<LayoutResult>)
        ensures
            !layout_cache@.contains_key(self.spec_view().hash_tag) ==> r is None,
            r matches Some(l) ==> layout_cache@.contains_key(self.spec_view().hash_tag) && l
                == layout_cache@[self.spec_view().hash_tag] && final(printer).spec_bound() == old(
                printer,
            ).spec_bound(),
            r is Some <==> render_ok(self.spec_view(), layout_cache@, max_depth()),
            final(printer).spec_offsets() == old(printer).spec_offsets(),
            r is Some ==> draws(
                old(printer).spec_backend(),
                final(printer).spec_backend(),
                through_ops(
                    old(printer).spec_offsets(),
                    element_ops(self.spec_view(), layout_cache@, max_depth()),
                ),
            ),
            r is Some && restores_style::<B>() ==> final(printer).spec_backend().current_style()
                == old(printer).spec_backend().current_style(),
    {
        self.render_within(css, printer, layout_cache, u64::MAX)
    }

    fn render_within<B: Backend>(
        self,
        css: &StyleSheet<'a>,
        printer: &mut Printer<'_, B>,
        layout_cache: &HashMap<u64, LayoutResult>,
        depth: u64,
    ) -> (r: Option<LayoutResult>)
        ensures
            !layout_cache@.contains_key(self.spec_view().hash_tag) ==> r is None,
            r matches Some(l) ==> layout_cache@.contains_key(self.spec_view().hash_tag) && l
                == layout_cache@[self.spec_view().hash_tag] && final(printer).spec_bound() == old(
                printer,
            ).spec_bound(),
            r is Some <==> render_ok(self.spec_view(), layout_cache@, depth as nat),
            final(printer).spec_offsets() == old(printer).spec_offsets(),
            r is Some ==> draws(
                old(printer).spec_backend(),
                final(printer).spec_backend(),
                through_ops(
                    old(printer).spec_offsets(),
                    element_ops(self.spec_view(), layout_cache@, depth as nat),
                ),
            ),
            r is Some && restores_style::<B>() ==> final(printer).spec_backend().current_style()
                == old(printer).spec_backend().current_style(),
        decreases depth,
    {
        let h = self.view.hash_tag();
        let layout = match layout_cache.get(&h) {
            Some(l) => *l,
            None => return None,
        };
        let ghost s0 = printer.spec_backend();
        let ghost of = printer.spec_offsets();
        let ghost dd = (depth - 1) as nat;
        let old_style = printer.style();
        printer.set_backend_style(layout.style);
        let ghost mut st: Seq<B> = seq![s0, printer.spec_backend()];
        let ghost mut ops: Seq<DrawOp> = seq![DrawOp::Style(layout.style)];
        proof {
            assert(through_ops(of, ops) =~= ops);
            assert(draw_step(st, through_ops(of, ops), 0));
            assert(draw_chain(st, through_ops(of, ops)));
        }
        let outer = printer.replace_bound(layout.content);
        match self.view.body() {
            ViewBody::Text(text, _) => {
                let b = printer.bound();
                if !(b.start.x as u32 + b.size.x as u32 <= 0xffff && b.start.y as u32 + b.size.y as u32
                    <= 0xffff) {
                    return None;
                }
                let ghost before = printer.spec_backend();
                printer.print(Vec2::new(0, 0), text);
                proof {
                    if let Some((p, t)) = print_clip(layout.content, Vec2 { x: 0, y: 0 }, text@) {
                        let op = DrawOp::Print(p, t);
                        lemma_through_push_op(of, ops, op);
                        assert(draw_step(
                            st.push(printer.spec_backend()),
                            through_ops(of, ops.push(op)),
                            ops.len() as int,
                        ));
                        lemma_draw_chain_push(st, through_ops(of, ops), printer.spec_backend(), through_op(of, op));
                        st = st.push(printer.spec_backend());
                        ops = ops.push(op);
                        assert(ops =~= seq![DrawOp::Style(layout.style)] + seq![op]);
                    } else {
                        assert(ops =~= seq![DrawOp::Style(layout.style)] + Seq::<DrawOp>::empty());
                    }
                }
            },
            ViewBody::Children(children) => {
                if depth == 0 {
                    return None;
                }
                let mut bound = printer.bound();
                let mut pos: usize = 0;
                proof {
                    assert(children@.skip(0) =~= children@);
                    assert(children@.take(0) =~= Seq::<TuiView<'a, E, M>>::empty());
                    assert(ops =~= seq![DrawOp::Style(layout.style)] + children_ops(
                        children@.take(0),
                        layout_cache@,
                        dd,
                    ));
                }
                while pos < children.len()
                    invariant
                        pos <= children@.len(),
                        printer.spec_bound() == layout.content,
                        printer.spec_offsets() == of,
                        of == old(printer).spec_offsets(),
                        depth > 0,
                        self.spec_view().body == ViewBody::Children(children),
                        layout_cache@.contains_key(self.spec_view().hash_tag),
                        layout == layout_cache@[self.spec_view().hash_tag],
                        dd == depth - 1,
                        draw_chain(st, through_ops(of, ops)),
                        st[0] == s0,
                        st.last() == printer.spec_backend(),
                        ops == seq![DrawOp::Style(layout.style)] + children_ops(
                            children@.take(pos as int),
                            layout_cache@,
                            dd,
                        ),
                        children_render_ok(children@, layout_cache@, layout.content, (depth - 1) as nat)
                            == children_render_ok(
                            children@.skip(pos as int),
                            layout_cache@,
                            bound,
                            (depth - 1) as nat,
                        ),
                    decreases children@.len() - pos,
                {
                    proof {
                        assert(children@.skip(pos as int).skip(1) =~= children@.skip(pos + 1));
                        assert(children@.skip(pos as int)[0] == children@[pos as int]);
                    }
                    let child = ElementView::with_parent(Some(&self), pos, children[pos]);
                    let ghost rest = children@.skip(pos as int);
                    let ghost d = (depth - 1) as nat;
                    let child_layout = match layout_cache.get(&children[pos].hash_tag()) {
                        Some(l) => *l,
                        None => {
                            proof {
                                assert(!layout_cache@.contains_key(rest[0].hash_tag));
                                assert(!children_render_ok(rest, layout_cache@, bound, d));
                                assert(!children_render_ok(children@, layout_cache@, layout.content, d));
                                assert(!render_ok(self.spec_view(), layout_cache@, depth as nat));
                            }
                            return None;
                        },
                    };
                    let saved = printer.replace_bound(bound);
                    let ghost bc = printer.spec_backend();
                    if child.render_within(css, printer, layout_cache, depth - 1).is_none() {
                        proof {
                            assert(!render_ok(rest[0], layout_cache@, d));
                            assert(!children_render_ok(rest, layout_cache@, bound, d));
                                assert(!children_render_ok(children@, layout_cache@, layout.content, d));
                                assert(!render_ok(self.spec_view(), layout_cache@, depth as nat));
                        }
                        return None;
                    }
                    proof {
                        let eops = element_ops(children@[pos as int], layout_cache@, dd);
                        let sc = choose|sc: Seq<B>|
                            #[trigger] draw_chain(sc, through_ops(of, eops)) && sc[0] == bc && sc.last()
                                == printer.spec_backend();
                        lemma_draw_chain_concat(st, through_ops(of, ops), sc, through_ops(of, eops));
                        lemma_through_concat(of, ops, eops);
                        let cs = children@.take(pos + 1);
                        assert(cs.drop_last() =~= children@.take(pos as int));
                        assert(cs.last() == children@[pos as int]);
                        assert(children_ops(cs, layout_cache@, dd) == children_ops(
                            children@.take(pos as int),
                            layout_cache@,
                            dd,
                        ) + eops);
                        st = st + sc.skip(1);
                        ops = ops + eops;
                        assert(ops =~= seq![DrawOp::Style(layout.style)] + children_ops(
                            cs,
                            layout_cache@,
                            dd,
                        ));
                    }
                    printer.replace_bound(saved);
                    if !(bound.start.y as u32 + child_layout.size.y as u32 <= 0xffff
                        && child_layout.size.y <= bound.size.y) {
                        return None;
                    }
                    bound = bound.add_start(Vec2::new(0, child_layout.size.y));
                    pos = pos + 1;
                }
                proof {
                    assert(children@.skip(pos as int).len() == 0);
                    assert(children@.take(pos as int) =~= children@);
                }
            },
        }
        let ghost body_ops = ops.skip(1);
        proof {
            assert(ops =~= seq![DrawOp::Style(layout.style)] + body_ops);
        }
        printer.replace_bound(outer);
        if layout.border.start.x > 0 {
            let saved = printer.replace_bound(layout.border);
            let frame_style = printer.style();
            let ghost f = ops.len() as int;
            printer.set_backend_style(layout.border_style);
            proof {
                let op = DrawOp::Style(layout.border_style);
                lemma_through_push_op(of, ops, op);
                assert(draw_step(
                    st.push(printer.spec_backend()),
                    through_ops(of, ops.push(op)),
                    ops.len() as int,
                ));
                lemma_draw_chain_push(st, through_ops(of, ops), printer.spec_backend(), through_op(of, op));
                st = st.push(printer.spec_backend());
                ops = ops.push(op);
            }
            if !printer.can_print_rect() {
                return None;
            }
            let ghost ba = printer.spec_backend();
            printer.print_rect();
            proof {
                let rops = print_steps(rect_ops(layout.border));
                lemma_prints_draw(ba, printer.spec_backend(), of, rect_ops(layout.border));
                let sr = choose|sr: Seq<B>|
                    #[trigger] draw_chain(sr, through_ops(of, rops)) && sr[0] == ba && sr.last()
                        == printer.spec_backend();
                lemma_draw_chain_concat(st, through_ops(of, ops), sr, through_ops(of, rops));
                lemma_through_concat(of, ops, rops);
                st = st + sr.skip(1);
                ops = ops + rops;
            }
            let ghost bb = printer.spec_backend();
            printer.set_backend_style(frame_style);
            proof {
                let rl = print_steps(rect_ops(layout.border)).len();
                let op = DrawOp::Restore(rl + 1);
                let st2 = st.push(printer.spec_backend());
                let ops2 = ops.push(op);
                assert(st2[f] == st[f]);
                lemma_through_push_op(of, ops, op);
                assert(draw_step(st2, through_ops(of, ops2), ops.len() as int));
                lemma_draw_chain_push(st, through_ops(of, ops), printer.spec_backend(), through_op(of, op));
                st = st2;
                ops = ops2;
                assert(ops =~= seq![DrawOp::Style(layout.style)] + body_ops + frame_ops(layout));
            }
            printer.replace_bound(saved);
        } else {
            proof {
                assert(ops =~= seq![DrawOp::Style(layout.style)] + body_ops + frame_ops(layout));
            }
        }
        let ghost bl = printer.spec_backend();
        printer.set_backend_style(old_style);
        proof {
            let op = DrawOp::Restore(ops.len());
            let st2 = st.push(printer.spec_backend());
            let ops2 = ops.push(op);
            assert(st2[0] == s0);
            lemma_through_push_op(of, ops, op);
            assert(draw_step(st2, through_ops(of, ops2), ops.len() as int));
            lemma_draw_chain_push(st, through_ops(of, ops), printer.spec_backend(), through_op(of, op));
            if restores_style::<B>() {
                assert(bl.styled(&printer.spec_backend(), s0.current_style()));
            }
            st = st2;
            ops = ops2;
            assert(ops == element_ops(self.spec_view(), layout_cache@, depth as nat));
            assert(draw_chain(st, through_ops(of, ops)) && st[0] == s0 && st.last() == printer.spec_backend());
        }
        Some(layout)
    }
}



/// The boxes of a layout nest as the box model says. With the margin,
/// border and padding of `p` resolved against the size of the bound `b`
/// (left and top on the near side, right and bottom on the far side): the
/// content box has the content's size and starts past the near margin,
/// border and padding; the padding box starts the near padding before it
/// and is larger by the far padding; the border box starts the border
/// before that and is larger by the border; and the element takes the
/// border box's size plus the margins on both sides.
pub proof fn lemma_layout_boxes_nest(p: CalcCssProperty, b: Rect, content: Vec2)
    requires
        spec_box_area(p, b) is Some,
        spec_finish_box(p, spec_box_area(p, b)->0, content) is Some,
    ensures
        ({
            let l = spec_finish_box(p, spec_box_area(p, b)->0, content)->0;
            let ml = spec_calc_size(p.margin.left, b.size.x);
            let mt = spec_calc_size(p.margin.top, b.size.y);
            let mr = spec_calc_size(p.margin.right, b.size.x);
            let mb = spec_calc_size(p.margin.bottom, b.size.y);
            let pl = spec_calc_size(p.padding.left, b.size.x);
            let pt = spec_calc_size(p.padding.top, b.size.y);
            let pr = spec_calc_size(p.padding.right, b.size.x);
            let pb = spec_calc_size(p.padding.bottom, b.size.y);
            let bw = border_size(p);
            &&& l.content.size == content
            &&& l.content.start.x == b.start.x + ml + bw.x + pl
            &&& l.content.start.y == b.start.y + mt + bw.y + pt
            &&& l.padding.start.x + pl == l.content.start.x
            &&& l.padding.start.y + pt == l.content.start.y
            &&& l.padding.size.x == content.x + pr
            &&& l.padding.size.y == content.y + pb
            &&& l.border.start.x + bw.x == l.padding.start.x
            &&& l.border.start.y + bw.y == l.padding.start.y
            &&& l.border.size.x == l.padding.size.x + bw.x
            &&& l.border.size.y == l.padding.size.y + bw.y
            &&& l.border.start.x == b.start.x + ml
            &&& l.border.start.y == b.start.y + mt
            &&& l.size.x == l.border.size.x + ml + mr
            &&& l.size.y == l.border.size.y + mt + mb
            &&& l.style == p.style
        }),
{
}

/// A view laid out afresh (not found in the cache) takes the size of its
/// border box plus its margins on both sides, resolved against the size of
/// the bound it was laid out in.
pub proof fn lemma_layout_size_includes_margins<'a, E, M>(
    v: TuiView<'a, E, M>,
    facts: Seq<Seq<NodeFacts>>,
    rules: Seq<CssRule>,
    p: CalcCssProperty,
    b: Rect,
    cache: Map<u64, LayoutResult>,
    depth: nat,
)
    requires
        !cache.contains_key(v.hash_tag),
        layout_result(v, facts, rules, p, b, cache, depth).0 is Some,
    ensures
        ({
            let l = layout_result(v, facts, rules, p, b, cache, depth).0->0;
            &&& l.size.x == l.border.size.x + spec_calc_size(p.margin.left, b.size.x)
                + spec_calc_size(p.margin.right, b.size.x)
            &&& l.size.y == l.border.size.y + spec_calc_size(p.margin.top, b.size.y)
                + spec_calc_size(p.margin.bottom, b.size.y)
            &&& l.border.start.x == b.start.x + spec_calc_size(p.margin.left, b.size.x)
            &&& l.border.start.y == b.start.y + spec_calc_size(p.margin.top, b.size.y)
        }),
{
    let area = spec_box_area(p, b)->0;
    match v.body {
        ViewBody::Text(_, w) => {
            lemma_layout_boxes_nest(p, b, text_content_size(w, area.content.size));
        },
        ViewBody::Children(cs) => {
            let (ok, c, ext) = children_layout(
                v,
                facts,
                rules,
                p,
                area.content,
                cache,
                (depth - 1) as nat,
                cs@.len(),
            );
            lemma_layout_boxes_nest(p, b, ext);
        },
    }
}

} // verus!
