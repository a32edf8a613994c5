use vstd::prelude::*;
use crate::css::color::{CssColor, spec_parse_color};
use crate::css::css_val::CssVal;
use crate::css::font_style::{CssFontStyle, CssFontStyleSet, style_index, lemma_add_style_bit, lemma_no_style_bits};
use crate::css::property::{CssProperty, inherit_property, declares_style};
use crate::css::rect::{CssRect, spec_parse_css_rect};
use crate::css::size::{parse_size_val, spec_parse_size_val};
use crate::text::{str_eq, str_contains, contains_seq};

verus! {

broadcast use vstd::string::group_string_axioms;

/// One `name: value` declaration of a style rule.
#[derive(Clone, Copy, Debug, PartialEq, Eq)]
pub struct CssDeclaration<'a> {
    pub name: &'a str,
    pub value: &'a str,
}

/// The declared font styles with `s` added; undeclared ones start empty.
pub open spec fn spec_add_style(f: CssVal<CssFontStyleSet>, s: CssFontStyle) -> CssVal<CssFontStyleSet> {
    let base = match f {
        CssVal::Val(set) => set.bits,
        CssVal::Inherit => 0u8,
    };
    CssVal::Val(CssFontStyleSet { bits: base | (1u8 << style_index(s)) })
}

/// The properties after one declaration: a recognised name with a value that
/// parses sets its property; a font declaration adds its font style;
/// anything else changes nothing.
pub open spec fn spec_apply_declaration(p: CssProperty, name: Seq<char>, value: Seq<char>) -> CssProperty {
    if name == "color"@ {
        match spec_parse_color(value) {
            Ok(c) => CssProperty { foreground: CssVal::Val(c), ..p },
            Err(_) => p,
        }
    } else if name == "background"@ {
        match spec_parse_color(value) {
            Ok(c) => CssProperty { background: CssVal::Val(c), ..p },
            Err(_) => p,
        }
    } else if name == "margin"@ {
        match spec_parse_css_rect(value) {
            Some(r) => CssProperty { margin: CssVal::Val(r), ..p },
            None => p,
        }
    } else if name == "padding"@ {
        match spec_parse_css_rect(value) {
            Some(r) => CssProperty { padding: CssVal::Val(r), ..p },
            None => p,
        }
    } else if name == "border-width"@ {
        match spec_parse_css_rect(value) {
            Some(r) => CssProperty { border_width: CssVal::Val(r), ..p },
            None => p,
        }
    } else if name == "border-color"@ {
        match spec_parse_color(value) {
            Ok(c) => CssProperty { border_color: CssVal::Val(c), ..p },
            Err(_) => p,
        }
    } else if name == "width"@ {
        match spec_parse_size_val(value) {
            Some(w) => CssProperty { width: w, ..p },
            None => p,
        }
    } else if name == "height"@ {
        match spec_parse_size_val(value) {
            Some(h) => CssProperty { height: h, ..p },
            None => p,
        }
    } else if name == "font-weight"@ {
        if value == "bold"@ || value == "bolder"@ {
            CssProperty { font_style: spec_add_style(p.font_style, CssFontStyle::Bold), ..p }
        } else if value == "lighter"@ {
            CssProperty { font_style: spec_add_style(p.font_style, CssFontStyle::Dimmed), ..p }
        } else {
            p
        }
    } else if name == "font-style"@ {
        if value == "italic"@ || value == "oblique"@ {
            CssProperty { font_style: spec_add_style(p.font_style, CssFontStyle::Italic), ..p }
        } else {
            p
        }
    } else if name == "text-decoration-line"@ {
        if contains_seq(value, "blink"@) {
            CssProperty { font_style: spec_add_style(p.font_style, CssFontStyle::Blink), ..p }
        } else if contains_seq(value, "underline"@) {
            CssProperty { font_style: spec_add_style(p.font_style, CssFontStyle::Underline), ..p }
        } else if contains_seq(value, "line-through"@) {
            CssProperty {
                font_style: spec_add_style(p.font_style, CssFontStyle::StrikeThrough),
                ..p
            }
        } else {
            p
        }
    } else {
        p
    }
}

/// The properties that a list of declarations sets, applied in order to
/// properties that declare nothing.
pub open spec fn spec_convert_declar(ds: Seq<CssDeclaration>) -> CssProperty
    decreases ds.len(),
{
    if ds.len() == 0 {
        inherit_property()
    } else {
        spec_apply_declaration(spec_convert_declar(ds.drop_last()), ds.last().name@, ds.last().value@)
    }
}

/// Whether the declaration `name: value` sets nothing: its name is none of
/// those recognised, or its value does not parse (or names no font style)
/// for that name.
pub open spec fn declaration_ignored(name: Seq<char>, value: Seq<char>) -> bool {
    if name == "color"@ || name == "background"@ || name == "border-color"@ {
        spec_parse_color(value) is Err
    } else if name == "margin"@ || name == "padding"@ || name == "border-width"@ {
        spec_parse_css_rect(value) is None
    } else if name == "width"@ || name == "height"@ {
        spec_parse_size_val(value) is None
    } else if name == "font-weight"@ {
        !(value == "bold"@ || value == "bolder"@ || value == "lighter"@)
    } else if name == "font-style"@ {
        !(value == "italic"@ || value == "oblique"@)
    } else if name == "text-decoration-line"@ {
        !contains_seq(value, "blink"@) && !contains_seq(value, "underline"@) && !contains_seq(
            value,
            "line-through"@,
        )
    } else {
        true
    }
}

/// An ignored declaration leaves any properties as they are.
pub proof fn lemma_ignored_declaration_sets_nothing(p: CssProperty, name: Seq<char>, value: Seq<char>)
    requires
        declaration_ignored(name, value),
    ensures
        spec_apply_declaration(p, name, value) == p,
{
    reveal_strlit("color");
    reveal_strlit("background");
    reveal_strlit("border-color");
    reveal_strlit("margin");
    reveal_strlit("padding");
    reveal_strlit("border-width");
    reveal_strlit("width");
    reveal_strlit("height");
    reveal_strlit("font-weight");
    reveal_strlit("font-style");
    reveal_strlit("text-decoration-line");
    reveal_strlit("bold");
    reveal_strlit("bolder");
    reveal_strlit("lighter");
    reveal_strlit("italic");
    reveal_strlit("oblique");
    if name == "color"@ {
        assert(name.len() == 5);
        assert(spec_apply_declaration(p, name, value) == p);
    } else if name == "background"@ {
        assert(name.len() == 10);
        assert(spec_apply_declaration(p, name, value) == p);
    } else if name == "margin"@ {
        assert(name.len() == 6);
        assert(spec_apply_declaration(p, name, value) == p);
    } else if name == "padding"@ {
        assert(name.len() == 7);
        assert(spec_apply_declaration(p, name, value) == p);
    } else if name == "border-width"@ {
        assert(name.len() == 12);
        assert(name[7] == 'w');
        assert(spec_apply_declaration(p, name, value) == p);
    } else if name == "border-color"@ {
        assert(name.len() == 12);
        assert(name[7] == 'c');
        assert(spec_apply_declaration(p, name, value) == p);
    } else if name == "width"@ {
        assert(name.len() == 5);
        assert(spec_apply_declaration(p, name, value) == p);
    } else if name == "height"@ {
        assert(name.len() == 6);
        assert(spec_apply_declaration(p, name, value) == p);
    } else if name == "font-weight"@ {
        assert(name.len() == 11);
        assert(name[5] == 'w');
        assert(spec_apply_declaration(p, name, value) == p);
    } else if name == "font-style"@ {
        assert(name.len() == 10);
        assert(name[5] == 's');
        assert(spec_apply_declaration(p, name, value) == p);
    } else if name == "text-decoration-line"@ {
        assert(name.len() == 20);
        assert(spec_apply_declaration(p, name, value) == p);
    } else {
        assert(spec_apply_declaration(p, name, value) == p);
    }
}

/// A declaration that sets nothing, put anywhere into a list of
/// declarations, leaves what the list declares unchanged; and an empty list
/// declares nothing (every property is inherited).
pub proof fn lemma_ignored_declaration_changes_nothing(
    ds: Seq<CssDeclaration>,
    k: int,
    x: CssDeclaration,
)
    requires
        0 <= k <= ds.len(),
        declaration_ignored(x.name@, x.value@),
    ensures
        spec_convert_declar(ds.insert(k, x)) == spec_convert_declar(ds),
        spec_convert_declar(Seq::<CssDeclaration>::empty()) == inherit_property(),
    decreases ds.len(),
{
    let e = ds.insert(k, x);
    if k == ds.len() {
        assert(e.drop_last() =~= ds);
        assert(e.last() == x);
        lemma_ignored_declaration_sets_nothing(spec_convert_declar(ds), x.name@, x.value@);
    } else {
        lemma_ignored_declaration_changes_nothing(ds.drop_last(), k, x);
        assert(e.drop_last() =~= ds.drop_last().insert(k, x));
        assert(e.last() == ds.last());
    }
}

fn add_style(property: &mut CssProperty, s: CssFontStyle)
    ensures
        *final(property) == (CssProperty {
            font_style: spec_add_style(old(property).font_style, s),
            ..*old(property)
        }),
{
    property.font_style.get_or_insert(CssFontStyleSet::new()).insert(s);
}

fn apply_declaration(property: &mut CssProperty, name: &str, value: &str)
    ensures
        *final(property) == spec_apply_declaration(*old(property), name@, value@),
{
    if str_eq(name, "color") {
        if let Ok(color) = CssColor::parse(value) {
            property.foreground = CssVal::Val(color);
        }
    } else if str_eq(name, "background") {
        if let Ok(color) = CssColor::parse(value) {
            property.background = CssVal::Val(color);
        }
    } else if str_eq(name, "margin") {
        if let Some(width) = CssRect::parse(value) {
            property.margin = CssVal::Val(width);
        }
    } else if str_eq(name, "padding") {
        if let Some(width) = CssRect::parse(value) {
            property.padding = CssVal::Val(width);
        }
    } else if str_eq(name, "border-width") {
        if let Some(width) = CssRect::parse(value) {
            property.border_width = CssVal::Val(width);
        }
    } else if str_eq(name, "border-color") {
        if let Ok(color) = CssColor::parse(value) {
            property.border_color = CssVal::Val(color);
        }
    } else if str_eq(name, "width") {
        if let Some(width) = parse_size_val(value) {
            property.width = width;
        }
    } else if str_eq(name, "height") {
        if let Some(width) = parse_size_val(value) {
            property.height = width;
        }
    } else if str_eq(name, "font-weight") {
        if str_eq(value, "bold") || str_eq(value, "bolder") {
            add_style(property, CssFontStyle::Bold);
        } else if str_eq(value, "lighter") {
            add_style(property, CssFontStyle::Dimmed);
        }
    } else if str_eq(name, "font-style") {
        if str_eq(value, "italic") || str_eq(value, "oblique") {
            add_style(property, CssFontStyle::Italic);
        }
    } else if str_eq(name, "text-decoration-line") {
        if str_contains(value, "blink") {
            add_style(property, CssFontStyle::Blink);
        } else if str_contains(value, "underline") {
            add_style(property, CssFontStyle::Underline);
        } else if str_contains(value, "line-through") {
            add_style(property, CssFontStyle::StrikeThrough);
        }
    }
}

/// The properties that a rule's declarations set, in order.
pub fn convert_declar(declarations: &Vec<CssDeclaration>) -> (r: CssProperty)
    ensures
        r == spec_convert_declar(declarations@),
{
    let mut property = CssProperty::default();
    let mut i: usize = 0;
    while i < declarations.len()
        invariant
            i <= declarations@.len(),
            property == spec_convert_declar(declarations@.take(i as int)),
        decreases declarations@.len() - i,
    {
        let d = declarations[i];
        proof {
            assert(declarations@.take(i + 1).drop_last() =~= declarations@.take(i as int));
        }
        apply_declaration(&mut property, d.name, d.value);
        i = i + 1;
    }
    proof {
        assert(declarations@.take(i as int) =~= declarations@);
    }
    property
}

#[verifier::external_type_specification]
#[verifier::external_body]
pub struct ExSelector<'a>(simplecss::Selector<'a>);

#[verifier::external_type_specification]
#[verifier::external_body]
pub struct ExRule<'a>(simplecss::Rule<'a>);

#[verifier::external_type_specification]
#[verifier::external_body]
pub struct ExDeclaration<'a>(simplecss::Declaration<'a>);

/// The `selector` field of a `simplecss::Rule`.
pub uninterp spec fn rule_selector(rule: simplecss::Rule) -> simplecss::Selector;

/// The `declarations` field of a `simplecss::Rule`, in order.
pub uninterp spec fn rule_declarations(rule: simplecss::Rule) -> Seq<simplecss::Declaration>;

/// The characters of the `name` field of a `simplecss::Declaration`.
pub uninterp spec fn declaration_name_of(d: simplecss::Declaration) -> Seq<char>;

/// The characters of the `value` field of a `simplecss::Declaration`.
pub uninterp spec fn declaration_value_of(d: simplecss::Declaration) -> Seq<char>;

/// Moves the selector and the declarations out of a `simplecss::Rule`.
/// Trusted: the two fields as they are, named by `rule_selector` and
/// `rule_declarations`.
#[verifier::external_body]
fn rule_into_parts<'a>(rule: simplecss::Rule<'a>) -> (r: (simplecss::Selector<'a>, Vec<
    simplecss::Declaration<'a>,
>))
    ensures
        r.0 == rule_selector(rule),
        r.1@ == rule_declarations(rule),
{
    (rule.selector, rule.declarations)
}

/// The `name` field of a `simplecss::Declaration`. Trusted: the field as it
/// is, named by `declaration_name_of`.
#[verifier::external_body]
fn declaration_name<'a>(d: &simplecss::Declaration<'a>) -> (r: &'a str)
    ensures
        r@ == declaration_name_of(*d),
{
    d.name
}

/// The `value` field of a `simplecss::Declaration`. Trusted: the field as it
/// is, named by `declaration_value_of`.
#[verifier::external_body]
fn declaration_value<'a>(d: &simplecss::Declaration<'a>) -> (r: &'a str)
    ensures
        r@ == declaration_value_of(*d),
{
    d.value
}

/// The properties that the declarations of a parsed rule set, applied in
/// order (as `spec_convert_declar` does) to properties that declare nothing.
pub open spec fn convert_parsed(ds: Seq<simplecss::Declaration>) -> CssProperty
    decreases ds.len(),
{
    if ds.len() == 0 {
        inherit_property()
    } else {
        spec_apply_declaration(
            convert_parsed(ds.drop_last()),
            declaration_name_of(ds.last()),
            declaration_value_of(ds.last()),
        )
    }
}

/// Declarations with the same names and values set the same properties.
proof fn lemma_convert_same_fields(ds: Seq<CssDeclaration>, ps: Seq<simplecss::Declaration>)
    requires
        ds.len() == ps.len(),
        forall|i: int|
            0 <= i < ds.len() ==> (#[trigger] ds[i]).name@ == declaration_name_of(ps[i])
                && ds[i].value@ == declaration_value_of(ps[i]),
    ensures
        spec_convert_declar(ds) == convert_parsed(ps),
    decreases ds.len(),
{
    if ds.len() > 0 {
        let n = ds.len() - 1;
        assert(ds[n].name@ == declaration_name_of(ps[n]));
        assert forall|i: int| 0 <= i < ds.drop_last().len() implies (#[trigger] ds.drop_last()[i]).name@
            == declaration_name_of(ps.drop_last()[i]) && ds.drop_last()[i].value@
            == declaration_value_of(ps.drop_last()[i]) by {
            assert(ds.drop_last()[i] == ds[i]);
        }
        lemma_convert_same_fields(ds.drop_last(), ps.drop_last());
    }
}

/// A style rule: the selector of the elements it applies to and the
/// properties it declares.
#[derive(Debug)]
pub struct CssRule<'a> {
    pub selector: simplecss::Selector<'a>,
    pub property: CssProperty,
}

impl<'a> CssRule<'a> {
    /// A rule with `selector` and the properties that `declarations` declare.
    pub fn from_parts(selector: simplecss::Selector<'a>, declarations: &Vec<CssDeclaration<'a>>) -> (r: Self)
        ensures
            r.selector == selector,
            r.property == spec_convert_declar(declarations@),
    {
        CssRule { selector, property: convert_declar(declarations) }
    }

    /// The rule that a parsed `simplecss` rule stands for: its selector, and
    /// the properties its declarations (name and value) declare.
    pub fn new(rule: simplecss::Rule<'a>) -> (r: Self)
        ensures
            r.selector == rule_selector(rule),
            r.property == convert_parsed(rule_declarations(rule)),
    {
        let (selector, declarations) = rule_into_parts(rule);
        let mut converted: Vec<CssDeclaration<'a>> = Vec::new();
        let mut i: usize = 0;
        while i < declarations.len()
            invariant
                i <= declarations@.len(),
                converted@.len() == i,
                forall|k: int|
                    0 <= k < i ==> (#[trigger] converted@[k]).name@ == declaration_name_of(
                        declarations@[k],
                    ) && converted@[k].value@ == declaration_value_of(declarations@[k]),
            decreases declarations@.len() - i,
        {
            let d = &declarations[i];
            converted.push(CssDeclaration { name: declaration_name(d), value: declaration_value(d) });
            i = i + 1;
        }
        proof {
            lemma_convert_same_fields(converted@, declarations@);
        }
        Self::from_parts(selector, &converted)
    }
}


/// A declaration of a box, color or size property whose value parses sets
/// exactly that property to the parsed value and leaves every other
/// property as it was.
pub proof fn lemma_declaration_sets_its_own_property(p: CssProperty, name: Seq<char>, value: Seq<char>)
    ensures
        ({
            let q = spec_apply_declaration(p, name, value);
            name == "color"@ ==> (spec_parse_color(value) matches Ok(c) ==> (q.foreground == CssVal::Val(c) && q.background == p.background && q.font_style == p.font_style && q.width == p.width && q.height == p.height && q.padding == p.padding && q.margin == p.margin && q.border_width == p.border_width && q.border_color == p.border_color))
        }),
        ({
            let q = spec_apply_declaration(p, name, value);
            name == "background"@ ==> (spec_parse_color(value) matches Ok(c) ==> (q.background == CssVal::Val(c) && q.foreground == p.foreground && q.font_style == p.font_style && q.width == p.width && q.height == p.height && q.padding == p.padding && q.margin == p.margin && q.border_width == p.border_width && q.border_color == p.border_color))
        }),
        ({
            let q = spec_apply_declaration(p, name, value);
            name == "border-color"@ ==> (spec_parse_color(value) matches Ok(c) ==> (q.border_color == CssVal::Val(c) && q.foreground == p.foreground && q.background == p.background && q.font_style == p.font_style && q.width == p.width && q.height == p.height && q.padding == p.padding && q.margin == p.margin && q.border_width == p.border_width))
        }),
        ({
            let q = spec_apply_declaration(p, name, value);
            name == "margin"@ ==> (spec_parse_css_rect(value) matches Some(r) ==> (q.margin == CssVal::Val(r) && q.foreground == p.foreground && q.background == p.background && q.font_style == p.font_style && q.width == p.width && q.height == p.height && q.padding == p.padding && q.border_width == p.border_width && q.border_color == p.border_color))
        }),
        ({
            let q = spec_apply_declaration(p, name, value);
            name == "padding"@ ==> (spec_parse_css_rect(value) matches Some(r) ==> (q.padding == CssVal::Val(r) && q.foreground == p.foreground && q.background == p.background && q.font_style == p.font_style && q.width == p.width && q.height == p.height && q.margin == p.margin && q.border_width == p.border_width && q.border_color == p.border_color))
        }),
        ({
            let q = spec_apply_declaration(p, name, value);
            name == "border-width"@ ==> (spec_parse_css_rect(value) matches Some(r) ==> (q.border_width == CssVal::Val(r) && q.foreground == p.foreground && q.background == p.background && q.font_style == p.font_style && q.width == p.width && q.height == p.height && q.padding == p.padding && q.margin == p.margin && q.border_color == p.border_color))
        }),
        ({
            let q = spec_apply_declaration(p, name, value);
            name == "width"@ ==> (spec_parse_size_val(value) matches Some(w) ==> (q.width == w && q.foreground == p.foreground && q.background == p.background && q.font_style == p.font_style && q.height == p.height && q.padding == p.padding && q.margin == p.margin && q.border_width == p.border_width && q.border_color == p.border_color))
        }),
        ({
            let q = spec_apply_declaration(p, name, value);
            name == "height"@ ==> (spec_parse_size_val(value) matches Some(w) ==> (q.height == w && q.foreground == p.foreground && q.background == p.background && q.font_style == p.font_style && q.width == p.width && q.padding == p.padding && q.margin == p.margin && q.border_width == p.border_width && q.border_color == p.border_color))
        }),
{
    reveal_strlit("color");
    reveal_strlit("background");
    reveal_strlit("border-color");
    reveal_strlit("margin");
    reveal_strlit("padding");
    reveal_strlit("border-width");
    reveal_strlit("width");
    reveal_strlit("height");
    if name == "color"@ {
        assert(name.len() == 5);
        assert(name[0] == 'c');
    } else if name == "background"@ {
        assert(name.len() == 10);
    } else if name == "margin"@ {
        assert(name.len() == 6);
        assert(name[0] == 'm');
    } else if name == "padding"@ {
        assert(name.len() == 7);
    } else if name == "border-width"@ {
        assert(name.len() == 12);
        assert(name[7] == 'w');
    } else if name == "border-color"@ {
        assert(name.len() == 12);
        assert(name[7] == 'c');
    } else if name == "width"@ {
        assert(name.len() == 5);
        assert(name[0] == 'w');
    } else if name == "height"@ {
        assert(name.len() == 6);
        assert(name[0] == 'h');
    }
}


/// Adding a font style declares it beside the styles declared before, and
/// nothing else.
pub proof fn lemma_add_style_declares(f: CssVal<CssFontStyleSet>, s: CssFontStyle)
    ensures
        forall|t: CssFontStyle|
            #[trigger] declares_style(spec_add_style(f, s), t) <==> (t == s || declares_style(f, t)),
{
    match f {
        CssVal::Val(set) => lemma_add_style_bit(set.bits, s),
        CssVal::Inherit => {
            lemma_add_style_bit(0u8, s);
            lemma_no_style_bits();
        },
    }
}

/// A font declaration that names a style switches that style on beside the
/// ones declared before and leaves every other property as it was: bold or
/// bolder weight, lighter weight (dimmed), italic or oblique style, and a
/// decoration line holding blink, else underline, else line-through.
pub proof fn lemma_font_declaration_adds_its_style(p: CssProperty, name: Seq<char>, value: Seq<char>)
    ensures
        ({
            let q = spec_apply_declaration(p, name, value);
            name == "font-weight"@ && (value == "bold"@ || value == "bolder"@) ==> (forall|t: CssFontStyle|
                #[trigger] declares_style(q.font_style, t) <==> (t == CssFontStyle::Bold
                    || declares_style(p.font_style, t))) && q.foreground == p.foreground && q.background == p.background && q.width == p.width && q.height == p.height && q.padding == p.padding && q.margin == p.margin && q.border_width == p.border_width && q.border_color == p.border_color
        }),
        ({
            let q = spec_apply_declaration(p, name, value);
            name == "font-weight"@ && value == "lighter"@ ==> (forall|t: CssFontStyle|
                #[trigger] declares_style(q.font_style, t) <==> (t == CssFontStyle::Dimmed
                    || declares_style(p.font_style, t))) && q.foreground == p.foreground && q.background == p.background && q.width == p.width && q.height == p.height && q.padding == p.padding && q.margin == p.margin && q.border_width == p.border_width && q.border_color == p.border_color
        }),
        ({
            let q = spec_apply_declaration(p, name, value);
            name == "font-style"@ && (value == "italic"@ || value == "oblique"@) ==> (forall|t: CssFontStyle|
                #[trigger] declares_style(q.font_style, t) <==> (t == CssFontStyle::Italic
                    || declares_style(p.font_style, t))) && q.foreground == p.foreground && q.background == p.background && q.width == p.width && q.height == p.height && q.padding == p.padding && q.margin == p.margin && q.border_width == p.border_width && q.border_color == p.border_color
        }),
        ({
            let q = spec_apply_declaration(p, name, value);
            name == "text-decoration-line"@ && contains_seq(value, "blink"@) ==> (forall|t: CssFontStyle|
                #[trigger] declares_style(q.font_style, t) <==> (t == CssFontStyle::Blink
                    || declares_style(p.font_style, t))) && q.foreground == p.foreground && q.background == p.background && q.width == p.width && q.height == p.height && q.padding == p.padding && q.margin == p.margin && q.border_width == p.border_width && q.border_color == p.border_color
        }),
        ({
            let q = spec_apply_declaration(p, name, value);
            name == "text-decoration-line"@ && !contains_seq(value, "blink"@) && contains_seq(value, "underline"@) ==> (forall|t: CssFontStyle|
                #[trigger] declares_style(q.font_style, t) <==> (t == CssFontStyle::Underline
                    || declares_style(p.font_style, t))) && q.foreground == p.foreground && q.background == p.background && q.width == p.width && q.height == p.height && q.padding == p.padding && q.margin == p.margin && q.border_width == p.border_width && q.border_color == p.border_color
        }),
        ({
            let q = spec_apply_declaration(p, name, value);
            name == "text-decoration-line"@ && !contains_seq(value, "blink"@) && !contains_seq(value, "underline"@) && contains_seq(value, "line-through"@) ==> (forall|t: CssFontStyle|
                #[trigger] declares_style(q.font_style, t) <==> (t == CssFontStyle::StrikeThrough
                    || declares_style(p.font_style, t))) && q.foreground == p.foreground && q.background == p.background && q.width == p.width && q.height == p.height && q.padding == p.padding && q.margin == p.margin && q.border_width == p.border_width && q.border_color == p.border_color
        }),
{
    reveal_strlit("color");
    reveal_strlit("background");
    reveal_strlit("border-color");
    reveal_strlit("margin");
    reveal_strlit("padding");
    reveal_strlit("border-width");
    reveal_strlit("width");
    reveal_strlit("height");
    reveal_strlit("font-weight");
    reveal_strlit("font-style");
    reveal_strlit("text-decoration-line");
    reveal_strlit("bold");
    reveal_strlit("bolder");
    reveal_strlit("lighter");
    reveal_strlit("italic");
    reveal_strlit("oblique");
    if name == "font-weight"@ {
        assert(name.len() == 11);
        assert(name[0] == 'f');
        lemma_add_style_declares(p.font_style, CssFontStyle::Bold);
        lemma_add_style_declares(p.font_style, CssFontStyle::Dimmed);
    } else if name == "font-style"@ {
        assert(name.len() == 10);
        assert(name[0] == 'f');
        lemma_add_style_declares(p.font_style, CssFontStyle::Italic);
    } else if name == "text-decoration-line"@ {
        assert(name.len() == 20);
        lemma_add_style_declares(p.font_style, CssFontStyle::Blink);
        lemma_add_style_declares(p.font_style, CssFontStyle::Underline);
        lemma_add_style_declares(p.font_style, CssFontStyle::StrikeThrough);
    }
}

} // verus!
