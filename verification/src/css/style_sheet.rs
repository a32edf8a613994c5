//! A style sheet: style rules ordered by how long their selectors are, and
//! the properties they give an element.

use vstd::prelude::*;
use crate::css::css_val::CssVal;
use crate::css::font_style::CssFontStyleSet;
use crate::css::property::{CssProperty, inherit_property, spec_combine_property, lemma_combine_declared_only};
use crate::css::rule::{CssRule, rule_selector, rule_declarations, convert_parsed};
use crate::element_view::{ElementView, NodeFacts, element_facts};

verus! {

/// The rules that `simplecss::StyleSheet::parse` finds in `text`, in the
/// order it gives them: it reads the text alone, so the same text gives the
/// same rules.
pub uninterp spec fn css_rules(text: &str) -> Seq<simplecss::Rule>;

/// Whether `simplecss::Selector::matches` matches an element about which
/// the `simplecss::Element` answers tell `facts` (see `element_facts`): the
/// selector reads the element only through those answers, so the same
/// facts give the same answer.
pub uninterp spec fn css_selector_matches(sel: simplecss::Selector, facts: Seq<Seq<NodeFacts>>) -> bool;

/// Which of `rules` match an element with `facts`, in order.
pub open spec fn sheet_matches(rules: Seq<CssRule>, facts: Seq<Seq<NodeFacts>>) -> Seq<bool> {
    Seq::new(rules.len(), |i: int| css_selector_matches(rules[i].selector, facts))
}

/// The length in bytes of the text that `simplecss` writes for a selector.
pub uninterp spec fn selector_len_of(sel: simplecss::Selector) -> usize;

/// Parses `text` with `simplecss::StyleSheet::parse` and takes its rules.
/// Trusted: they are `css_rules` of the text.
#[verifier::external_body]
fn parse_rules<'a>(text: &'a str) -> (r: Vec<simplecss::Rule<'a>>)
    ensures
        r@ == css_rules(text),
{
    simplecss::StyleSheet::parse(text).rules
}

/// The length in bytes of the text that `simplecss` writes for `sel` (its
/// `Display`). Trusted: it is `selector_len_of` of the selector.
#[verifier::external_body]
fn selector_text_len(sel: &simplecss::Selector) -> (r: usize)
    ensures
        r == selector_len_of(*sel),
{
    sel.to_string().len()
}

/// Calls `simplecss::Selector::matches` on `el`, which walks the selector's
/// components from the last one and asks `el` (and its parents and earlier
/// siblings, through the `simplecss::Element` methods of `ElementView`)
/// about names, classes and states. Trusted: the answer is
/// `css_selector_matches` of the selector and of what those methods tell of
/// `el` (`element_facts`). The call panics on a selector without
/// components; `simplecss::StyleSheet::parse` gives none such.
#[verifier::external_body]
fn selector_matches<'a, E, M>(sel: &simplecss::Selector<'a>, el: &ElementView<'a, E, M>) -> (r: bool)
    ensures
        r == css_selector_matches(*sel, element_facts(*el)),
{
    sel.matches(el)
}

/// The properties of `props` whose flag in `matched` is set, combined in
/// order over the inherit-everything property.
pub open spec fn combine_matched(props: Seq<CssProperty>, matched: Seq<bool>) -> CssProperty
    decreases props.len(),
{
    if props.len() == 0 {
        inherit_property()
    } else {
        let prev = combine_matched(props.drop_last(), matched.drop_last());
        if matched.last() {
            spec_combine_property(prev, props.last())
        } else {
            prev
        }
    }
}

/// An element that no rule matches gets every property inherited.
pub proof fn lemma_no_match_inherits(props: Seq<CssProperty>, matched: Seq<bool>)
    requires
        matched.len() == props.len(),
        forall|i: int| 0 <= i < matched.len() ==> !#[trigger] matched[i],
    ensures
        combine_matched(props, matched) == inherit_property(),
    decreases props.len(),
{
    if props.len() > 0 {
        assert(!matched[matched.len() - 1]);
        lemma_no_match_inherits(props.drop_last(), matched.drop_last());
    }
}

/// Combining matched rules never gives a font style: combining starts from
/// the inherit-everything property, and a font style combined onto an
/// inherited one stays inherited.
pub proof fn lemma_combined_font_style_inherits(props: Seq<CssProperty>, matched: Seq<bool>)
    ensures
        combine_matched(props, matched).font_style == CssVal::<CssFontStyleSet>::Inherit,
    decreases props.len(),
{
    if props.len() > 0 {
        lemma_combined_font_style_inherits(props.drop_last(), matched.drop_last());
    }
}

/// Whether `perm` lists the indices of `keys` once each, in an order where
/// the keys never decrease and equal keys keep their order.
pub open spec fn stable_sorted_order(keys: Seq<usize>, perm: Seq<int>) -> bool {
    &&& perm.len() == keys.len()
    &&& forall|i: int| 0 <= i < perm.len() ==> 0 <= #[trigger] perm[i] < keys.len()
    &&& forall|i: int, j: int| 0 <= i < j < perm.len() ==> perm[i] != perm[j]
    &&& forall|i: int, j: int|
        0 <= i < j < perm.len() ==> keys[#[trigger] perm[i]] <= keys[#[trigger] perm[j]]
    &&& forall|i: int, j: int|
        0 <= i < j < perm.len() && keys[perm[i]] == keys[perm[j]] ==> #[trigger] perm[i]
            < #[trigger] perm[j]
}

/// The selector lengths of parsed rules, by which a style sheet orders them.
pub open spec fn selector_keys(rules: Seq<simplecss::Rule>) -> Seq<usize> {
    Seq::new(rules.len(), |i: int| selector_len_of(rule_selector(rules[i])))
}

/// Whether `out` is `CssRule::new` of each of `parsed`, stably sorted by the
/// length of their selectors' text.
pub open spec fn sorted_from<'a>(out: Seq<CssRule<'a>>, parsed: Seq<simplecss::Rule<'a>>) -> bool {
    exists|perm: Seq<int>|
        {
            &&& stable_sorted_order(selector_keys(parsed), perm)
            &&& out.len() == parsed.len()
            &&& forall|i: int|
                0 <= i < out.len() ==> {
                    &&& (#[trigger] out[i]).selector == rule_selector(parsed[perm[i]])
                    &&& out[i].property == convert_parsed(rule_declarations(parsed[perm[i]]))
                }
        }
}

/// The properties of the rules, in order.
pub open spec fn rule_props<'a>(rules: Seq<CssRule<'a>>) -> Seq<CssProperty> {
    rules.map_values(|r: CssRule<'a>| r.property)
}

/// Style rules, in the order they apply.
#[derive(Debug)]
pub struct StyleSheet<'a> {
    rules: Vec<CssRule<'a>>,
}

impl<'a> StyleSheet<'a> {
    pub closed spec fn spec_rules(&self) -> Seq<CssRule<'a>> {
        self.rules@
    }

    /// A style sheet of `rules` ordered by `keys`, stably.
    pub fn from_rules(rules: Vec<CssRule<'a>>, keys: Vec<usize>) -> (r: Self)
        requires
            rules@.len() == keys@.len(),
        ensures
            exists|perm: Seq<int>|
                stable_sorted_order(keys@, perm) && r.spec_rules().len() == rules@.len() && forall|
                    i: int,
                | 0 <= i < perm.len() ==> r.spec_rules()[i] == #[trigger] rules@[perm[i]],
    {
        let ghost n = rules@.len();
        let ghost orig_rules = rules@;
        let ghost orig_keys = keys@;
        let mut rules = rules;
        let mut keys = keys;
        let mut out: Vec<CssRule<'a>> = Vec::new();
        let ghost mut perm: Seq<int> = Seq::empty();
        let ghost mut idx: Seq<int> = Seq::new(n, |i: int| i);
        while rules.len() > 0
            invariant
                rules@.len() == keys@.len(),
                keys@.len() == idx.len(),
                out@.len() == perm.len(),
                perm.len() + idx.len() == n,
                n == orig_rules.len(),
                n == orig_keys.len(),
                forall|i: int|
                    0 <= i < idx.len() ==> 0 <= #[trigger] idx[i] < n && rules@[i]
                        == orig_rules[idx[i]] && keys@[i] == orig_keys[idx[i]],
                forall|i: int, j: int| 0 <= i < j < idx.len() ==> idx[i] < idx[j],
                forall|i: int|
                    0 <= i < perm.len() ==> 0 <= #[trigger] perm[i] < n && out@[i]
                        == orig_rules[perm[i]],
                forall|i: int, j: int| 0 <= i < j < perm.len() ==> perm[i] != perm[j],
                forall|i: int, j: int|
                    0 <= i < perm.len() && 0 <= j < idx.len() ==> perm[i] != idx[j],
                forall|i: int, j: int|
                    0 <= i < j < perm.len() ==> orig_keys[#[trigger] perm[i]]
                        <= orig_keys[#[trigger] perm[j]],
                forall|i: int, j: int|
                    0 <= i < perm.len() && 0 <= j < idx.len() ==> orig_keys[#[trigger] perm[i]]
                        <= #[trigger] keys@[j],
                forall|i: int, j: int|
                    0 <= i < j < perm.len() && orig_keys[perm[i]] == orig_keys[perm[j]]
                        ==> #[trigger] perm[i] < #[trigger] perm[j],
                forall|i: int, j: int|
                    0 <= i < perm.len() && 0 <= j < idx.len() && orig_keys[perm[i]] == keys@[j]
                        ==> #[trigger] perm[i] < #[trigger] idx[j],
            decreases rules@.len(),
        {
            let mut m: usize = 0;
            let mut k: usize = 1;
            while k < keys.len()
                invariant
                    0 <= m < k <= keys@.len(),
                    forall|t: int| 0 <= t < k ==> keys@[m as int] <= #[trigger] keys@[t],
                    forall|t: int| 0 <= t < m ==> keys@[m as int] < #[trigger] keys@[t],
                decreases keys@.len() - k,
            {
                if keys[k] < keys[m] {
                    m = k;
                }
                k = k + 1;
            }
            let ghost old_idx = idx;
            let ghost old_keys = keys@;
            let ghost p = idx[m as int];
            let rule = rules.remove(m);
            let _key = keys.remove(m);
            proof {
                perm = perm.push(p);
                idx = idx.remove(m as int);
                assert forall|j: int| 0 <= j < idx.len() implies orig_keys[p] <= #[trigger] keys@[j]
                    by {
                    if j < m {
                        assert(keys@[j] == old_keys[j]);
                    } else {
                        assert(keys@[j] == old_keys[j + 1]);
                    }
                }
                assert forall|j: int|
                    0 <= j < idx.len() && orig_keys[p] == keys@[j] implies p < #[trigger] idx[j] by {
                    if j < m {
                        assert(old_keys[m as int] < old_keys[j]);
                    } else {
                        assert(idx[j] == old_idx[j + 1]);
                    }
                }
            }
            out.push(rule);
        }
        proof {
            assert(stable_sorted_order(orig_keys, perm));
        }
        StyleSheet { rules: out }
    }

    /// Parses `text` with `simplecss`, turns each rule into a `CssRule`, and
    /// orders them by the length of their selector's text (shorter first;
    /// equal lengths keep their order).
    pub fn parse(text: &'a str) -> (r: Self)
        ensures
            sorted_from(r.spec_rules(), css_rules(text)),
    {
        let parsed = parse_rules(text);
        let ghost all = parsed@;
        let mut rules: Vec<CssRule<'a>> = Vec::new();
        let mut keys: Vec<usize> = Vec::new();
        let mut parsed = parsed;
        while parsed.len() > 0
            invariant
                rules@.len() == keys@.len(),
                rules@.len() + parsed@.len() == all.len(),
                parsed@ == all.skip(rules@.len() as int),
                forall|i: int|
                    0 <= i < rules@.len() ==> {
                        &&& (#[trigger] rules@[i]).selector == rule_selector(all[i])
                        &&& rules@[i].property == convert_parsed(rule_declarations(all[i]))
                        &&& keys@[i] == selector_len_of(rule_selector(all[i]))
                    },
            decreases parsed@.len(),
        {
            proof {
                assert(parsed@[0] == all[rules@.len() as int]);
            }
            let rule = CssRule::new(parsed.remove(0));
            proof {
                assert(parsed@ =~= all.skip(rules@.len() + 1int));
            }
            keys.push(selector_text_len(&rule.selector));
            rules.push(rule);
        }
        proof {
            assert forall|i: int| 0 <= i < keys@.len() implies keys@[i] == selector_keys(all)[i] by {
                assert(rules@[i].selector == rule_selector(all[i]));
            }
            assert(keys@ =~= selector_keys(all));
        }
        let r = Self::from_rules(rules, keys);
        proof {
            let perm = choose|perm: Seq<int>|
                stable_sorted_order(keys@, perm) && r.spec_rules().len() == rules@.len() && forall|
                    i: int,
                | 0 <= i < perm.len() ==> r.spec_rules()[i] == #[trigger] rules@[perm[i]];
            assert forall|i: int| 0 <= i < r.spec_rules().len() implies {
                &&& (#[trigger] r.spec_rules()[i]).selector == rule_selector(all[perm[i]])
                &&& r.spec_rules()[i].property == convert_parsed(rule_declarations(all[perm[i]]))
            } by {
                assert(r.spec_rules()[i] == rules@[perm[i]]);
            }
        }
        r
    }

    /// The rules' properties whose flag in `matched` is set, combined in order.
    pub fn combine_matched(&self, matched: &Vec<bool>) -> (r: CssProperty)
        requires
            matched@.len() == self.spec_rules().len(),
        ensures
            r == combine_matched(rule_props(self.spec_rules()), matched@),
    {
        let mut prop = CssProperty::default();
        let mut i: usize = 0;
        while i < self.rules.len()
            invariant
                i <= self.rules@.len(),
                matched@.len() == self.rules@.len(),
                prop == combine_matched(
                    rule_props(self.rules@.take(i as int)),
                    matched@.take(i as int),
                ),
            decreases self.rules@.len() - i,
        {
            proof {
                assert(rule_props(self.rules@.take(i + 1)).drop_last() =~= rule_props(
                    self.rules@.take(i as int),
                ));
                assert(matched@.take(i + 1).drop_last() =~= matched@.take(i as int));
            }
            if matched[i] {
                prop = prop.combine(self.rules[i].property);
            }
            i = i + 1;
        }
        proof {
            assert(self.rules@.take(i as int) =~= self.rules@);
            assert(matched@.take(i as int) =~= matched@);
        }
        prop
    }

    /// The properties that the rules matching `view` give it, combined in
    /// order; whether a rule matches is `simplecss`'s answer.
    pub fn calc_prop<E, M>(&self, view: &ElementView<'a, E, M>) -> (r: CssProperty)
        ensures
            r == combine_matched(
                rule_props(self.spec_rules()),
                sheet_matches(self.spec_rules(), element_facts(*view)),
            ),
    {
        let mut matched: Vec<bool> = Vec::new();
        let mut i: usize = 0;
        while i < self.rules.len()
            invariant
                i <= self.rules@.len(),
                matched@ == sheet_matches(self.rules@, element_facts(*view)).take(i as int),
            decreases self.rules@.len() - i,
        {
            matched.push(selector_matches(&self.rules[i].selector, view));
            proof {
                assert(matched@ =~= sheet_matches(self.rules@, element_facts(*view)).take(i + 1));
            }
            i = i + 1;
        }
        proof {
            assert(matched@ =~= sheet_matches(self.rules@, element_facts(*view)));
        }
        self.combine_matched(&matched)
    }
}


/// A property that no matched rule declares stays undeclared in what the
/// matched rules give: combining never takes a value from another property.
pub proof fn lemma_undeclared_stays_inherited(props: Seq<CssProperty>, matched: Seq<bool>)
    requires
        matched.len() == props.len(),
    ensures
        (forall|i: int| 0 <= i < props.len() && #[trigger] matched[i] ==> props[i].foreground is Inherit)
            ==> combine_matched(props, matched).foreground is Inherit,
        (forall|i: int| 0 <= i < props.len() && #[trigger] matched[i] ==> props[i].background is Inherit)
            ==> combine_matched(props, matched).background is Inherit,
        (forall|i: int| 0 <= i < props.len() && #[trigger] matched[i] ==> props[i].width is Inherit)
            ==> combine_matched(props, matched).width is Inherit,
        (forall|i: int| 0 <= i < props.len() && #[trigger] matched[i] ==> props[i].height is Inherit)
            ==> combine_matched(props, matched).height is Inherit,
        (forall|i: int| 0 <= i < props.len() && #[trigger] matched[i] ==> props[i].padding is Inherit)
            ==> combine_matched(props, matched).padding is Inherit,
        (forall|i: int| 0 <= i < props.len() && #[trigger] matched[i] ==> props[i].margin is Inherit)
            ==> combine_matched(props, matched).margin is Inherit,
        (forall|i: int| 0 <= i < props.len() && #[trigger] matched[i] ==> props[i].border_width is Inherit)
            ==> combine_matched(props, matched).border_width is Inherit,
        (forall|i: int| 0 <= i < props.len() && #[trigger] matched[i] ==> props[i].border_color is Inherit)
            ==> combine_matched(props, matched).border_color is Inherit,
    decreases props.len(),
{
    if props.len() > 0 {
        let n = props.len() - 1;
        assert forall|i: int| 0 <= i < props.drop_last().len() implies #[trigger] matched.drop_last()[i]
            == matched[i] && props.drop_last()[i] == props[i] by {}
        lemma_undeclared_stays_inherited(props.drop_last(), matched.drop_last());
        lemma_combine_declared_only(combine_matched(props.drop_last(), matched.drop_last()), props[n]);
        if forall|i: int| 0 <= i < props.len() && #[trigger] matched[i] ==> props[i].foreground is Inherit {
            assert(forall|i: int|
                0 <= i < props.drop_last().len() && #[trigger] matched.drop_last()[i]
                    ==> props.drop_last()[i].foreground is Inherit);
            assert(matched[n] ==> props[n].foreground is Inherit);
        }
        if forall|i: int| 0 <= i < props.len() && #[trigger] matched[i] ==> props[i].background is Inherit {
            assert(forall|i: int|
                0 <= i < props.drop_last().len() && #[trigger] matched.drop_last()[i]
                    ==> props.drop_last()[i].background is Inherit);
            assert(matched[n] ==> props[n].background is Inherit);
        }
        if forall|i: int| 0 <= i < props.len() && #[trigger] matched[i] ==> props[i].width is Inherit {
            assert(forall|i: int|
                0 <= i < props.drop_last().len() && #[trigger] matched.drop_last()[i]
                    ==> props.drop_last()[i].width is Inherit);
            assert(matched[n] ==> props[n].width is Inherit);
        }
        if forall|i: int| 0 <= i < props.len() && #[trigger] matched[i] ==> props[i].height is Inherit {
            assert(forall|i: int|
                0 <= i < props.drop_last().len() && #[trigger] matched.drop_last()[i]
                    ==> props.drop_last()[i].height is Inherit);
            assert(matched[n] ==> props[n].height is Inherit);
        }
        if forall|i: int| 0 <= i < props.len() && #[trigger] matched[i] ==> props[i].padding is Inherit {
            assert(forall|i: int|
                0 <= i < props.drop_last().len() && #[trigger] matched.drop_last()[i]
                    ==> props.drop_last()[i].padding is Inherit);
            assert(matched[n] ==> props[n].padding is Inherit);
        }
        if forall|i: int| 0 <= i < props.len() && #[trigger] matched[i] ==> props[i].margin is Inherit {
            assert(forall|i: int|
                0 <= i < props.drop_last().len() && #[trigger] matched.drop_last()[i]
                    ==> props.drop_last()[i].margin is Inherit);
            assert(matched[n] ==> props[n].margin is Inherit);
        }
        if forall|i: int| 0 <= i < props.len() && #[trigger] matched[i] ==> props[i].border_width is Inherit {
            assert(forall|i: int|
                0 <= i < props.drop_last().len() && #[trigger] matched.drop_last()[i]
                    ==> props.drop_last()[i].border_width is Inherit);
            assert(matched[n] ==> props[n].border_width is Inherit);
        }
        if forall|i: int| 0 <= i < props.len() && #[trigger] matched[i] ==> props[i].border_color is Inherit {
            assert(forall|i: int|
                0 <= i < props.drop_last().len() && #[trigger] matched.drop_last()[i]
                    ==> props.drop_last()[i].border_color is Inherit);
            assert(matched[n] ==> props[n].border_color is Inherit);
        }
    }
}

} // verus!
