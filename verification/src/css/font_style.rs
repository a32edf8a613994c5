use vstd::prelude::*;
use crate::css::combine::Combine;

verus! {

/// A text attribute that a style can switch on.
#[derive(Clone, Copy, Debug, PartialEq, Eq, Structural)]
pub enum CssFontStyle {
    Bold,
    Dimmed,
    Italic,
    Underline,
    Blink,
    Reverse,
    Hidden,
    StrikeThrough,
}

/// The bit that stands for a font style in a set.
pub open spec fn style_index(s: CssFontStyle) -> u8 {
    match s {
        CssFontStyle::Bold => 0,
        CssFontStyle::Dimmed => 1,
        CssFontStyle::Italic => 2,
        CssFontStyle::Underline => 3,
        CssFontStyle::Blink => 4,
        CssFontStyle::Reverse => 5,
        CssFontStyle::Hidden => 6,
        CssFontStyle::StrikeThrough => 7,
    }
}

/// Whether bit `i` of `bits` is set.
pub open spec fn bit_set(bits: u8, i: u8) -> bool {
    (bits >> i) & 1u8 == 1u8
}

/// A set of font styles, one bit per style.
#[derive(Clone, Copy, Debug, PartialEq, Eq, Structural)]
pub struct CssFontStyleSet {
    pub bits: u8,
}

impl View for CssFontStyleSet {
    type V = Set<CssFontStyle>;

    open spec fn view(&self) -> Set<CssFontStyle> {
        Set::new(|s: CssFontStyle| bit_set(self.bits, style_index(s)))
    }
}

proof fn lemma_bits_or(a: u8, b: u8, i: u8)
    requires
        i < 8,
    ensures
        bit_set(a | b, i) == (bit_set(a, i) || bit_set(b, i)),
{
    assert(((a | b) >> i) & 1u8 == 1u8 <==> ((a >> i) & 1u8 == 1u8 || (b >> i) & 1u8 == 1u8))
        by (bit_vector)
        requires
            i < 8,
    ;
}

proof fn lemma_bits_and(a: u8, b: u8, i: u8)
    requires
        i < 8,
    ensures
        bit_set(a & b, i) == (bit_set(a, i) && bit_set(b, i)),
{
    assert(((a & b) >> i) & 1u8 == 1u8 <==> ((a >> i) & 1u8 == 1u8 && (b >> i) & 1u8 == 1u8))
        by (bit_vector)
        requires
            i < 8,
    ;
}

proof fn lemma_bit_single(i: u8, j: u8)
    requires
        i < 8,
        j < 8,
    ensures
        bit_set(1u8 << i, j) == (i == j),
{
    assert(((1u8 << i) >> j) & 1u8 == 1u8 <==> i == j) by (bit_vector)
        requires
            i < 8,
            j < 8,
    ;
}

proof fn lemma_bits_zero(j: u8)
    requires
        j < 8,
    ensures
        !bit_set(0u8, j),
{
    assert((0u8 >> j) & 1u8 != 1u8) by (bit_vector);
}

/// Two sets with the same bits for every style are the same set.
proof fn lemma_bits_ext(a: u8, b: u8)
    requires
        forall|i: u8| i < 8 ==> bit_set(a, i) == bit_set(b, i),
    ensures
        a == b,
{
    assert(bit_set(a, 0) == bit_set(b, 0));
    assert(bit_set(a, 1) == bit_set(b, 1));
    assert(bit_set(a, 2) == bit_set(b, 2));
    assert(bit_set(a, 3) == bit_set(b, 3));
    assert(bit_set(a, 4) == bit_set(b, 4));
    assert(bit_set(a, 5) == bit_set(b, 5));
    assert(bit_set(a, 6) == bit_set(b, 6));
    assert(bit_set(a, 7) == bit_set(b, 7));
    assert(a == b) by (bit_vector)
        requires
            ((a >> 0u8) & 1u8 == 1u8) == ((b >> 0u8) & 1u8 == 1u8),
            ((a >> 1u8) & 1u8 == 1u8) == ((b >> 1u8) & 1u8 == 1u8),
            ((a >> 2u8) & 1u8 == 1u8) == ((b >> 2u8) & 1u8 == 1u8),
            ((a >> 3u8) & 1u8 == 1u8) == ((b >> 3u8) & 1u8 == 1u8),
            ((a >> 4u8) & 1u8 == 1u8) == ((b >> 4u8) & 1u8 == 1u8),
            ((a >> 5u8) & 1u8 == 1u8) == ((b >> 5u8) & 1u8 == 1u8),
            ((a >> 6u8) & 1u8 == 1u8) == ((b >> 6u8) & 1u8 == 1u8),
            ((a >> 7u8) & 1u8 == 1u8) == ((b >> 7u8) & 1u8 == 1u8),
    ;
}

/// The style that bit `i` stands for.
pub open spec fn style_at(i: u8) -> CssFontStyle {
    if i == 0 {
        CssFontStyle::Bold
    } else if i == 1 {
        CssFontStyle::Dimmed
    } else if i == 2 {
        CssFontStyle::Italic
    } else if i == 3 {
        CssFontStyle::Underline
    } else if i == 4 {
        CssFontStyle::Blink
    } else if i == 5 {
        CssFontStyle::Reverse
    } else if i == 6 {
        CssFontStyle::Hidden
    } else {
        CssFontStyle::StrikeThrough
    }
}

impl CssFontStyleSet {
    /// Sets with the same styles are equal.
    pub proof fn lemma_view_injective(self, other: Self)
        requires
            self@ == other@,
        ensures
            self == other,
    {
        assert forall|i: u8| i < 8 implies bit_set(self.bits, i) == bit_set(other.bits, i) by {
            let s = style_at(i);
            assert(style_index(s) == i);
            assert(self@.contains(s) == other@.contains(s));
            assert(self@.contains(s) == bit_set(self.bits, i));
            assert(other@.contains(s) == bit_set(other.bits, i));
        }
        lemma_bits_ext(self.bits, other.bits);
    }

    pub fn new() -> (r: Self)
        ensures
            r@ == Set::<CssFontStyle>::empty(),
            r.bits == 0,
    {
        proof {
            assert forall|s: CssFontStyle| !bit_set(0u8, style_index(s)) by {
                lemma_bits_zero(style_index(s));
            }
        }
        let r = CssFontStyleSet { bits: 0 };
        assert(r@ =~= Set::<CssFontStyle>::empty());
        r
    }

    fn bit(s: CssFontStyle) -> (r: u8)
        ensures
            r == style_index(s),
    {
        match s {
            CssFontStyle::Bold => 0,
            CssFontStyle::Dimmed => 1,
            CssFontStyle::Italic => 2,
            CssFontStyle::Underline => 3,
            CssFontStyle::Blink => 4,
            CssFontStyle::Reverse => 5,
            CssFontStyle::Hidden => 6,
            CssFontStyle::StrikeThrough => 7,
        }
    }

    /// The set that holds `s` alone.
    pub fn only(s: CssFontStyle) -> (r: Self)
        ensures
            r@ == set![s],
            r.bits == 1u8 << style_index(s),
    {
        let i = Self::bit(s);
        let r = CssFontStyleSet { bits: 1u8 << i };
        proof {
            assert forall|t: CssFontStyle| #[trigger] r@.contains(t) == (t == s) by {
                lemma_bit_single(i, style_index(t));
            }
            assert(r@ =~= set![s]);
        }
        r
    }

    pub fn contains(self, s: CssFontStyle) -> (r: bool)
        ensures
            r == self@.contains(s),
    {
        let i = Self::bit(s);
        (self.bits >> i) & 1u8 == 1u8
    }

    pub fn insert(&mut self, s: CssFontStyle)
        ensures
            final(self)@ == old(self)@.insert(s),
            final(self).bits == old(self).bits | (1u8 << style_index(s)),
    {
        let one = Self::only(s);
        *self = self.union(one);
        assert(final(self)@ =~= old(self)@.insert(s));
    }

    pub fn is_empty(self) -> (r: bool)
        ensures
            r == (self@ == Set::<CssFontStyle>::empty()),
    {
        let e = Self::new();
        proof {
            if self@ == Set::<CssFontStyle>::empty() {
                self.lemma_view_injective(e);
            }
            if self.bits == 0 {
                assert(self == e);
            }
        }
        self.bits == 0
    }

    pub fn union(self, other: Self) -> (r: Self)
        ensures
            r@ == self@.union(other@),
            r.bits == self.bits | other.bits,
    {
        let r = CssFontStyleSet { bits: self.bits | other.bits };
        proof {
            assert forall|t: CssFontStyle| #[trigger] r@.contains(t) == (self@.contains(t) || other@.contains(t)) by {
                lemma_bits_or(self.bits, other.bits, style_index(t));
            }
            assert(r@ =~= self@.union(other@));
        }
        r
    }

    pub fn intersection(self, other: Self) -> (r: Self)
        ensures
            r@ == self@.intersect(other@),
            r.bits == self.bits & other.bits,
    {
        let r = CssFontStyleSet { bits: self.bits & other.bits };
        proof {
            assert forall|t: CssFontStyle| #[trigger] r@.contains(t) == (self@.contains(t) && other@.contains(t)) by {
                lemma_bits_and(self.bits, other.bits, style_index(t));
            }
            assert(r@ =~= self@.intersect(other@));
        }
        r
    }
}

impl Combine for CssFontStyleSet {
    /// Font styles accumulate: the merged set holds the styles of both.
    open spec fn spec_combine(self, other: Self) -> Self {
        CssFontStyleSet { bits: self.bits | other.bits }
    }

    fn combine(self, other: Self) -> (r: Self) {
        CssFontStyleSet { bits: self.bits | other.bits }
    }
}

impl CssFontStyleSet {
    /// The merged set holds exactly the styles of both.
    pub proof fn lemma_combine_is_union(self, other: Self)
        ensures
            self.spec_combine(other)@ == self@.union(other@),
    {
        let r = self.spec_combine(other);
        assert forall|t: CssFontStyle| #[trigger] r@.contains(t) == (self@.contains(t) || other@.contains(t)) by {
            lemma_bits_or(self.bits, other.bits, style_index(t));
        }
        assert(r@ =~= self@.union(other@));
    }
}

impl core::ops::BitOr for CssFontStyleSet {
    type Output = CssFontStyleSet;

    fn bitor(self, rhs: CssFontStyleSet) -> (r: CssFontStyleSet)
        ensures
            r@ == self@.union(rhs@),
    {
        proof {
            self.lemma_combine_is_union(rhs);
        }
        CssFontStyleSet { bits: self.bits | rhs.bits }
    }
}

impl core::ops::BitOr for CssFontStyle {
    type Output = CssFontStyleSet;

    fn bitor(self, rhs: CssFontStyle) -> (r: CssFontStyleSet)
        ensures
            r@ == set![self, rhs],
    {
        let a = CssFontStyleSet::only(self);
        let b = CssFontStyleSet::only(rhs);
        let r = CssFontStyleSet { bits: a.bits | b.bits };
        proof {
            a.lemma_combine_is_union(b);
            assert(r@ =~= set![self, rhs]);
        }
        r
    }
}

} // verus!

verus! {

impl vstd::std_specs::ops::BitOrSpecImpl for CssFontStyleSet {
    open spec fn obeys_bitor_spec() -> bool {
        true
    }

    open spec fn bitor_req(self, rhs: CssFontStyleSet) -> bool {
        true
    }

    open spec fn bitor_spec(self, rhs: CssFontStyleSet) -> CssFontStyleSet {
        CssFontStyleSet { bits: self.bits | rhs.bits }
    }
}

impl vstd::std_specs::ops::BitOrSpecImpl for CssFontStyle {
    open spec fn obeys_bitor_spec() -> bool {
        true
    }

    open spec fn bitor_req(self, rhs: CssFontStyle) -> bool {
        true
    }

    open spec fn bitor_spec(self, rhs: CssFontStyle) -> CssFontStyleSet {
        CssFontStyleSet { bits: (1u8 << style_index(self)) | (1u8 << style_index(rhs)) }
    }
}


/// Switching on the bit of `s` adds `s` to the set and nothing else.
pub proof fn lemma_add_style_bit(bits: u8, s: CssFontStyle)
    ensures
        (CssFontStyleSet { bits: bits | (1u8 << style_index(s)) })@ == (CssFontStyleSet { bits })@.insert(s),
{
    let a = CssFontStyleSet { bits: bits | (1u8 << style_index(s)) };
    let b = CssFontStyleSet { bits };
    assert forall|t: CssFontStyle| a@.contains(t) == b@.insert(s).contains(t) by {
        lemma_bits_or(bits, 1u8 << style_index(s), style_index(t));
        lemma_bit_single(style_index(s), style_index(t));
    }
    assert(a@ =~= b@.insert(s));
}

/// No style is in the empty set of bits.
pub proof fn lemma_no_style_bits()
    ensures
        (CssFontStyleSet { bits: 0u8 })@ == Set::<CssFontStyle>::empty(),
{
    assert forall|t: CssFontStyle| !(CssFontStyleSet { bits: 0u8 })@.contains(t) by {
        lemma_bits_zero(style_index(t));
    }
    assert((CssFontStyleSet { bits: 0u8 })@ =~= Set::<CssFontStyle>::empty());
}

} // verus!
