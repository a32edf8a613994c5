//! Text modifiers, each a flag of its own.

use vstd::prelude::*;

verus! {

/// A text modifier.
#[derive(Clone, Copy, Debug, PartialEq, Eq, Structural)]
pub enum Modifiers {
    Bold,
    Italic,
    Reverse,
}

/// The flag bit of a modifier.
pub open spec fn modifier_bit(m: Modifiers) -> u8 {
    match m {
        Modifiers::Bold => 1,
        Modifiers::Italic => 2,
        Modifiers::Reverse => 4,
    }
}

impl Modifiers {
    /// The modifier's flag bit; each modifier has a bit of its own.
    pub fn bits(self) -> (r: u8)
        ensures
            r == modifier_bit(self),
    {
        match self {
            Modifiers::Bold => 1,
            Modifiers::Italic => 2,
            Modifiers::Reverse => 4,
        }
    }
}

/// Distinct modifiers have distinct bits, and no bit is shared.
pub proof fn lemma_modifier_bits_distinct(a: Modifiers, b: Modifiers)
    ensures
        a != b ==> modifier_bit(a) & modifier_bit(b) == 0,
        modifier_bit(a) != 0,
{
    let (x, y) = (modifier_bit(a), modifier_bit(b));
    assert(1u8 & 2u8 == 0 && 1u8 & 4u8 == 0 && 2u8 & 4u8 == 0 && 2u8 & 1u8 == 0 && 4u8 & 1u8
        == 0 && 4u8 & 2u8 == 0) by (bit_vector);
}

} // verus!
