//! Colours as sets of the three primary light channels.

use vstd::prelude::*;
use vstd::std_specs::ops::{BitAndSpecImpl, BitOrSpecImpl, BitXorSpecImpl};

verus! {

/// A set of primary channels: red is bit 0, green bit 1, blue bit 2.
///
/// `Gray` is the empty set and `White` holds all three channels.
#[derive(Clone, Copy, Debug, PartialEq, Eq, Structural, Hash)]
pub enum Color {
    Gray,
    Red,
    Green,
    Yellow,
    Blue,
    Magenta,
    Cyan,
    White,
}

impl Color {
    /// The channels of this colour as a bit mask below 8.
    pub open spec fn spec_bits(self) -> u8 {
        match self {
            Color::Gray => 0,
            Color::Red => 1,
            Color::Green => 2,
            Color::Yellow => 3,
            Color::Blue => 4,
            Color::Magenta => 5,
            Color::Cyan => 6,
            Color::White => 7,
        }
    }

    /// The colour whose channels are the three low bits of `bits`.
    pub open spec fn spec_from_bits_truncate(bits: u8) -> Color {
        let low = bits & 7;
        if low == 0 {
            Color::Gray
        } else if low == 1 {
            Color::Red
        } else if low == 2 {
            Color::Green
        } else if low == 3 {
            Color::Yellow
        } else if low == 4 {
            Color::Blue
        } else if low == 5 {
            Color::Magenta
        } else if low == 6 {
            Color::Cyan
        } else {
            Color::White
        }
    }

    /// The channels that both colours hold.
    pub open spec fn spec_intersection(self, other: Color) -> Color {
        Color::spec_from_bits_truncate(self.spec_bits() & other.spec_bits())
    }

    /// The channels that either colour holds.
    pub open spec fn spec_union(self, other: Color) -> Color {
        Color::spec_from_bits_truncate(self.spec_bits() | other.spec_bits())
    }

    /// The channels that exactly one of the two colours holds.
    pub open spec fn spec_symmetric_difference(self, other: Color) -> Color {
        Color::spec_from_bits_truncate(self.spec_bits() ^ other.spec_bits())
    }

    /// Whether the colour holds no channel.
    pub open spec fn spec_is_empty(self) -> bool {
        self == Color::Gray
    }

    /// Whether the two colours share a channel.
    pub open spec fn spec_intersects(self, other: Color) -> bool {
        self.spec_bits() & other.spec_bits() != 0
    }

    /// Whether every channel of `other` is a channel of `self`.
    pub open spec fn spec_contains(self, other: Color) -> bool {
        self.spec_bits() & other.spec_bits() == other.spec_bits()
    }

    #[verifier::when_used_as_spec(spec_bits)]
    pub fn bits(self) -> (b: u8)
        ensures
            b == self.spec_bits(),
            b < 8,
    {
        match self {
            Color::Gray => 0,
            Color::Red => 1,
            Color::Green => 2,
            Color::Yellow => 3,
            Color::Blue => 4,
            Color::Magenta => 5,
            Color::Cyan => 6,
            Color::White => 7,
        }
    }

    #[verifier::when_used_as_spec(spec_from_bits_truncate)]
    pub fn from_bits_truncate(bits: u8) -> (c: Color)
        ensures
            c == Color::spec_from_bits_truncate(bits),
            c.bits() == bits & 7,
    {
        let low = bits & 7;
        assert(low < 8) by (bit_vector)
            requires
                low == bits & 7,
        ;
        if low == 0 {
            Color::Gray
        } else if low == 1 {
            Color::Red
        } else if low == 2 {
            Color::Green
        } else if low == 3 {
            Color::Yellow
        } else if low == 4 {
            Color::Blue
        } else if low == 5 {
            Color::Magenta
        } else if low == 6 {
            Color::Cyan
        } else {
            Color::White
        }
    }

    /// The colour with exactly the channels `bits`, if `bits` names no other bit.
    pub fn from_bits(bits: u8) -> (c: Option<Color>)
        ensures
            c == (if bits < 8 {
                Some(Color::from_bits_truncate(bits))
            } else {
                None
            }),
            bits < 8 ==> c->0.bits() == bits,
    {
        if bits < 8 {
            assert(bits & 7 == bits) by (bit_vector)
                requires
                    bits < 8,
            ;
            Some(Color::from_bits_truncate(bits))
        } else {
            None
        }
    }

    #[verifier::when_used_as_spec(spec_intersection)]
    pub fn intersection(self, other: Color) -> (c: Color)
        ensures
            c == self.spec_intersection(other),
            c.bits() == self.bits() & other.bits(),
    {
        proof {
            Color::lemma_ops_stay_low(self, other);
        }
        Color::from_bits_truncate(self.bits() & other.bits())
    }

    #[verifier::when_used_as_spec(spec_union)]
    pub fn union(self, other: Color) -> (c: Color)
        ensures
            c == self.spec_union(other),
            c.bits() == self.bits() | other.bits(),
    {
        proof {
            Color::lemma_ops_stay_low(self, other);
        }
        Color::from_bits_truncate(self.bits() | other.bits())
    }

    #[verifier::when_used_as_spec(spec_symmetric_difference)]
    pub fn symmetric_difference(self, other: Color) -> (c: Color)
        ensures
            c == self.spec_symmetric_difference(other),
            c.bits() == self.bits() ^ other.bits(),
    {
        proof {
            Color::lemma_ops_stay_low(self, other);
        }
        Color::from_bits_truncate(self.bits() ^ other.bits())
    }

    #[verifier::when_used_as_spec(spec_is_empty)]
    pub fn is_empty(self) -> (b: bool)
        ensures
            b == self.spec_is_empty(),
            b == (self.bits() == 0),
    {
        self.bits() == 0
    }

    #[verifier::when_used_as_spec(spec_intersects)]
    pub fn intersects(self, other: Color) -> (b: bool)
        ensures
            b == self.spec_intersects(other),
            b == !self.intersection(other).is_empty(),
    {
        proof {
            Color::lemma_ops_stay_low(self, other);
        }
        self.bits() & other.bits() != 0
    }

    #[verifier::when_used_as_spec(spec_contains)]
    pub fn contains(self, other: Color) -> (b: bool)
        ensures
            b == self.spec_contains(other),
    {
        self.bits() & other.bits() == other.bits()
    }

    /// Every colour is the colour of its own bits.
    pub proof fn law_bits_round_trip(c: Color)
        ensures
            c.bits() < 8,
            Color::from_bits_truncate(c.bits()) == c,
    {
        let b = c.bits();
        assert(b & 7 == b) by (bit_vector)
            requires
                b < 8,
        ;
    }

    /// Two colours with the same bits are the same colour.
    pub proof fn lemma_bits_injective(a: Color, b: Color)
        requires
            a.bits() == b.bits(),
        ensures
            a == b,
    {
    }

    /// The set operations never leave the three channels, so the bits of
    /// their results are the plain bitwise results.
    pub proof fn lemma_ops_stay_low(a: Color, b: Color)
        ensures
            a.intersection(b).bits() == a.bits() & b.bits(),
            a.union(b).bits() == a.bits() | b.bits(),
            a.symmetric_difference(b).bits() == a.bits() ^ b.bits(),
            a.intersects(b) == !a.intersection(b).is_empty(),
    {
        let x = a.bits();
        let y = b.bits();
        assert((x & y) & 7 == x & y && (x | y) & 7 == x | y && (x ^ y) & 7 == x ^ y) by (bit_vector)
            requires
                x < 8,
                y < 8,
        ;
        assert((x & y) < 8 && (x | y) < 8 && (x ^ y) < 8) by (bit_vector)
            requires
                x < 8,
                y < 8,
        ;
    }

    /// Toggling the same channels twice gives the colour back.
    pub proof fn lemma_toggle_twice(a: Color, t: Color)
        ensures
            a.symmetric_difference(t).symmetric_difference(t) == a,
    {
        Color::lemma_ops_stay_low(a, t);
        Color::lemma_ops_stay_low(a.symmetric_difference(t), t);
        let x = a.bits();
        let y = t.bits();
        assert((x ^ y) ^ y == x) by (bit_vector);
        Color::lemma_bits_injective(a.symmetric_difference(t).symmetric_difference(t), a);
    }

    /// Intersection and union do not depend on the order of their operands.
    pub proof fn lemma_commutative(a: Color, b: Color)
        ensures
            a.intersection(b) == b.intersection(a),
            a.union(b) == b.union(a),
            a.symmetric_difference(b) == b.symmetric_difference(a),
    {
        let x = a.bits();
        let y = b.bits();
        assert(x & y == y & x && x | y == y | x && x ^ y == y ^ x) by (bit_vector);
    }
}

impl core::ops::BitAnd for Color {
    type Output = Color;

    fn bitand(self, rhs: Color) -> (r: Color) {
        self.intersection(rhs)
    }
}

impl BitAndSpecImpl for Color {
    open spec fn obeys_bitand_spec() -> bool {
        true
    }

    open spec fn bitand_req(self, rhs: Color) -> bool {
        true
    }

    open spec fn bitand_spec(self, rhs: Color) -> Color {
        self.intersection(rhs)
    }
}

impl core::ops::BitOr for Color {
    type Output = Color;

    fn bitor(self, rhs: Color) -> (r: Color) {
        self.union(rhs)
    }
}

impl BitOrSpecImpl for Color {
    open spec fn obeys_bitor_spec() -> bool {
        true
    }

    open spec fn bitor_req(self, rhs: Color) -> bool {
        true
    }

    open spec fn bitor_spec(self, rhs: Color) -> Color {
        self.union(rhs)
    }
}

impl core::ops::BitXor for Color {
    type Output = Color;

    fn bitxor(self, rhs: Color) -> (r: Color) {
        self.symmetric_difference(rhs)
    }
}

impl BitXorSpecImpl for Color {
    open spec fn obeys_bitxor_spec() -> bool {
        true
    }

    open spec fn bitxor_req(self, rhs: Color) -> bool {
        true
    }

    open spec fn bitxor_spec(self, rhs: Color) -> Color {
        self.symmetric_difference(rhs)
    }
}

} // verus!
