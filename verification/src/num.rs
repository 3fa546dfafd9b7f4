//! Numbers by their bits. A setting of the editor (a slider, a point of a
//! curve, a place on the photo) is an IEEE 754 number that the logic only
//! ever compares and passes on, so it travels as the bits of that number and
//! every comparison is a comparison of integers.

use vstd::prelude::*;

verus! {

/// The sign bit of a single precision number.
pub const SIGN: u32 = 0x8000_0000;

/// The bits of a single precision infinity: everything above is not a number.
pub const INFINITY: u32 = 0x7f80_0000;

/// A single precision number by its bits.
#[derive(Clone, Copy, Debug)]
pub struct Single {
    pub bits: u32,
}

/// The bits of 0.
pub const ZERO: u32 = 0;

/// The bits of 0.5.
pub const HALF: u32 = 0x3f00_0000;

/// The bits of 1.
pub const ONE: u32 = 0x3f80_0000;

/// The bits of 100, the end of most sliders.
pub const HUNDRED: u32 = 0x42c8_0000;

/// The bits of 800, the largest zoom in percent.
pub const EIGHT_HUNDRED: u32 = 0x4448_0000;

impl Single {
    /// The bits without the sign: larger magnitudes have larger bits.
    pub open spec fn magnitude(self) -> int {
        if self.bits >= SIGN {
            self.bits - SIGN
        } else {
            self.bits as int
        }
    }

    pub open spec fn is_nan_spec(self) -> bool {
        self.magnitude() > INFINITY
    }

    pub open spec fn finite(self) -> bool {
        self.magnitude() < INFINITY
    }

    /// The place of the number on the line: two numbers compare as their
    /// ranks do. The two zeros share rank 0.
    pub open spec fn rank(self) -> int {
        if self.bits >= SIGN {
            -self.magnitude()
        } else {
            self.magnitude()
        }
    }

    /// The place in the total order, in which -0 comes just before 0.
    pub open spec fn total(self) -> int {
        if self.bits >= SIGN {
            -self.magnitude() - 1
        } else {
            self.magnitude()
        }
    }

    /// `self == other` as numbers: false when either is not a number.
    pub open spec fn equals(self, other: Single) -> bool {
        !self.is_nan_spec() && !other.is_nan_spec() && self.rank() == other.rank()
    }

    /// `self < other` as numbers.
    pub open spec fn below(self, other: Single) -> bool {
        !self.is_nan_spec() && !other.is_nan_spec() && self.rank() < other.rank()
    }

    /// `self <= other` as numbers.
    pub open spec fn at_most(self, other: Single) -> bool {
        !self.is_nan_spec() && !other.is_nan_spec() && self.rank() <= other.rank()
    }

    /// The number held to a range; not a number stays as it is.
    pub open spec fn held(self, low: Single, high: Single) -> Single {
        if self.below(low) {
            low
        } else if high.below(self) {
            high
        } else {
            self
        }
    }

    pub fn from_bits(bits: u32) -> (r: Single)
        ensures
            r.bits == bits,
    {
        Single { bits }
    }

    fn unsigned(self) -> (r: u32)
        ensures
            r == self.magnitude(),
    {
        if self.bits >= SIGN {
            self.bits - SIGN
        } else {
            self.bits
        }
    }

    pub fn is_nan(self) -> (r: bool)
        ensures
            r == self.is_nan_spec(),
    {
        self.unsigned() > INFINITY
    }

    /// Neither an infinity nor not a number.
    pub fn is_finite(self) -> (r: bool)
        ensures
            r == self.finite(),
    {
        self.unsigned() < INFINITY
    }

    pub fn same(self, other: Single) -> (r: bool)
        ensures
            r == self.equals(other),
    {
        let (a, b): (u32, u32) = (self.unsigned(), other.unsigned());
        if a > INFINITY || b > INFINITY {
            false
        } else if (self.bits >= SIGN) == (other.bits >= SIGN) {
            a == b
        } else {
            a == 0 && b == 0
        }
    }

    pub fn is_below(self, other: Single) -> (r: bool)
        ensures
            r == self.below(other),
    {
        let (a, b): (u32, u32) = (self.unsigned(), other.unsigned());
        if a > INFINITY || b > INFINITY {
            false
        } else if self.bits >= SIGN {
            if other.bits >= SIGN {
                b < a
            } else {
                a > 0 || b > 0
            }
        } else {
            other.bits < SIGN && a < b
        }
    }

    pub fn is_at_most(self, other: Single) -> (r: bool)
        ensures
            r == self.at_most(other),
    {
        self.is_below(other) || self.same(other)
    }

    /// Whether the number lies in a closed range.
    pub fn is_within(self, low: Single, high: Single) -> (r: bool)
        ensures
            r == (low.at_most(self) && self.at_most(high)),
    {
        low.is_at_most(self) && self.is_at_most(high)
    }

    /// Whether the number comes before another in the total order.
    pub fn precedes(self, other: Single) -> (r: bool)
        ensures
            r == (self.total() < other.total()),
    {
        let (a, b): (u32, u32) = (self.unsigned(), other.unsigned());
        if self.bits >= SIGN {
            if other.bits >= SIGN {
                b < a
            } else {
                true
            }
        } else {
            other.bits < SIGN && a < b
        }
    }

    pub fn clamped(self, low: Single, high: Single) -> (r: Single)
        ensures
            r == self.held(low, high),
    {
        if self.is_below(low) {
            low
        } else if high.is_below(self) {
            high
        } else {
            self
        }
    }
}

impl PartialEq for Single {
    fn eq(&self, other: &Self) -> (r: bool) {
        self.same(*other)
    }
}

impl vstd::std_specs::cmp::PartialEqSpecImpl for Single {
    open spec fn obeys_eq_spec() -> bool {
        true
    }

    open spec fn eq_spec(&self, other: &Self) -> bool {
        self.equals(*other)
    }
}

impl Default for Single {
    fn default() -> (r: Self)
        ensures
            r.bits == ZERO,
    {
        Single { bits: ZERO }
    }
}

/// The number with these bits.
pub open spec fn single(bits: u32) -> Single {
    Single { bits }
}

/// A double precision number by its bits.
#[derive(Clone, Copy, Debug, PartialEq, Eq, Structural)]
pub struct Double {
    pub bits: u64,
}

impl Double {
    /// Neither below 0 nor not a number: 0 or above, an infinity too.
    pub open spec fn not_negative(self) -> bool {
        self.bits <= 0x7ff0_0000_0000_0000 || self.bits == 0x8000_0000_0000_0000
    }

    pub fn is_not_negative(self) -> (r: bool)
        ensures
            r == self.not_negative(),
    {
        self.bits <= 0x7ff0_0000_0000_0000 || self.bits == 0x8000_0000_0000_0000
    }
}

/// A number held to a range is in the range, and a second hold changes
/// nothing.
pub proof fn held_is_in_range(value: Single, low: Single, high: Single)
    requires
        low.at_most(high),
        !value.is_nan_spec(),
    ensures
        low.at_most(value.held(low, high)),
        value.held(low, high).at_most(high),
        value.held(low, high).held(low, high) == value.held(low, high),
{
}

/// Two numbers that are 0 or above compare as their bits do, up to the
/// infinity.
pub proof fn numbers_above_zero_compare_by_their_bits(a: Single, b: Single)
    requires
        a.bits <= 0x7f80_0000,
        b.bits <= 0x7f80_0000,
    ensures
        a.below(b) <==> a.bits < b.bits,
        a.at_most(b) <==> a.bits <= b.bits,
        a.equals(b) <==> a.bits == b.bits,
        a.total() < b.total() <==> a.bits < b.bits,
        !a.is_nan_spec(),
        a.finite() <==> a.bits < 0x7f80_0000,
{
}

/// Two numbers with a minus sign compare the other way round: the one with
/// the larger bits is the lesser.
pub proof fn numbers_below_zero_compare_against_their_bits(a: Single, b: Single)
    requires
        0x8000_0000 <= a.bits <= 0xff80_0000,
        0x8000_0000 <= b.bits <= 0xff80_0000,
    ensures
        a.below(b) <==> a.bits > b.bits,
        a.at_most(b) <==> a.bits >= b.bits,
        a.equals(b) <==> a.bits == b.bits,
        a.total() < b.total() <==> a.bits > b.bits,
        !a.is_nan_spec(),
        a.finite() <==> a.bits < 0xff80_0000,
{
}

/// A number with a minus sign is below every number without one, but for the
/// two zeros, which are equal; in the total order -0 comes first.
pub proof fn a_minus_sign_is_below(a: Single, b: Single)
    requires
        0x8000_0000 <= a.bits <= 0xff80_0000,
        b.bits <= 0x7f80_0000,
    ensures
        a.below(b) <==> !(a.bits == 0x8000_0000 && b.bits == 0),
        a.equals(b) <==> a.bits == 0x8000_0000 && b.bits == 0,
        b.equals(a) <==> a.bits == 0x8000_0000 && b.bits == 0,
        a.at_most(b),
        !b.below(a),
        b.at_most(a) <==> a.bits == 0x8000_0000 && b.bits == 0,
        a.total() < b.total(),
{
}

/// What is not a number compares with nothing, itself least of all.
pub proof fn what_is_no_number_compares_with_nothing(a: Single, b: Single)
    requires
        0x7f80_0000 < a.bits < 0x8000_0000 || 0xff80_0000 < a.bits,
    ensures
        a.is_nan_spec(),
        !a.finite(),
        !a.below(b) && !b.below(a),
        !a.at_most(b) && !b.at_most(a),
        !a.equals(b) && !b.equals(a),
{
}

/// A number is held to the nearest end of a range, and only when it lies
/// outside: inside it stays as it is, to the bit.
pub proof fn a_number_is_held_to_the_nearest_end(value: Single, low: Single, high: Single)
    requires
        low.at_most(high),
    ensures
        low.at_most(value) && value.at_most(high) ==> value.held(low, high) == value,
        value.below(low) ==> value.held(low, high) == low,
        high.below(value) ==> value.held(low, high) == high,
        value.is_nan_spec() ==> value.held(low, high) == value,
{
}

/// A double precision number is not negative when its sign is plus and it is
/// a number, or when it is -0.
pub proof fn a_double_is_not_negative_by_its_sign(value: Double)
    ensures
        value.bits <= 0x7ff0_0000_0000_0000 ==> value.not_negative(),
        0x7ff0_0000_0000_0000 < value.bits < 0x8000_0000_0000_0000 ==> !value.not_negative(),
        value.bits == 0x8000_0000_0000_0000 ==> value.not_negative(),
        value.bits > 0x8000_0000_0000_0000 ==> !value.not_negative(),
{
}

/// A slider at 0: either of the two zeros.
pub open spec fn at_zero(value: Single) -> bool {
    value.bits == 0 || value.bits == 0x8000_0000
}

/// A slider at 1, to the bit.
pub open spec fn at_one(value: Single) -> bool {
    value.bits == 0x3f80_0000
}

/// What the bits of a number from 1 up are worth, cut to a whole number.
pub open spec fn whole_worth(bits: u32) -> int {
    let exponent = bits as int / 0x80_0000 - 127;
    (0x80_0000 + bits as int % 0x80_0000) * vstd::arithmetic::power2::pow2(exponent as nat)
        / 0x80_0000
}

/// The named bits are the bits of their numbers.
pub proof fn the_bits_hold_their_numbers()
    ensures
        whole_worth(ONE) == 1,
        whole_worth(HUNDRED) == 100,
        whole_worth(EIGHT_HUNDRED) == 800,
        whole_worth((HALF + 0x80_0000) as u32) == 1,
        ZERO == 0,
{
    vstd::arithmetic::power2::lemma2_to64();
    bits_are_worth(ONE, 0, 1, 1);
    bits_are_worth(HUNDRED, 6, 64, 100);
    bits_are_worth(EIGHT_HUNDRED, 9, 512, 800);
    bits_are_worth((HALF + 0x80_0000) as u32, 0, 1, 1);
}

/// The bits of a whole number: what stands behind the leading one, times the
/// power of two their exponent tells.
pub proof fn bits_are_worth(bits: u32, power: nat, times: int, worth: int)
    requires
        bits as int / 0x80_0000 - 127 == power,
        vstd::arithmetic::power2::pow2(power) == times,
        (0x80_0000 + bits as int % 0x80_0000) * times == worth * 0x80_0000,
    ensures
        whole_worth(bits) == worth,
{
}

} // verus!
