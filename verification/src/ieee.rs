//! Double-precision numbers held by their IEEE-754 binary64 bit patterns.
//!
//! A [`Real`] is sixty-four bits: one sign bit, eleven exponent bits and
//! fifty-two fraction bits. This module says which number each pattern
//! denotes, and decides the order of two patterns by integer comparison
//! alone. It performs no rounding arithmetic: sums, products, quotients and
//! roots are asked of an [`Arithmetic`](crate::arithmetic::Arithmetic).

use vstd::arithmetic::power2::pow2;
use vstd::prelude::*;

use crate::ieee_lemmas::{lemma_at_most_on_bits, lemma_below_on_bits, lemma_equal_on_bits};

verus! {

/// Weight of the sign bit, 2^63.
pub const SIGN_WEIGHT: u64 = 0x8000_0000_0000_0000;

/// Number of distinct fraction fields, 2^52.
pub const FRACTION_SPAN: u64 = 0x0010_0000_0000_0000;

/// Exponent and fraction fields of an infinity: all exponent bits set, no
/// fraction bit set. Every larger payload is a NaN.
pub const INFINITY_PAYLOAD: u64 = 0x7ff0_0000_0000_0000;

/// Pattern of positive zero.
pub const ZERO_BITS: u64 = 0;

/// Pattern of 1.
pub const ONE_BITS: u64 = 0x3ff0_0000_0000_0000;

/// Pattern of 2.
pub const TWO_BITS: u64 = 0x4000_0000_0000_0000;

/// Pattern of 3.
pub const THREE_BITS: u64 = 0x4008_0000_0000_0000;

/// Pattern of 5.
pub const FIVE_BITS: u64 = 0x4014_0000_0000_0000;

/// Pattern of 10.
pub const TEN_BITS: u64 = 0x4024_0000_0000_0000;

/// The smallest positive step of the format is 2^-1074.
pub open spec fn scale_exponent() -> nat {
    1074
}

/// The magnitude that the low sixty-three bits of a pattern denote, in
/// units of 2^-1074.
///
/// With exponent field `e` and fraction field `f`, a subnormal (`e == 0`)
/// is `f * 2^-1074` and a normal number is `(2^52 + f) * 2^(e - 1075)`. The
/// payload of an infinity gives 2^2098 by the same formula, which lies
/// above every finite magnitude.
pub open spec fn magnitude_of(payload: nat) -> nat {
    let e = payload / (FRACTION_SPAN as nat);
    let f = payload % (FRACTION_SPAN as nat);
    if e == 0 {
        f
    } else {
        (FRACTION_SPAN as nat + f) * pow2((e - 1) as nat)
    }
}

/// A double-precision number, held by its IEEE-754 binary64 bit pattern.
#[derive(Copy, Clone, Debug)]
pub struct Real {
    pub bits: u64,
}

impl Real {
    /// Whether the sign bit is set. It may be set on a zero, an infinity
    /// and a NaN too.
    pub open spec fn negative(self) -> bool {
        self.bits >= SIGN_WEIGHT
    }

    /// The exponent and fraction fields together: the pattern without its
    /// sign bit.
    pub open spec fn payload(self) -> nat {
        (self.bits % SIGN_WEIGHT) as nat
    }

    pub open spec fn nan(self) -> bool {
        self.payload() > INFINITY_PAYLOAD
    }

    pub open spec fn infinite(self) -> bool {
        self.payload() == INFINITY_PAYLOAD
    }

    /// Zero, subnormal or normal: neither an infinity nor a NaN.
    pub open spec fn finite(self) -> bool {
        self.payload() < INFINITY_PAYLOAD
    }

    /// Absolute value in units of 2^-1074; 2^2098 for an infinity.
    pub open spec fn magnitude(self) -> nat {
        magnitude_of(self.payload())
    }

    /// The value in units of 2^-1074, an integer for every finite number.
    /// The infinities are -2^2098 and 2^2098. Both zeros are 0. Meaningless
    /// for a NaN.
    pub open spec fn scaled(self) -> int {
        if self.negative() {
            -(self.magnitude() as int)
        } else {
            self.magnitude() as int
        }
    }

    /// Positive zero.
    pub open spec fn zero() -> Real {
        Real { bits: ZERO_BITS }
    }

    /// The number 1.
    pub open spec fn one() -> Real {
        Real { bits: ONE_BITS }
    }

    /// The number 2.
    pub open spec fn two() -> Real {
        Real { bits: TWO_BITS }
    }

    /// The number 3.
    pub open spec fn three() -> Real {
        Real { bits: THREE_BITS }
    }

    /// The number 5.
    pub open spec fn five() -> Real {
        Real { bits: FIVE_BITS }
    }

    /// The number 10.
    pub open spec fn ten() -> Real {
        Real { bits: TEN_BITS }
    }

    /// The number is finite and lies between the fractions `low / parts`
    /// and `high / parts`, both included, for a positive number of parts.
    pub open spec fn lies_between(self, low: int, high: int, parts: int) -> bool {
        self.finite() && low * pow2(scale_exponent()) <= self.scaled() * parts <= high * pow2(
            scale_exponent(),
        )
    }

    /// The number is finite and equals the integer `n` exactly.
    pub open spec fn denotes(self, n: int) -> bool {
        self.finite() && self.scaled() == n * pow2(scale_exponent())
    }

    /// A number, and not larger than the integer `n`. Like the two
    /// predicates that follow, this is for an `n` of less than 2^1024 in
    /// magnitude, which the infinities lie beyond.
    pub open spec fn at_most_integer(self, n: int) -> bool {
        !self.nan() && self.scaled() <= n * pow2(scale_exponent())
    }

    /// A number, and not smaller than the integer `n`.
    pub open spec fn at_least_integer(self, n: int) -> bool {
        !self.nan() && self.scaled() >= n * pow2(scale_exponent())
    }

    /// A number, and larger than the integer `n`.
    pub open spec fn above_integer(self, n: int) -> bool {
        !self.nan() && self.scaled() > n * pow2(scale_exponent())
    }

    /// IEEE `<`: false as soon as either side is a NaN.
    pub open spec fn below(self, other: Real) -> bool {
        !self.nan() && !other.nan() && self.scaled() < other.scaled()
    }

    /// IEEE `<=`: false as soon as either side is a NaN.
    pub open spec fn at_most(self, other: Real) -> bool {
        !self.nan() && !other.nan() && self.scaled() <= other.scaled()
    }

    /// IEEE `>`: false as soon as either side is a NaN.
    pub open spec fn above(self, other: Real) -> bool {
        other.below(self)
    }

    /// IEEE `>=`: false as soon as either side is a NaN.
    pub open spec fn at_least(self, other: Real) -> bool {
        other.at_most(self)
    }

    /// IEEE `==`: a NaN equals nothing, and the two zeros are equal.
    pub open spec fn equal(self, other: Real) -> bool {
        !self.nan() && !other.nan() && self.scaled() == other.scaled()
    }

    /// The smaller of two numbers, a NaN giving way to the other operand.
    /// Of two equal numbers the first is kept.
    pub open spec fn minimum(self, other: Real) -> Real {
        if self.nan() {
            other
        } else if other.nan() {
            self
        } else if other.below(self) {
            other
        } else {
            self
        }
    }

    /// The number whose binary64 encoding is `bits`.
    pub fn from_bits(bits: u64) -> (r: Real)
        ensures
            r.bits == bits,
    {
        Real { bits }
    }

    /// The binary64 encoding of the number.
    pub fn to_bits(self) -> (bits: u64)
        ensures
            bits == self.bits,
    {
        self.bits
    }

    pub fn is_sign_negative(self) -> (b: bool)
        ensures
            b == self.negative(),
    {
        self.bits >= SIGN_WEIGHT
    }

    pub fn is_nan(self) -> (b: bool)
        ensures
            b == self.nan(),
    {
        self.bits % SIGN_WEIGHT > INFINITY_PAYLOAD
    }

    pub fn is_infinite(self) -> (b: bool)
        ensures
            b == self.infinite(),
    {
        self.bits % SIGN_WEIGHT == INFINITY_PAYLOAD
    }

    pub fn is_finite(self) -> (b: bool)
        ensures
            b == self.finite(),
    {
        self.bits % SIGN_WEIGHT < INFINITY_PAYLOAD
    }

    /// `self < other`, decided on the bit patterns.
    pub fn is_below(self, other: Real) -> (b: bool)
        ensures
            b == self.below(other),
    {
        let p: u64 = self.bits % SIGN_WEIGHT;
        let q: u64 = other.bits % SIGN_WEIGHT;
        proof {
            lemma_below_on_bits(self, other);
        }
        if p > INFINITY_PAYLOAD || q > INFINITY_PAYLOAD {
            false
        } else if self.bits >= SIGN_WEIGHT {
            if other.bits >= SIGN_WEIGHT {
                q < p
            } else {
                p != 0 || q != 0
            }
        } else {
            other.bits < SIGN_WEIGHT && p < q
        }
    }

    /// `self <= other`, decided on the bit patterns.
    pub fn is_at_most(self, other: Real) -> (b: bool)
        ensures
            b == self.at_most(other),
    {
        let p: u64 = self.bits % SIGN_WEIGHT;
        let q: u64 = other.bits % SIGN_WEIGHT;
        proof {
            lemma_at_most_on_bits(self, other);
        }
        if p > INFINITY_PAYLOAD || q > INFINITY_PAYLOAD {
            false
        } else if self.bits >= SIGN_WEIGHT {
            other.bits < SIGN_WEIGHT || q <= p
        } else if other.bits >= SIGN_WEIGHT {
            p == 0 && q == 0
        } else {
            p <= q
        }
    }

    /// `self == other` as numbers, decided on the bit patterns.
    pub fn is_equal(self, other: Real) -> (b: bool)
        ensures
            b == self.equal(other),
    {
        let p: u64 = self.bits % SIGN_WEIGHT;
        let q: u64 = other.bits % SIGN_WEIGHT;
        proof {
            lemma_equal_on_bits(self, other);
        }
        p <= INFINITY_PAYLOAD && q <= INFINITY_PAYLOAD && (self.bits == other.bits || (p == 0 && q
            == 0))
    }

    /// `self > other`, decided on the bit patterns.
    pub fn is_above(self, other: Real) -> (b: bool)
        ensures
            b == self.above(other),
    {
        other.is_below(self)
    }

    /// `self >= other`, decided on the bit patterns.
    pub fn is_at_least(self, other: Real) -> (b: bool)
        ensures
            b == self.at_least(other),
    {
        other.is_at_most(self)
    }

    /// The smaller of the two, ignoring a NaN operand.
    pub fn min(self, other: Real) -> (r: Real)
        ensures
            r == self.minimum(other),
    {
        if self.is_nan() {
            other
        } else if other.is_nan() {
            self
        } else if other.is_below(self) {
            other
        } else {
            self
        }
    }
}

} // verus!
