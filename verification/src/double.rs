//! IEEE-754 double-precision quantities (prices, rates and ratios), held by
//! their bit patterns.
//!
//! The order of two quantities, the test for a NaN and the conversions
//! between integers and doubles are decided here, on the bits; the arithmetic
//! is in [`crate::arithmetic`].

use vstd::arithmetic::div_mod::lemma_div_by_multiple;
use vstd::arithmetic::div_mod::lemma_fundamental_div_mod_converse;
use vstd::arithmetic::power2::lemma2_to64;
use vstd::arithmetic::power2::lemma_pow2_pos;
use vstd::arithmetic::power2::lemma2_to64_rest;
use vstd::arithmetic::power2::lemma_pow2_adds;
use vstd::arithmetic::power2::lemma_pow2_subtracts;
use vstd::arithmetic::power2::lemma_pow2_unfold;
use vstd::arithmetic::power2::lemma_pow2_strictly_increases;
use vstd::arithmetic::power2::pow2;
use vstd::bits::lemma_u64_shl_is_mul;
use vstd::bits::lemma_u64_shr_is_div;
use crate::rounding::packed;
use crate::rounding::last_place;
use crate::rounding::lemma_top_bit_bounds;
use crate::rounding::nearest;
use crate::rounding::round_to_double;
use crate::rounding::top_bit;
use vstd::prelude::*;

verus! {

/// The bit that holds the sign of a double.
pub const SIGN_BIT: u64 = 0x8000_0000_0000_0000;

/// The bits of positive infinity; every larger magnitude is a NaN.
pub const INFINITY_BITS: u64 = 0x7FF0_0000_0000_0000;

/// The bits under the exponent, which hold the fraction.
pub const FRACTION_MASK: u64 = 0x000F_FFFF_FFFF_FFFF;

/// The bit that stands for the leading 1 of a normal number.
pub const HIDDEN_BIT: u64 = 0x0010_0000_0000_0000;

/// The bits of `1.0`.
pub const ONE_BITS: u64 = 0x3FF0_0000_0000_0000;

/// The double nearest to the integer `n`, ties to even.
pub open spec fn integer(n: nat) -> Double {
    Double { bits: nearest(n, 0) }
}

/// A double-precision quantity. Two values are equal (`==`) when their bits
/// are; the numeric order is `lt`.
#[derive(Clone, Copy, Debug, PartialEq, Eq, Structural)]
pub struct Double {
    pub bits: u64,
}

impl Double {
    /// The bits without the sign.
    pub open spec fn magnitude(self) -> int {
        if self.bits >= SIGN_BIT {
            self.bits - SIGN_BIT
        } else {
            self.bits as int
        }
    }

    /// Whether the quantity is not a number.
    pub open spec fn nan(self) -> bool {
        self.magnitude() > INFINITY_BITS
    }

    /// The place of a quantity that is a number on the number line: the
    /// magnitude of the bits grows with the magnitude of the number, and both
    /// zeros stand at 0.
    pub open spec fn rank(self) -> int {
        if self.bits >= SIGN_BIT {
            -self.magnitude()
        } else {
            self.magnitude()
        }
    }

    /// `self < other` as IEEE-754 orders doubles: false when either is a NaN.
    pub open spec fn less(self, other: Double) -> bool {
        !self.nan() && !other.nan() && self.rank() < other.rank()
    }

    /// The exponent field: the eleven bits under the sign.
    pub open spec fn exponent(self) -> int {
        self.magnitude() / (HIDDEN_BIT as int)
    }

    /// The significand of a normal number: the fraction under the leading 1.
    /// A normal number has the magnitude `significand * 2^(exponent - 1075)`.
    pub open spec fn significand(self) -> int {
        self.magnitude() % (HIDDEN_BIT as int) + HIDDEN_BIT
    }

    /// The quantity cut to a whole number of tokens, toward zero: 0 for a NaN,
    /// for a negative quantity and for a quantity under 1 (an exponent field
    /// under 1023), the largest 64-bit integer for every quantity from 2^64
    /// on, and else the whole part of `significand * 2^(exponent - 1075)`.
    pub open spec fn whole(self) -> u64 {
        if self.nan() || self.bits >= SIGN_BIT || self.exponent() < 1023 {
            0
        } else if self.exponent() >= 1087 {
            u64::MAX
        } else if self.exponent() >= 1075 {
            (self.significand() * pow2((self.exponent() - 1075) as nat)) as u64
        } else {
            (self.significand() / (pow2((1075 - self.exponent()) as nat) as int)) as u64
        }
    }

    /// The quantity with the given bits.
    pub fn from_bits(bits: u64) -> (r: Double)
        ensures
            r.bits == bits,
    {
        Double { bits }
    }

    /// The bits of the quantity.
    pub fn to_bits(&self) -> (r: u64)
        ensures
            r == self.bits,
    {
        self.bits
    }

    /// The quantity `1.0`.
    pub fn one() -> (r: Double)
        ensures
            r.bits == ONE_BITS,
    {
        Double { bits: ONE_BITS }
    }

    /// Whether the quantity is not a number.
    pub fn is_nan(&self) -> (r: bool)
        ensures
            r == self.nan(),
    {
        let magnitude: u64 = if self.bits >= SIGN_BIT {
            self.bits - SIGN_BIT
        } else {
            self.bits
        };
        magnitude > INFINITY_BITS
    }

    /// Whether `self < other`.
    pub fn lt(&self, other: &Double) -> (r: bool)
        ensures
            r == self.less(*other),
    {
        if self.is_nan() || other.is_nan() {
            return false;
        }
        let a_negative: bool = self.bits >= SIGN_BIT;
        let b_negative: bool = other.bits >= SIGN_BIT;
        let a: u64 = if a_negative {
            self.bits - SIGN_BIT
        } else {
            self.bits
        };
        let b: u64 = if b_negative {
            other.bits - SIGN_BIT
        } else {
            other.bits
        };
        if a_negative {
            if b_negative {
                b < a
            } else {
                a > 0 || b > 0
            }
        } else {
            if b_negative {
                false
            } else {
                a < b
            }
        }
    }

    /// Whether `self > other`.
    pub fn gt(&self, other: &Double) -> (r: bool)
        ensures
            r == other.less(*self),
    {
        other.lt(self)
    }

    /// Converts an integer to the nearest double, ties to even.
    pub fn from_integer(n: u128) -> (r: Double)
        ensures
            r == integer(n as nat),
    {
        Double { bits: round_to_double(n, 0) }
    }

    /// Cuts the quantity to a whole number of tokens.
    pub fn truncate(&self) -> (r: u64)
        ensures
            r == self.whole(),
    {
        if self.is_nan() || self.bits >= SIGN_BIT {
            return 0;
        }
        let bits: u64 = self.bits;
        let exponent: u64 = bits >> 52;
        let significand: u64 = (bits & FRACTION_MASK) | HIDDEN_BIT;
        proof {
            assert(bits >> 52 == bits / 0x0010_0000_0000_0000) by (bit_vector);
            assert((bits & 0x000F_FFFF_FFFF_FFFF) | 0x0010_0000_0000_0000 == bits
                % 0x0010_0000_0000_0000 + 0x0010_0000_0000_0000) by (bit_vector);
            assert(exponent == self.exponent());
            assert(significand == self.significand());
        }
        if exponent < 1023 {
            0
        } else if exponent >= 1087 {
            u64::MAX
        } else if exponent >= 1075 {
            let shift: u64 = exponent - 1075;
            proof {
                lemma2_to64();
                if shift < 11 {
                    lemma_pow2_strictly_increases(shift as nat, 11);
                }
                assert(significand * pow2(shift as nat) <= u64::MAX) by (nonlinear_arith)
                    requires
                        significand < 0x0020_0000_0000_0000,
                        pow2(shift as nat) <= 0x800,
                ;
                lemma_u64_shl_is_mul(significand, shift);
            }
            significand << shift
        } else {
            let shift: u64 = 1075 - exponent;
            proof {
                lemma_u64_shr_is_div(significand, shift);
            }
            significand >> shift
        }
    }
}

/// An integer under 2^53 is converted exactly: cut to a whole number again,
/// the double gives the integer back.
pub proof fn lemma_small_integers_are_exact(n: u128)
    requires
        n < 0x0020_0000_0000_0000,
    ensures
        integer(n as nat).whole() == n,
        !integer(n as nat).nan(),
{
    lemma2_to64();
    lemma2_to64_rest();
    if n > 0 {
        let p = top_bit(n as nat);
        lemma_top_bit_bounds(n as nat);
        if p > 52 {
            if p > 53 {
                lemma_pow2_strictly_increases(53, p);
            }
        }
        let factor = pow2((52 - p) as nat) as int;
        let hidden = HIDDEN_BIT as int;
        lemma_pow2_adds(p, (52 - p) as nat);
        lemma_pow2_pos((52 - p) as nat);
        let significand = n * factor;
        assert(hidden <= significand < 2 * hidden) by (nonlinear_arith)
            requires
                pow2(p) <= n < 2 * pow2(p),
                pow2(p) * factor == hidden,
                factor >= 1,
                significand == n * factor,
        ;
        let bits = (1023 + p) * hidden + (significand - hidden);
        assert(last_place(p as int) == p - 52);
        assert(nearest(n as nat, 0) == packed(p - 52, (n * pow2((52 - p) as nat)) as nat));
        assert(bits == (p - 52 + 1074) * hidden + significand);
        assert(bits < INFINITY_BITS) by (nonlinear_arith)
            requires
                bits == (1023 + p) * hidden + (significand - hidden),
                p <= 52,
                significand < 2 * hidden,
                hidden == 0x0010_0000_0000_0000,
                INFINITY_BITS == 0x7FF0_0000_0000_0000,
        ;
        lemma_fundamental_div_mod_converse(bits, hidden, (1023 + p) as int, significand - hidden);
        let d = integer(n as nat);
        assert(d.bits == bits);
        assert(d.exponent() == 1023 + p);
        assert(d.significand() == significand);
        if p < 52 {
            lemma_div_by_multiple(n as int, factor);
        } else {
            assert(significand == n) by (nonlinear_arith)
                requires
                    significand == n * factor,
                    factor == 1,
            ;
            assert(significand * pow2(0) == significand) by (nonlinear_arith)
                requires
                    pow2(0) == 1,
            ;
        }
    }
}

/// A quantity under one holds no whole token.
pub proof fn lemma_under_one_is_no_token(a: Double)
    requires
        a.less(Double { bits: ONE_BITS }),
    ensures
        a.whole() == 0,
{
    if a.bits < SIGN_BIT {
        let hidden = HIDDEN_BIT as int;
        assert(a.magnitude() / hidden < 1023) by (nonlinear_arith)
            requires
                0 <= a.magnitude() < 1023 * hidden,
                hidden == 0x0010_0000_0000_0000,
        ;
    }
}

/// No quantity is less than itself, and of two quantities at most one is less
/// than the other.
pub proof fn lemma_less_is_strict(a: Double, b: Double)
    ensures
        !a.less(a),
        !(a.less(b) && b.less(a)),
{
}

/// The order of quantities is transitive.
pub proof fn lemma_less_is_transitive(a: Double, b: Double, c: Double)
    requires
        a.less(b),
        b.less(c),
    ensures
        a.less(c),
{
}

} // verus!
