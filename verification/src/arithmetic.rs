//! Arithmetic on double-precision quantities: each result is the double
//! nearest to the exact result, ties to the even significand.

use crate::double::Double;
use crate::double::HIDDEN_BIT;
use crate::double::INFINITY_BITS;
use crate::double::ONE_BITS;
use crate::double::SIGN_BIT;
use crate::rounding::pack;
use crate::rounding::packed;
use crate::rounding::last_place;
use crate::rounding::leading_bit;
use crate::rounding::lemma_top_bit;
use crate::rounding::lemma_top_bit_bounds;
use crate::rounding::lemma_pow2_grows;
use crate::rounding::nearest;
use crate::rounding::nearest_ratio;
use crate::rounding::round_ratio_to_double;
use crate::rounding::round_half_even;
use crate::rounding::round_to_double;
use crate::rounding::top_bit;
use vstd::arithmetic::div_mod::lemma_basic_div;
use vstd::arithmetic::div_mod::lemma_fundamental_div_mod;
use vstd::arithmetic::div_mod::lemma_fundamental_div_mod_converse;
use vstd::arithmetic::power2::lemma2_to64;
use vstd::arithmetic::power2::lemma2_to64_rest;
use vstd::arithmetic::power2::lemma_pow2_adds;
use vstd::arithmetic::power2::lemma_pow2_pos;
use vstd::arithmetic::power2::lemma_pow2_unfold;
use vstd::arithmetic::power2::pow2;
use vstd::bits::lemma_u64_shl_is_mul;
use vstd::prelude::*;

verus! {

/// The bits of the NaN that an operation without a result gives.
pub const QUIET_NAN_BITS: u64 = 0x7FF8_0000_0000_0000;

impl Double {
    /// Whether the sign bit is set.
    pub open spec fn negative(self) -> bool {
        self.bits >= SIGN_BIT
    }

    /// Whether the quantity is an infinity.
    pub open spec fn infinite(self) -> bool {
        self.magnitude() == INFINITY_BITS
    }

    /// Whether the quantity is a number: neither a NaN nor an infinity.
    pub open spec fn finite(self) -> bool {
        self.magnitude() < INFINITY_BITS
    }

    /// The significand of a finite quantity, whose magnitude is
    /// `mantissa * 2^scale` exactly: with the leading 1 for a normal number,
    /// without it for a subnormal one.
    pub open spec fn mantissa(self) -> nat {
        if self.exponent() == 0 {
            self.magnitude() as nat
        } else {
            self.significand() as nat
        }
    }

    /// The exponent of the last place of a finite quantity.
    pub open spec fn scale(self) -> int {
        if self.exponent() == 0 {
            -1074
        } else {
            self.exponent() - 1075
        }
    }

    /// The mantissa with its sign.
    pub open spec fn signed_mantissa(self) -> int {
        if self.negative() {
            -(self.mantissa() as int)
        } else {
            self.mantissa() as int
        }
    }

    /// The quantity with the other sign.
    pub open spec fn negated(self) -> Double {
        if self.bits >= SIGN_BIT {
            Double { bits: (self.bits - SIGN_BIT) as u64 }
        } else {
            Double { bits: (self.bits + SIGN_BIT) as u64 }
        }
    }

    /// Whether the sign bit is set.
    pub fn is_negative(&self) -> (r: bool)
        ensures
            r == self.negative(),
    {
        self.bits >= SIGN_BIT
    }

    /// The bits without the sign.
    pub fn abs_bits(&self) -> (r: u64)
        ensures
            r == self.magnitude(),
    {
        if self.bits >= SIGN_BIT {
            self.bits - SIGN_BIT
        } else {
            self.bits
        }
    }

    /// The quantity with the other sign.
    pub fn negate(&self) -> (r: Double)
        ensures
            r == self.negated(),
    {
        if self.bits >= SIGN_BIT {
            Double { bits: self.bits - SIGN_BIT }
        } else {
            Double { bits: self.bits + SIGN_BIT }
        }
    }

    /// The mantissa and the scale of a finite quantity.
    pub(crate) fn parts(&self) -> (r: (u64, i64))
        requires
            self.finite(),
        ensures
            r.0 == self.mantissa(),
            r.1 == self.scale(),
            r.0 < 0x0020_0000_0000_0000,
            -1074 <= r.1 <= 971,
            r.1 > -1074 ==> r.0 >= 0x0010_0000_0000_0000,
    {
        let magnitude: u64 = self.abs_bits();
        let field: u64 = magnitude / HIDDEN_BIT;
        let fraction: u64 = magnitude % HIDDEN_BIT;
        if field == 0 {
            (magnitude, -1074)
        } else {
            (fraction + HIDDEN_BIT, field as i64 - 1075)
        }
    }
}

/// The quantity of the given sign and magnitude.
pub open spec fn signed(negative: bool, magnitude: u64) -> Double {
    if negative {
        Double { bits: (magnitude + SIGN_BIT) as u64 }
    } else {
        Double { bits: magnitude }
    }
}

/// Puts the sign on a magnitude.
fn with_sign(negative: bool, magnitude: u64) -> (r: Double)
    requires
        magnitude <= INFINITY_BITS,
    ensures
        r == signed(negative, magnitude),
{
    if negative {
        Double { bits: magnitude + SIGN_BIT }
    } else {
        Double { bits: magnitude }
    }
}

/// The product `a * b`: a NaN where a factor is one or where an infinity
/// meets a zero, else of the sign that the two signs give and of the
/// magnitude nearest to the exact product.
pub open spec fn product(a: Double, b: Double) -> Double {
    let negative = a.negative() != b.negative();
    if a.nan() || b.nan() {
        Double { bits: QUIET_NAN_BITS }
    } else if a.infinite() || b.infinite() {
        if a.magnitude() == 0 || b.magnitude() == 0 {
            Double { bits: QUIET_NAN_BITS }
        } else {
            signed(negative, INFINITY_BITS)
        }
    } else {
        signed(negative, nearest(a.mantissa() * b.mantissa(), a.scale() + b.scale()))
    }
}

/// No steps are put beyond infinity.
pub proof fn lemma_packed_is_a_magnitude(unit_exp: int, steps: nat)
    requires
        unit_exp >= -1074,
    ensures
        packed(unit_exp, steps) <= INFINITY_BITS,
{
    assert((unit_exp + 1074) * HIDDEN_BIT >= 0) by (nonlinear_arith)
        requires
            unit_exp + 1074 >= 0,
            HIDDEN_BIT == 0x0010_0000_0000_0000,
    ;
}

/// No magnitude is rounded beyond infinity.
pub proof fn lemma_nearest_is_a_magnitude(m: nat, e: int)
    ensures
        nearest(m, e) <= INFINITY_BITS,
{
    let unit_exp = last_place(top_bit(m) + e);
    if m == 0 {
    } else if unit_exp <= e {
        lemma_packed_is_a_magnitude(unit_exp, m * pow2((e - unit_exp) as nat));
    } else {
        let unit = pow2((unit_exp - e) as nat);
        lemma_packed_is_a_magnitude(unit_exp, round_half_even(m / unit, m % unit, unit));
    }
}

impl Double {
    /// Multiplies `self` by `other`.
    pub fn times(&self, other: &Double) -> (r: Double)
        ensures
            r == product(*self, *other),
    {
        let negative: bool = self.is_negative() != other.is_negative();
        if self.is_nan() || other.is_nan() {
            return Double { bits: QUIET_NAN_BITS };
        }
        let left: u64 = self.abs_bits();
        let right: u64 = other.abs_bits();
        if left == INFINITY_BITS || right == INFINITY_BITS {
            if left == 0 || right == 0 {
                return Double { bits: QUIET_NAN_BITS };
            }
            return with_sign(negative, INFINITY_BITS);
        }
        let (m1, e1) = self.parts();
        let (m2, e2) = other.parts();
        proof {
            assert(m1 * m2 < 0x0400_0000_0000_0000_0000_0000_0000) by (nonlinear_arith)
                requires
                    m1 < 0x0020_0000_0000_0000,
                    m2 < 0x0020_0000_0000_0000,
            ;
            lemma_nearest_is_a_magnitude((m1 * m2) as nat, (e1 + e2) as int);
        }
        let exact: u128 = (m1 as u128) * (m2 as u128);
        with_sign(negative, round_to_double(exact, e1 + e2))
    }
}

impl Double {
    /// The significand of a finite quantity other than zero, shifted up to 53
    /// bits: the magnitude is `normal_mantissa * 2^normal_scale` exactly.
    pub open spec fn normal_mantissa(self) -> nat {
        self.mantissa() * pow2((52 - top_bit(self.mantissa())) as nat)
    }

    /// The exponent that goes with the mantissa of 53 bits.
    pub open spec fn normal_scale(self) -> int {
        self.scale() - (52 - top_bit(self.mantissa()))
    }

    /// The mantissa of 53 bits and its scale, of a finite quantity other than
    /// zero.
    pub(crate) fn normal_parts(&self) -> (r: (u64, i64))
        requires
            self.finite(),
            self.magnitude() > 0,
        ensures
            r.0 == self.normal_mantissa(),
            r.1 == self.normal_scale(),
            0x0010_0000_0000_0000 <= r.0 < 0x0020_0000_0000_0000,
            -1126 <= r.1 <= 971,
    {
        let (mantissa, scale) = self.parts();
        proof {
            lemma2_to64();
            lemma2_to64_rest();
        }
        if mantissa >= HIDDEN_BIT {
            proof {
                lemma_top_bit(mantissa as nat, 52);
                assert(mantissa * pow2(0) == mantissa) by (nonlinear_arith)
                    requires
                        pow2(0) == 1,
                ;
            }
            (mantissa, scale)
        } else {
            let (p, size) = leading_bit(mantissa as u128);
            proof {
                if p > 51 {
                    lemma_pow2_grows(52, p as nat);
                }
            }
            let up: u64 = 52 - p;
            let factor: u64 = 1u64 << up;
            proof {
                lemma_pow2_grows(up as nat, 52);
                lemma_u64_shl_is_mul(1, up);
                lemma_pow2_adds(p as nat, up as nat);
                assert(0x0010_0000_0000_0000 <= mantissa * factor < 0x0020_0000_0000_0000)
                    by (nonlinear_arith)
                    requires
                        size <= mantissa < 2 * size,
                        size * factor == 0x0010_0000_0000_0000,
                        factor >= 1,
                ;
            }
            (mantissa * factor, scale - up as i64)
        }
    }
}

/// The quotient `a / b`: a NaN where an operand is one, for an infinity over
/// an infinity and for a zero over a zero; an infinity over a zero; else of
/// the sign that the two signs give and of the magnitude nearest to the
/// exact quotient.
pub open spec fn quotient(a: Double, b: Double) -> Double {
    let negative = a.negative() != b.negative();
    if a.nan() || b.nan() {
        Double { bits: QUIET_NAN_BITS }
    } else if a.infinite() {
        if b.infinite() {
            Double { bits: QUIET_NAN_BITS }
        } else {
            signed(negative, INFINITY_BITS)
        }
    } else if b.infinite() {
        signed(negative, 0)
    } else if b.magnitude() == 0 {
        if a.magnitude() == 0 {
            Double { bits: QUIET_NAN_BITS }
        } else {
            signed(negative, INFINITY_BITS)
        }
    } else if a.magnitude() == 0 {
        signed(negative, 0)
    } else {
        signed(
            negative,
            nearest_ratio(
                a.normal_mantissa(),
                b.normal_mantissa(),
                a.normal_scale() - b.normal_scale(),
            ),
        )
    }
}

/// No ratio is rounded beyond infinity.
pub proof fn lemma_nearest_ratio_is_a_magnitude(n: nat, d: nat, e: int)
    ensures
        nearest_ratio(n, d, e) <= INFINITY_BITS,
{
    let lead = if n < d {
        e - 1
    } else {
        e
    };
    let unit_exp = last_place(lead);
    if unit_exp <= e {
        let scaled = n * pow2((e - unit_exp) as nat);
        lemma_packed_is_a_magnitude(unit_exp, round_half_even(scaled / d, scaled % d, d));
    } else {
        let unit = d * pow2((unit_exp - e) as nat);
        lemma_packed_is_a_magnitude(unit_exp, round_half_even(n / unit, n % unit, unit));
    }
}

impl Double {
    /// Divides `self` by `other`.
    pub fn over(&self, other: &Double) -> (r: Double)
        ensures
            r == quotient(*self, *other),
    {
        let negative: bool = self.is_negative() != other.is_negative();
        if self.is_nan() || other.is_nan() {
            return Double { bits: QUIET_NAN_BITS };
        }
        let left: u64 = self.abs_bits();
        let right: u64 = other.abs_bits();
        if left == INFINITY_BITS {
            if right == INFINITY_BITS {
                return Double { bits: QUIET_NAN_BITS };
            }
            return with_sign(negative, INFINITY_BITS);
        }
        if right == INFINITY_BITS {
            return with_sign(negative, 0);
        }
        if right == 0 {
            if left == 0 {
                return Double { bits: QUIET_NAN_BITS };
            }
            return with_sign(negative, INFINITY_BITS);
        }
        if left == 0 {
            return with_sign(negative, 0);
        }
        let (n, en) = self.normal_parts();
        let (d, ed) = other.normal_parts();
        proof {
            lemma_nearest_ratio_is_a_magnitude(n as nat, d as nat, (en - ed) as int);
        }
        with_sign(negative, round_ratio_to_double(n, d, en - ed))
    }
}

/// The double for an exact sum `total * 2^e`: a zero of the sign that both
/// terms have where the sum is nothing, and else of the sign of the sum and of
/// the magnitude nearest to it.
pub open spec fn rounded_sum(total: int, e: int, both_negative: bool) -> Double {
    if total == 0 {
        signed(both_negative, 0)
    } else if total > 0 {
        signed(false, nearest(total as nat, e))
    } else {
        signed(true, nearest((-total) as nat, e))
    }
}

/// The sum `a + b`: a NaN where a term is one and for two infinities of
/// opposite signs, an infinite term where there is one, and else the double
/// nearest to the exact sum, which is a whole number of steps of the lower of
/// the two scales.
pub open spec fn sum(a: Double, b: Double) -> Double {
    let e = if a.scale() <= b.scale() {
        a.scale()
    } else {
        b.scale()
    };
    if a.nan() || b.nan() {
        Double { bits: QUIET_NAN_BITS }
    } else if a.infinite() {
        if b.infinite() && a.negative() != b.negative() {
            Double { bits: QUIET_NAN_BITS }
        } else {
            a
        }
    } else if b.infinite() {
        b
    } else {
        rounded_sum(
            a.signed_mantissa() * pow2((a.scale() - e) as nat) + b.signed_mantissa() * pow2(
                (b.scale() - e) as nat,
            ),
            e,
            a.negative() && b.negative(),
        )
    }
}

/// The difference `a - b`: the sum of `a` and of `b` with the other sign.
pub open spec fn difference(a: Double, b: Double) -> Double {
    sum(a, b.negated())
}

/// A term whose last place lies more than 64 places under the last place of
/// a normal term does not change it: the double nearest to `m * 2^gap + l`
/// and to `m * 2^gap - l`, in steps of `2^e`, is `m` steps of `2^(e + gap)`.
pub proof fn lemma_far_apart(m: nat, l: nat, gap: nat, e: int, minus: bool)
    requires
        0x0010_0000_0000_0000 <= m < 0x0020_0000_0000_0000,
        l < 0x0020_0000_0000_0000,
        gap >= 65,
        e >= -1074,
    ensures
        m * pow2(gap) > l,
        nearest(
            (if minus {
                m * pow2(gap) - l
            } else {
                (m * pow2(gap) + l) as int
            }) as nat,
            e,
        ) == packed(e + gap, m),
{
    lemma2_to64();
    lemma2_to64_rest();
    let hidden: int = 0x0010_0000_0000_0000;
    let unit = pow2(gap) as int;
    lemma_pow2_grows(65, gap);
    lemma_pow2_unfold(65);
    lemma_pow2_unfold(gap);
    lemma_pow2_adds(52, gap);
    lemma_pow2_adds(51, gap);
    lemma_pow2_unfold(52 + gap);
    let half = pow2((gap - 1) as nat) as int;
    assert(unit == 2 * half);
    assert(hidden * unit == pow2(52 + gap));
    assert(m * unit > l) by (nonlinear_arith)
        requires
            m >= 1,
            unit > l,
    ;
    if !minus || l == 0 {
        let total = m * unit + l;
        assert(hidden * unit <= total < 2 * (hidden * unit)) by (nonlinear_arith)
            requires
                total == m * unit + l,
                hidden <= m < 2 * hidden,
                0 <= l < unit,
        ;
        lemma_top_bit(total as nat, 52 + gap);
        assert(last_place(52 + gap + e) == e + gap);
        lemma_fundamental_div_mod_converse(total, unit, m as int, l as int);
        assert(round_half_even(m, l, unit as nat) == m);
        assert(nearest(total as nat, e) == packed(e + gap, m));
    } else if m > hidden {
        let total = m * unit - l;
        assert(total == (m - 1) * unit + (unit - l)) by (nonlinear_arith)
            requires
                total == m * unit - l,
        ;
        assert(hidden * unit <= total < 2 * (hidden * unit)) by (nonlinear_arith)
            requires
                total == (m - 1) * unit + (unit - l),
                hidden < m < 2 * hidden,
                0 < l < unit,
        ;
        lemma_top_bit(total as nat, 52 + gap);
        assert(last_place(52 + gap + e) == e + gap);
        lemma_fundamental_div_mod_converse(total, unit, m - 1, unit - l);
        assert(round_half_even((m - 1) as nat, (unit - l) as nat, unit as nat) == m);
        assert(nearest(total as nat, e) == packed(e + gap, m));
    } else {
        let total = m * unit - l;
        let kept = 2 * hidden - 1;
        assert(total == kept * half + (half - l)) by (nonlinear_arith)
            requires
                total == m * unit - l,
                m == hidden,
                unit == 2 * half,
                kept == 2 * hidden - 1,
        ;
        assert(hidden * half == pow2(51 + gap));
        assert(hidden * half <= total < 2 * (hidden * half)) by (nonlinear_arith)
            requires
                total == kept * half + (half - l),
                kept == 2 * hidden - 1,
                hidden >= 1,
                0 < l < half,
        ;
        lemma_top_bit(total as nat, 51 + gap);
        assert(last_place(51 + gap + e) == e + gap - 1);
        lemma_fundamental_div_mod_converse(total, half, kept, half - l);
        assert(round_half_even(kept as nat, (half - l) as nat, half as nat) == 2 * hidden);
        assert(nearest(total as nat, e) == packed(e + gap - 1, (2 * hidden) as nat));
        assert((e + gap - 1 + 1074) * HIDDEN_BIT + 2 * hidden == (e + gap + 1074) * HIDDEN_BIT
            + hidden) by (nonlinear_arith)
            requires
                HIDDEN_BIT == hidden,
        ;
    }
}

impl Double {
    /// Adds `other` to `self`.
    pub fn plus(&self, other: &Double) -> (r: Double)
        ensures
            r == sum(*self, *other),
    {
        if self.is_nan() || other.is_nan() {
            return Double { bits: QUIET_NAN_BITS };
        }
        let left_negative: bool = self.is_negative();
        let right_negative: bool = other.is_negative();
        if self.abs_bits() == INFINITY_BITS {
            if other.abs_bits() == INFINITY_BITS && left_negative != right_negative {
                return Double { bits: QUIET_NAN_BITS };
            }
            return *self;
        }
        if other.abs_bits() == INFINITY_BITS {
            return *other;
        }
        let (m1, e1) = self.parts();
        let (m2, e2) = other.parts();
        proof {
            lemma2_to64();
            assert(forall|x: int| #[trigger] (x * pow2(0)) == x) by (nonlinear_arith)
                requires
                    pow2(0) == 1,
            ;
        }
        if e1 >= e2 {
            combine(m1, e1, left_negative, m2, e2, right_negative)
        } else {
            combine(m2, e2, right_negative, m1, e1, left_negative)
        }
    }

    /// Subtracts `other` from `self`.
    pub fn minus(&self, other: &Double) -> (r: Double)
        ensures
            r == difference(*self, *other),
    {
        self.plus(&other.negate())
    }
}

/// A mantissa with its sign.
pub open spec fn with_its_sign(negative: bool, mantissa: u64) -> int {
    if negative {
        -(mantissa as int)
    } else {
        mantissa as int
    }
}

/// Adds two finite quantities, the first of which has the higher scale.
fn combine(mh: u64, eh: i64, nh: bool, ml: u64, el: i64, nl: bool) -> (r: Double)
    requires
        mh < 0x0020_0000_0000_0000,
        ml < 0x0020_0000_0000_0000,
        -1074 <= el <= eh <= 971,
        eh > -1074 ==> mh >= 0x0010_0000_0000_0000,
    ensures
        r == rounded_sum(
            with_its_sign(nh, mh) * pow2((eh - el) as nat) + with_its_sign(nl, ml),
            el as int,
            nh && nl,
        ),
{
    let gap: i64 = eh - el;
    proof {
        lemma2_to64();
        lemma2_to64_rest();
    }
    if gap > 64 {
        proof {
            lemma_far_apart(mh as nat, ml as nat, gap as nat, el as int, nh != nl);
            let unit = pow2(gap as nat) as int;
            let big = mh * unit;
            assert(with_its_sign(nh, mh) * unit == if nh {
                -big
            } else {
                big
            }) by (nonlinear_arith)
                requires
                    big == mh * unit,
                    with_its_sign(nh, mh) == if nh {
                        -(mh as int)
                    } else {
                        mh as int
                    },
            ;
            lemma_packed_is_a_magnitude(eh as int, mh as nat);
        }
        return with_sign(nh, pack(eh, mh));
    }
    let factor: u128 = if gap == 64 {
        0x1_0000_0000_0000_0000
    } else {
        (1u64 << (gap as u64)) as u128
    };
    proof {
        if gap < 64 {
            lemma_pow2_grows(gap as nat, 63);
            lemma_u64_shl_is_mul(1, gap as u64);
        }
        assert(factor == pow2(gap as nat));
        assert(mh * factor < 0x0020_0000_0000_0000_0000_0000_0000_0000) by (nonlinear_arith)
            requires
                mh < 0x0020_0000_0000_0000,
                factor <= 0x1_0000_0000_0000_0000,
        ;
        let unit = pow2(gap as nat) as int;
        let big = mh * unit;
        assert(with_its_sign(nh, mh) * unit == if nh {
            -big
        } else {
            big
        }) by (nonlinear_arith)
            requires
                big == mh * unit,
                with_its_sign(nh, mh) == if nh {
                    -(mh as int)
                } else {
                    mh as int
                },
        ;
    }
    let big: u128 = (mh as u128) * factor;
    let small: u128 = ml as u128;
    if nh == nl {
        let total: u128 = big + small;
        if total == 0 {
            with_sign(nh, 0)
        } else {
            proof {
                lemma_nearest_is_a_magnitude(total as nat, el as int);
            }
            with_sign(nh, round_to_double(total, el))
        }
    } else if big > small {
        proof {
            lemma_nearest_is_a_magnitude((big - small) as nat, el as int);
        }
        with_sign(nh, round_to_double(big - small, el))
    } else if big < small {
        proof {
            lemma_nearest_is_a_magnitude((small - big) as nat, el as int);
        }
        with_sign(nl, round_to_double(small - big, el))
    } else {
        with_sign(false, 0)
    }
}

/// A quantity is its sign and its magnitude.
pub proof fn lemma_sign_and_magnitude(a: Double)
    ensures
        signed(a.negative(), a.magnitude() as u64) == a,
{
}

/// A finite quantity is `mantissa` steps of `2^scale`.
pub proof fn lemma_finite_is_packed(a: Double)
    requires
        a.finite(),
    ensures
        packed(a.scale(), a.mantissa()) == a.magnitude(),
        a.mantissa() < 2 * HIDDEN_BIT,
        a.scale() >= -1074,
        a.exponent() > 0 ==> a.mantissa() >= HIDDEN_BIT,
        a.exponent() == 0 ==> a.mantissa() < HIDDEN_BIT,
        a.mantissa() == 0 <==> a.magnitude() == 0,
{
    let hidden = HIDDEN_BIT as int;
    lemma_fundamental_div_mod(a.magnitude(), hidden);
    let field = a.magnitude() / hidden;
    assert(0 <= field < 2047 && hidden * field == field * hidden) by (nonlinear_arith)
        requires
            field == a.magnitude() / hidden,
            0 <= a.magnitude() < 2047 * hidden,
            hidden == 0x0010_0000_0000_0000,
    ;
    assert((a.scale() + 1074) * hidden + a.mantissa() == a.magnitude()) by (nonlinear_arith)
        requires
            a.magnitude() == field * hidden + a.magnitude() % hidden,
            field == 0 ==> a.scale() == -1074 && a.mantissa() == a.magnitude(),
            field != 0 ==> a.scale() == field - 1075 && a.mantissa() == a.magnitude() % hidden
                + hidden,
    ;
}

/// A finite quantity is the double nearest to itself.
pub proof fn lemma_rounds_to_itself(a: Double)
    requires
        a.finite(),
    ensures
        nearest(a.mantissa(), a.scale()) == a.magnitude(),
        a.magnitude() > 0 ==> last_place(top_bit(a.mantissa()) + a.scale()) == a.scale(),
{
    lemma2_to64();
    lemma2_to64_rest();
    lemma_finite_is_packed(a);
    let m = a.mantissa();
    if m > 0 {
        if a.exponent() > 0 {
            lemma_top_bit(m, 52);
        } else {
            lemma_top_bit_bounds(m);
            if top_bit(m) >= 52 {
                lemma_pow2_grows(52, top_bit(m));
            }
        }
        assert(m * pow2(0) == m) by (nonlinear_arith)
            requires
                pow2(0) == 1,
        ;
    }
}

/// A quantity times one is the quantity, unless it is a NaN.
pub proof fn lemma_times_one(a: Double)
    requires
        !a.nan(),
    ensures
        product(a, Double { bits: ONE_BITS }) == a,
{
    lemma2_to64();
    lemma2_to64_rest();
    let one = Double { bits: ONE_BITS };
    let hidden: nat = 0x0010_0000_0000_0000;
    assert(one.magnitude() == 1023 * hidden);
    assert(one.exponent() == 1023);
    assert(one.mantissa() == hidden);
    assert(one.scale() == -52);
    lemma_sign_and_magnitude(a);
    if a.finite() {
        lemma_finite_is_packed(a);
        lemma_rounds_to_itself(a);
        let m = a.mantissa();
        let s = a.scale();
        if m > 0 {
            lemma_top_bit_bounds(m);
            lemma_pow2_adds(top_bit(m), 52);
            let low = pow2(top_bit(m)) as int;
            let high = pow2(top_bit(m) + 52) as int;
            assert(high <= m * hidden < 2 * high) by (nonlinear_arith)
                requires
                    low <= m < 2 * low,
                    high == low * hidden,
                    hidden > 0,
            ;
            lemma_top_bit(m * hidden, top_bit(m) + 52);
            lemma_fundamental_div_mod_converse((m * hidden) as int, hidden as int, m as int, 0);
            assert(nearest(m * hidden, s - 52) == packed(s, round_half_even(m, 0, hidden)));
        } else {
            assert(m * hidden == 0) by (nonlinear_arith)
                requires
                    m == 0,
            ;
        }
    }
}

/// A finite quantity other than zero, over itself, is one.
pub proof fn lemma_over_itself(a: Double)
    requires
        a.finite(),
        a.magnitude() > 0,
    ensures
        quotient(a, a) == (Double { bits: ONE_BITS }),
{
    lemma2_to64();
    lemma2_to64_rest();
    let n = a.normal_mantissa();
    let hidden: nat = 0x0010_0000_0000_0000;
    lemma_finite_is_packed(a);
    lemma_top_bit_bounds(a.mantissa());
    if top_bit(a.mantissa()) > 52 {
        lemma_pow2_grows(53, top_bit(a.mantissa()));
    }
    lemma_pow2_pos((52 - top_bit(a.mantissa())) as nat);
    assert(n >= 1) by (nonlinear_arith)
        requires
            n == a.mantissa() * pow2((52 - top_bit(a.mantissa())) as nat),
            a.mantissa() >= 1,
            pow2((52 - top_bit(a.mantissa())) as nat) >= 1,
    ;
    assert(last_place(0) == -52);
    lemma_fundamental_div_mod_converse((n * hidden) as int, n as int, hidden as int, 0);
    assert(round_half_even(hidden, 0, n) == hidden);
    assert(nearest_ratio(n, n, 0) == packed(-52, hidden));
}

/// Cutting to a whole number cuts toward zero: of a finite quantity that is
/// not negative, `mantissa * 2^scale`, the whole number is that product where
/// the scale is not negative and the product is under 2^64, and the quotient
/// of the mantissa by `2^-scale`, without its remainder, where the scale is
/// negative.
pub proof fn lemma_whole_is_the_floor(a: Double)
    requires
        a.finite(),
        !a.negative(),
    ensures
        a.scale() < 0 ==> a.whole() == a.mantissa() / pow2((-a.scale()) as nat),
        0 <= a.scale() && a.exponent() < 1087 ==> a.whole() == a.mantissa() * pow2(
            a.scale() as nat,
        ),
        a.exponent() >= 1087 ==> a.whole() == u64::MAX,
{
    lemma2_to64();
    lemma2_to64_rest();
    lemma_finite_is_packed(a);
    if a.exponent() < 1023 {
        let down = (-a.scale()) as nat;
        lemma_pow2_grows(53, down);
        lemma_basic_div(a.mantissa() as int, pow2(down) as int);
    } else if 1075 <= a.exponent() < 1087 {
        let up = a.scale() as nat;
        lemma_pow2_grows(up, 11);
        assert(0 <= a.mantissa() * pow2(up) <= u64::MAX) by (nonlinear_arith)
            requires
                a.mantissa() < 0x0020_0000_0000_0000,
                0 < pow2(up) <= 0x800,
        ;
    }
}

} // verus!
