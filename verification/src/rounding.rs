//! Rounding to the nearest double, ties to the even significand.
//!
//! A magnitude is given exactly, as an integer times a power of two or as
//! the ratio of two significands times a power of two, and is rounded to the
//! bits of the nearest double, with gradual underflow and with overflow to
//! infinity.

use crate::double::HIDDEN_BIT;
use crate::double::INFINITY_BITS;
use vstd::arithmetic::div_mod::lemma_basic_div;
use vstd::arithmetic::div_mod::lemma_div_pos_is_pos;
use vstd::arithmetic::div_mod::lemma_multiply_divide_lt;
use vstd::arithmetic::div_mod::lemma_small_mod;
use vstd::arithmetic::power2::lemma2_to64;
use vstd::arithmetic::power2::lemma2_to64_rest;
use vstd::arithmetic::power2::lemma_pow2_adds;
use vstd::arithmetic::power2::lemma_pow2_pos;
use vstd::arithmetic::power2::lemma_pow2_strictly_increases;
use vstd::arithmetic::power2::lemma_pow2_subtracts;
use vstd::arithmetic::power2::lemma_pow2_unfold;
use vstd::arithmetic::power2::pow2;
use vstd::bits::lemma_u128_shr_is_div;
use vstd::bits::lemma_u64_shl_is_mul;
use vstd::prelude::*;

verus! {

/// The place of the highest bit of `n` that is set: the `p` with
/// `2^p <= n < 2^(p + 1)`, and 0 for 0.
pub open spec fn top_bit(n: nat) -> nat
    decreases n,
{
    if n <= 1 {
        0
    } else {
        1 + top_bit(n / 2)
    }
}

/// A count of whole steps, rounded to the nearest count, ties to the even
/// one: `kept` steps and `cut` parts of the `unit` parts that make a step.
pub open spec fn round_half_even(kept: nat, cut: nat, unit: nat) -> nat {
    if 2 * cut > unit || (2 * cut == unit && kept % 2 == 1) {
        kept + 1
    } else {
        kept
    }
}

/// The bits of the magnitude `steps * 2^unit_exp`, where `unit_exp` is the
/// exponent of the last place of the significand: -1074 for the subnormal
/// numbers and the least normal ones, and one more for each binade above.
/// The steps are at most 2^53, and 2^53 steps carry into the next binade.
/// What is beyond the largest finite double is infinity.
pub open spec fn packed(unit_exp: int, steps: nat) -> u64 {
    let bits = (unit_exp + 1074) * HIDDEN_BIT + steps;
    if bits >= INFINITY_BITS {
        INFINITY_BITS
    } else {
        bits as u64
    }
}

/// The exponent of the last place of the doubles in the binade of
/// `2^lead`: 52 places under the leading bit, but not under -1074.
pub open spec fn last_place(lead: int) -> int {
    if lead - 52 > -1074 {
        lead - 52
    } else {
        -1074
    }
}

/// The bits of the double nearest to `m * 2^e`, ties to even: the magnitude
/// counted in steps of the last place of its binade, exactly where `m * 2^e`
/// is a whole number of steps, and rounded where it is not.
pub open spec fn nearest(m: nat, e: int) -> u64 {
    let unit_exp = last_place(top_bit(m) + e);
    if m == 0 {
        0
    } else if unit_exp <= e {
        packed(unit_exp, m * pow2((e - unit_exp) as nat))
    } else {
        let unit = pow2((unit_exp - e) as nat);
        packed(unit_exp, round_half_even(m / unit, m % unit, unit))
    }
}

/// The place of the highest bit is the `p` with `2^p <= n < 2^(p + 1)`.
pub proof fn lemma_top_bit(n: nat, p: nat)
    requires
        pow2(p) <= n < 2 * pow2(p),
    ensures
        top_bit(n) == p,
    decreases p,
{
    lemma2_to64();
    if p == 0 {
    } else {
        lemma_pow2_unfold(p);
        lemma_top_bit(n / 2, (p - 1) as nat);
    }
}

/// The highest bit that is set stands for at most the whole of `n`, and for
/// more than half of it.
pub proof fn lemma_top_bit_bounds(n: nat)
    requires
        n >= 1,
    ensures
        pow2(top_bit(n)) <= n < 2 * pow2(top_bit(n)),
    decreases n,
{
    lemma2_to64();
    if n > 1 {
        lemma_top_bit_bounds(n / 2);
        lemma_pow2_unfold(top_bit(n));
    }
}

/// 2^127 is the highest power of two that 128 bits hold.
proof fn lemma_pow2_127()
    ensures
        pow2(127) == 0x8000_0000_0000_0000_0000_0000_0000_0000,
{
    lemma2_to64();
    lemma2_to64_rest();
    lemma_pow2_adds(63, 64);
}

/// Powers of two grow with their exponents.
pub proof fn lemma_pow2_grows(a: nat, b: nat)
    requires
        a <= b,
    ensures
        pow2(a) <= pow2(b),
{
    if a < b {
        lemma_pow2_strictly_increases(a, b);
    }
}

/// Finds the highest bit of `m` that is set, and the power of two that it
/// stands for.
pub(crate) fn leading_bit(m: u128) -> (r: (u64, u128))
    requires
        m >= 1,
    ensures
        r.0 == top_bit(m as nat),
        r.0 <= 127,
        r.1 == pow2(r.0 as nat),
        r.1 <= m < 2 * r.1,
{
    let mut p: u64 = 0;
    let mut scale: u128 = 1;
    proof {
        lemma2_to64();
    }
    while scale <= m / 2
        invariant
            scale == pow2(p as nat),
            1 <= scale <= m,
            p <= 127,
        decreases m - scale,
    {
        proof {
            lemma_pow2_unfold((p + 1) as nat);
            if p >= 127 {
                lemma_pow2_127();
                lemma_pow2_grows(127, p as nat);
            }
        }
        scale = scale * 2;
        p = p + 1;
    }
    proof {
        lemma_top_bit(m as nat, p as nat);
    }
    (p, scale)
}

/// Puts the steps under the exponent of their last place.
pub(crate) fn pack(unit_exp: i64, steps: u64) -> (r: u64)
    requires
        -1074 <= unit_exp <= 972,
        steps <= 0x0020_0000_0000_0000,
    ensures
        r == packed(unit_exp as int, steps as nat),
{
    let field: u64 = (unit_exp + 1074) as u64;
    let bits: u64 = field * HIDDEN_BIT + steps;
    if bits >= INFINITY_BITS {
        INFINITY_BITS
    } else {
        bits
    }
}

/// Rounds `m * 2^e` to the bits of the nearest double.
pub(crate) fn round_to_double(m: u128, e: i64) -> (r: u64)
    requires
        -4096 <= e <= 4096,
    ensures
        r == nearest(m as nat, e as int),
{
    if m == 0 {
        return 0;
    }
    let (p, scale) = leading_bit(m);
    let lead: i64 = p as i64 + e;
    if lead >= 1025 {
        proof {
            let unit_exp = last_place(lead as int);
            assert((unit_exp + 1074) * HIDDEN_BIT >= INFINITY_BITS) by (nonlinear_arith)
                requires
                    unit_exp + 1074 >= 2047,
                    HIDDEN_BIT == 0x0010_0000_0000_0000,
                    INFINITY_BITS == 0x7FF0_0000_0000_0000,
            ;
            if unit_exp <= e {
                let steps = (m as nat) * pow2((e - unit_exp) as nat);
                assert(packed(unit_exp, steps) == INFINITY_BITS);
            } else {
                let unit = pow2((unit_exp - e) as nat);
                let kept = (m as nat) / unit;
                let steps = round_half_even(kept, (m as nat) % unit, unit);
                lemma_pow2_pos((unit_exp - e) as nat);
                lemma_div_pos_is_pos(m as int, unit as int);
                assert(steps == kept || steps == kept + 1);
                assert(packed(unit_exp, steps) == INFINITY_BITS);
            }
        }
        return INFINITY_BITS;
    }
    let unit_exp: i64 = if lead - 52 > -1074 {
        lead - 52
    } else {
        -1074
    };
    proof {
        lemma2_to64();
        lemma2_to64_rest();
    }
    if unit_exp <= e {
        let k: u64 = (e - unit_exp) as u64;
        let factor: u64 = 1u64 << k;
        proof {
            lemma_pow2_adds(p as nat, (52 - p) as nat);
            lemma_pow2_grows(k as nat, (52 - p) as nat);
            lemma_pow2_grows(k as nat, 52);
            lemma_u64_shl_is_mul(1, k);
            assert(m * factor < 0x0020_0000_0000_0000) by (nonlinear_arith)
                requires
                    m < 2 * scale,
                    scale * pow2((52 - p) as nat) == 0x0010_0000_0000_0000,
                    factor <= pow2((52 - p) as nat),
                    scale >= 1,
            ;
        }
        let steps: u128 = m * (factor as u128);
        pack(unit_exp, steps as u64)
    } else {
        let shift: i64 = unit_exp - e;
        if shift > p as i64 + 1 {
            proof {
                let unit = pow2(shift as nat);
                lemma_pow2_grows((p + 2) as nat, shift as nat);
                lemma_pow2_unfold((p + 2) as nat);
                lemma_pow2_unfold((p + 1) as nat);
                lemma_basic_div(m as int, unit as int);
                lemma_small_mod(m as nat, unit);
            }
            pack(unit_exp, 0)
        } else if shift == p as i64 + 1 {
            proof {
                let unit = pow2(shift as nat);
                lemma_pow2_unfold((p + 1) as nat);
                lemma_basic_div(m as int, unit as int);
                lemma_small_mod(m as nat, unit);
            }
            if m > scale {
                pack(unit_exp, 1)
            } else {
                pack(unit_exp, 0)
            }
        } else {
            let down: u64 = p - shift as u64;
            let unit: u128 = scale >> down;
            proof {
                lemma_u128_shr_is_div(scale, down as u128);
                lemma_pow2_subtracts(down as nat, p as nat);
                lemma_pow2_unfold(shift as nat);
                lemma_pow2_pos((shift - 1) as nat);
                assert(unit == pow2(shift as nat));
                if p >= 52 {
                    lemma_pow2_grows((p - 52) as nat, shift as nat);
                    lemma_pow2_adds(52, (p - 52) as nat);
                    lemma_pow2_pos((p - 52) as nat);
                    let least = pow2((p - 52) as nat) as int;
                    assert(m < 0x0020_0000_0000_0000 * unit) by (nonlinear_arith)
                        requires
                            m < 2 * scale,
                            scale == 0x0010_0000_0000_0000 * least,
                            least <= unit,
                    ;
                    lemma_multiply_divide_lt(m as int, unit as int, 0x0020_0000_0000_0000);
                } else {
                    lemma_pow2_grows(p as nat, 51);
                    assert(m / unit <= m) by (nonlinear_arith)
                        requires
                            unit >= 1,
                    ;
                }
            }
            let kept: u128 = m / unit;
            let cut: u128 = m % unit;
            let half: u128 = unit / 2;
            let steps: u64 = if cut > half || (cut == half && kept % 2 == 1) {
                kept as u64 + 1
            } else {
                kept as u64
            };
            pack(unit_exp, steps)
        }
    }
}

/// The bits of the double nearest to `(n / d) * 2^e`, ties to even, for two
/// significands `n` and `d` of 53 bits: the ratio is at least 1 where `n` is
/// not under `d`, and else at least a half, which puts the leading bit; the
/// magnitude is counted in steps of the last place of its binade, the whole
/// steps are those of a division, and its remainder decides the rounding.
pub open spec fn nearest_ratio(n: nat, d: nat, e: int) -> u64 {
    let lead = if n < d {
        e - 1
    } else {
        e
    };
    let unit_exp = last_place(lead);
    if unit_exp <= e {
        let scaled = n * pow2((e - unit_exp) as nat);
        packed(unit_exp, round_half_even(scaled / d, scaled % d, d))
    } else {
        let unit = d * pow2((unit_exp - e) as nat);
        packed(unit_exp, round_half_even(n / unit, n % unit, unit))
    }
}

/// Rounds `(n / d) * 2^e` to the bits of the nearest double.
pub(crate) fn round_ratio_to_double(n: u64, d: u64, e: i64) -> (r: u64)
    requires
        0x0010_0000_0000_0000 <= n < 0x0020_0000_0000_0000,
        0x0010_0000_0000_0000 <= d < 0x0020_0000_0000_0000,
        -4096 <= e <= 4096,
    ensures
        r == nearest_ratio(n as nat, d as nat, e as int),
{
    let lead: i64 = if n < d {
        e - 1
    } else {
        e
    };
    if lead >= 1025 {
        proof {
            let unit_exp = last_place(lead as int);
            assert((unit_exp + 1074) * HIDDEN_BIT >= INFINITY_BITS) by (nonlinear_arith)
                requires
                    unit_exp + 1074 >= 2047,
                    HIDDEN_BIT == 0x0010_0000_0000_0000,
                    INFINITY_BITS == 0x7FF0_0000_0000_0000,
            ;
            let scaled = (n as nat) * pow2((e - unit_exp) as nat);
            lemma_pow2_pos((e - unit_exp) as nat);
            assert(scaled >= 0) by (nonlinear_arith)
                requires
                    scaled == (n as nat) * pow2((e - unit_exp) as nat),
            ;
            lemma_div_pos_is_pos(scaled as int, d as int);
            let kept = scaled / (d as nat);
            let steps = round_half_even(kept, scaled % (d as nat), d as nat);
            assert(steps == kept || steps == kept + 1);
            assert(packed(unit_exp, steps) == INFINITY_BITS);
        }
        return INFINITY_BITS;
    }
    let unit_exp: i64 = if lead - 52 > -1074 {
        lead - 52
    } else {
        -1074
    };
    proof {
        lemma2_to64();
        lemma2_to64_rest();
    }
    if unit_exp <= e {
        let k: u64 = (e - unit_exp) as u64;
        let factor: u64 = 1u64 << k;
        proof {
            lemma_pow2_grows(k as nat, 53);
            lemma_u64_shl_is_mul(1, k);
            if n >= d {
                lemma_pow2_grows(k as nat, 52);
            }
            assert(n * factor < 0x0020_0000_0000_0000 * d) by (nonlinear_arith)
                requires
                    0x0010_0000_0000_0000 <= n < 0x0020_0000_0000_0000,
                    0x0010_0000_0000_0000 <= d < 0x0020_0000_0000_0000,
                    1 <= factor <= 0x0020_0000_0000_0000,
                    n >= d ==> factor <= 0x0010_0000_0000_0000,
            ;
            lemma_multiply_divide_lt((n * factor) as int, d as int, 0x0020_0000_0000_0000);
            assert(n * factor < 0x0400_0000_0000_0000_0000_0000_0000) by (nonlinear_arith)
                requires
                    n < 0x0020_0000_0000_0000,
                    factor <= 0x0020_0000_0000_0000,
            ;
        }
        let scaled: u128 = (n as u128) * (factor as u128);
        let kept: u128 = scaled / (d as u128);
        let cut: u128 = scaled % (d as u128);
        let steps: u64 = if 2 * cut > d as u128 || (2 * cut == d as u128 && kept % 2 == 1) {
            kept as u64 + 1
        } else {
            kept as u64
        };
        pack(unit_exp, steps)
    } else {
        let j: i64 = unit_exp - e;
        proof {
            let unit = (d as nat) * pow2(j as nat);
            lemma_pow2_grows(1, j as nat);
            if j >= 2 {
                lemma_pow2_grows(2, j as nat);
            }
            assert(unit >= 2 * d && (j >= 2 ==> unit >= 4 * d) && (j == 1 ==> unit == 2 * d))
                by (nonlinear_arith)
                requires
                    unit == (d as nat) * pow2(j as nat),
                    pow2(j as nat) >= 2,
                    j >= 2 ==> pow2(j as nat) >= 4,
                    j == 1 ==> pow2(j as nat) == 2,
            ;
            lemma_basic_div(n as int, unit as int);
            lemma_small_mod(n as nat, unit);
        }
        if j == 1 && n > d {
            pack(unit_exp, 1)
        } else {
            pack(unit_exp, 0)
        }
    }
}

} // verus!
