//! Rounding of dyadic rationals `m * 2^k` to integers.

use vstd::prelude::*;
use vstd::arithmetic::power2::{pow2, lemma_pow2_pos, lemma_pow2_unfold, lemma_pow2_strictly_increases, lemma2_to64};
use vstd::arithmetic::div_mod::{lemma_fundamental_div_mod, lemma_mod_bound, lemma_basic_div, lemma_small_mod};
use vstd::bits::{lemma_u64_pow2_no_overflow, lemma_u64_shl_is_mul};

verus! {

/// `magnitude * 2^scale` rounded to the nearest integer, a tie going up
/// (away from zero, since the magnitude is not negative).
pub open spec fn round_scaled(magnitude: nat, scale: int) -> nat {
    if scale >= 0 {
        magnitude * pow2(scale as nat)
    } else {
        (magnitude + pow2((-scale - 1) as nat)) / pow2((-scale) as nat)
    }
}

/// `numerator / denominator` rounded to the nearest integer, a tie going to
/// the even neighbour.
pub open spec fn round_half_even(numerator: nat, denominator: nat) -> nat {
    let quotient = numerator / denominator;
    let rest = numerator % denominator;
    if 2 * rest > denominator || (2 * rest == denominator && quotient % 2 == 1) {
        quotient + 1
    } else {
        quotient
    }
}

/// The smaller of `value` and `cap`.
pub open spec fn capped(value: nat, cap: nat) -> nat {
    if value > cap {
        cap
    } else {
        value
    }
}

/// Powers of two never decrease with the exponent.
pub proof fn lemma_pow2_monotonic(low: nat, high: nat)
    requires
        low <= high,
    ensures
        pow2(low) <= pow2(high),
{
    if low < high {
        lemma_pow2_strictly_increases(low, high);
    }
}

/// A rounded quotient lies within half a unit of the exact one: for a
/// negative `scale`, with `d = 2^-scale`, the result `q` satisfies
/// `q - 1/2 <= magnitude / d < q + 1/2`.
pub proof fn lemma_round_scaled_nearest(magnitude: nat, scale: int)
    requires
        scale < 0,
    ensures
        2 * (round_scaled(magnitude, scale) * pow2((-scale) as nat)) - pow2((-scale) as nat) <= 2
            * magnitude,
        2 * magnitude < 2 * (round_scaled(magnitude, scale) * pow2((-scale) as nat)) + pow2(
            (-scale) as nat,
        ),
{
    let half = pow2((-scale - 1) as nat) as int;
    let unit = pow2((-scale) as nat) as int;
    let shifted = magnitude + half;
    lemma_pow2_unfold((-scale) as nat);
    lemma_pow2_pos((-scale - 1) as nat);
    lemma_fundamental_div_mod(shifted, unit);
    lemma_mod_bound(shifted, unit);
    assert(unit * (shifted / unit) == (shifted / unit) * unit) by (nonlinear_arith);
}

/// Zero rounds to zero at every scale.
pub proof fn lemma_round_scaled_zero(scale: int)
    ensures
        round_scaled(0, scale) == 0,
{
    if scale < 0 {
        lemma_pow2_unfold((-scale) as nat);
        lemma_pow2_pos((-scale - 1) as nat);
        lemma_basic_div(pow2((-scale - 1) as nat) as int, pow2((-scale) as nat) as int);
    } else {
        assert(0 * pow2(scale as nat) == 0);
    }
}

/// A quotient whose division is exact is its own rounding.
pub proof fn lemma_round_half_even_exact(quotient: nat, denominator: nat)
    requires
        denominator > 0,
    ensures
        round_half_even(quotient * denominator, denominator) == quotient,
{
    vstd::arithmetic::div_mod::lemma_div_multiples_vanish(quotient as int, denominator as int);
    vstd::arithmetic::div_mod::lemma_mod_multiples_basic(quotient as int, denominator as int);
    assert(quotient * denominator == denominator * quotient) by (nonlinear_arith);
}

/// `2^exponent` as a machine integer.
pub(crate) fn pow2_u64(exponent: u64) -> (power: u64)
    requires
        exponent < 64,
    ensures
        power == pow2(exponent as nat),
        power >= 1,
{
    proof {
        lemma_u64_pow2_no_overflow(exponent as nat);
        lemma_u64_shl_is_mul(1u64, exponent);
    }
    1u64 << exponent
}

/// [`round_scaled`], capped at `cap`.
pub(crate) fn round_scaled_capped(magnitude: u32, scale: i64, cap: u32) -> (rounded: u32)
    requires
        magnitude < 0x100_0000,
    ensures
        rounded == capped(round_scaled(magnitude as nat, scale as int), cap as nat),
{
    if magnitude == 0 {
        proof {
            lemma_round_scaled_zero(scale as int);
        }
        0
    } else if scale >= 32 {
        proof {
            lemma_pow2_monotonic(32, scale as nat);
            lemma2_to64();
            assert(magnitude * pow2(scale as nat) >= 0x1_0000_0000) by (nonlinear_arith)
                requires
                    magnitude >= 1,
                    pow2(scale as nat) >= 0x1_0000_0000,
            ;
        }
        cap
    } else if scale >= 0 {
        let factor: u64 = pow2_u64(scale as u64);
        proof {
            lemma_pow2_monotonic(scale as nat, 31);
            lemma2_to64();
            assert(magnitude * factor < 0x80_0000_0000_0000) by (nonlinear_arith)
                requires
                    magnitude < 0x100_0000,
                    factor <= 0x8000_0000,
            ;
        }
        let exact: u64 = magnitude as u64 * factor;
        if exact > cap as u64 {
            cap
        } else {
            exact as u32
        }
    } else if scale <= -26 {
        proof {
            let half = pow2((-scale - 1) as nat);
            lemma_pow2_unfold((-scale) as nat);
            lemma_pow2_monotonic(24, (-scale - 1) as nat);
            lemma2_to64();
            lemma_basic_div((magnitude + half) as int, pow2((-scale) as nat) as int);
        }
        0
    } else {
        let half: u64 = pow2_u64((-scale - 1) as u64);
        let unit: u64 = pow2_u64((-scale) as u64);
        proof {
            lemma_pow2_monotonic((-scale - 1) as nat, 24);
            lemma2_to64();
        }
        let quotient: u64 = (magnitude as u64 + half) / unit;
        if quotient > cap as u64 {
            cap
        } else {
            quotient as u32
        }
    }
}

/// [`round_half_even`] of `numerator / 2^shift`.
pub(crate) fn round_half_even_shift(numerator: u32, shift: i64) -> (rounded: u32)
    requires
        numerator < 0x100_0000,
        shift >= 1,
    ensures
        rounded == round_half_even(numerator as nat, pow2(shift as nat)),
        rounded <= 0x80_0000,
{
    if shift >= 26 {
        proof {
            lemma_pow2_monotonic(26, shift as nat);
            lemma2_to64();
            lemma_basic_div(numerator as int, pow2(shift as nat) as int);
            lemma_small_mod(numerator as nat, pow2(shift as nat));
        }
        0
    } else {
        let unit: u64 = pow2_u64(shift as u64);
        proof {
            lemma_pow2_monotonic(1, shift as nat);
            lemma_pow2_monotonic(shift as nat, 25);
            lemma2_to64();
            lemma_fundamental_div_mod(numerator as int, unit as int);
            lemma_mod_bound(numerator as int, unit as int);
            assert(numerator as int / unit as int <= 0x7f_ffff) by (nonlinear_arith)
                requires
                    numerator < 0x100_0000,
                    unit >= 2,
                    numerator as int == unit as int * (numerator as int / unit as int) + (numerator as int % unit as int),
                    0 <= numerator as int % unit as int,
            ;
        }
        let quotient: u64 = numerator as u64 / unit;
        let rest: u64 = numerator as u64 % unit;
        if 2 * rest > unit || (2 * rest == unit && quotient % 2 == 1) {
            (quotient + 1) as u32
        } else {
            quotient as u32
        }
    }
}

} // verus!
