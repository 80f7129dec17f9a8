//! Single-precision numbers as bit patterns.
//!
//! A finite single-precision number is a whole multiple of `2^-149`, the
//! smallest subnormal. [`Binary32::units`] is that multiple; it is the
//! mathematical value that the contracts of this crate speak of.

use vstd::prelude::*;
use vstd::arithmetic::power2::{pow2, lemma_pow2_pos, lemma_pow2_unfold, lemma_pow2_adds, lemma2_to64};
use crate::rounding::{round_half_even, round_half_even_shift, lemma_pow2_monotonic};

verus! {

/// An IEEE 754 single-precision number, held as its 32 bits.
///
/// Equality is equality of the bits: the two zeros differ, and a NaN equals
/// itself.
#[derive(Clone, Copy, Debug, PartialEq, Eq, Structural)]
pub struct Binary32 {
    pub bits: u32,
}

/// The bits of positive infinity.
pub const INFINITY_BITS: u32 = 0x7f80_0000;

/// The sign bit.
pub const SIGN_BIT: u32 = 0x8000_0000;

/// The least magnitude, in units of `2^-149`, that no finite number reaches:
/// `2^128`, which is `2^277` units.
pub open spec fn overflow_units() -> nat {
    pow2(277)
}

impl Binary32 {
    /// The sign bit is set.
    pub open spec fn negative(self) -> bool {
        self.bits >= 0x8000_0000
    }

    /// The eight exponent bits.
    pub open spec fn biased_exponent(self) -> int {
        (self.bits as int / 0x80_0000) % 256
    }

    /// The 23 fraction bits.
    pub open spec fn fraction(self) -> int {
        self.bits as int % 0x80_0000
    }

    /// Not a number.
    pub open spec fn nan(self) -> bool {
        self.biased_exponent() == 255 && self.fraction() != 0
    }

    /// Positive or negative infinity.
    pub open spec fn infinite(self) -> bool {
        self.biased_exponent() == 255 && self.fraction() == 0
    }

    /// Neither NaN nor an infinity.
    pub open spec fn finite(self) -> bool {
        self.biased_exponent() != 255
    }

    /// The integer significand of a finite number: the fraction, with the
    /// hidden bit for a normal number.
    pub open spec fn significand(self) -> nat {
        if self.biased_exponent() == 0 {
            self.fraction() as nat
        } else {
            (self.fraction() + 0x80_0000) as nat
        }
    }

    /// The power of two that the significand of a finite number counts: the
    /// magnitude is `significand * 2^scale`.
    pub open spec fn scale(self) -> int {
        if self.biased_exponent() == 0 {
            -149
        } else {
            self.biased_exponent() - 150
        }
    }

    /// The magnitude of a finite number, in units of `2^-149`.
    pub open spec fn magnitude_units(self) -> nat {
        self.significand() * pow2((self.scale() + 149) as nat)
    }

    /// The value of a finite number, in units of `2^-149`.
    pub open spec fn units(self) -> int {
        if self.negative() {
            -(self.magnitude_units() as int)
        } else {
            self.magnitude_units() as int
        }
    }

    /// `self` is the single-precision number nearest to
    /// `(-1)^negative * magnitude * 2^exponent`, a tie going to the even
    /// neighbour: the exact value where it can be represented, an infinity
    /// where it is too large, a multiple of `2^-149` below that resolution.
    pub open spec fn nearest_to(self, negative: bool, magnitude: nat, exponent: int) -> bool {
        &&& self.negative() == negative
        &&& if exponent < -149 {
            self.finite() && self.magnitude_units() == round_half_even(
                magnitude,
                pow2((-149 - exponent) as nat),
            )
        } else if magnitude * pow2((exponent + 149) as nat) < overflow_units() {
            self.finite() && self.magnitude_units() == magnitude * pow2((exponent + 149) as nat)
        } else {
            self.infinite()
        }
    }

    /// The number with the given bits.
    pub fn from_bits(bits: u32) -> (value: Self)
        ensures
            value.bits == bits,
    {
        Binary32 { bits }
    }

    /// The bits of the number.
    pub fn to_bits(&self) -> (bits: u32)
        ensures
            bits == self.bits,
    {
        self.bits
    }

    /// Whether the sign bit is set.
    pub fn is_sign_negative(&self) -> (negative: bool)
        ensures
            negative == self.negative(),
    {
        self.bits >= SIGN_BIT
    }

    /// Whether the number is a NaN.
    pub fn is_nan(&self) -> (nan: bool)
        ensures
            nan == self.nan(),
    {
        (self.bits / 0x80_0000) % 256 == 255 && self.bits % 0x80_0000 != 0
    }

    /// Whether the number is an infinity.
    pub fn is_infinite(&self) -> (infinite: bool)
        ensures
            infinite == self.infinite(),
    {
        (self.bits / 0x80_0000) % 256 == 255 && self.bits % 0x80_0000 == 0
    }

    /// Whether the number is neither a NaN nor an infinity.
    pub fn is_finite(&self) -> (finite: bool)
        ensures
            finite == self.finite(),
    {
        (self.bits / 0x80_0000) % 256 != 255
    }

    /// The integer significand of a finite number.
    pub fn significand_bits(&self) -> (significand: u32)
        ensures
            significand == self.significand(),
            significand < 0x100_0000,
    {
        let fraction: u32 = self.bits % 0x80_0000;
        if (self.bits / 0x80_0000) % 256 == 0 {
            fraction
        } else {
            fraction + 0x80_0000
        }
    }

    /// The power of two that the significand counts.
    pub fn scale_bits(&self) -> (scale: i32)
        ensures
            scale == self.scale(),
            -149 <= scale <= 105,
    {
        let biased: u32 = (self.bits / 0x80_0000) % 256;
        if biased == 0 {
            -149
        } else {
            biased as i32 - 150
        }
    }

    /// The number nearest to `(-1)^negative * magnitude * 2^exponent`.
    pub fn from_scaled(negative: bool, magnitude: u32, exponent: i32) -> (value: Self)
        requires
            magnitude < 0x100_0000,
        ensures
            value.nearest_to(negative, magnitude as nat, exponent as int),
    {
        let sign: u32 = if negative {
            SIGN_BIT
        } else {
            0
        };
        if exponent < -149 {
            let kept: u32 = round_half_even_shift(magnitude, -149 - exponent as i64);
            let value = Binary32 { bits: sign + kept };
            proof {
                lemma2_to64();
                assert(value.biased_exponent() == (if kept == 0x80_0000 { 1int } else { 0int }));
                assert(value.fraction() == (if kept == 0x80_0000 { 0int } else { kept as int }));
                assert(value.significand() == kept);
                assert(value.scale() == -149);
                assert(value.magnitude_units() == kept * pow2(0));
            }
            return value;
        }
        let ghost total: int = magnitude * pow2((exponent + 149) as nat);
        if magnitude == 0 {
            let value = Binary32 { bits: sign };
            proof {
                lemma_pow2_pos(277);
                assert(total == 0);
                assert(value.biased_exponent() == 0);
                assert(value.fraction() == 0);
                assert(value.magnitude_units() == 0 * pow2(0));
            }
            return value;
        }
        let mut significand: u32 = magnitude;
        let mut shift: i64 = exponent as i64 + 149;
        while significand < 0x80_0000 && shift > 0
            invariant
                0 < significand < 0x100_0000,
                shift >= 0,
                significand * pow2(shift as nat) == total,
            decreases shift,
        {
            proof {
                lemma_pow2_unfold(shift as nat);
                assert((significand * 2) * pow2((shift - 1) as nat) == significand * (2 * pow2(
                    (shift - 1) as nat,
                ))) by (nonlinear_arith);
            }
            significand = significand * 2;
            shift = shift - 1;
        }
        proof {
            lemma2_to64();
            vstd::arithmetic::power2::lemma2_to64_rest();
        }
        if shift >= 254 {
            proof {
                lemma_pow2_monotonic(254, shift as nat);
                lemma_pow2_adds(23, 254);
                assert(significand * pow2(shift as nat) >= pow2(23) * pow2(254)) by (nonlinear_arith)
                    requires
                        significand >= pow2(23),
                        pow2(shift as nat) >= pow2(254),
                ;
            }
            Binary32 { bits: sign + INFINITY_BITS }
        } else {
            proof {
                lemma_pow2_monotonic(shift as nat, 253);
                lemma_pow2_adds(24, 253);
                lemma_pow2_pos(shift as nat);
                assert(significand * pow2(shift as nat) < pow2(24) * pow2(253)) by (nonlinear_arith)
                    requires
                        significand < pow2(24),
                        0 < pow2(shift as nat) <= pow2(253),
                ;
            }
            let body: u32 = shift as u32 * 0x80_0000 + significand;
            Binary32 { bits: sign + body }
        }
    }
}

/// A number of a larger scale has a larger magnitude.
proof fn lemma_scale_orders_magnitudes(low: Binary32, high: Binary32)
    requires
        low.finite(),
        high.finite(),
        low.scale() < high.scale(),
    ensures
        low.magnitude_units() < high.magnitude_units(),
{
    let low_shift = (low.scale() + 149) as nat;
    let high_shift = (high.scale() + 149) as nat;
    lemma_pow2_monotonic(low_shift + 1, high_shift);
    lemma_pow2_unfold(low_shift + 1);
    lemma_pow2_pos(low_shift);
    assert(low.significand() * pow2(low_shift) < high.significand() * pow2(high_shift))
        by (nonlinear_arith)
        requires
            low.significand() < 0x100_0000,
            high.significand() >= 0x80_0000,
            pow2(high_shift) >= 2 * pow2(low_shift),
            pow2(low_shift) > 0,
    ;
}

/// A finite number is determined by its sign and its magnitude: two finite
/// numbers of one sign and one magnitude have the same bits.
pub proof fn lemma_magnitude_determines_bits(left: Binary32, right: Binary32)
    requires
        left.finite(),
        right.finite(),
        left.negative() == right.negative(),
        left.magnitude_units() == right.magnitude_units(),
    ensures
        left == right,
{
    if left.scale() < right.scale() {
        lemma_scale_orders_magnitudes(left, right);
    } else if right.scale() < left.scale() {
        lemma_scale_orders_magnitudes(right, left);
    } else {
        let shift = (left.scale() + 149) as nat;
        lemma_pow2_pos(shift);
        assert(left.significand() == right.significand()) by (nonlinear_arith)
            requires
                left.significand() * pow2(shift) == right.significand() * pow2(shift),
                pow2(shift) > 0,
        ;
        assert(left.biased_exponent() == right.biased_exponent());
        assert(left.fraction() == right.fraction());
        assert(left.bits == right.bits);
    }
}

} // verus!
