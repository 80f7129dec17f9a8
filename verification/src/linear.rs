//! The PMBus LINEAR16 and LINEAR11 number formats.
//!
//! LINEAR16 is an unsigned 16-bit mantissa whose exponent is agreed out of
//! band. LINEAR11 packs an 11-bit two's-complement mantissa into the low bits
//! of a 16-bit word and a 5-bit two's-complement exponent into the high bits.
//! Either way the number stood for is `mantissa * 2^exponent`.
//!
//! Encoding rounds to the nearest mantissa, a tie going away from zero, and
//! saturates at the ends of the mantissa's range.

use vstd::prelude::*;
use vstd::arithmetic::power2::{pow2, lemma_pow2_pos, lemma_pow2_adds, lemma2_to64};
use crate::binary32::Binary32;
use crate::rounding::{
    round_scaled,
    capped,
    round_scaled_capped,
    lemma_round_scaled_nearest,
    lemma_round_scaled_zero,
    lemma_round_half_even_exact,
    lemma_pow2_monotonic,
};

verus! {

/// The largest LINEAR16 mantissa.
pub const LINEAR16_MAX: u16 = 65535;

/// The least LINEAR11 exponent.
pub const LINEAR11_MIN_EXPONENT: i32 = -16;

/// The largest LINEAR11 exponent.
pub const LINEAR11_MAX_EXPONENT: i32 = 15;

/// The magnitude of `value / 2^exponent`, rounded to the nearest integer with
/// a tie going away from zero, for a finite `value`.
pub open spec fn quotient(value: Binary32, exponent: int) -> nat {
    round_scaled(value.significand(), value.scale() - exponent)
}

/// The LINEAR16 mantissa of `value` at `exponent`: `value / 2^exponent`
/// rounded, and clamped to `0..=65535`. A NaN counts as zero.
pub open spec fn linear16_mantissa(value: Binary32, exponent: int) -> nat {
    if value.nan() || value.negative() {
        0
    } else if value.infinite() {
        65535
    } else {
        capped(quotient(value, exponent), 65535)
    }
}

/// The largest magnitude of an 11-bit two's-complement mantissa of the given
/// sign.
pub open spec fn mantissa11_limit(negative: bool) -> nat {
    if negative {
        1024
    } else {
        1023
    }
}

/// `value / 2^exponent`, rounded, is an 11-bit two's-complement number.
pub open spec fn fits11(value: Binary32, exponent: int) -> bool {
    quotient(value, exponent) <= mantissa11_limit(value.negative())
}

/// The least exponent from `from` up to 15 at which `value` fits, and 15 if
/// there is none.
pub open spec fn least_fit(value: Binary32, from: int) -> int
    decreases 15 - from,
{
    if from >= 15 || fits11(value, from) {
        from
    } else {
        least_fit(value, from + 1)
    }
}

/// The LINEAR11 exponent chosen for `value`: the least one in `-16..=15` at
/// which the rounded mantissa fits; 15 for what is too large for any; -16 for
/// a NaN, which counts as zero.
pub open spec fn linear11_exponent(value: Binary32) -> int {
    if value.nan() {
        -16
    } else if value.infinite() {
        15
    } else {
        least_fit(value, -16)
    }
}

/// The LINEAR11 mantissa chosen for `value`: `value / 2^exponent` rounded at
/// the chosen exponent, and clamped to `-1024..=1023`.
pub open spec fn linear11_mantissa(value: Binary32) -> int {
    let limit = mantissa11_limit(value.negative());
    let magnitude = if value.nan() {
        0
    } else if value.infinite() {
        limit
    } else {
        capped(quotient(value, linear11_exponent(value)), limit)
    };
    if value.negative() {
        -(magnitude as int)
    } else {
        magnitude as int
    }
}

/// The LINEAR11 word that holds `mantissa` and `exponent`, each in two's
/// complement.
pub open spec fn pack11(mantissa: int, exponent: int) -> int {
    (exponent % 32) * 2048 + mantissa % 2048
}

/// The LINEAR11 word of `value`, as [`encode_signed11`] returns it.
pub open spec fn encoded11(value: Binary32) -> u16 {
    pack11(linear11_mantissa(value), linear11_exponent(value)) as u16
}

/// The mantissa held in a LINEAR11 word: its low 11 bits, sign-extended.
pub open spec fn mantissa11(word: u16) -> int {
    let low = word as int % 2048;
    if low >= 1024 {
        low - 2048
    } else {
        low
    }
}

/// The exponent held in a LINEAR11 word: its high 5 bits, sign-extended.
pub open spec fn exponent5(word: u16) -> int {
    let high = word as int / 2048;
    if high >= 16 {
        high - 32
    } else {
        high
    }
}

/// Encodes `value` as a LINEAR16 mantissa at the given exponent.
///
/// Total: what is below zero gives 0, what is above the range gives 65535.
pub fn encode_unsigned16(value: Binary32, exponent: i32) -> (mantissa: u16)
    ensures
        mantissa == linear16_mantissa(value, exponent as int),
{
    if value.is_nan() || value.is_sign_negative() {
        0
    } else if value.is_infinite() {
        LINEAR16_MAX
    } else {
        let significand: u32 = value.significand_bits();
        let scale: i32 = value.scale_bits();
        let rounded: u32 = round_scaled_capped(significand, scale as i64 - exponent as i64, 65535);
        rounded as u16
    }
}

/// Decodes a LINEAR16 mantissa at the given exponent: the number nearest to
/// `mantissa * 2^exponent`, which is that product itself wherever single
/// precision can hold it.
pub fn decode_unsigned16(mantissa: u16, exponent: i32) -> (value: Binary32)
    ensures
        value.nearest_to(false, mantissa as nat, exponent as int),
{
    Binary32::from_scaled(false, mantissa as u32, exponent)
}

/// Encodes `value` as a LINEAR11 word, at the least exponent at which the
/// rounded mantissa fits.
///
/// Total: what no exponent can hold is clamped to the largest mantissa of its
/// sign at exponent 15.
pub fn encode_signed11(value: Binary32) -> (word: u16)
    ensures
        word == pack11(linear11_mantissa(value), linear11_exponent(value)),
{
    let negative: bool = value.is_sign_negative();
    let limit: u32 = if negative {
        1024
    } else {
        1023
    };
    if value.is_nan() {
        return pack_word(negative, 0, LINEAR11_MIN_EXPONENT);
    }
    if value.is_infinite() {
        return pack_word(negative, limit, LINEAR11_MAX_EXPONENT);
    }
    let significand: u32 = value.significand_bits();
    let scale: i32 = value.scale_bits();
    let mut exponent: i32 = LINEAR11_MIN_EXPONENT;
    let mut rounded: u32 = round_scaled_capped(significand, scale as i64 + 16, 2048);
    while exponent < LINEAR11_MAX_EXPONENT && rounded > limit
        invariant
            -16 <= exponent <= 15,
            limit == mantissa11_limit(value.negative()),
            significand == value.significand(),
            scale == value.scale(),
            rounded == capped(quotient(value, exponent as int), 2048),
            least_fit(value, -16) == least_fit(value, exponent as int),
        decreases 15 - exponent,
    {
        exponent = exponent + 1;
        rounded = round_scaled_capped(significand, scale as i64 - exponent as i64, 2048);
    }
    let magnitude: u32 = if rounded > limit {
        limit
    } else {
        rounded
    };
    pack_word(negative, magnitude, exponent)
}

/// Packs a sign, a magnitude and an exponent into a LINEAR11 word.
fn pack_word(negative: bool, magnitude: u32, exponent: i32) -> (word: u16)
    requires
        magnitude <= mantissa11_limit(negative),
        -16 <= exponent <= 15,
    ensures
        word == pack11(
            if negative {
                -(magnitude as int)
            } else {
                magnitude as int
            },
            exponent as int,
        ),
{
    let low: u32 = if negative && magnitude > 0 {
        2048 - magnitude
    } else {
        magnitude
    };
    let high: u32 = if exponent < 0 {
        (exponent + 32) as u32
    } else {
        exponent as u32
    };
    (high * 2048 + low) as u16
}

/// Decodes a LINEAR11 word: exactly `mantissa * 2^exponent`, which single
/// precision holds for every word.
pub fn decode_signed11(word: u16) -> (value: Binary32)
    ensures
        value.finite(),
        value.negative() == (mantissa11(word) < 0),
        value.units() == mantissa11(word) * pow2((exponent5(word) + 149) as nat),
{
    let low: u32 = (word % 2048) as u32;
    let high: u32 = (word / 2048) as u32;
    let negative: bool = low >= 1024;
    let magnitude: u32 = if negative {
        2048 - low
    } else {
        low
    };
    let exponent: i32 = if high >= 16 {
        high as i32 - 32
    } else {
        high as i32
    };
    proof {
        let power = pow2((exponent + 149) as nat);
        lemma_pow2_monotonic((exponent + 149) as nat, 164);
        lemma_pow2_adds(11, 164);
        lemma_pow2_monotonic(175, 277);
        lemma_pow2_pos((exponent + 149) as nat);
        lemma2_to64();
        assert(magnitude * power < pow2(11) * pow2(164)) by (nonlinear_arith)
            requires
                magnitude < pow2(11),
                0 < power <= pow2(164),
        ;
        assert((-(magnitude as int)) * power == -(magnitude * power)) by (nonlinear_arith);
    }
    Binary32::from_scaled(negative, magnitude, exponent)
}

/// The chosen LINEAR11 exponent lies in `-16..=15`, and the value fits at it
/// unless it fits at no exponent.
pub proof fn lemma_linear11_exponent_fits(value: Binary32)
    ensures
        -16 <= linear11_exponent(value) <= 15,
        value.finite() ==> fits11(value, linear11_exponent(value)) || (linear11_exponent(value)
            == 15 && !fits11(value, 15)),
{
    lemma_least_fit_range(value, -16);
}

/// The chosen LINEAR11 exponent is the least: a finite value fits at no
/// smaller exponent of the format.
pub proof fn lemma_linear11_exponent_least(value: Binary32, smaller: int)
    requires
        value.finite(),
        -16 <= smaller < linear11_exponent(value),
    ensures
        !fits11(value, smaller),
{
    lemma_least_fit_skips(value, -16, smaller);
}

proof fn lemma_least_fit_range(value: Binary32, from: int)
    requires
        from <= 15,
    ensures
        from <= least_fit(value, from) <= 15,
        fits11(value, least_fit(value, from)) || least_fit(value, from) == 15,
    decreases 15 - from,
{
    if from < 15 && !fits11(value, from) {
        lemma_least_fit_range(value, from + 1);
    }
}

proof fn lemma_least_fit_skips(value: Binary32, from: int, smaller: int)
    requires
        from <= smaller < least_fit(value, from),
    ensures
        !fits11(value, smaller),
    decreases 15 - from,
{
    if from < 15 && !fits11(value, from) && from < smaller {
        lemma_least_fit_skips(value, from + 1, smaller);
    }
}

/// Unpacking a packed LINEAR11 word gives back the mantissa and the exponent.
pub proof fn lemma_unpack_pack(mantissa: int, exponent: int)
    requires
        -1024 <= mantissa <= 1023,
        -16 <= exponent <= 15,
    ensures
        0 <= pack11(mantissa, exponent) <= 65535,
        mantissa11(pack11(mantissa, exponent) as u16) == mantissa,
        exponent5(pack11(mantissa, exponent) as u16) == exponent,
{
}

/// Decoding a LINEAR16 mantissa is exact at every exponent from -149 to 112:
/// the number decoded is finite and is `mantissa * 2^exponent`.
pub proof fn lemma_linear16_decodes_exactly(mantissa: u16, exponent: int, decoded: Binary32)
    requires
        -149 <= exponent <= 112,
        decoded.nearest_to(false, mantissa as nat, exponent),
    ensures
        decoded.finite(),
        decoded.units() == mantissa * pow2((exponent + 149) as nat),
{
    let power = pow2((exponent + 149) as nat);
    lemma_pow2_monotonic((exponent + 149) as nat, 261);
    lemma_pow2_adds(16, 261);
    lemma_pow2_pos((exponent + 149) as nat);
    lemma2_to64();
    assert(mantissa * power < pow2(16) * pow2(261)) by (nonlinear_arith)
        requires
            mantissa < pow2(16),
            0 < power <= pow2(261),
    ;
}

/// Round trip through LINEAR16.
///
/// Let `value` be finite, not below zero, and within the range of the format
/// at `exponent` (its rounded quotient is at most 65535), and let `decoded`
/// be what decoding its mantissa at the same exponent gives, itself finite.
/// Then `decoded` differs from `value` by at most half a quantization step
/// `2^exponent`; where the step is finer than single precision itself, the
/// two are equal.
pub proof fn lemma_linear16_round_trip(value: Binary32, exponent: int, decoded: Binary32)
    requires
        value.finite(),
        value.units() >= 0,
        quotient(value, exponent) <= 65535,
        decoded.nearest_to(false, linear16_mantissa(value, exponent), exponent),
        decoded.finite(),
    ensures
        exponent >= -149 ==> 2 * (decoded.units() - value.units()) <= pow2((exponent + 149) as nat)
            && 2 * (value.units() - decoded.units()) <= pow2((exponent + 149) as nat),
        exponent < -149 ==> decoded.units() == value.units(),
{
    let significand = value.significand();
    let shift = (value.scale() + 149) as nat;
    let mantissa = quotient(value, exponent);
    let gap = value.scale() - exponent;
    lemma_pow2_pos(shift);
    if value.negative() {
        assert(significand == 0) by (nonlinear_arith)
            requires
                significand * pow2(shift) <= 0,
                pow2(shift) > 0,
        ;
        lemma_round_scaled_zero(gap);
    }
    assert(linear16_mantissa(value, exponent) == mantissa);
    assert(value.units() == significand * pow2(shift));
    if exponent >= -149 {
        let step = pow2((exponent + 149) as nat);
        assert(decoded.units() == mantissa * step);
        lemma_scaled_error(significand, shift, gap);
    } else {
        let fine = pow2((-149 - exponent) as nat);
        lemma_pow2_adds(shift, (-149 - exponent) as nat);
        lemma_pow2_pos((-149 - exponent) as nat);
        assert(mantissa == (significand * pow2(shift)) * fine) by (nonlinear_arith)
            requires
                mantissa == significand * pow2(gap as nat),
                pow2(gap as nat) == pow2(shift) * fine,
        ;
        lemma_round_half_even_exact(significand * pow2(shift), fine);
    }
}

/// Round trip through LINEAR11.
///
/// Let `value` be finite and within the range of the format (it fits at
/// exponent 15), and let `decoded` be what decoding its word gives. Then
/// `decoded` differs from `value` by at most half a quantization step
/// `2^exponent` at the chosen exponent.
pub proof fn lemma_linear11_round_trip(value: Binary32, decoded: Binary32)
    requires
        value.finite(),
        fits11(value, 15),
        decoded.finite(),
        decoded.units() == mantissa11(encoded11(value)) * pow2(
            (exponent5(encoded11(value)) + 149) as nat,
        ),
    ensures
        2 * (decoded.units() - value.units()) <= pow2((linear11_exponent(value) + 149) as nat),
        2 * (value.units() - decoded.units()) <= pow2((linear11_exponent(value) + 149) as nat),
{
    let exponent = linear11_exponent(value);
    let magnitude = quotient(value, exponent);
    lemma_linear11_exponent_fits(value);
    assert(fits11(value, exponent));
    assert(capped(magnitude, mantissa11_limit(value.negative())) == magnitude);
    lemma_unpack_pack(linear11_mantissa(value), exponent);
    let step = pow2((exponent + 149) as nat);
    lemma_scaled_error(value.significand(), (value.scale() + 149) as nat, value.scale() - exponent);
    if value.negative() {
        assert((-(magnitude as int)) * step == -(magnitude * step)) by (nonlinear_arith);
    }
}

/// Rounding `significand * 2^gap` to an integer `q` and scaling back errs by
/// at most half of the step: with everything counted in units of `2^-shift`
/// below the significand, `|q * 2^(shift - gap) - significand * 2^shift|` is
/// at most `2^(shift - gap) / 2`.
proof fn lemma_scaled_error(significand: nat, shift: nat, gap: int)
    requires
        shift - gap >= 0,
    ensures
        2 * (round_scaled(significand, gap) * pow2((shift - gap) as nat) - significand * pow2(shift))
            <= pow2((shift - gap) as nat),
        2 * (significand * pow2(shift) - round_scaled(significand, gap) * pow2(
            (shift - gap) as nat,
        )) <= pow2((shift - gap) as nat),
{
    let rounded = round_scaled(significand, gap);
    let step = pow2((shift - gap) as nat);
    let base = pow2(shift);
    lemma_pow2_pos(shift);
    lemma_pow2_pos((shift - gap) as nat);
    if gap >= 0 {
        lemma_pow2_adds(gap as nat, (shift - gap) as nat);
        assert(rounded * step == significand * base) by (nonlinear_arith)
            requires
                rounded == significand * pow2(gap as nat),
                base == pow2(gap as nat) * step,
        ;
    } else {
        let unit = pow2((-gap) as nat);
        lemma_pow2_adds(shift, (-gap) as nat);
        lemma_round_scaled_nearest(significand, gap);
        assert(2 * (rounded * step - significand * base) <= step && 2 * (significand * base
            - rounded * step) <= step) by (nonlinear_arith)
            requires
                step == base * unit,
                base > 0,
                2 * (rounded * unit) - unit <= 2 * significand,
                2 * significand < 2 * (rounded * unit) + unit,
        ;
    }
}

} // verus!
