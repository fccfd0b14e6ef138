//! Single-precision floats held as their IEEE 754 bit patterns.
//!
//! Radar samples are `f32` values; the library keeps them as the `u32` bit
//! pattern that `f32::to_bits` gives and orders them by the IEEE 754 rules.
use vstd::arithmetic::power2::{
    lemma2_to64, lemma_pow2_adds, lemma_pow2_pos, lemma_pow2_strictly_increases, lemma_pow2_unfold,
    pow2,
};
use vstd::prelude::*;

verus! {

/// Bit pattern of the quiet NaN that marks a missing sample.
pub const NAN_BITS: u32 = 0x7fc0_0000;

/// Bit pattern of `-9000.0`: a sample at or below it carries no data.
pub const NODATA_BITS: u32 = 0xc60c_a000;

/// The sign bit is set.
pub open spec fn is_negative(bits: u32) -> bool {
    bits >= 0x8000_0000
}

/// Exponent and fraction, without the sign bit.
pub open spec fn magnitude(bits: u32) -> int {
    (bits % 0x8000_0000) as int
}

/// The pattern encodes a NaN: all exponent bits set and a non-zero fraction.
pub open spec fn is_nan(bits: u32) -> bool {
    magnitude(bits) > 0x7f80_0000
}

/// IEEE 754 `a < b` on the values that the two patterns encode: false when
/// either is a NaN; `-0.0` and `+0.0` compare equal.
pub open spec fn float_lt(a: u32, b: u32) -> bool {
    &&& !is_nan(a)
    &&& !is_nan(b)
    &&& if !is_negative(a) && !is_negative(b) {
        magnitude(a) < magnitude(b)
    } else if is_negative(a) && !is_negative(b) {
        !(magnitude(a) == 0 && magnitude(b) == 0)
    } else if is_negative(a) && is_negative(b) {
        magnitude(a) > magnitude(b)
    } else {
        false
    }
}

/// Whether the pattern encodes a NaN.
pub fn bits_is_nan(bits: u32) -> (r: bool)
    ensures
        r == is_nan(bits),
{
    bits % 0x8000_0000 > 0x7f80_0000
}

/// IEEE 754 `a < b` on two bit patterns.
pub fn bits_lt(a: u32, b: u32) -> (r: bool)
    ensures
        r == float_lt(a, b),
{
    if bits_is_nan(a) || bits_is_nan(b) {
        return false;
    }
    let neg_a = a >= 0x8000_0000;
    let neg_b = b >= 0x8000_0000;
    let mag_a = a % 0x8000_0000;
    let mag_b = b % 0x8000_0000;
    if !neg_a && !neg_b {
        mag_a < mag_b
    } else if neg_a && !neg_b {
        !(mag_a == 0 && mag_b == 0)
    } else if neg_a && neg_b {
        mag_a > mag_b
    } else {
        false
    }
}

/// `float_lt` is irreflexive.
pub proof fn lemma_float_lt_irreflexive(a: u32)
    ensures
        !float_lt(a, a),
{
}

/// `float_lt` is transitive.
pub proof fn lemma_float_lt_transitive(a: u32, b: u32, c: u32)
    requires
        float_lt(a, b),
        float_lt(b, c),
    ensures
        float_lt(a, c),
{
}

/// If `a` is not below `b` and `c` is below `b`, then `c` is below `a`.
pub proof fn lemma_float_not_lt_trans(a: u32, b: u32, c: u32)
    requires
        !is_nan(a),
        !is_nan(b),
        !is_nan(c),
        !float_lt(a, b),
        float_lt(c, b),
    ensures
        float_lt(c, a),
{
}

/// The biased exponent field (8 bits).
pub open spec fn exponent_field(bits: u32) -> int {
    magnitude(bits) / 0x80_0000
}

/// The fraction field (23 bits).
pub open spec fn fraction_field(bits: u32) -> int {
    magnitude(bits) % 0x80_0000
}

/// The pattern encodes a finite number (not an infinity, not a NaN).
pub open spec fn is_finite(bits: u32) -> bool {
    exponent_field(bits) < 255
}

/// The absolute value of the real number that a finite pattern encodes,
/// times 2^149 (which makes it a whole number): `f * 2^-149` for subnormal
/// numbers, `(1 + f / 2^23) * 2^(e - 127)` for normal ones.
pub open spec fn scaled_abs(bits: u32) -> int {
    if exponent_field(bits) == 0 {
        fraction_field(bits)
    } else {
        (0x80_0000 + fraction_field(bits)) * pow2((exponent_field(bits) - 1) as nat)
    }
}

/// The real number that a finite pattern encodes, times 2^149.
pub open spec fn scaled_value(bits: u32) -> int {
    if is_negative(bits) {
        -scaled_abs(bits)
    } else {
        scaled_abs(bits)
    }
}

/// Between finite patterns, a larger magnitude field encodes a larger
/// absolute value.
proof fn lemma_scaled_abs_monotone(a: u32, b: u32)
    requires
        is_finite(a),
        is_finite(b),
        magnitude(a) < magnitude(b),
    ensures
        scaled_abs(a) < scaled_abs(b),
{
    let ea = exponent_field(a);
    let eb = exponent_field(b);
    let fa = fraction_field(a);
    let fb = fraction_field(b);
    assert(magnitude(a) == ea * 0x80_0000 + fa);
    assert(magnitude(b) == eb * 0x80_0000 + fb);
    assert(ea <= eb);
    if eb >= 1 {
        lemma_pow2_pos((eb - 1) as nat);
    }
    if ea == eb {
        assert(fa < fb);
        if ea >= 1 {
            let p = pow2((ea - 1) as nat);
            assert((0x80_0000 + fa) * p < (0x80_0000 + fb) * p) by (nonlinear_arith)
                requires
                    p > 0,
                    fa < fb,
            ;
        }
    } else {
        let pb = pow2((eb - 1) as nat);
        assert(0x80_0000 * pb <= (0x80_0000 + fb) * pb) by (nonlinear_arith)
            requires
                pb > 0,
                fb >= 0,
        ;
        if ea == 0 {
            assert(fa < 0x80_0000);
            assert(0x80_0000 <= 0x80_0000 * pb) by (nonlinear_arith)
                requires
                    pb >= 1,
            ;
        } else {
            let pa = pow2((ea - 1) as nat);
            lemma_pow2_pos((ea - 1) as nat);
            lemma_pow2_unfold(ea as nat);
            if ea < eb - 1 {
                lemma_pow2_strictly_increases(ea as nat, (eb - 1) as nat);
            }
            assert(pow2(ea as nat) <= pb);
            assert((0x80_0000 + fa) * pa < 0x80_0000 * (2 * pa)) by (nonlinear_arith)
                requires
                    pa > 0,
                    fa < 0x80_0000,
            ;
            assert(0x80_0000 * pow2(ea as nat) <= 0x80_0000 * pb) by (nonlinear_arith)
                requires
                    pow2(ea as nat) <= pb,
            ;
        }
    }
}

/// `scaled_abs` is zero exactly for the two zeros.
proof fn lemma_scaled_abs_zero(a: u32)
    requires
        is_finite(a),
    ensures
        scaled_abs(a) >= 0,
        scaled_abs(a) == 0 <==> magnitude(a) == 0,
{
    if exponent_field(a) >= 1 {
        lemma_pow2_pos((exponent_field(a) - 1) as nat);
        let p = pow2((exponent_field(a) - 1) as nat);
        assert((0x80_0000 + fraction_field(a)) * p > 0) by (nonlinear_arith)
            requires
                p > 0,
                fraction_field(a) >= 0,
        ;
    }
}

/// Between finite numbers, `float_lt` is the order of the real numbers that
/// the patterns encode.
pub proof fn lemma_float_lt_is_real_order(a: u32, b: u32)
    requires
        is_finite(a),
        is_finite(b),
    ensures
        float_lt(a, b) <==> scaled_value(a) < scaled_value(b),
{
    lemma_scaled_abs_zero(a);
    lemma_scaled_abs_zero(b);
    if magnitude(a) < magnitude(b) {
        lemma_scaled_abs_monotone(a, b);
    } else if magnitude(b) < magnitude(a) {
        lemma_scaled_abs_monotone(b, a);
    }
}

/// `+inf` is above every other number and `-inf` below every other number.
pub proof fn lemma_float_lt_infinities(a: u32)
    requires
        !is_nan(a),
    ensures
        float_lt(a, 0x7f80_0000) <==> a != 0x7f80_0000,
        !float_lt(0x7f80_0000, a),
        float_lt(0xff80_0000, a) <==> a != 0xff80_0000,
        !float_lt(a, 0xff80_0000),
{
}

/// The no-data level is the number -9000.
pub proof fn lemma_nodata_is_minus_9000()
    ensures
        is_finite(NODATA_BITS),
        scaled_value(NODATA_BITS) == -9000 * pow2(149),
{
    lemma2_to64();
    lemma_pow2_adds(10, 139);
    assert(exponent_field(NODATA_BITS) == 140);
    assert(fraction_field(NODATA_BITS) == 827392);
}

} // verus!
