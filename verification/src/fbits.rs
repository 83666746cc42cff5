//! The bit-level model of IEEE-754 binary32 components.
//!
//! A component is carried as its 32-bit pattern: 1 sign bit, 8 exponent
//! bits, 23 fraction bits. The spec functions here say what a pattern
//! classifies as (finite, NaN, a zero) and what number it stands for;
//! the executable functions compute those classifications and are
//! proved to match.

use vstd::arithmetic::mul::{lemma_mul_inequality, lemma_mul_strict_inequality};
use vstd::arithmetic::power2::{
    lemma2_to64, lemma_pow2_adds, lemma_pow2_pos, lemma_pow2_strictly_increases, pow2,
};
use vstd::prelude::*;

verus! {

/// Sign bit of a binary32 pattern: 0 for positive, 1 for negative.
pub open spec fn sign_of(b: u32) -> u32 {
    b >> 31
}

/// Biased exponent field of a binary32 pattern (8 bits).
pub open spec fn exp_of(b: u32) -> u32 {
    (b >> 23) & 0xff
}

/// Fraction field of a binary32 pattern (23 bits).
pub open spec fn frac_of(b: u32) -> u32 {
    b & 0x7f_ffff
}

/// The pattern is a NaN: exponent all ones with a nonzero fraction.
pub open spec fn is_nan_bits(b: u32) -> bool {
    exp_of(b) == 0xff && frac_of(b) != 0
}

/// The pattern is finite: neither an infinity nor a NaN.
pub open spec fn is_finite_bits(b: u32) -> bool {
    exp_of(b) != 0xff
}

/// The pattern is a zero, of either sign.
pub open spec fn is_zero_bits(b: u32) -> bool {
    b & 0x7fff_ffff == 0
}

/// IEEE equality of two patterns: false when either is a NaN, true for
/// the two zeros, and bit equality otherwise (every other binary32
/// value has exactly one representation).
pub open spec fn float_eq_bits(a: u32, b: u32) -> bool {
    &&& !is_nan_bits(a)
    &&& !is_nan_bits(b)
    &&& (a == b || (is_zero_bits(a) && is_zero_bits(b)))
}

/// Magnitude of a finite pattern, scaled by 2^149 so that it is an
/// integer: subnormals are frac * 2^-149, normals are
/// (2^23 + frac) * 2^(exp - 150).
pub open spec fn magnitude_scaled(b: u32) -> int
    recommends
        is_finite_bits(b),
{
    if exp_of(b) == 0 {
        frac_of(b) as int
    } else {
        (0x80_0000 + frac_of(b)) * pow2((exp_of(b) - 1) as nat)
    }
}

/// Signed value of a finite pattern, scaled by 2^149.
pub open spec fn value_scaled(b: u32) -> int
    recommends
        is_finite_bits(b),
{
    if sign_of(b) == 1 {
        -magnitude_scaled(b)
    } else {
        magnitude_scaled(b)
    }
}

/// Whether the pattern is a NaN.
pub fn is_nan(b: u32) -> (r: bool)
    ensures
        r == is_nan_bits(b),
{
    (b >> 23) & 0xff == 0xff && b & 0x7f_ffff != 0
}

/// Whether the pattern is finite (not an infinity, not a NaN).
pub fn is_finite(b: u32) -> (r: bool)
    ensures
        r == is_finite_bits(b),
{
    (b >> 23) & 0xff != 0xff
}

/// Whether the pattern is a zero of either sign.
pub fn is_zero_value(b: u32) -> (r: bool)
    ensures
        r == is_zero_bits(b),
{
    b & 0x7fff_ffff == 0
}

/// IEEE equality of two patterns.
pub fn float_eq(a: u32, b: u32) -> (r: bool)
    ensures
        r == float_eq_bits(a, b),
{
    !is_nan(a) && !is_nan(b) && (a == b || (is_zero_value(a) && is_zero_value(b)))
}

/// Equal values have equal bit patterns, except that the two zeros
/// compare equal while differing in their sign bit. This is why a hash
/// over the bit patterns agrees with equality everywhere but on +0/-0.
pub proof fn lemma_float_eq_same_bits(a: u32, b: u32)
    requires
        float_eq_bits(a, b),
    ensures
        a == b || (is_zero_bits(a) && is_zero_bits(b)),
{
}

/// IEEE equality is symmetric.
pub proof fn lemma_float_eq_sym(a: u32, b: u32)
    ensures
        float_eq_bits(a, b) == float_eq_bits(b, a),
{
}

/// IEEE equality is reflexive exactly on the patterns that are not NaN.
pub proof fn lemma_float_eq_refl(a: u32)
    ensures
        float_eq_bits(a, a) == !is_nan_bits(a),
{
}

/// The ordered-encoding property of binary32: on finite patterns with
/// the sign bit clear, the integer order of the patterns is the order
/// of the magnitudes they denote.
pub proof fn lemma_magnitude_order(a: u32, b: u32)
    requires
        is_finite_bits(a),
        is_finite_bits(b),
        sign_of(a) == 0,
        sign_of(b) == 0,
        a < b,
    ensures
        magnitude_scaled(a) < magnitude_scaled(b),
{
    assert(a == exp_of(a) * 0x80_0000 + frac_of(a) && exp_of(a) < 0x100 && frac_of(a) < 0x80_0000)
        by (bit_vector)
        requires
            a >> 31 == 0u32,
    ;
    assert(b == exp_of(b) * 0x80_0000 + frac_of(b) && exp_of(b) < 0x100 && frac_of(b) < 0x80_0000)
        by (bit_vector)
        requires
            b >> 31 == 0u32,
    ;
    let ea = exp_of(a);
    let fa = frac_of(a);
    let eb = exp_of(b);
    let fb = frac_of(b);
    lemma2_to64();
    if ea == eb {
        if ea != 0 {
            lemma_pow2_pos((ea - 1) as nat);
            lemma_mul_strict_inequality(
                0x80_0000 + fa,
                0x80_0000 + fb,
                pow2((ea - 1) as nat) as int,
            );
        }
    } else {
        // eb is the larger exponent, so b's magnitude clears a power of
        // two that bounds a's magnitude from above
        assert(ea < eb);
        lemma_pow2_pos((eb - 1) as nat);
        lemma_pow2_adds(23, (eb - 1) as nat);
        lemma_mul_inequality(
            0x80_0000,
            0x80_0000 + fb,
            pow2((eb - 1) as nat) as int,
        );
        assert(pow2((23 + eb - 1) as nat) <= magnitude_scaled(b));
        if ea == 0 {
            if 23 < 23 + eb - 1 {
                lemma_pow2_strictly_increases(23, (23 + eb - 1) as nat);
            }
            assert(magnitude_scaled(a) < pow2(23));
        } else {
            lemma_pow2_pos((ea - 1) as nat);
            lemma_pow2_adds(24, (ea - 1) as nat);
            lemma_mul_strict_inequality(
                0x80_0000 + fa,
                0x100_0000,
                pow2((ea - 1) as nat) as int,
            );
            assert(magnitude_scaled(a) < pow2((24 + ea - 1) as nat));
            if 24 + ea - 1 < 23 + eb - 1 {
                lemma_pow2_strictly_increases((24 + ea - 1) as nat, (23 + eb - 1) as nat);
            }
        }
    }
}

/// The patterns of 1.0 and -1.0 denote plus and minus `pow2(149)` at
/// the scale of `value_scaled`.
proof fn lemma_unit_patterns()
    ensures
        is_finite_bits(0x3f80_0000u32),
        is_finite_bits(0xbf80_0000u32),
        !is_nan_bits(0x3f80_0000u32),
        !is_nan_bits(0xbf80_0000u32),
        sign_of(0x3f80_0000u32) == 0,
        sign_of(0xbf80_0000u32) == 1,
        value_scaled(0x3f80_0000u32) == pow2(149),
        value_scaled(0xbf80_0000u32) == -pow2(149),
        magnitude_scaled(0x3f80_0000u32) == pow2(149),
        magnitude_scaled(0xbf80_0000u32) == pow2(149),
{
    assert(exp_of(0x3f80_0000u32) == 127 && frac_of(0x3f80_0000u32) == 0 && sign_of(
        0x3f80_0000u32,
    ) == 0 && exp_of(0xbf80_0000u32) == 127 && frac_of(0xbf80_0000u32) == 0 && sign_of(
        0xbf80_0000u32,
    ) == 1) by (bit_vector);
    lemma2_to64();
    lemma_pow2_adds(23, 126);
}

/// Clamp of a component into [-1.0, 1.0], the step `angle_between`
/// applies to the cosine before taking the arccosine: a NaN passes
/// through, any value above 1 becomes 1, any value below -1 becomes
/// -1 (infinities included), and everything in the interval is kept
/// unchanged.
pub fn clamp_unit(b: u32) -> (r: u32)
    ensures
        is_nan_bits(b) ==> r == b,
        !is_nan_bits(b) ==> is_finite_bits(r) && -pow2(149) <= value_scaled(r) <= pow2(149),
        is_finite_bits(b) && value_scaled(b) > pow2(149) ==> r == 0x3f80_0000u32,
        is_finite_bits(b) && value_scaled(b) < -pow2(149) ==> r == 0xbf80_0000u32,
        is_finite_bits(b) && -pow2(149) <= value_scaled(b) <= pow2(149) ==> r == b,
        !is_finite_bits(b) && !is_nan_bits(b) ==> r == (if sign_of(b) == 1 {
            0xbf80_0000u32
        } else {
            0x3f80_0000u32
        }),
{
    proof {
        lemma_unit_patterns();
    }
    if is_nan(b) {
        return b;
    }
    if !is_finite(b) {
        if b >= 0x8000_0000 {
            proof {
                assert((b >> 31) == 1) by (bit_vector)
                    requires
                        b >= 0x8000_0000u32,
                ;
            }
            return 0xbf80_0000;
        } else {
            proof {
                assert((b >> 31) == 0) by (bit_vector)
                    requires
                        b < 0x8000_0000u32,
                ;
            }
            return 0x3f80_0000;
        }
    }
    let mag: u32 = b & 0x7fff_ffff;
    proof {
        assert((b & 0x7fff_ffff) >> 31 == 0 && exp_of(b & 0x7fff_ffff) == exp_of(b) && frac_of(
            b & 0x7fff_ffff,
        ) == frac_of(b) && ((b >> 31 == 0) ==> (b & 0x7fff_ffff) == b) && ((b >> 31 == 1) <==> b
            >= 0x8000_0000)) by (bit_vector);
        assert(magnitude_scaled(mag) == magnitude_scaled(b));
        if mag < 0x3f80_0000 {
            lemma_magnitude_order(mag, 0x3f80_0000);
        }
        if mag > 0x3f80_0000 {
            lemma_magnitude_order(0x3f80_0000, mag);
        }
        assert(magnitude_scaled(b) >= 0) by {
            if exp_of(b) != 0 {
                vstd::arithmetic::mul::lemma_mul_nonnegative(
                    0x80_0000 + frac_of(b) as int,
                    pow2((exp_of(b) - 1) as nat) as int,
                );
            }
        };
    }
    if mag <= 0x3f80_0000 {
        b
    } else if b >= 0x8000_0000 {
        0xbf80_0000
    } else {
        0x3f80_0000
    }
}

} // verus!
