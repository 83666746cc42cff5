//! Widening of 32-bit signed integers to binary32 patterns.
//!
//! An integer magnitude with at most 24 significant bits is represented
//! exactly; a larger one is rounded to 24 significant bits, to nearest
//! with ties to even, which is the IEEE-754 rule for this conversion.
//! The spec functions here define that rule over plain integers, and
//! `widen_i32` is proved to encode exactly the value the rule assigns.

use vstd::arithmetic::div_mod::{
    lemma_div_by_multiple, lemma_div_denominator, lemma_div_is_ordered,
    lemma_fundamental_div_mod, lemma_mod_division_less_than_divisor,
};
use vstd::arithmetic::mul::{
    lemma_mul_inequality, lemma_mul_is_associative, lemma_mul_is_commutative,
    lemma_mul_strict_inequality,
};
use vstd::arithmetic::power2::{
    lemma2_to64, lemma_pow2_adds, lemma_pow2_pos, lemma_pow2_strictly_increases,
    lemma_pow2_unfold, pow2,
};
use vstd::bits::{lemma_u32_shl_is_mul, lemma_u32_shr_is_div};
use vstd::prelude::*;

use crate::fbits::{
    exp_of, frac_of, is_finite_bits, lemma_magnitude_order, magnitude_scaled, sign_of,
};

verus! {

/// Number of binary digits of `m`; zero has none.
pub open spec fn bit_len(m: nat) -> nat
    decreases m,
{
    if m == 0 {
        0
    } else {
        (1 + bit_len(m / 2)) as nat
    }
}

/// `m / 2^s`, rounded to the nearest integer with ties to even.
pub open spec fn round_div_even(m: nat, s: nat) -> nat
    recommends
        1 <= s,
{
    let q = m / pow2(s);
    let r = m % pow2(s);
    let half = pow2((s - 1) as nat);
    if r > half || (r == half && q % 2 == 1) {
        (q + 1) as nat
    } else {
        q
    }
}

/// The magnitude binary32 assigns to an integer magnitude `m`: `m`
/// itself while it fits in 24 significant bits, otherwise `m` rounded
/// to 24 significant bits, to nearest with ties to even.
pub open spec fn widened_magnitude(m: nat) -> nat {
    if bit_len(m) <= 24 {
        m
    } else {
        let s = (bit_len(m) - 24) as nat;
        round_div_even(m, s) * pow2(s)
    }
}

/// Magnitude of an integer.
pub open spec fn abs_int(i: int) -> nat {
    if i < 0 {
        (-i) as nat
    } else {
        i as nat
    }
}

/// The pattern `b` is the binary32 widening of the integer `i`: it is
/// finite, it carries the sign of `i`, and its scaled magnitude is the
/// widened magnitude of `|i|` at the same scale. Zero widens to the
/// positive zero pattern. No two patterns satisfy this for the same
/// `i`, since finite patterns with equal scaled magnitudes and signs
/// are identical.
pub open spec fn is_widened(i: int, b: u32) -> bool {
    &&& is_finite_bits(b)
    &&& (i == 0 ==> b == 0)
    &&& (i != 0 ==> sign_of(b) == (if i < 0 {
        1u32
    } else {
        0u32
    }) && magnitude_scaled(b) == widened_magnitude(abs_int(i)) * pow2(149))
}

/// A positive magnitude lies between the two powers of two that its
/// digit count names.
proof fn lemma_bit_len_bounds(m: nat)
    requires
        1 <= m,
    ensures
        1 <= bit_len(m),
        pow2((bit_len(m) - 1) as nat) <= m < pow2(bit_len(m)),
    decreases m,
{
    if m == 1 {
        lemma2_to64();
        assert(bit_len(0) == 0);
    } else {
        lemma_bit_len_bounds(m / 2);
        let l = bit_len(m / 2);
        lemma_fundamental_div_mod(m as int, 2);
        lemma_mod_division_less_than_divisor(m as int, 2);
        lemma_pow2_unfold(l);
        lemma_pow2_unfold((l + 1) as nat);
        assert(2 * (m / 2) >= 2 * pow2((l - 1) as nat));
        assert(pow2(bit_len(m)) == pow2((l + 1) as nat));
    }
}

/// The digit count is the only `k + 1` with `2^k <= m < 2^(k + 1)`.
proof fn lemma_bit_len_unique(m: nat, k: nat)
    requires
        pow2(k) <= m < pow2(k + 1),
    ensures
        bit_len(m) == k + 1,
{
    lemma_pow2_pos(k);
    lemma_bit_len_bounds(m);
    let j = (bit_len(m) - 1) as nat;
    if j < k {
        if j + 1 < k {
            lemma_pow2_strictly_increases((j + 1) as nat, k);
        }
        assert(false);
    } else if k < j {
        if k + 1 < j {
            lemma_pow2_strictly_increases((k + 1) as nat, j);
        }
        assert(false);
    }
}

/// Up to 2^24 the widening is exact: every such magnitude has at most
/// 24 significant bits, or is 2^24 itself, which rounds to itself.
pub proof fn lemma_widened_exact(m: nat)
    requires
        m <= 0x100_0000,
    ensures
        widened_magnitude(m) == m,
{
    lemma2_to64();
    if m == 0 {
    } else if m < 0x100_0000 {
        lemma_bit_len_bounds(m);
        let j = (bit_len(m) - 1) as nat;
        if j >= 24 {
            if j > 24 {
                lemma_pow2_strictly_increases(24, j);
            }
            assert(false);
        }
    } else {
        lemma_bit_len_unique(m, 24);
        assert(round_div_even(m, 1) * pow2(1) == m);
    }
}

/// Rounding to nearest keeps the widened magnitude within half a unit
/// in the last place of the true magnitude: the error is at most
/// 2^(s - 1) where s is the number of bits rounded away.
pub proof fn lemma_widened_close(m: nat)
    ensures
        bit_len(m) <= 24 ==> widened_magnitude(m) == m,
        bit_len(m) > 24 ==> widened_magnitude(m) <= m + pow2((bit_len(m) - 25) as nat),
        bit_len(m) > 24 ==> m <= widened_magnitude(m) + pow2((bit_len(m) - 25) as nat),
{
    if bit_len(m) > 24 {
        let s = (bit_len(m) - 24) as nat;
        let q = m / pow2(s);
        let r = m % pow2(s);
        let half = pow2((s - 1) as nat);
        lemma_pow2_pos(s);
        lemma_fundamental_div_mod(m as int, pow2(s) as int);
        lemma_mod_division_less_than_divisor(m as int, pow2(s) as int);
        lemma_pow2_unfold(s);
        lemma_mul_is_commutative(q as int, pow2(s) as int);
        if r > half || (r == half && q % 2 == 1) {
            // rounding up: the result overshoots by 2^s - r <= half
            assert(widened_magnitude(m) == (q + 1) * pow2(s));
            vstd::arithmetic::mul::lemma_mul_is_distributive_add_other_way(
                pow2(s) as int,
                q as int,
                1,
            );
        } else {
            // rounding down: the result undershoots by r <= half
            assert(widened_magnitude(m) == q * pow2(s));
        }
    }
}

/// The widening contract pins the pattern down: no two patterns are
/// the widening of the same integer.
pub proof fn lemma_widened_unique(i: int, b1: u32, b2: u32)
    requires
        is_widened(i, b1),
        is_widened(i, b2),
    ensures
        b1 == b2,
{
    if i != 0 {
        let m1 = b1 & 0x7fff_ffff;
        let m2 = b2 & 0x7fff_ffff;
        assert((b1 & 0x7fff_ffff) >> 31 == 0 && exp_of(b1 & 0x7fff_ffff) == exp_of(b1)
            && frac_of(b1 & 0x7fff_ffff) == frac_of(b1)) by (bit_vector);
        assert((b2 & 0x7fff_ffff) >> 31 == 0 && exp_of(b2 & 0x7fff_ffff) == exp_of(b2)
            && frac_of(b2 & 0x7fff_ffff) == frac_of(b2)) by (bit_vector);
        assert(magnitude_scaled(m1) == magnitude_scaled(b1));
        assert(magnitude_scaled(m2) == magnitude_scaled(b2));
        if m1 < m2 {
            lemma_magnitude_order(m1, m2);
            assert(false);
        }
        if m2 < m1 {
            lemma_magnitude_order(m2, m1);
            assert(false);
        }
        assert(b1 >> 31 == b2 >> 31 && (b1 & 0x7fff_ffff) == (b2 & 0x7fff_ffff) ==> b1 == b2)
            by (bit_vector);
    }
}

/// Assembles sign, biased exponent and fraction fields into a pattern.
fn pack(sign: u32, e: u32, frac: u32) -> (b: u32)
    requires
        sign <= 1,
        1 <= e < 255,
        frac < 0x80_0000,
    ensures
        sign_of(b) == sign,
        exp_of(b) == e,
        frac_of(b) == frac,
{
    let b: u32 = (sign << 31u32) | (e << 23u32) | frac;
    proof {
        assert((((sign << 31u32) | (e << 23u32) | frac) >> 31u32) == sign
            && ((((sign << 31u32) | (e << 23u32) | frac) >> 23u32) & 0xff) == e
            && (((sign << 31u32) | (e << 23u32) | frac) & 0x7f_ffff) == frac) by (bit_vector)
            requires
                sign <= 1,
                1 <= e < 255,
                frac < 0x80_0000,
        ;
    }
    b
}

/// Binary32 widening of a 32-bit signed integer. The result is finite,
/// carries the sign of `i`, and holds `|i|` rounded to 24 significant
/// bits, to nearest with ties to even; zero becomes the positive zero
/// pattern.
pub fn widen_i32(i: i32) -> (r: u32)
    ensures
        is_widened(i as int, r),
{
    if i == 0 {
        proof {
            assert((0u32 >> 23u32) & 0xff == 0) by (bit_vector);
        }
        return 0;
    }
    let neg: bool = i < 0;
    let mag: u32 = if i < 0 {
        (-(i as i64)) as u32
    } else {
        i as u32
    };
    proof {
        assert(mag as int == abs_int(i as int));
        lemma2_to64();
    }
    let mut k: u32 = 0;
    let mut t: u32 = mag;
    while t >= 2
        invariant
            1 <= t,
            k <= 31,
            1 <= mag,
            t as nat == mag as nat / pow2(k as nat),
        decreases t,
    {
        proof {
            lemma_pow2_pos(k as nat);
            lemma_fundamental_div_mod(mag as int, pow2(k as nat) as int);
            lemma_mod_division_less_than_divisor(mag as int, pow2(k as nat) as int);
            lemma_pow2_unfold((k + 1) as nat);
            lemma2_to64();
            assert(2 * pow2(k as nat) <= mag as int) by {
                lemma_mul_inequality(2, t as int, pow2(k as nat) as int);
                lemma_mul_is_commutative(t as int, pow2(k as nat) as int);
            };
            if k + 1 >= 32 {
                if k + 1 > 32 {
                    lemma_pow2_strictly_increases(32, (k + 1) as nat);
                }
                assert(false);
            }
            lemma_div_denominator(mag as int, pow2(k as nat) as int, 2);
        }
        t = t / 2;
        k = k + 1;
    }
    proof {
        lemma_pow2_pos(k as nat);
        lemma_fundamental_div_mod(mag as int, pow2(k as nat) as int);
        lemma_mod_division_less_than_divisor(mag as int, pow2(k as nat) as int);
        lemma_pow2_unfold((k + 1) as nat);
        assert(pow2(k as nat) <= mag as nat);
        assert((mag as nat) < pow2((k + 1) as nat));
        lemma_bit_len_unique(mag as nat, k as nat);
    }
    let sign: u32 = if neg {
        1
    } else {
        0
    };
    if k <= 23 {
        let sh: u32 = 23 - k;
        proof {
            lemma2_to64();
            lemma_pow2_adds((k + 1) as nat, sh as nat);
            lemma_pow2_pos(sh as nat);
            assert(mag * pow2(sh as nat) < pow2(24)) by {
                lemma_mul_strict_inequality(
                    mag as int,
                    pow2((k + 1) as nat) as int,
                    pow2(sh as nat) as int,
                );
            };
            lemma_u32_shl_is_mul(mag, sh);
            lemma_pow2_adds(k as nat, sh as nat);
            lemma_mul_inequality(pow2(k as nat) as int, mag as int, pow2(sh as nat) as int);
            lemma_mul_is_commutative(pow2(k as nat) as int, pow2(sh as nat) as int);
            lemma_mul_is_commutative(mag as int, pow2(sh as nat) as int);
        }
        let mant: u32 = mag << sh;
        let e: u32 = k + 127;
        let frac: u32 = mant - 0x80_0000;
        let b: u32 = pack(sign, e, frac);
        proof {
            lemma_pow2_adds(sh as nat, (e - 1) as nat);
            lemma_mul_is_associative(
                mag as int,
                pow2(sh as nat) as int,
                pow2((e - 1) as nat) as int,
            );
        }
        b
    } else {
        let s: u32 = k - 23;
        proof {
            lemma_pow2_pos(s as nat);
            lemma_u32_shr_is_div(mag, s);
        }
        let q0: u32 = mag >> s;
        proof {
            lemma_fundamental_div_mod(mag as int, pow2(s as nat) as int);
            lemma_mod_division_less_than_divisor(mag as int, pow2(s as nat) as int);
            // lower bound: 2^23 == 2^k / 2^s <= mag / 2^s
            lemma_div_is_ordered(pow2(k as nat) as int, mag as int, pow2(s as nat) as int);
            lemma_pow2_adds(s as nat, 23);
            lemma_div_by_multiple(pow2(23) as int, pow2(s as nat) as int);
            lemma_mul_is_commutative(pow2(23) as int, pow2(s as nat) as int);
            // upper bound: q0 < 2^24, else mag >= 2^s * 2^24 == 2^(k + 1)
            lemma2_to64();
            if q0 >= 0x100_0000 {
                lemma_pow2_adds(s as nat, 24);
                lemma_mul_inequality(pow2(24) as int, q0 as int, pow2(s as nat) as int);
                lemma_mul_is_commutative(q0 as int, pow2(s as nat) as int);
                assert(false);
            }
            // the shifted-back product is at most mag, so it fits
            lemma_mul_is_commutative(q0 as int, pow2(s as nat) as int);
            assert(q0 * pow2(s as nat) <= mag);
            lemma_u32_shl_is_mul(q0, s);
        }
        let back: u32 = q0 << s;
        let r0: u32 = mag - back;
        proof {
            assert(r0 as int == (mag as int) % (pow2(s as nat) as int));
            lemma_u32_shl_is_mul(1u32, (s - 1) as u32);
            lemma_pow2_strictly_increases((s - 1) as nat, 32);
        }
        let half: u32 = 1u32 << (s - 1);
        let round_up: bool = r0 > half || (r0 == half && q0 % 2 == 1);
        let q1: u32 = if round_up {
            q0 + 1
        } else {
            q0
        };
        proof {
            assert(q1 as nat == round_div_even(mag as nat, s as nat));
        }
        let qq: u32 = if q1 == 0x100_0000 {
            0x80_0000
        } else {
            q1
        };
        let kk: u32 = if q1 == 0x100_0000 {
            k + 1
        } else {
            k
        };
        let e: u32 = kk + 127;
        let frac: u32 = qq - 0x80_0000;
        let b: u32 = pack(sign, e, frac);
        proof {
            lemma_pow2_adds(s as nat, 149);
            lemma_mul_is_associative(q1 as int, pow2(s as nat) as int, pow2(149) as int);
            if q1 == 0x100_0000 {
                lemma_pow2_unfold((k + 127) as nat);
                lemma_mul_is_associative(0x80_0000, 2, pow2((k + 126) as nat) as int);
            }
        }
        b
    }
}

} // verus!
