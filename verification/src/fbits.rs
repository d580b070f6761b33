//! Bit-level view of IEEE-754 double-precision values.
//!
//! The rest of the crate never holds a floating-point number: a value is
//! carried as its 64-bit pattern (sign, biased exponent, fraction), and this
//! module gives that pattern an exact integer meaning.  The magnitude of a
//! non-NaN pattern is expressed in units of 2^-1074, the smallest positive
//! double, so ordering and classification are plain integer facts.

use vstd::prelude::*;
use vstd::arithmetic::power2::{pow2, lemma_pow2_adds, lemma_pow2_pos, lemma_pow2_strictly_increases};
use vstd::arithmetic::mul::{lemma_mul_inequality, lemma_mul_strict_inequality};

verus! {

/// The biased exponent field: bits 52..63.
pub open spec fn spec_exp(b: u64) -> u64 {
    (b >> 52) & 0x7ff
}

/// The fraction field: bits 0..52.
pub open spec fn spec_frac(b: u64) -> u64 {
    b & 0xfffffffffffff
}

/// The sign bit: true when the pattern denotes a negative value.
pub open spec fn spec_sign(b: u64) -> bool {
    (b >> 63) == 1
}

/// Finite: the exponent field is not all ones.
pub open spec fn spec_is_finite(b: u64) -> bool {
    spec_exp(b) != 0x7ff
}

/// NaN: exponent all ones with a non-zero fraction.
pub open spec fn spec_is_nan(b: u64) -> bool {
    spec_exp(b) == 0x7ff && spec_frac(b) != 0
}

/// The integer significand: the fraction with the implicit leading bit
/// added for normal (and infinite) patterns.
pub open spec fn spec_mantissa(b: u64) -> nat {
    if spec_exp(b) == 0 {
        spec_frac(b) as nat
    } else {
        spec_frac(b) as nat + 0x10000000000000
    }
}

/// Magnitude of a pattern counted in units of 2^-1074 (the denormal step).
/// A denormal or zero pattern is worth frac * 2^0 such units, a normal one
/// mantissa * 2^(exp-1); infinity lands above every finite pattern.
pub open spec fn spec_mag(b: u64) -> nat {
    spec_mantissa(b) * pow2(if spec_exp(b) == 0 { 0 } else { (spec_exp(b) - 1) as nat })
}

/// Signed value of a non-NaN pattern in units of 2^-1074.
pub open spec fn spec_units(b: u64) -> int {
    if spec_sign(b) {
        -(spec_mag(b) as int)
    } else {
        spec_mag(b) as int
    }
}

/// Numeric order on non-NaN patterns; both zero patterns are equal here.
pub open spec fn spec_le(a: u64, b: u64) -> bool {
    spec_units(a) <= spec_units(b)
}

pub fn exp_bits(b: u64) -> (e: u64)
    ensures
        e == spec_exp(b),
{
    (b >> 52u64) & 0x7ffu64
}

pub fn frac_bits(b: u64) -> (f: u64)
    ensures
        f == spec_frac(b),
{
    b & 0xfffffffffffffu64
}

pub fn sign_bit(b: u64) -> (s: bool)
    ensures
        s == spec_sign(b),
{
    (b >> 63u64) == 1u64
}

pub fn is_finite_bits(b: u64) -> (r: bool)
    ensures
        r == spec_is_finite(b),
{
    ((b >> 52u64) & 0x7ffu64) != 0x7ffu64
}

pub fn is_nan_bits(b: u64) -> (r: bool)
    ensures
        r == spec_is_nan(b),
{
    ((b >> 52u64) & 0x7ffu64) == 0x7ffu64 && (b & 0xfffffffffffffu64) != 0u64
}

/// Clearing the sign bit keeps the exponent and fraction fields.
pub proof fn lemma_abs_fields(b: u64)
    ensures
        spec_exp(b & 0x7fffffffffffffff) == spec_exp(b),
        spec_frac(b & 0x7fffffffffffffff) == spec_frac(b),
        !spec_sign(b & 0x7fffffffffffffff),
{
    assert((((b & 0x7fffffffffffffff) >> 52) & 0x7ff) == ((b >> 52) & 0x7ff)) by (bit_vector);
    assert(((b & 0x7fffffffffffffff) & 0xfffffffffffff) == (b & 0xfffffffffffff)) by (bit_vector);
    assert(((b & 0x7fffffffffffffff) >> 63) != 1) by (bit_vector);
}

/// The magnitude of the sign-cleared pattern, as units.
pub fn abs_bits(b: u64) -> (r: u64)
    ensures
        r == (b & 0x7fffffffffffffff),
        spec_units(r) == spec_mag(b),
        spec_is_nan(r) == spec_is_nan(b),
        spec_is_finite(r) == spec_is_finite(b),
{
    proof {
        lemma_abs_fields(b);
    }
    b & 0x7fffffffffffffffu64
}

/// Lexicographic order on (exponent, fraction) coincides with the order of
/// magnitudes for non-negative patterns.
pub proof fn lemma_mag_lex(a: u64, b: u64)
    ensures
        (spec_mag(a) <= spec_mag(b)) == (spec_exp(a) < spec_exp(b) || (spec_exp(a) == spec_exp(b)
            && spec_frac(a) <= spec_frac(b))),
{
    let ea = spec_exp(a);
    let eb = spec_exp(b);
    let fa = spec_frac(a);
    let fb = spec_frac(b);
    let ma = spec_mantissa(a);
    let mb = spec_mantissa(b);
    let pa: nat = if ea == 0 { 0 } else { (ea - 1) as nat };
    let pb: nat = if eb == 0 { 0 } else { (eb - 1) as nat };
    lemma_field_bounds(a);
    lemma_field_bounds(b);
    lemma_pow2_pos(pa);
    lemma_pow2_pos(pb);
    if ea == eb {
        if fa <= fb {
            lemma_mul_inequality(ma as int, mb as int, pow2(pa) as int);
        } else {
            lemma_mul_strict_inequality(mb as int, ma as int, pow2(pb) as int);
            assert(spec_mag(b) < spec_mag(a));
        }
    } else if ea < eb {
        // the smaller exponent bounds the magnitude strictly below the larger
        lemma_mag_exp_gap(a, b);
    } else {
        lemma_mag_exp_gap(b, a);
        assert(spec_mag(b) < spec_mag(a));
    }
}

/// With a strictly smaller exponent field the magnitude is strictly smaller.
proof fn lemma_mag_exp_gap(a: u64, b: u64)
    requires
        spec_exp(a) < spec_exp(b),
    ensures
        spec_mag(a) < spec_mag(b),
{
    let ea = spec_exp(a);
    let eb = spec_exp(b);
    let ma = spec_mantissa(a);
    let mb = spec_mantissa(b);
    let pa: nat = if ea == 0 { 0 } else { (ea - 1) as nat };
    let pb: nat = (eb - 1) as nat;
    lemma_field_bounds(a);
    lemma_field_bounds(b);
    vstd::arithmetic::power2::lemma2_to64_rest();
    lemma_pow2_pos(pa);
    lemma_pow2_pos(pb);
    // mag(b) >= 2^52 * 2^pb = 2^(pb+52)
    assert(mb >= 0x10000000000000);
    lemma_mul_inequality(0x10000000000000, mb as int, pow2(pb) as int);
    lemma_pow2_adds(52, pb);
    assert(spec_mag(b) >= pow2(52) * pow2(pb));
    if ea == 0 && eb == 1 {
        // both sides carry the factor 2^0: compare the significands directly
        vstd::arithmetic::power2::lemma2_to64();
        vstd::arithmetic::mul::lemma_mul_basics(ma as int);
        vstd::arithmetic::mul::lemma_mul_basics(mb as int);
        assert(spec_mag(a) == ma && spec_mag(b) == mb);
        assert(ma < 0x10000000000000);
    } else {
        // mag(a) <= (2^53 - 1) * 2^pa < 2^53 * 2^pa = 2^(pa+53) <= 2^(pb+52)
        lemma_mul_inequality(ma as int, 0x20000000000000 - 1, pow2(pa) as int);
        lemma_mul_strict_inequality(0x20000000000000 - 1, 0x20000000000000, pow2(pa) as int);
        lemma_pow2_adds(53, pa);
        assert(spec_mag(a) < pow2(53) * pow2(pa));
        // pa + 53 <= pb + 52
        if (pa + 53) < (pb + 52) {
            lemma_pow2_strictly_increases((pa + 53) as nat, (pb + 52) as nat);
        }
        assert(pow2((pa + 53) as nat) <= pow2((pb + 52) as nat));
    }
}

/// Bounds on the raw exponent and fraction fields.
proof fn lemma_field_bounds(b: u64)
    ensures
        spec_frac(b) < 0x10000000000000,
        spec_exp(b) <= 0x7ff,
{
    assert((b & 0xfffffffffffff) < 0x10000000000000) by (bit_vector);
    assert(((b >> 52) & 0x7ff) <= 0x7ff) by (bit_vector);
}

/// Whether the pattern's magnitude is zero (either signed zero).
pub fn is_zero_bits(b: u64) -> (r: bool)
    ensures
        r == (spec_mag(b) == 0),
{
    let e = exp_bits(b);
    let f = frac_bits(b);
    proof {
        lemma_pow2_pos(if spec_exp(b) == 0 { 0nat } else { (spec_exp(b) - 1) as nat });
        if e == 0 && f == 0 {
            assert(spec_mantissa(b) == 0);
            vstd::arithmetic::mul::lemma_mul_by_zero_is_zero(
                pow2(if spec_exp(b) == 0 { 0nat } else { (spec_exp(b) - 1) as nat }) as int,
            );
        } else {
            assert(spec_mantissa(b) > 0);
            lemma_mul_strictly_positive_units(b);
        }
    }
    e == 0u64 && f == 0u64
}

proof fn lemma_mul_strictly_positive_units(b: u64)
    requires
        spec_mantissa(b) > 0,
    ensures
        spec_mag(b) > 0,
{
    let p: nat = if spec_exp(b) == 0 { 0 } else { (spec_exp(b) - 1) as nat };
    lemma_pow2_pos(p);
    vstd::arithmetic::mul::lemma_mul_strictly_positive(spec_mantissa(b) as int, pow2(p) as int);
}

/// Numeric comparison of two non-NaN bit patterns.
pub fn le_bits(a: u64, b: u64) -> (r: bool)
    requires
        !spec_is_nan(a),
        !spec_is_nan(b),
    ensures
        r == spec_le(a, b),
{
    let sa = sign_bit(a);
    let sb = sign_bit(b);
    proof {
        lemma_mag_lex(a, b);
        lemma_mag_lex(b, a);
    }
    if sa && !sb {
        // a <= 0 <= b
        true
    } else if !sa && sb {
        // only equal when both magnitudes are zero
        is_zero_bits(a) && is_zero_bits(b)
    } else {
        let ea = exp_bits(a);
        let eb = exp_bits(b);
        let fa = frac_bits(a);
        let fb = frac_bits(b);
        let mag_le = ea < eb || (ea == eb && fa <= fb);
        let mag_ge = eb < ea || (eb == ea && fb <= fa);
        if sa {
            mag_ge
        } else {
            mag_le
        }
    }
}

/// The smaller of two non-NaN patterns in numeric order; on a tie the
/// first stays.
pub fn min_bits(a: u64, b: u64) -> (r: u64)
    requires
        !spec_is_nan(a),
        !spec_is_nan(b),
    ensures
        r == (if spec_le(a, b) {
            a
        } else {
            b
        }),
        spec_le(r, a) && spec_le(r, b),
{
    if le_bits(a, b) {
        a
    } else {
        b
    }
}

} // verus!
