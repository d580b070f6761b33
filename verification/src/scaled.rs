//! Fixed-point readings of double bit patterns.
//!
//! The registry's exported text carries each numeric value with nine
//! decimal places.  A finite double's exact value is mantissa * 2^k for
//! an integer k, so its reading in billionths — its nanounit count — is
//! an integer expression over the pattern's fields: multiply the
//! mantissa by 10^9 and shift by k, dropping the remainder and
//! saturating at +/- i64::MAX.  Everything here is integer arithmetic,
//! proved against that expression.

use vstd::prelude::*;
use vstd::string::StringExecFns;
use vstd::arithmetic::power2::{pow2, lemma_pow2_adds, lemma_pow2_pos, lemma_pow2_strictly_increases, lemma2_to64, lemma2_to64_rest};
use vstd::arithmetic::mul::{lemma_mul_basics, lemma_mul_inequality, lemma_mul_is_associative, lemma_mul_is_commutative};
use vstd::arithmetic::div_mod::{lemma_basic_div, lemma_div_denominator, lemma_div_is_ordered, lemma_div_multiples_vanish, lemma_div_pos_is_pos};
use crate::fbits::{exp_bits, frac_bits, is_finite_bits, sign_bit, spec_exp, spec_frac, spec_is_finite, spec_le, spec_mag, spec_mantissa, spec_sign, spec_units};

verus! {

/// The saturation bound: the largest nanounit count the registry carries.
pub const NANOS_MAX: i64 = 0x7fffffffffffffff;

/// How many nanounits the magnitude of a finite pattern is worth,
/// before saturation: mantissa * 10^9, shifted by the pattern's power
/// of two, remainders dropped.
pub open spec fn spec_nanos_mag(b: u64) -> int {
    let m9 = spec_mantissa(b) * 1000000000;
    let e: int = if spec_exp(b) == 0 {
        1
    } else {
        spec_exp(b) as int
    };
    if e >= 1075 {
        (m9 * pow2((e - 1075) as nat)) as int
    } else {
        m9 as int / pow2((1075 - e) as nat) as int
    }
}

/// The nanounit reading of a pattern: signed, saturated at +/- NANOS_MAX,
/// and 0 for anything not finite.
pub open spec fn spec_nanos(b: u64) -> int {
    if !spec_is_finite(b) {
        0
    } else {
        let n = if spec_nanos_mag(b) > NANOS_MAX {
            NANOS_MAX as int
        } else {
            spec_nanos_mag(b)
        };
        if spec_sign(b) {
            -n
        } else {
            n
        }
    }
}

/// The nanounit magnitude is the pattern's magnitude — counted in units
/// of 2^-1074 — scaled into billionths: one division expresses both
/// branches of its definition.
proof fn lemma_nanos_mag_is_div(b: u64)
    ensures
        spec_nanos_mag(b) == (spec_mag(b) * 1000000000) as int / pow2(1074) as int,
{
    let m = spec_mantissa(b) as int;
    let e: int = if spec_exp(b) == 0 {
        1
    } else {
        spec_exp(b) as int
    };
    let pe: nat = (e - 1) as nat;
    let m9 = m * 1000000000;
    assert(spec_mag(b) == m * pow2(pe));
    lemma_pow2_pos(pe);
    // mag * 10^9 == m9 * 2^pe
    assert((m * pow2(pe)) * 1000000000 == m9 * pow2(pe) as int) by {
        lemma_mul_is_associative(m, pow2(pe) as int, 1000000000);
        lemma_mul_is_commutative(pow2(pe) as int, 1000000000);
        lemma_mul_is_associative(m, 1000000000, pow2(pe) as int);
    }
    if e >= 1075 {
        let k: nat = (e - 1075) as nat;
        lemma_pow2_adds(1074, k);
        lemma_pow2_pos(k);
        lemma_pow2_pos(1074);
        // m9 * 2^pe == 2^1074 * (m9 * 2^k)
        assert(m9 * pow2(pe) as int == pow2(1074) as int * (m9 * pow2(k) as int)) by {
            lemma_mul_is_associative(m9, pow2(1074) as int, pow2(k) as int);
            lemma_mul_is_commutative(m9, pow2(1074) as int);
            lemma_mul_is_associative(pow2(1074) as int, m9, pow2(k) as int);
        }
        lemma_div_multiples_vanish(m9 * pow2(k) as int, pow2(1074) as int);
    } else {
        let s: nat = (1075 - e) as nat;
        lemma_pow2_adds(pe, s);
        lemma_pow2_pos(s);
        lemma_mul_nonneg_m9(b);
        lemma_div_denominator(m9 * pow2(pe) as int, pow2(pe) as int, pow2(s) as int);
        lemma_mul_is_commutative(m9, pow2(pe) as int);
        lemma_div_multiples_vanish(m9, pow2(pe) as int);
    }
}

proof fn lemma_mul_nonneg_m9(b: u64)
    ensures
        spec_mantissa(b) as int * 1000000000 >= 0,
        (spec_mantissa(b) as int * 1000000000) * pow2(
            (if spec_exp(b) == 0 {
                1int
            } else {
                spec_exp(b) as int
            } - 1) as nat,
        ) as int >= 0,
{
    let m = spec_mantissa(b) as int;
    let pe: nat = ((if spec_exp(b) == 0 {
        1int
    } else {
        spec_exp(b) as int
    }) - 1) as nat;
    vstd::arithmetic::mul::lemma_mul_nonnegative(m, 1000000000);
    vstd::arithmetic::mul::lemma_mul_nonnegative(m * 1000000000, pow2(pe) as int);
}

/// Scaling into billionths keeps the numeric order: of two finite
/// patterns, the one at or below the other never reads more nanounits.
/// A gauge fed from a monotone measurement is therefore non-decreasing.
pub proof fn lemma_nanos_monotone(a: u64, b: u64)
    requires
        spec_is_finite(a),
        spec_is_finite(b),
        spec_le(a, b),
    ensures
        spec_nanos(a) <= spec_nanos(b),
{
    lemma_nanos_mag_is_div(a);
    lemma_nanos_mag_is_div(b);
    lemma_pow2_pos(1074);
    let p = pow2(1074) as int;
    lemma_div_pos_is_pos((spec_mag(a) * 1000000000) as int, p);
    lemma_div_pos_is_pos((spec_mag(b) * 1000000000) as int, p);
    if !spec_sign(a) && !spec_sign(b) {
        assert(spec_mag(a) <= spec_mag(b));
        lemma_mul_inequality(spec_mag(a) as int, spec_mag(b) as int, 1000000000);
        lemma_div_is_ordered((spec_mag(a) * 1000000000) as int, (spec_mag(b) * 1000000000) as int, p);
    } else if spec_sign(a) && spec_sign(b) {
        assert(spec_mag(b) <= spec_mag(a));
        lemma_mul_inequality(spec_mag(b) as int, spec_mag(a) as int, 1000000000);
        lemma_div_is_ordered((spec_mag(b) * 1000000000) as int, (spec_mag(a) * 1000000000) as int, p);
    } else if spec_sign(a) && !spec_sign(b) {
        // a reads at most zero and b at least zero
    } else {
        // a non-negative at or below a non-positive value: both zero
        assert(spec_mag(a) == 0 && spec_mag(b) == 0);
        assert(spec_mag(a) * 1000000000 == 0) by {
            vstd::arithmetic::mul::lemma_mul_by_zero_is_zero(1000000000);
        }
        assert(spec_mag(b) * 1000000000 == 0) by {
            vstd::arithmetic::mul::lemma_mul_by_zero_is_zero(1000000000);
        }
        vstd::arithmetic::div_mod::lemma_div_of0(p);
    }
}

/// 2^s for small s, computed by doubling.
fn pow2_u128(s: u64) -> (p: u128)
    requires
        s <= 100,
    ensures
        p == pow2(s as nat),
{
    let mut p: u128 = 1;
    let mut i: u64 = 0;
    proof {
        vstd::arithmetic::power2::lemma_pow2(0);
        vstd::arithmetic::power::lemma_pow0(2);
    }
    while i < s
        invariant
            i <= s <= 100,
            p == pow2(i as nat),
        decreases s - i,
    {
        proof {
            lemma_pow2_adds(i as nat, 1);
            lemma2_to64();
            if (i as nat) + 1 < 100 {
                lemma_pow2_strictly_increases((i + 1) as nat, 100);
            }
            lemma_pow2_adds(50, 50);
            lemma2_to64_rest();
            assert(pow2(100) == 0x4000000000000 * 0x4000000000000);
        }
        p = p * 2;
        i = i + 1;
    }
    p
}

/// The nanounit reading of a pattern, as the stored integer.
pub fn bits_to_nanos(b: u64) -> (n: i64)
    ensures
        n == spec_nanos(b),
        -NANOS_MAX <= n <= NANOS_MAX,
{
    if !is_finite_bits(b) {
        return 0;
    }
    let e = exp_bits(b);
    let f = frac_bits(b);
    let neg = sign_bit(b);
    proof {
        assert((b & 0xfffffffffffff) < 0x10000000000000) by (bit_vector);
    }
    let m: u64 = if e == 0 {
        f
    } else {
        f + 0x10000000000000
    };
    let m9: u128 = (m as u128) * 1000000000;
    let ee: u64 = if e == 0 {
        1
    } else {
        e
    };
    proof {
        assert(m9 == spec_mantissa(b) * 1000000000);
        assert(m9 < 0x800000000000000000000) by {
            lemma_mul_inequality(spec_mantissa(b) as int, 0x20000000000000, 1000000000);
        }
    }
    let mag_sat: i64 = if ee >= 1075 {
        // the value is at least the mantissa itself: far past saturation
        proof {
            let pw = pow2((ee - 1075) as nat) as int;
            lemma_pow2_pos((ee - 1075) as nat);
            lemma_mul_inequality(1, pw, m9 as int);
            lemma_mul_is_commutative(pw, m9 as int);
            lemma_mul_basics(m9 as int);
            assert(spec_nanos_mag(b) >= m9);
            assert(m9 >= 0x10000000000000 * 1000000000) by {
                lemma_mul_inequality(0x10000000000000, spec_mantissa(b) as int, 1000000000);
            }
        }
        NANOS_MAX
    } else {
        let shift: u64 = 1075 - ee;
        if shift >= 83 {
            // the mantissa has fewer than 83 significant bits: shifted out
            proof {
                lemma_pow2_adds(53, 30);
                lemma2_to64_rest();
                lemma2_to64();
                assert(pow2(30) == 0x40000000);
                assert(m9 < pow2(83)) by {
                    lemma_mul_inequality(spec_mantissa(b) as int, 0x20000000000000, 1000000000);
                }
                if shift > 83 {
                    lemma_pow2_strictly_increases(83, shift as nat);
                }
                lemma_basic_div(m9 as int, pow2(shift as nat) as int);
            }
            0
        } else {
            let pw = pow2_u128(shift);
            proof {
                lemma_pow2_pos(shift as nat);
            }
            let q: u128 = m9 / pw;
            if q > NANOS_MAX as u128 {
                NANOS_MAX
            } else {
                q as i64
            }
        }
    };
    if neg {
        -mag_sat
    } else {
        mag_sat
    }
}

/// The character of one decimal digit.
pub open spec fn spec_digit(d: nat) -> char {
    if d == 0 {
        '0'
    } else if d == 1 {
        '1'
    } else if d == 2 {
        '2'
    } else if d == 3 {
        '3'
    } else if d == 4 {
        '4'
    } else if d == 5 {
        '5'
    } else if d == 6 {
        '6'
    } else if d == 7 {
        '7'
    } else if d == 8 {
        '8'
    } else {
        '9'
    }
}

/// The plain decimal text of a natural number, no leading zeroes.
pub open spec fn spec_dec(n: nat) -> Seq<char>
    decreases n,
{
    if n < 10 {
        seq![spec_digit(n)]
    } else {
        spec_dec(n / 10) + seq![spec_digit(n % 10)]
    }
}

/// The lowest `w` decimal digits of a natural number, zero-padded.
pub open spec fn spec_dec_pad(n: nat, w: nat) -> Seq<char>
    decreases w,
{
    if w == 0 {
        Seq::empty()
    } else {
        spec_dec_pad(n / 10, (w - 1) as nat) + seq![spec_digit(n % 10)]
    }
}

/// The text of a nanounit count: a sign when negative, the whole units,
/// a point, and nine decimal places.
pub open spec fn spec_mag_text(m: nat) -> Seq<char> {
    spec_dec(m / 1000000000) + seq!['.'] + spec_dec_pad(m % 1000000000, 9)
}

pub open spec fn spec_nanos_text(n: int) -> Seq<char> {
    if n < 0 {
        seq!['-'] + spec_mag_text((-n) as nat)
    } else {
        spec_mag_text(n as nat)
    }
}

fn digit_str(d: u64) -> (s: &'static str)
    requires
        d < 10,
    ensures
        s@ == seq![spec_digit(d as nat)],
{
    proof {
        reveal_strlit("0");
        reveal_strlit("1");
        reveal_strlit("2");
        reveal_strlit("3");
        reveal_strlit("4");
        reveal_strlit("5");
        reveal_strlit("6");
        reveal_strlit("7");
        reveal_strlit("8");
        reveal_strlit("9");
    }
    if d == 0 {
        proof {
            assert("0"@ =~= seq!['0']);
        }
        "0"
    } else if d == 1 {
        proof {
            assert("1"@ =~= seq!['1']);
        }
        "1"
    } else if d == 2 {
        proof {
            assert("2"@ =~= seq!['2']);
        }
        "2"
    } else if d == 3 {
        proof {
            assert("3"@ =~= seq!['3']);
        }
        "3"
    } else if d == 4 {
        proof {
            assert("4"@ =~= seq!['4']);
        }
        "4"
    } else if d == 5 {
        proof {
            assert("5"@ =~= seq!['5']);
        }
        "5"
    } else if d == 6 {
        proof {
            assert("6"@ =~= seq!['6']);
        }
        "6"
    } else if d == 7 {
        proof {
            assert("7"@ =~= seq!['7']);
        }
        "7"
    } else if d == 8 {
        proof {
            assert("8"@ =~= seq!['8']);
        }
        "8"
    } else {
        proof {
            assert("9"@ =~= seq!['9']);
        }
        "9"
    }
}

/// The plain decimal text of a 64-bit count.
pub fn u64_to_dec(n: u64) -> (s: String)
    ensures
        s@ == spec_dec(n as nat),
    decreases n,
{
    if n < 10 {
        digit_str(n).to_owned()
    } else {
        proof {
            vstd::arithmetic::div_mod::lemma_div_decreases(n as int, 10);
        }
        let mut s = u64_to_dec(n / 10);
        s.append(digit_str(n % 10));
        s
    }
}

/// The lowest `w` decimal digits, zero-padded to exactly `w` characters.
fn dec_pad(n: u64, w: u64) -> (s: String)
    ensures
        s@ == spec_dec_pad(n as nat, w as nat),
    decreases w,
{
    if w == 0 {
        String::new()
    } else {
        let mut s = dec_pad(n / 10, w - 1);
        s.append(digit_str(n % 10));
        s
    }
}

/// The nanounit count rendered with nine decimal places.
pub fn nanos_to_text(n: i64) -> (s: String)
    requires
        n >= -NANOS_MAX,
    ensures
        s@ == spec_nanos_text(n as int),
{
    if n < 0 {
        let mag: u64 = (-n) as u64;
        proof {
            reveal_strlit("-");
            assert("-"@ =~= seq!['-']);
        }
        let mut s = "-".to_owned();
        let mut whole = u64_to_dec(mag / 1000000000);
        proof {
            reveal_strlit(".");
            assert("."@ =~= seq!['.']);
        }
        whole.append(".");
        let frac = dec_pad(mag % 1000000000, 9);
        whole.append(frac.as_str());
        s.append(whole.as_str());
        s
    } else {
        let mag: u64 = n as u64;
        let mut s = u64_to_dec(mag / 1000000000);
        proof {
            reveal_strlit(".");
            assert("."@ =~= seq!['.']);
        }
        s.append(".");
        let frac = dec_pad(mag % 1000000000, 9);
        s.append(frac.as_str());
        s
    }
}

} // verus!
