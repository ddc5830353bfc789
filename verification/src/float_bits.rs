//! A bit-level model of IEEE-754 binary16 / binary32 / binary64 values.
//!
//! A float is carried as its raw bit pattern (`u16`, `u32`, `u64`). The spec
//! functions here decompose a pattern into sign, biased exponent and fraction,
//! give each non-NaN pattern an integer ordering key (sign-magnitude order,
//! the numeric order of the values it encodes), and give each finite pattern
//! its exact numeric value as an integer count of `2^-1074` units (the
//! smallest positive binary64 subnormal), so that no rounding is involved.

use vstd::prelude::*;
use vstd::arithmetic::power2::pow2;

verus! {

/// Sign bit of a binary64 pattern.
pub const SIGN_64: u64 = 0x8000_0000_0000_0000;

/// One unit of the binary64 exponent field: `2^52`.
pub const EXP_UNIT_64: u64 = 0x10_0000_0000_0000;

/// Magnitude (sign bit cleared) of `+infinity` in binary64.
pub const INF_MAG_64: u64 = 0x7FF0_0000_0000_0000;

/// Bit pattern of `+infinity` in binary64.
pub const POS_INF_64: u64 = 0x7FF0_0000_0000_0000;

/// Bit pattern of `-infinity` in binary64.
pub const NEG_INF_64: u64 = 0xFFF0_0000_0000_0000;

/// The magnitude bits of a binary64 pattern: the pattern with its sign cleared.
pub open spec fn mag64(b: u64) -> u64 {
    if b >= SIGN_64 {
        (b - SIGN_64) as u64
    } else {
        b
    }
}

/// Whether the sign bit of a binary64 pattern is set.
pub open spec fn sign64(b: u64) -> bool {
    b >= SIGN_64
}

/// Biased exponent field (11 bits) of a binary64 pattern.
pub open spec fn exp64(b: u64) -> u64 {
    mag64(b) / EXP_UNIT_64
}

/// Fraction field (52 bits) of a binary64 pattern.
pub open spec fn frac64(b: u64) -> u64 {
    mag64(b) % EXP_UNIT_64
}

/// Whether a binary64 pattern encodes a NaN.
pub open spec fn is_nan64(b: u64) -> bool {
    exp64(b) == 0x7FF && frac64(b) != 0
}

/// Whether a binary64 pattern encodes `+infinity` or `-infinity`.
pub open spec fn is_inf64(b: u64) -> bool {
    exp64(b) == 0x7FF && frac64(b) == 0
}

/// Ordering key of a binary64 pattern: sign-magnitude order as an integer.
/// On non-NaN patterns this is exactly the numeric order of the encoded
/// values, except that `-0.0` and `+0.0` share the key `0`.
pub open spec fn key64(b: u64) -> int {
    if b >= SIGN_64 {
        -((b - SIGN_64) as int)
    } else {
        b as int
    }
}

/// Exact magnitude of a finite binary64 pattern, in units of `2^-1074`.
pub open spec fn val_mag64(b: u64) -> int {
    let e = exp64(b);
    let f = frac64(b);
    let m_eff: int = f + if e > 0 { EXP_UNIT_64 as int } else { 0 };
    let e_norm: nat = if e > 0 { (e - 1) as nat } else { 0 };
    m_eff * vstd::arithmetic::power2::pow2(e_norm)
}

/// Exact signed value of a finite binary64 pattern, in units of `2^-1074`.
pub open spec fn val64(b: u64) -> int {
    if sign64(b) {
        -val_mag64(b)
    } else {
        val_mag64(b)
    }
}

/// NaN-ignoring minimum of two binary64 patterns, as `f64::min` computes it:
/// if one argument is NaN the other is returned; otherwise the numerically
/// smaller one (ties go to the first argument).
pub open spec fn min64(a: u64, b: u64) -> u64 {
    if is_nan64(b) {
        a
    } else if is_nan64(a) {
        b
    } else if key64(a) <= key64(b) {
        a
    } else {
        b
    }
}

/// NaN-ignoring maximum of two binary64 patterns; mirror of `min64`.
pub open spec fn max64(a: u64, b: u64) -> u64 {
    if is_nan64(b) {
        a
    } else if is_nan64(a) {
        b
    } else if key64(a) >= key64(b) {
        a
    } else {
        b
    }
}

/// Tests whether a binary64 pattern encodes a NaN.
pub fn f64_bits_is_nan(b: u64) -> (r: bool)
    ensures
        r == is_nan64(b),
{
    let mag: u64 = if b >= SIGN_64 {
        b - SIGN_64
    } else {
        b
    };
    mag / EXP_UNIT_64 == 0x7FF && mag % EXP_UNIT_64 != 0
}

/// Compares two binary64 patterns by their ordering key.
pub fn f64_bits_key_le(a: u64, b: u64) -> (r: bool)
    ensures
        r == (key64(a) <= key64(b)),
{
    if a >= SIGN_64 && b >= SIGN_64 {
        a >= b
    } else if a >= SIGN_64 {
        true
    } else if b >= SIGN_64 {
        // the only positive-sign pattern with a non-positive key is +0.0
        a == 0 && b == SIGN_64
    } else {
        a <= b
    }
}

/// NaN-ignoring minimum of two binary64 patterns.
pub fn f64_bits_min(a: u64, b: u64) -> (r: u64)
    ensures
        r == min64(a, b),
{
    if f64_bits_is_nan(b) {
        a
    } else if f64_bits_is_nan(a) {
        b
    } else if f64_bits_key_le(a, b) {
        a
    } else {
        b
    }
}

/// NaN-ignoring maximum of two binary64 patterns.
pub fn f64_bits_max(a: u64, b: u64) -> (r: u64)
    ensures
        r == max64(a, b),
{
    if f64_bits_is_nan(b) {
        a
    } else if f64_bits_is_nan(a) {
        b
    } else if f64_bits_key_le(b, a) {
        a
    } else {
        b
    }
}

/// On finite patterns the magnitude bits order exactly as the encoded
/// magnitudes: a strictly larger magnitude field encodes a strictly larger
/// absolute value.
proof fn lemma_val_mag_strictly_monotone(a: u64, b: u64)
    requires
        mag64(a) < mag64(b),
        exp64(b) <= 2046,
    ensures
        val_mag64(a) < val_mag64(b),
{
    vstd::arithmetic::power2::lemma2_to64();
    vstd::arithmetic::power2::lemma2_to64_rest();
    let e1 = exp64(a) as int;
    let f1 = frac64(a) as int;
    let e2 = exp64(b) as int;
    let f2 = frac64(b) as int;
    let m1: int = f1 + if e1 > 0 { EXP_UNIT_64 as int } else { 0 };
    let m2: int = f2 + if e2 > 0 { EXP_UNIT_64 as int } else { 0 };
    let p1: nat = if e1 > 0 { (e1 - 1) as nat } else { 0 };
    let p2: nat = if e2 > 0 { (e2 - 1) as nat } else { 0 };
    assert(e1 <= e2) by {
        vstd::arithmetic::div_mod::lemma_div_is_ordered(
            mag64(a) as int,
            mag64(b) as int,
            EXP_UNIT_64 as int,
        );
    };
    vstd::arithmetic::power2::lemma_pow2_pos(p1);
    vstd::arithmetic::power2::lemma_pow2_pos(p2);
    if e1 == e2 {
        assert(f1 < f2);
        vstd::arithmetic::mul::lemma_mul_strict_inequality(m1, m2, pow2(p1) as int);
        assert(m1 * pow2(p1) < m2 * pow2(p1));
    } else if e1 == 0 && e2 == 1 {
        assert(val_mag64(a) == f1 * pow2(0));
        assert(val_mag64(b) == m2 * pow2(0));
    } else {
        // val(a) < 2^(53 + p1) <= 2^(52 + p2) <= m2 * 2^p2 == val(b)
        assert(p1 + 1 <= p2);
        vstd::arithmetic::mul::lemma_mul_upper_bound(
            m1,
            (pow2(53) - 1) as int,
            pow2(p1) as int,
            pow2(p1) as int,
        );
        vstd::arithmetic::power2::lemma_pow2_adds(53, p1);
        assert(val_mag64(a) < pow2(53) * pow2(p1));
        assert(pow2((53 + p1) as nat) <= pow2((52 + p2) as nat)) by {
            if 53 + p1 < 52 + p2 {
                vstd::arithmetic::power2::lemma_pow2_strictly_increases(
                    (53 + p1) as nat,
                    (52 + p2) as nat,
                );
            }
        };
        vstd::arithmetic::power2::lemma_pow2_adds(52, p2);
        assert(pow2(52) * pow2(p2) <= m2 * pow2(p2)) by (nonlinear_arith)
            requires
                m2 >= pow2(52),
                pow2(p2) > 0,
        ;
        assert(m2 >= pow2(52)) by {
            assert(e2 > 0);
        };
        assert(val_mag64(b) == m2 * pow2(p2));
    }
}

/// Zero magnitude is exactly the encoded value zero.
proof fn lemma_val_mag_zero(a: u64)
    ensures
        (val_mag64(a) == 0) == (mag64(a) == 0),
        val_mag64(a) >= 0,
{
    vstd::arithmetic::power2::lemma2_to64();
    let e = exp64(a) as int;
    let f = frac64(a) as int;
    let m: int = f + if e > 0 { EXP_UNIT_64 as int } else { 0 };
    let p: nat = if e > 0 { (e - 1) as nat } else { 0 };
    vstd::arithmetic::power2::lemma_pow2_pos(p);
    vstd::arithmetic::mul::lemma_mul_nonnegative(m, pow2(p) as int);
    if mag64(a) == 0 {
        assert(e == 0 && f == 0) by {
            assert(mag64(a) == e * EXP_UNIT_64 + f) by {
                vstd::arithmetic::div_mod::lemma_fundamental_div_mod(
                    mag64(a) as int,
                    EXP_UNIT_64 as int,
                );
            };
        };
    } else {
        assert(m > 0) by {
            if e == 0 {
                assert(mag64(a) == e * EXP_UNIT_64 + f) by {
                    vstd::arithmetic::div_mod::lemma_fundamental_div_mod(
                        mag64(a) as int,
                        EXP_UNIT_64 as int,
                    );
                };
            }
        };
        vstd::arithmetic::mul::lemma_mul_strictly_positive(m, pow2(p) as int);
    }
}

/// The ordering key orders finite patterns exactly as the numbers they
/// encode: key order and exact-value order coincide (`-0.0` and `+0.0`
/// share both their key and their value).
pub proof fn lemma_key_orders_values(a: u64, b: u64)
    requires
        !is_nan64(a),
        !is_inf64(a),
        !is_nan64(b),
        !is_inf64(b),
    ensures
        (key64(a) <= key64(b)) == (val64(a) <= val64(b)),
{
    lemma_val_mag_zero(a);
    lemma_val_mag_zero(b);
    if sign64(a) == sign64(b) {
        if mag64(a) < mag64(b) {
            lemma_val_mag_strictly_monotone(a, b);
        } else if mag64(b) < mag64(a) {
            lemma_val_mag_strictly_monotone(b, a);
        } else {
            assert(val_mag64(a) == val_mag64(b));
        }
    }
}

/// Sign bit of a binary32 pattern.
pub const SIGN_32: u32 = 0x8000_0000;

/// One unit of the binary32 exponent field: `2^23`.
pub const EXP_UNIT_32: u32 = 0x80_0000;

/// Sign bit of a binary16 pattern.
pub const SIGN_16: u16 = 0x8000;

/// One unit of the binary16 exponent field: `2^10`.
pub const EXP_UNIT_16: u16 = 0x400;

/// The magnitude bits of a binary32 pattern.
pub open spec fn mag32(b: u32) -> u32 {
    if b >= SIGN_32 {
        (b - SIGN_32) as u32
    } else {
        b
    }
}

/// Biased exponent field (8 bits) of a binary32 pattern.
pub open spec fn exp32(b: u32) -> u32 {
    mag32(b) / EXP_UNIT_32
}

/// Fraction field (23 bits) of a binary32 pattern.
pub open spec fn frac32(b: u32) -> u32 {
    mag32(b) % EXP_UNIT_32
}

/// Whether a binary32 pattern encodes a NaN.
pub open spec fn is_nan32(b: u32) -> bool {
    exp32(b) == 0xFF && frac32(b) != 0
}

/// The magnitude bits of a binary16 pattern.
pub open spec fn mag16(b: u16) -> u16 {
    if b >= SIGN_16 {
        (b - SIGN_16) as u16
    } else {
        b
    }
}

/// Biased exponent field (5 bits) of a binary16 pattern.
pub open spec fn exp16(b: u16) -> u16 {
    mag16(b) / EXP_UNIT_16
}

/// Fraction field (10 bits) of a binary16 pattern.
pub open spec fn frac16(b: u16) -> u16 {
    mag16(b) % EXP_UNIT_16
}

/// Whether a binary16 pattern encodes a NaN.
pub open spec fn is_nan16(b: u16) -> bool {
    exp16(b) == 0x1F && frac16(b) != 0
}

/// How many doublings a subnormal fraction needs until it reaches the
/// binary64 implicit-one position `2^52`.
pub open spec fn norm_shift(m: nat) -> nat
    recommends
        0 < m,
    decreases EXP_UNIT_64 - m,
{
    if m == 0 || m >= EXP_UNIT_64 {
        0
    } else if 2 * m >= EXP_UNIT_64 {
        1
    } else {
        1 + norm_shift(2 * m)
    }
}

/// The binary64 pattern that encodes exactly the value of a given binary32
/// pattern: the exponent is re-biased and the fraction shifted; a subnormal
/// is renormalized; an infinity maps to an infinity and a NaN to a NaN with
/// the same fraction payload.
pub open spec fn widen32(b: u32) -> u64 {
    let s: int = if b >= SIGN_32 {
        SIGN_64 as int
    } else {
        0
    };
    let e = exp32(b) as int;
    let f = frac32(b) as int;
    let mag: int = if e == 0xFF {
        INF_MAG_64 + f * 0x2000_0000
    } else if e == 0 {
        if f == 0 {
            0
        } else {
            let k = norm_shift(f as nat);
            (925 - k) * (EXP_UNIT_64 as int) + f * vstd::arithmetic::power2::pow2(k)
        }
    } else {
        (e + 896) * (EXP_UNIT_64 as int) + f * 0x2000_0000
    };
    (s + mag) as u64
}

/// The binary64 pattern that encodes exactly the value of a given binary16
/// pattern; mirror of `widen32` with the binary16 field widths and bias.
pub open spec fn widen16(b: u16) -> u64 {
    let s: int = if b >= SIGN_16 {
        SIGN_64 as int
    } else {
        0
    };
    let e = exp16(b) as int;
    let f = frac16(b) as int;
    let mag: int = if e == 0x1F {
        INF_MAG_64 + f * 0x400_0000_0000
    } else if e == 0 {
        if f == 0 {
            0
        } else {
            let k = norm_shift(f as nat);
            (1050 - k) * (EXP_UNIT_64 as int) + f * vstd::arithmetic::power2::pow2(k)
        }
    } else {
        (e + 1008) * (EXP_UNIT_64 as int) + f * 0x400_0000_0000
    };
    (s + mag) as u64
}

/// Exact magnitude of a finite binary32 pattern, in units of `2^-149`.
pub open spec fn val_mag32(b: u32) -> int {
    let e = exp32(b);
    let f = frac32(b);
    let m_eff: int = f + if e > 0 { EXP_UNIT_32 as int } else { 0 };
    let e_norm: nat = if e > 0 { (e - 1) as nat } else { 0 };
    m_eff * pow2(e_norm)
}

/// Exact signed value of a finite binary32 pattern, in units of `2^-149`.
pub open spec fn val32(b: u32) -> int {
    if b >= SIGN_32 {
        -val_mag32(b)
    } else {
        val_mag32(b)
    }
}

/// Exact magnitude of a finite binary16 pattern, in units of `2^-24`.
pub open spec fn val_mag16(b: u16) -> int {
    let e = exp16(b);
    let f = frac16(b);
    let m_eff: int = f + if e > 0 { EXP_UNIT_16 as int } else { 0 };
    let e_norm: nat = if e > 0 { (e - 1) as nat } else { 0 };
    m_eff * pow2(e_norm)
}

/// Exact signed value of a finite binary16 pattern, in units of `2^-24`.
pub open spec fn val16(b: u16) -> int {
    if b >= SIGN_16 {
        -val_mag16(b)
    } else {
        val_mag16(b)
    }
}

/// The normalization shift lands the fraction in `[2^52, 2^53)` and never
/// exceeds 52 doublings.
proof fn lemma_norm_shift_bounds(f: nat)
    requires
        0 < f < EXP_UNIT_64,
    ensures
        norm_shift(f) <= 52,
        pow2(52) <= f * pow2(norm_shift(f)) < pow2(53),
    decreases EXP_UNIT_64 - f,
{
    vstd::arithmetic::power2::lemma2_to64();
    vstd::arithmetic::power2::lemma2_to64_rest();
    if 2 * f >= EXP_UNIT_64 {
        assert(norm_shift(f) == 1);
        assert(f * pow2(1) == 2 * f);
    } else {
        lemma_norm_shift_bounds(2 * f);
        let k = norm_shift(2 * f);
        assert(norm_shift(f) == 1 + k);
        vstd::arithmetic::power2::lemma_pow2_adds(1, k);
        assert(f * pow2((1 + k) as nat) == (2 * f) * pow2(k)) by (nonlinear_arith)
            requires
                pow2((1 + k) as nat) == 2 * pow2(k),
        ;
        if k == 52 {
            // then (2f) * 2^52 >= 2 * 2^52 = 2^53, against the bound above
            assert((2 * f) * pow2(52) >= 2 * pow2(52)) by (nonlinear_arith)
                requires
                    2 * f >= 2,
                    pow2(52) > 0,
            ;
            assert(false);
        }
    }
}

/// Widening a binary32 pattern is numerically exact: sign, NaN-ness and
/// infinity are preserved, and a finite value is carried over bit-exactly
/// (its unit changes from `2^-149` to `2^-1074`, a factor of `2^925`).
pub proof fn lemma_widen32_exact(b: u32)
    ensures
        sign64(widen32(b)) == (b >= SIGN_32),
        is_nan64(widen32(b)) == is_nan32(b),
        is_inf64(widen32(b)) == (exp32(b) == 0xFF && frac32(b) == 0),
        exp32(b) != 0xFF ==> val_mag64(widen32(b)) == val_mag32(b) * pow2(925),
        exp32(b) != 0xFF ==> val64(widen32(b)) == val32(b) * pow2(925),
{
    vstd::arithmetic::power2::lemma2_to64();
    vstd::arithmetic::power2::lemma2_to64_rest();
    let e = exp32(b) as int;
    let f = frac32(b) as int;
    let s: int = if b >= SIGN_32 {
        SIGN_64 as int
    } else {
        0
    };
    let w = widen32(b);
    if e == 0xFF {
        let mag: int = INF_MAG_64 + f * 0x2000_0000;
        assert(w == (s + mag) as u64);
        assert(mag64(w) == mag);
        vstd::arithmetic::div_mod::lemma_fundamental_div_mod_converse(
            mag,
            EXP_UNIT_64 as int,
            0x7FF,
            f * 0x2000_0000,
        );
    } else if e == 0 && f == 0 {
        assert(mag64(w) == 0);
        assert(val_mag64(w) == 0 * pow2(0));
        assert(val_mag32(b) == 0 * pow2(0));
    } else if e == 0 {
        lemma_norm_shift_bounds(f as nat);
        let k = norm_shift(f as nat);
        let hi = f * pow2(k);
        let mag: int = (925 - k) * (EXP_UNIT_64 as int) + hi;
        assert(w == (s + mag) as u64);
        assert(mag == (926 - k) * (EXP_UNIT_64 as int) + (hi - EXP_UNIT_64));
        assert(mag64(w) == mag);
        vstd::arithmetic::div_mod::lemma_fundamental_div_mod_converse(
            mag,
            EXP_UNIT_64 as int,
            926 - k,
            hi - EXP_UNIT_64,
        );
        assert(exp64(w) == 926 - k);
        assert(frac64(w) == hi - EXP_UNIT_64);
        assert(val_mag64(w) == hi * pow2((925 - k) as nat));
        vstd::arithmetic::power2::lemma_pow2_adds(k, (925 - k) as nat);
        assert((f * pow2(k)) * pow2((925 - k) as nat) == f * pow2(925)) by (nonlinear_arith)
            requires
                pow2(k) * pow2((925 - k) as nat) == pow2(925),
        ;
        assert(val_mag32(b) == f * pow2(0));
    } else {
        let mag: int = (e + 896) * (EXP_UNIT_64 as int) + f * 0x2000_0000;
        assert(w == (s + mag) as u64);
        assert(mag64(w) == mag);
        vstd::arithmetic::div_mod::lemma_fundamental_div_mod_converse(
            mag,
            EXP_UNIT_64 as int,
            e + 896,
            f * 0x2000_0000,
        );
        assert(exp64(w) == e + 896);
        assert(frac64(w) == f * 0x2000_0000);
        assert(val_mag64(w) == (f * 0x2000_0000 + EXP_UNIT_64) * pow2((e + 895) as nat));
        assert(f * 0x2000_0000 + EXP_UNIT_64 == 0x2000_0000 * (f + EXP_UNIT_32));
        vstd::arithmetic::power2::lemma_pow2_adds(29, (e + 895) as nat);
        vstd::arithmetic::power2::lemma_pow2_adds((e - 1) as nat, 925);
        assert((0x2000_0000 * (f + EXP_UNIT_32)) * pow2((e + 895) as nat) == (f + EXP_UNIT_32) * (
        pow2(29) * pow2((e + 895) as nat))) by (nonlinear_arith)
            requires
                pow2(29) == 0x2000_0000,
        ;
        assert(val_mag32(b) * pow2(925) == (f + EXP_UNIT_32) * pow2((e + 924) as nat)) by (
        nonlinear_arith)
            requires
                val_mag32(b) == (f + EXP_UNIT_32) * pow2((e - 1) as nat),
                pow2((e - 1) as nat) * pow2(925) == pow2((e + 924) as nat),
        ;
    }
    vstd::arithmetic::mul::lemma_mul_unary_negation(val_mag32(b), pow2(925) as int);
}

/// Widening a binary16 pattern is numerically exact; mirror of
/// `lemma_widen32_exact` with unit factor `2^1050`.
pub proof fn lemma_widen16_exact(b: u16)
    ensures
        sign64(widen16(b)) == (b >= SIGN_16),
        is_nan64(widen16(b)) == is_nan16(b),
        is_inf64(widen16(b)) == (exp16(b) == 0x1F && frac16(b) == 0),
        exp16(b) != 0x1F ==> val_mag64(widen16(b)) == val_mag16(b) * pow2(1050),
        exp16(b) != 0x1F ==> val64(widen16(b)) == val16(b) * pow2(1050),
{
    vstd::arithmetic::power2::lemma2_to64();
    vstd::arithmetic::power2::lemma2_to64_rest();
    let e = exp16(b) as int;
    let f = frac16(b) as int;
    let s: int = if b >= SIGN_16 {
        SIGN_64 as int
    } else {
        0
    };
    let w = widen16(b);
    if e == 0x1F {
        let mag: int = INF_MAG_64 + f * 0x400_0000_0000;
        assert(w == (s + mag) as u64);
        assert(mag64(w) == mag);
        vstd::arithmetic::div_mod::lemma_fundamental_div_mod_converse(
            mag,
            EXP_UNIT_64 as int,
            0x7FF,
            f * 0x400_0000_0000,
        );
    } else if e == 0 && f == 0 {
        assert(mag64(w) == 0);
        assert(val_mag64(w) == 0 * pow2(0));
        assert(val_mag16(b) == 0 * pow2(0));
    } else if e == 0 {
        lemma_norm_shift_bounds(f as nat);
        let k = norm_shift(f as nat);
        let hi = f * pow2(k);
        let mag: int = (1050 - k) * (EXP_UNIT_64 as int) + hi;
        assert(w == (s + mag) as u64);
        assert(mag == (1051 - k) * (EXP_UNIT_64 as int) + (hi - EXP_UNIT_64));
        assert(mag64(w) == mag);
        vstd::arithmetic::div_mod::lemma_fundamental_div_mod_converse(
            mag,
            EXP_UNIT_64 as int,
            1051 - k,
            hi - EXP_UNIT_64,
        );
        assert(exp64(w) == 1051 - k);
        assert(frac64(w) == hi - EXP_UNIT_64);
        assert(val_mag64(w) == hi * pow2((1050 - k) as nat));
        vstd::arithmetic::power2::lemma_pow2_adds(k, (1050 - k) as nat);
        assert((f * pow2(k)) * pow2((1050 - k) as nat) == f * pow2(1050)) by (nonlinear_arith)
            requires
                pow2(k) * pow2((1050 - k) as nat) == pow2(1050),
        ;
        assert(val_mag16(b) == f * pow2(0));
    } else {
        let mag: int = (e + 1008) * (EXP_UNIT_64 as int) + f * 0x400_0000_0000;
        assert(w == (s + mag) as u64);
        assert(mag64(w) == mag);
        vstd::arithmetic::div_mod::lemma_fundamental_div_mod_converse(
            mag,
            EXP_UNIT_64 as int,
            e + 1008,
            f * 0x400_0000_0000,
        );
        assert(exp64(w) == e + 1008);
        assert(frac64(w) == f * 0x400_0000_0000);
        assert(val_mag64(w) == (f * 0x400_0000_0000 + EXP_UNIT_64) * pow2((e + 1007) as nat));
        assert(f * 0x400_0000_0000 + EXP_UNIT_64 == 0x400_0000_0000 * (f + EXP_UNIT_16));
        vstd::arithmetic::power2::lemma_pow2_adds(42, (e + 1007) as nat);
        vstd::arithmetic::power2::lemma_pow2_adds((e - 1) as nat, 1050);
        assert((0x400_0000_0000 * (f + EXP_UNIT_16)) * pow2((e + 1007) as nat) == (f
            + EXP_UNIT_16) * (pow2(42) * pow2((e + 1007) as nat))) by (nonlinear_arith)
            requires
                pow2(42) == 0x400_0000_0000,
        ;
        assert(val_mag16(b) * pow2(1050) == (f + EXP_UNIT_16) * pow2((e + 1049) as nat)) by (
        nonlinear_arith)
            requires
                val_mag16(b) == (f + EXP_UNIT_16) * pow2((e - 1) as nat),
                pow2((e - 1) as nat) * pow2(1050) == pow2((e + 1049) as nat),
        ;
    }
    vstd::arithmetic::mul::lemma_mul_unary_negation(val_mag16(b), pow2(1050) as int);
}

/// Doubles a subnormal fraction until it reaches the binary64 implicit-one
/// position, returning the shift count and the shifted fraction.
fn normalize_frac(f: u64) -> (r: (u64, u64))
    requires
        0 < f < EXP_UNIT_64,
    ensures
        r.0 == norm_shift(f as nat),
        r.0 <= 52,
        r.1 == f * vstd::arithmetic::power2::pow2(r.0 as nat),
        EXP_UNIT_64 <= r.1 < 0x20_0000_0000_0000,
{
    proof {
        vstd::arithmetic::power2::lemma2_to64();
        vstd::arithmetic::power2::lemma2_to64_rest();
    }
    let mut m = f;
    let mut k: u64 = 0;
    while m < EXP_UNIT_64
        invariant
            0 < m < 0x20_0000_0000_0000,
            m == f * vstd::arithmetic::power2::pow2(k as nat),
            norm_shift(f as nat) == k + norm_shift(m as nat),
            vstd::arithmetic::power2::pow2(k as nat) <= m,
            k <= 52,
        decreases 52 - k,
    {
        proof {
            vstd::arithmetic::power2::lemma2_to64();
            vstd::arithmetic::power2::lemma2_to64_rest();
            if k >= 52 {
                if k > 52 {
                    vstd::arithmetic::power2::lemma_pow2_strictly_increases(52, k as nat);
                }
                assert(false);
            }
            vstd::arithmetic::power2::lemma_pow2_adds(k as nat, 1);
            assert(vstd::arithmetic::power2::pow2((k + 1) as nat) == 2 * vstd::arithmetic::power2::pow2(
                k as nat,
            ));
            assert(2 * (f * vstd::arithmetic::power2::pow2(k as nat)) == f * (2
                * vstd::arithmetic::power2::pow2(k as nat))) by (nonlinear_arith);
        }
        m = m * 2;
        k = k + 1;
    }
    (k, m)
}

/// Converts one binary32 pattern to the binary64 pattern with the same value.
pub fn widen_f32_bits(b: u32) -> (r: u64)
    ensures
        r == widen32(b),
{
    let sign: u64 = if b >= SIGN_32 {
        SIGN_64
    } else {
        0
    };
    let mag: u32 = if b >= SIGN_32 {
        b - SIGN_32
    } else {
        b
    };
    let e: u32 = mag / EXP_UNIT_32;
    let f: u32 = mag % EXP_UNIT_32;
    let wide_mag: u64 = if e == 0xFF {
        INF_MAG_64 + (f as u64) * 0x2000_0000
    } else if e == 0 {
        if f == 0 {
            0u64
        } else {
            let (k, m) = normalize_frac(f as u64);
            (925 - k) * EXP_UNIT_64 + m
        }
    } else {
        ((e as u64) + 896) * EXP_UNIT_64 + (f as u64) * 0x2000_0000
    };
    sign + wide_mag
}

/// Converts one binary16 pattern to the binary64 pattern with the same value.
pub fn widen_f16_bits(b: u16) -> (r: u64)
    ensures
        r == widen16(b),
{
    let sign: u64 = if b >= SIGN_16 {
        SIGN_64
    } else {
        0
    };
    let mag: u16 = if b >= SIGN_16 {
        b - SIGN_16
    } else {
        b
    };
    let e: u16 = mag / EXP_UNIT_16;
    let f: u16 = mag % EXP_UNIT_16;
    let wide_mag: u64 = if e == 0x1F {
        INF_MAG_64 + (f as u64) * 0x400_0000_0000
    } else if e == 0 {
        if f == 0 {
            0u64
        } else {
            let (k, m) = normalize_frac(f as u64);
            (1050 - k) * EXP_UNIT_64 + m
        }
    } else {
        ((e as u64) + 1008) * EXP_UNIT_64 + (f as u64) * 0x400_0000_0000
    };
    sign + wide_mag
}

} // verus!
