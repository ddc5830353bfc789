//! The tail of the forward transform: the saturating float-to-integer
//! conversion that turns scaled, rounded binary64 patterns into 8-bit codes,
//! and the batch step that applies it with an explicit NaN-to-zero guard.
//!
//! The affine scaling itself (`(v - start) * 255 / (end - start)`, rounded,
//! in double precision) is native float work that the shell around the
//! library performs; see `ScaleJob`. Everything after that point
//! is defined and verified here, so the conversion's clamp-then-truncate
//! semantics do not depend on any platform's native float-to-int cast.

use vstd::prelude::*;
use vstd::arithmetic::power2::pow2;
use crate::float_bits::{is_nan64, is_inf64, sign64, val_mag64, exp64, frac64, SIGN_64, EXP_UNIT_64};

verus! {

/// The 8-bit code that the saturating conversion assigns to a scaled,
/// rounded binary64 pattern: NaN and negative patterns map to 0, values of
/// 256 or more (and `+infinity`) saturate to 255, and every other value
/// keeps its integer part. `val_mag64` counts in units of `2^-1074`, so
/// dividing by `pow2(1074)` is exactly the integer part of the value.
pub open spec fn code_of_scaled(b: u64) -> u8 {
    if is_nan64(b) {
        0
    } else if sign64(b) {
        0
    } else if is_inf64(b) {
        255
    } else if val_mag64(b) >= 256 * pow2(1074) {
        255
    } else {
        (val_mag64(b) / (pow2(1074) as int)) as u8
    }
}

/// The code for one batch component: an input component that was already NaN
/// maps to 0 whatever the scaling step produced; otherwise the saturating
/// conversion of the scaled pattern decides.
pub open spec fn component_code(value: u64, scaled: u64) -> u8 {
    if is_nan64(value) {
        0
    } else {
        code_of_scaled(scaled)
    }
}

/// Computes `2^k` by repeated doubling.
fn pow2_u64(k: u64) -> (r: u64)
    requires
        k < 64,
    ensures
        r == pow2(k as nat),
{
    proof {
        vstd::arithmetic::power2::lemma2_to64();
        vstd::arithmetic::power2::lemma2_to64_rest();
    }
    let mut i: u64 = 0;
    let mut r: u64 = 1;
    while i < k
        invariant
            i <= k < 64,
            r == pow2(i as nat),
        decreases k - i,
    {
        proof {
            vstd::arithmetic::power2::lemma2_to64();
            vstd::arithmetic::power2::lemma2_to64_rest();
            if i < 63 {
                vstd::arithmetic::power2::lemma_pow2_strictly_increases(i as nat, 63);
            }
            vstd::arithmetic::power2::lemma_pow2_adds(i as nat, 1);
        }
        r = r * 2;
        i = i + 1;
    }
    r
}

/// The value of a finite positive pattern with biased exponent `e` is
/// `(frac + 2^52) * 2^(e-1)` units; relates its integer part and its size
/// to the exponent, for the three branches of the saturating conversion.
proof fn lemma_val_mag_bounds(b: u64)
    requires
        !is_nan64(b),
        !is_inf64(b),
    ensures
        exp64(b) < 1023 ==> val_mag64(b) < pow2(1074),
        exp64(b) >= 1031 ==> val_mag64(b) >= 256 * pow2(1074),
        1023 <= exp64(b) <= 1030 ==> val_mag64(b) < 256 * pow2(1074) && val_mag64(b) / (
        pow2(1074) as int) == (frac64(b) + EXP_UNIT_64) as int / (pow2(
            (1075 - exp64(b)) as nat,
        ) as int) && 0 <= val_mag64(b) / (pow2(1074) as int) < 256,
{
    vstd::arithmetic::power2::lemma2_to64();
    vstd::arithmetic::power2::lemma2_to64_rest();
    let e = exp64(b);
    let f = frac64(b) as int;
    if e < 1023 {
        if e == 0 {
            assert(val_mag64(b) == f * pow2(0));
            vstd::arithmetic::power2::lemma_pow2_strictly_increases(52, 1074);
        } else {
            let c = pow2((e - 1) as nat) as int;
            assert(val_mag64(b) == (f + EXP_UNIT_64) * c);
            if e < 1022 {
                vstd::arithmetic::power2::lemma_pow2_strictly_increases((e - 1) as nat, 1021);
            }
            vstd::arithmetic::power2::lemma_pow2_adds(53, 1021);
            vstd::arithmetic::power2::lemma_pow2_pos((e - 1) as nat);
            vstd::arithmetic::mul::lemma_mul_upper_bound(
                f + EXP_UNIT_64,
                (pow2(53) - 1) as int,
                c,
                pow2(1021) as int,
            );
        }
    } else if e >= 1031 {
        let c = pow2((e - 1) as nat) as int;
        assert(val_mag64(b) == (f + EXP_UNIT_64) * c);
        if e > 1031 {
            vstd::arithmetic::power2::lemma_pow2_strictly_increases(1030, (e - 1) as nat);
        }
        vstd::arithmetic::power2::lemma_pow2_pos(1030);
        vstd::arithmetic::power2::lemma_pow2_adds(52, 1030);
        vstd::arithmetic::power2::lemma_pow2_adds(8, 1074);
        assert(val_mag64(b) >= pow2(52) * pow2(1030)) by {
            assert((f + EXP_UNIT_64) * c >= (f + EXP_UNIT_64) * pow2(1030)) by (nonlinear_arith)
                requires
                    c >= pow2(1030),
                    f + EXP_UNIT_64 > 0,
            ;
            assert((f + EXP_UNIT_64) * pow2(1030) >= pow2(52) * pow2(1030)) by (nonlinear_arith)
                requires
                    f + EXP_UNIT_64 >= pow2(52),
                    pow2(1030) > 0,
            ;
        }
    } else {
        let m_eff: int = f + EXP_UNIT_64;
        let c = pow2((e - 1) as nat) as int;
        let d = pow2((1075 - e) as nat) as int;
        let unit = pow2(1074) as int;
        assert(val_mag64(b) == m_eff * c);
        vstd::arithmetic::power2::lemma_pow2_pos((e - 1) as nat);
        vstd::arithmetic::power2::lemma_pow2_pos((1075 - e) as nat);
        vstd::arithmetic::power2::lemma_pow2_adds((e - 1) as nat, (1075 - e) as nat);
        assert(unit == c * d);
        // val < 256 * unit
        if e < 1030 {
            vstd::arithmetic::power2::lemma_pow2_strictly_increases((e - 1) as nat, 1029);
        }
        vstd::arithmetic::power2::lemma_pow2_adds(53, 1029);
        vstd::arithmetic::power2::lemma_pow2_adds(8, 1074);
        vstd::arithmetic::mul::lemma_mul_upper_bound(
            m_eff,
            (pow2(53) - 1) as int,
            c,
            pow2(1029) as int,
        );
        // val / unit == m_eff / d
        vstd::arithmetic::div_mod::lemma_div_denominator(m_eff * c, c, d);
        assert(m_eff * c == c * m_eff);
        vstd::arithmetic::div_mod::lemma_div_multiples_vanish(m_eff, c);
        assert((m_eff * c) / c == m_eff);
        assert(val_mag64(b) / unit == m_eff / d);
        // 0 <= m_eff / d < 256
        if e < 1030 {
            vstd::arithmetic::power2::lemma_pow2_strictly_increases(45, (1075 - e) as nat);
        }
        vstd::arithmetic::div_mod::lemma_multiply_divide_lt(m_eff, d, 256);
        vstd::arithmetic::div_mod::lemma_div_pos_is_pos(m_eff, d);
    }
}

/// The saturating float-to-integer conversion on a binary64 pattern, as
/// `code_of_scaled` defines it: clamp to `[0, 255]`, truncate, NaN to 0.
pub fn saturate_to_code(b: u64) -> (r: u8)
    ensures
        r == code_of_scaled(b),
{
    let mag: u64 = if b >= SIGN_64 {
        b - SIGN_64
    } else {
        b
    };
    let e: u64 = mag / EXP_UNIT_64;
    let f: u64 = mag % EXP_UNIT_64;
    if e == 0x7FF && f != 0 {
        0  // NaN
    } else if b >= SIGN_64 {
        0  // negative sign: the clamp floor is 0
    } else if e == 0x7FF {
        255  // +infinity: the clamp ceiling is 255
    } else if e >= 1031 {
        proof {
            lemma_val_mag_bounds(b);
        }
        255  // 256 or more
    } else if e < 1023 {
        proof {
            lemma_val_mag_bounds(b);
            vstd::arithmetic::power2::lemma_pow2_pos(1074);
            vstd::arithmetic::div_mod::lemma_basic_div(val_mag64(b), pow2(1074) as int);
        }
        0  // below 1: the integer part is 0
    } else {
        // 1 <= value < 256: divide out the exponent to get the integer part
        let m_eff: u64 = f + EXP_UNIT_64;
        let d: u64 = pow2_u64(1075 - e);
        proof {
            vstd::arithmetic::power2::lemma_pow2_pos((1075 - e) as nat);
            lemma_val_mag_bounds(b);
        }
        let q: u64 = m_eff / d;
        q as u8
    }
}

/// One group of `dim` codes per input vector: the code array the transform
/// produces and the storage collaborator persists.
#[derive(Debug)]
pub struct CodeBatch {
    pub dim: usize,
    pub codes: Vec<u8>,
}

/// A transform that still needs its affine scaling step: for each entry of
/// `values` (binary64 patterns, widened from the input batch), the shell
/// computes `round((v - start) * 255 / (end - start))` in double precision
/// and hands the resulting patterns to `finish_transform`.
#[derive(Debug)]
pub struct ScaleJob {
    pub dim: usize,
    pub start: u64,
    pub end: u64,
    pub values: Vec<u64>,
}

/// Completes a transform: applies the saturating conversion to each scaled
/// pattern, with input components that were already NaN pinned to code 0
/// whatever the scaling step handed back.
pub fn finish_transform(job: &ScaleJob, scaled: &Vec<u64>) -> (r: CodeBatch)
    requires
        scaled@.len() == job.values@.len(),
    ensures
        r.dim == job.dim,
        r.codes@.len() == job.values@.len(),
        forall|i: int|
            0 <= i < r.codes@.len() ==> r.codes@[i] == component_code(job.values@[i], scaled@[i]),
{
    let n = scaled.len();
    let mut codes: Vec<u8> = Vec::new();
    let mut i: usize = 0;
    while i < n
        invariant
            i <= n,
            n == scaled@.len() == job.values@.len(),
            codes@.len() == i,
            forall|j: int|
                0 <= j < i as int ==> codes@[j] == component_code(job.values@[j], scaled@[j]),
        decreases n - i,
    {
        let c: u8 = if crate::float_bits::f64_bits_is_nan(job.values[i]) {
            0
        } else {
            saturate_to_code(scaled[i])
        };
        codes.push(c);
        i += 1;
    }
    CodeBatch { dim: job.dim, codes }
}

} // verus!
