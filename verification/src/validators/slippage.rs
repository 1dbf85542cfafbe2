//! Swap slippage thresholds, decided on the IEEE-754 binary64 encoding of the percentage.
//!
//! A finite binary64 value `x` with magnitude bits `m` (the encoding without its sign bit)
//! has `|x| * 2^1075 == scaled_magnitude(m)`, an exact natural number; thresholds are
//! compared on that number.
use vstd::arithmetic::power2::{lemma2_to64, lemma2_to64_rest, lemma_pow2_adds, lemma_pow2_pos, lemma_pow2_strictly_increases, pow2};
use vstd::prelude::*;

use crate::rules::RuleKind;

verus! {

/// The sign bit is set.
pub open spec fn sign_set(bits: u64) -> bool {
    bits >= 0x8000_0000_0000_0000
}

/// The encoding without its sign bit.
pub open spec fn magnitude_bits(bits: u64) -> nat {
    (bits % 0x8000_0000_0000_0000) as nat
}

/// The biased exponent field of magnitude bits.
pub open spec fn biased_exponent(m: nat) -> nat {
    m / 0x10_0000_0000_0000
}

/// The fraction field of magnitude bits.
pub open spec fn fraction(m: nat) -> nat {
    m % 0x10_0000_0000_0000
}

/// `f64::is_finite`: the exponent field is not all ones.
pub open spec fn is_finite_bits(bits: u64) -> bool {
    biased_exponent(magnitude_bits(bits)) != 2047
}

/// `|x| * 2^1075` for the finite value `x` whose magnitude bits are `m`.
pub open spec fn scaled_magnitude(m: nat) -> nat {
    if biased_exponent(m) == 0 {
        fraction(m) * 2
    } else {
        (pow2(52) + fraction(m)) * pow2(biased_exponent(m))
    }
}

/// `x < 0.0` for a finite value: negative sign and a magnitude other than zero.
pub open spec fn is_negative_bits(bits: u64) -> bool {
    sign_set(bits) && magnitude_bits(bits) != 0
}

/// `|x| <= n` for a finite value.
pub open spec fn magnitude_at_most(bits: u64, n: nat) -> bool {
    scaled_magnitude(magnitude_bits(bits)) <= n * pow2(1075)
}

/// The slippage rule of a swap: none supplied asks for review; a value that is not finite
/// or below zero stops; 0 through 3 percent passes; above 3 through 10 asks for review;
/// above 10 stops.
pub open spec fn spec_slippage_rule(bits: Option<u64>) -> Option<RuleKind> {
    match bits {
        None => Some(RuleKind::SwapMissingSlippage),
        Some(b) => if !is_finite_bits(b) || is_negative_bits(b) {
            Some(RuleKind::SwapInvalidSlippage)
        } else if magnitude_at_most(b, 3) {
            None
        } else if magnitude_at_most(b, 10) {
            Some(RuleKind::SwapSlippageReview)
        } else {
            Some(RuleKind::SwapSlippageStop)
        },
    }
}

/// The severity of a slippage outcome: none 0, review 1, stop 2.
pub open spec fn slippage_severity(r: Option<RuleKind>) -> int {
    match r {
        None => 0,
        Some(RuleKind::SwapSlippageReview) => 1,
        Some(RuleKind::SwapMissingSlippage) => 1,
        _ => 2,
    }
}

/// Finite magnitudes are ordered as their encodings are.
pub proof fn lemma_scaled_magnitude_strictly_increases(m1: nat, m2: nat)
    requires
        m1 < m2 < 0x7FF0_0000_0000_0000,
    ensures
        scaled_magnitude(m1) < scaled_magnitude(m2),
{
    let e1 = biased_exponent(m1);
    let e2 = biased_exponent(m2);
    let f1 = fraction(m1);
    let f2 = fraction(m2);
    lemma2_to64();
    lemma2_to64_rest();
    assert(m1 == e1 * 0x10_0000_0000_0000 + f1);
    assert(m2 == e2 * 0x10_0000_0000_0000 + f2);
    assert(e1 <= e2);
    if e1 == e2 {
        assert(f1 < f2);
        if e1 > 0 {
            let p = pow2(e1);
            lemma_pow2_pos(e1);
            assert((pow2(52) + f1) * p < (pow2(52) + f2) * p) by (nonlinear_arith)
                requires
                    f1 < f2,
                    p > 0,
            ;
        }
    } else {
        assert(e1 < e2);
        lemma_pow2_pos(e2);
        if e1 == 0 {
            lemma_pow2_strictly_increases(0, e2);
            let p = pow2(e2);
            assert((pow2(52) + f2) * p >= pow2(52) * 2) by (nonlinear_arith)
                requires
                    p >= 2,
            ;
        } else {
            lemma_pow2_pos(e1);
            lemma_pow2_adds(e1, 1);
            if e1 + 1 < e2 {
                lemma_pow2_strictly_increases(e1 + 1, e2);
            }
            let p1 = pow2(e1);
            let p2 = pow2(e2);
            assert((pow2(52) + f1) * p1 < (pow2(52) * 2) * p1) by (nonlinear_arith)
                requires
                    f1 < pow2(52),
                    p1 > 0,
            ;
            assert((pow2(52) * 2) * p1 == pow2(52) * (p1 * 2)) by (nonlinear_arith);
            assert(pow2(52) * pow2(e1 + 1) <= pow2(52) * p2) by (nonlinear_arith)
                requires
                    pow2(e1 + 1) <= p2,
            ;
            assert(pow2(52) * p2 <= (pow2(52) + f2) * p2) by (nonlinear_arith)
                requires
                    p2 > 0,
            ;
        }
    }
}

/// The encoding of 3.0 scales to 3 * 2^1075.
proof fn lemma_three_percent()
    ensures
        scaled_magnitude(0x4008_0000_0000_0000) == 3 * pow2(1075),
{
    lemma2_to64();
    lemma2_to64_rest();
    assert(biased_exponent(0x4008_0000_0000_0000) == 1024);
    assert(fraction(0x4008_0000_0000_0000) == pow2(51));
    lemma_pow2_adds(51, 1024);
    assert((pow2(52) + pow2(51)) * pow2(1024) == 3 * (pow2(51) * pow2(1024))) by (nonlinear_arith)
        requires
            pow2(52) == 2 * pow2(51),
    ;
}

/// The encoding of 10.0 scales to 10 * 2^1075.
proof fn lemma_ten_percent()
    ensures
        scaled_magnitude(0x4024_0000_0000_0000) == 10 * pow2(1075),
{
    lemma2_to64();
    lemma2_to64_rest();
    assert(biased_exponent(0x4024_0000_0000_0000) == 1026);
    assert(fraction(0x4024_0000_0000_0000) == pow2(50));
    lemma_pow2_adds(49, 1026);
    lemma_pow2_adds(1075, 0);
    lemma_pow2_adds(1026, 49);
    assert(pow2(1075) == pow2(49) * pow2(1026));
    assert((pow2(52) + pow2(50)) * pow2(1026) == 10 * (pow2(49) * pow2(1026))) by (nonlinear_arith)
        requires
            pow2(52) == 8 * pow2(49),
            pow2(50) == 2 * pow2(49),
    ;
}

/// A finite magnitude is at most the threshold `t` exactly when its encoding is at most
/// the threshold's encoding.
proof fn lemma_compare_with_threshold(m: nat, t: nat)
    requires
        m < 0x7FF0_0000_0000_0000,
        t < 0x7FF0_0000_0000_0000,
    ensures
        (m <= t) == (scaled_magnitude(m) <= scaled_magnitude(t)),
{
    if m < t {
        lemma_scaled_magnitude_strictly_increases(m, t);
    } else if t < m {
        lemma_scaled_magnitude_strictly_increases(t, m);
    }
}

/// The rule that a swap's slippage fires, if any.
pub fn slippage_rule(bits: Option<u64>) -> (r: Option<RuleKind>)
    ensures
        r == spec_slippage_rule(bits),
{
    match bits {
        None => Some(RuleKind::SwapMissingSlippage),
        Some(b) => {
            let negative = b >= 0x8000_0000_0000_0000;
            let m: u64 = b % 0x8000_0000_0000_0000;
            proof {
                lemma_three_percent();
                lemma_ten_percent();
                if m < 0x7FF0_0000_0000_0000 {
                    lemma_compare_with_threshold(m as nat, 0x4008_0000_0000_0000);
                    lemma_compare_with_threshold(m as nat, 0x4024_0000_0000_0000);
                }
            }
            if m >= 0x7FF0_0000_0000_0000 || (negative && m != 0) {
                Some(RuleKind::SwapInvalidSlippage)
            } else if m <= 0x4008_0000_0000_0000 {
                None
            } else if m <= 0x4024_0000_0000_0000 {
                Some(RuleKind::SwapSlippageReview)
            } else {
                Some(RuleKind::SwapSlippageStop)
            }
        },
    }
}

/// Raising a valid slippage never lowers the severity of its outcome.
pub proof fn law_slippage_monotone(a: u64, b: u64)
    requires
        is_finite_bits(a) && !is_negative_bits(a),
        is_finite_bits(b) && !is_negative_bits(b),
        scaled_magnitude(magnitude_bits(a)) <= scaled_magnitude(magnitude_bits(b)),
    ensures
        slippage_severity(spec_slippage_rule(Some(a))) <= slippage_severity(
            spec_slippage_rule(Some(b)),
        ),
{
}

} // verus!
