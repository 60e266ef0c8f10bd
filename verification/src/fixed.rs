//! Q16.16 fixed-point scalars: the unit constant, fixed-point multiplication,
//! and a decaying-exponential evaluator used for both the spatial and the
//! range kernel weights.

use vstd::prelude::*;

verus! {

/// 1.0 in Q16.16 fixed point.
pub const ONE: u64 = 65536;

/// `ONE * ONE`, the scale of a product of two Q16.16 values.
pub const ONE_SQUARED: u64 = 65536 * 65536;

/// `ONE * ONE * ONE`, used when dividing a Q16.16 unit by a Q32 square.
pub const ONE_CUBED: u64 = 65536 * 65536 * 65536;

/// `exp_neg` saturates to 0 from this argument on (32.0 in Q16.16);
/// `e^-32` is far below the smallest positive Q16.16 value.
pub const EXP_ARG_MAX: u64 = 32 * 65536;

/// `e^-1` in Q16.16, rounded down.
pub const EXP_NEG1: u64 = 24109;

/// Fixed-point product: `a * b` rescaled back to Q16.16, rounding down.
pub open spec fn mul_q_spec(a: int, b: int) -> int {
    (a * b) / (ONE as int)
}

/// `a * b <= a * c` for `0 <= b <= c` and `a >= 0`.
pub proof fn lemma_mul_le(a: int, b: int, c: int)
    by (nonlinear_arith)
    requires
        0 <= a,
        0 <= b <= c,
    ensures
        a * b <= a * c,
{
}

/// A square is non-negative and monotone in the magnitude of its base.
pub proof fn lemma_sq_bound(a: int, b: int)
    by (nonlinear_arith)
    requires
        -b <= a <= b,
    ensures
        0 <= a * a <= b * b,
{
}

/// A product is bounded by the product of the bounds on the magnitudes of
/// its factors.
pub proof fn lemma_abs_mul_bound(a: int, b: int, m: int)
    by (nonlinear_arith)
    requires
        -m <= a <= m,
        -m <= b <= m,
    ensures
        -(m * m) <= a * b <= m * m,
{
}

/// A fixed-point product of factors in `[0, ONE]` stays in `[0, ONE]` and
/// below each factor.
pub proof fn lemma_mul_q_bounds(a: int, b: int)
    requires
        0 <= a <= ONE,
        0 <= b <= ONE,
    ensures
        0 <= mul_q_spec(a, b) <= a,
        mul_q_spec(a, b) <= b,
{
    lemma_mul_le(a, b, ONE as int);
    lemma_mul_le(b, a, ONE as int);
    assert(a * b == b * a) by (nonlinear_arith);
    assert(a * b >= 0) by (nonlinear_arith)
        requires
            0 <= a,
            0 <= b,
    ;
}

/// Fixed-point multiplication of two values in `[0, ONE]`.
pub fn mul_q(a: u64, b: u64) -> (r: u64)
    requires
        a <= ONE,
        b <= ONE,
    ensures
        r == mul_q_spec(a as int, b as int),
        r <= a,
        r <= b,
{
    proof {
        lemma_mul_q_bounds(a as int, b as int);
    }
    (a * b) / ONE
}

/// Degree-5 alternating Taylor series for `e^-f` on a fractional argument,
/// grouped as (positive terms) - (negative terms) so every intermediate value
/// is a non-negative fixed-point number.
pub open spec fn exp_frac_spec(f: int) -> int {
    let p2 = (f * f) / (ONE as int);
    let p3 = (p2 * f) / (ONE as int);
    let p4 = (p3 * f) / (ONE as int);
    let p5 = (p4 * f) / (ONE as int);
    (ONE + p2 / 2 + p4 / 24) - (f + p3 / 6 + p5 / 120)
}

/// Each truncated power of a fractional argument is one step smaller:
/// `0 <= (p * f) / ONE <= p` whenever `0 <= f < ONE`.
proof fn lemma_pow_step(p: int, f: int)
    requires
        0 <= p,
        0 <= f < ONE,
    ensures
        0 <= (p * f) / (ONE as int) <= p,
{
    lemma_mul_le(p, f, ONE as int);
    vstd::arithmetic::div_mod::lemma_div_is_ordered(p * f, p * (ONE as int), ONE as int);
    vstd::arithmetic::div_mod::lemma_div_by_multiple(p, ONE as int);
    assert(p * f >= 0) by (nonlinear_arith)
        requires
            0 <= p,
            0 <= f,
    ;
    vstd::arithmetic::div_mod::lemma_div_pos_is_pos(p * f, ONE as int);
}

/// The series value lies in `[0, ONE]`, and is exactly `ONE` at 0.
pub proof fn lemma_exp_frac_bounds(f: int)
    requires
        0 <= f < ONE,
    ensures
        0 <= exp_frac_spec(f) <= ONE,
        f == 0 ==> exp_frac_spec(f) == ONE,
{
    let p2 = (f * f) / (ONE as int);
    let p3 = (p2 * f) / (ONE as int);
    let p4 = (p3 * f) / (ONE as int);
    let p5 = (p4 * f) / (ONE as int);
    lemma_pow_step(f, f);
    lemma_pow_step(p2, f);
    lemma_pow_step(p3, f);
    lemma_pow_step(p4, f);
    vstd::arithmetic::div_mod::lemma_div_is_ordered(p3, p2, 6);
    vstd::arithmetic::div_mod::lemma_div_is_ordered_by_denominator(p2, 2, 6);
    vstd::arithmetic::div_mod::lemma_div_is_ordered(p5, p4, 120);
    vstd::arithmetic::div_mod::lemma_div_is_ordered_by_denominator(p4, 24, 120);
    vstd::arithmetic::div_mod::lemma_div_is_ordered(p2, f, 2);
    vstd::arithmetic::div_mod::lemma_div_is_ordered(p4, f, 24);
    vstd::arithmetic::div_mod::lemma_div_is_ordered_by_denominator(f, 2, 24);
}

/// `v` multiplied `k` times by `e^-1`, in Q16.16.
pub open spec fn exp_pow_spec(v: int, k: nat) -> int
    decreases k,
{
    if k == 0 {
        v
    } else {
        mul_q_spec(exp_pow_spec(v, (k - 1) as nat), EXP_NEG1 as int)
    }
}

pub proof fn lemma_exp_pow_bounds(v: int, k: nat)
    requires
        0 <= v <= ONE,
    ensures
        0 <= exp_pow_spec(v, k) <= v,
    decreases k,
{
    if k > 0 {
        lemma_exp_pow_bounds(v, (k - 1) as nat);
        lemma_mul_q_bounds(exp_pow_spec(v, (k - 1) as nat), EXP_NEG1 as int);
    }
}

/// `e^-x` for a non-negative Q16.16 argument: the fractional part goes
/// through the series, the integral part through repeated multiplication by
/// `e^-1`; arguments of 32.0 or more saturate to 0.
pub open spec fn exp_neg_spec(x: int) -> int {
    if x >= EXP_ARG_MAX {
        0
    } else {
        exp_pow_spec(exp_frac_spec(x % (ONE as int)), (x / (ONE as int)) as nat)
    }
}

/// The exponential maps `[0, +inf)` into `[0, ONE]` and sends 0 to `ONE`.
pub proof fn lemma_exp_neg_bounds(x: int)
    requires
        0 <= x,
    ensures
        0 <= exp_neg_spec(x) <= ONE,
        x == 0 ==> exp_neg_spec(x) == ONE,
{
    if x < EXP_ARG_MAX {
        let f = x % (ONE as int);
        let k = (x / (ONE as int)) as nat;
        lemma_exp_frac_bounds(f);
        lemma_exp_pow_bounds(exp_frac_spec(f), k);
    }
}

/// Evaluates the series on the fractional part of an argument.
fn exp_frac(f: u64) -> (r: u64)
    requires
        f < ONE,
    ensures
        r == exp_frac_spec(f as int),
        r <= ONE,
{
    proof {
        lemma_pow_step(f as int, f as int);
        lemma_pow_step((f * f) / (ONE as int), f as int);
        lemma_pow_step(((f * f) / (ONE as int) * f) / (ONE as int), f as int);
        lemma_pow_step(
            (((f * f) / (ONE as int) * f) / (ONE as int) * f) / (ONE as int),
            f as int,
        );
        lemma_exp_frac_bounds(f as int);
    }
    let p2 = f * f / ONE;
    let p3 = p2 * f / ONE;
    let p4 = p3 * f / ONE;
    let p5 = p4 * f / ONE;
    let pos = ONE + p2 / 2 + p4 / 24;
    let neg = f + p3 / 6 + p5 / 120;
    pos - neg
}

/// `e^-x` for a Q16.16 argument.
pub fn exp_neg(x: u64) -> (r: u64)
    ensures
        r == exp_neg_spec(x as int),
        r <= ONE,
        x == 0 ==> r == ONE,
{
    proof {
        lemma_exp_neg_bounds(x as int);
    }
    if x >= EXP_ARG_MAX {
        return 0;
    }
    let f = x % ONE;
    let k = x / ONE;
    let mut v = exp_frac(f);
    let mut i: u64 = 0;
    while i < k
        invariant
            i <= k,
            f < ONE,
            v == exp_pow_spec(exp_frac_spec(f as int), i as nat),
            v <= ONE,
        decreases k - i,
    {
        v = mul_q(v, EXP_NEG1);
        i = i + 1;
    }
    v
}

} // verus!
