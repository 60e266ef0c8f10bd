//! The range-weight function, polymorphic over the two variants: a plain
//! Euclidean color distance and an anisotropic "Riemannian" quadratic form
//! that models correlation between the color channels.
//!
//! The anisotropic metric is `A * norm_sq + 2 * B * mixed` with constants
//! derived from the fixed noise parameters SIGMA = 1/20 and CORR = 4/5:
//! `A = (1/SIGMA^2)(1+CORR)/((1-CORR)(1+2 CORR)) = 18000/13` and
//! `B = -(1/SIGMA^2) CORR/((1-CORR)(1+2 CORR)) = -8000/13`, both exact
//! rationals with denominator 13, so the form is computed as an integer
//! numerator over 13.

use vstd::prelude::*;

use crate::fixed::EXP_ARG_MAX;
use crate::fixed::ONE;
use crate::fixed::ONE_CUBED;
use crate::fixed::ONE_SQUARED;
use crate::fixed::exp_neg;
use crate::fixed::exp_neg_spec;
use crate::fixed::lemma_abs_mul_bound;
use crate::fixed::lemma_exp_neg_bounds;
use crate::fixed::lemma_sq_bound;
use crate::samples::Rgb;

verus! {

/// Which color metric drives the range weight.
#[derive(Clone, Copy, Debug, PartialEq, Eq, Structural)]
pub enum Variant {
    Euclidean,
    Riemannian,
}

/// `13 * A`: the diagonal coefficient of the anisotropic metric, times its
/// denominator.
pub const A_NUM_13: u64 = 18000;

/// `13 * (-2 * B)`: the (negated) cross coefficient, times the denominator.
pub const TWO_B_NEG_NUM_13: u64 = 16000;

/// The common denominator of `A` and `B`.
pub const METRIC_DEN: u64 = 13;

/// Squared Euclidean color distance of two samples, in Q32.
pub open spec fn norm_sq_spec(p: Rgb, q: Rgb) -> int {
    let dr = p.r - q.r;
    let dg = p.g - q.g;
    let db = p.b - q.b;
    dr * dr + dg * dg + db * db
}

/// The cross-channel term of the anisotropic metric, in Q32.
pub open spec fn mixed_spec(p: Rgb, q: Rgb) -> int {
    let dr = p.r - q.r;
    let dg = p.g - q.g;
    let db = p.b - q.b;
    dr * dg + dr * db + dg * db
}

/// `13 * (A * norm_sq + 2 * B * mixed)`: the anisotropic exponent numerator
/// scaled to an integer.
pub open spec fn riemannian_num13_spec(norm_sq: int, mixed: int) -> int {
    A_NUM_13 * norm_sq - TWO_B_NEG_NUM_13 * mixed
}

/// `ab + ac + bc` never exceeds `a^2 + b^2 + c^2` (their difference is half
/// a sum of squares), and the latter is non-negative.
pub proof fn lemma_cross_term_bound(a: int, b: int, c: int)
    by (nonlinear_arith)
    ensures
        0 <= a * a + b * b + c * c,
        a * b + a * c + b * c <= a * a + b * b + c * c,
{
}

/// The anisotropic quadratic form is positive semidefinite: its smallest
/// eigenvalue is `A + 2B = 2000/13 > 0`.
pub proof fn lemma_riemannian_num_nonneg(p: Rgb, q: Rgb)
    ensures
        riemannian_num13_spec(norm_sq_spec(p, q), mixed_spec(p, q)) >= 0,
{
    let dr = p.r - q.r;
    let dg = p.g - q.g;
    let db = p.b - q.b;
    lemma_cross_term_bound(dr, dg, db);
}

/// With a vanishing cross-channel term the anisotropic exponent numerator is
/// exactly the Euclidean one scaled by the constant `A`: the Riemannian
/// variant degenerates to a rescaled Euclidean range weight.
pub proof fn lemma_zero_cross_reduces_to_euclidean(p: Rgb, q: Rgb)
    requires
        mixed_spec(p, q) == 0,
    ensures
        riemannian_num13_spec(norm_sq_spec(p, q), mixed_spec(p, q)) == A_NUM_13 * norm_sq_spec(
            p,
            q,
        ),
{
}

/// The range exponent `distance * inv_2r2` of two samples, in Q16.16.
/// `inv_2r2` is `1 / (2 sigma_r^2)` in Q16.16; the squared distances carry
/// scale Q32, so the product is rescaled by `ONE^2` (and the metric
/// denominator 13 for the anisotropic form).
pub open spec fn range_t_spec(variant: Variant, p: Rgb, q: Rgb, inv_2r2: int) -> int {
    match variant {
        Variant::Euclidean => (norm_sq_spec(p, q) * inv_2r2) / (ONE_SQUARED as int),
        Variant::Riemannian => (riemannian_num13_spec(norm_sq_spec(p, q), mixed_spec(p, q))
            * inv_2r2) / (METRIC_DEN * (ONE_SQUARED as int)),
    }
}

/// The range weight `e^-t` of two samples.
pub open spec fn range_weight_spec(variant: Variant, p: Rgb, q: Rgb, inv_2r2: int) -> int {
    exp_neg_spec(range_t_spec(variant, p, q, inv_2r2))
}

/// Range exponents are non-negative and range weights lie in `[0, ONE]`.
pub proof fn lemma_range_weight_bounds(variant: Variant, p: Rgb, q: Rgb, inv_2r2: int)
    requires
        0 <= inv_2r2,
    ensures
        0 <= range_t_spec(variant, p, q, inv_2r2),
        0 <= range_weight_spec(variant, p, q, inv_2r2) <= ONE,
{
    let n = norm_sq_spec(p, q);
    let m = mixed_spec(p, q);
    lemma_cross_term_bound(p.r - q.r, p.g - q.g, p.b - q.b);
    lemma_riemannian_num_nonneg(p, q);
    vstd::arithmetic::mul::lemma_mul_nonnegative(n, inv_2r2);
    vstd::arithmetic::mul::lemma_mul_nonnegative(riemannian_num13_spec(n, m), inv_2r2);
    vstd::arithmetic::div_mod::lemma_div_pos_is_pos(n * inv_2r2, ONE_SQUARED as int);
    vstd::arithmetic::div_mod::lemma_div_pos_is_pos(
        riemannian_num13_spec(n, m) * inv_2r2,
        METRIC_DEN * (ONE_SQUARED as int),
    );
    lemma_exp_neg_bounds(range_t_spec(variant, p, q, inv_2r2));
}

/// Two identical samples are at distance zero under either metric, so their
/// range weight is exactly `ONE`.
pub proof fn lemma_range_weight_identity(variant: Variant, p: Rgb, inv_2r2: int)
    requires
        0 <= inv_2r2,
    ensures
        range_weight_spec(variant, p, p, inv_2r2) == ONE,
{
    let dr = p.r - p.r;
    assert(dr * dr == 0 && dr * dr + dr * dr + dr * dr == 0) by (nonlinear_arith)
        requires
            dr == 0,
    ;
    assert(norm_sq_spec(p, p) == 0);
    assert(mixed_spec(p, p) == 0);
    let n = norm_sq_spec(p, p);
    let m = mixed_spec(p, p);
    assert(n * inv_2r2 == 0 && riemannian_num13_spec(n, m) * inv_2r2 == 0) by (nonlinear_arith)
        requires
            n == 0,
            m == 0,
            riemannian_num13_spec(n, m) == 0,
    ;
    assert(range_t_spec(variant, p, p, inv_2r2) == 0);
    lemma_exp_neg_bounds(0);
}

/// Saturates a non-negative Q16.16 exponent into the evaluator's range.
fn exp_of(t: u128) -> (w: u64)
    ensures
        w as int == exp_neg_spec(t as int),
        w <= ONE,
        t == 0 ==> w == ONE,
{
    if t >= EXP_ARG_MAX as u128 {
        0
    } else {
        exp_neg(t as u64)
    }
}

/// Computes the range weight of two samples under the chosen variant.
/// The weight is `ONE` for identical samples and never exceeds `ONE`.
pub fn range_weight(variant: Variant, p: Rgb, q: Rgb, inv_2r2: u64) -> (w: u64)
    requires
        p.wf(),
        q.wf(),
        inv_2r2 <= ONE_CUBED / 2,
    ensures
        w as int == range_weight_spec(variant, p, q, inv_2r2 as int),
        w <= ONE,
        p == q ==> w == ONE,
{
    let dr = p.r as i64 - q.r as i64;
    let dg = p.g as i64 - q.g as i64;
    let db = p.b as i64 - q.b as i64;
    proof {
        lemma_sq_bound(dr as int, ONE as int);
        lemma_sq_bound(dg as int, ONE as int);
        lemma_sq_bound(db as int, ONE as int);
    }
    let norm_sq = (dr * dr + dg * dg + db * db) as u64;
    match variant {
        Variant::Euclidean => {
            proof {
                vstd::arithmetic::mul::lemma_mul_upper_bound(
                    norm_sq as int,
                    3 * (ONE_SQUARED as int),
                    inv_2r2 as int,
                    (ONE_CUBED / 2) as int,
                );
                if p == q {
                    assert(dr * dr + dg * dg + db * db == 0) by (nonlinear_arith)
                        requires
                            dr == 0 && dg == 0 && db == 0,
                    ;
                    assert(norm_sq * inv_2r2 == 0) by (nonlinear_arith)
                        requires
                            norm_sq == 0,
                    ;
                }
            }
            let t = (norm_sq as u128) * (inv_2r2 as u128) / (ONE_SQUARED as u128);
            exp_of(t)
        },
        Variant::Riemannian => {
            proof {
                lemma_abs_mul_bound(dr as int, dg as int, ONE as int);
                lemma_abs_mul_bound(dr as int, db as int, ONE as int);
                lemma_abs_mul_bound(dg as int, db as int, ONE as int);
            }
            let mixed = dr * dg + dr * db + dg * db;
            proof {
                lemma_riemannian_num_nonneg(p, q);
            }
            let num13 = 18000 * (norm_sq as i128) - 16000 * (mixed as i128);
            proof {
                vstd::arithmetic::mul::lemma_mul_upper_bound(
                    num13 as int,
                    102000 * (ONE_SQUARED as int),
                    inv_2r2 as int,
                    (ONE_CUBED / 2) as int,
                );
                if p == q {
                    assert(dr * dr + dg * dg + db * db == 0 && dr * dg + dr * db + dg * db
                        == 0) by (nonlinear_arith)
                        requires
                            dr == 0 && dg == 0 && db == 0,
                    ;
                    assert(num13 * (inv_2r2 as int) == 0) by (nonlinear_arith)
                        requires
                            num13 == 0,
                    ;
                }
            }
            let t = (num13 as u128) * (inv_2r2 as u128) / (13 * (ONE_SQUARED as u128));
            exp_of(t)
        },
    }
}

} // verus!
