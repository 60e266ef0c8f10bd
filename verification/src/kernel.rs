//! The kernel builder: precomputes the spatial (domain) weight of every
//! offset in the square window `[-r, r) x [-r, r)`.
//!
//! The window deliberately excludes the `+r` row and column, so it holds
//! `(2r)^2` offsets and sits off-center by half a pixel; the asymmetry is part
//! of the filter's defined behavior and is kept as it is.

use vstd::prelude::*;

use crate::fixed::EXP_ARG_MAX;
use crate::fixed::ONE;
use crate::fixed::ONE_CUBED;
use crate::fixed::exp_neg;
use crate::fixed::exp_neg_spec;
use crate::fixed::lemma_exp_neg_bounds;
use crate::fixed::lemma_sq_bound;

verus! {

/// One window offset `(dx, dy)` with its precomputed spatial weight.
#[derive(Clone, Copy, Debug)]
pub struct KernelEntry {
    pub dx: i64,
    pub dy: i64,
    pub weight: u64,
}

/// Largest accepted window half-extent.
pub const RADIUS_MAX: i64 = 1024;

/// Largest accepted Q16.16 falloff parameter (256.0); keeps squared sigmas
/// within 64-bit range.
pub const SIGMA_MAX: u64 = 16777216;

/// The spatial exponent `(dx^2 + dy^2)^2 / (2 sigma_s^2)` in Q16.16:
/// the offset is an exact integer, the sigma a Q16.16 value, so the squared
/// distance is rescaled by `ONE^3` before the division.
pub open spec fn spatial_t_spec(dx: int, dy: int, sigma_s: int) -> int {
    let d2 = (dx * dx + dy * dy) * (dx * dx + dy * dy);
    (d2 * ONE_CUBED) / (2 * (sigma_s * sigma_s))
}

/// The spatial weight `e^-t` of an offset.
pub open spec fn spatial_weight_spec(dx: int, dy: int, sigma_s: int) -> int {
    exp_neg_spec(spatial_t_spec(dx, dy, sigma_s))
}

proof fn lemma_spatial_t_nonneg(dx: int, dy: int, sigma_s: int)
    requires
        sigma_s >= 1,
    ensures
        spatial_t_spec(dx, dy, sigma_s) >= 0,
        2 * (sigma_s * sigma_s) >= 2,
{
    let s2 = dx * dx + dy * dy;
    assert(s2 >= 0 && s2 * s2 >= 0 && sigma_s * sigma_s >= 1) by (nonlinear_arith)
        requires
            s2 == dx * dx + dy * dy,
            sigma_s >= 1,
    ;
    vstd::arithmetic::div_mod::lemma_div_pos_is_pos(
        (s2 * s2) * ONE_CUBED,
        2 * (sigma_s * sigma_s),
    );
}

/// Spatial weights are Q16.16 values in `[0, ONE]`, and the zero offset has
/// weight exactly `ONE`.
pub proof fn lemma_spatial_weight_bounds(dx: int, dy: int, sigma_s: int)
    requires
        sigma_s >= 1,
    ensures
        0 <= spatial_weight_spec(dx, dy, sigma_s) <= ONE,
        dx == 0 && dy == 0 ==> spatial_weight_spec(dx, dy, sigma_s) == ONE,
{
    lemma_spatial_t_nonneg(dx, dy, sigma_s);
    lemma_exp_neg_bounds(spatial_t_spec(dx, dy, sigma_s));
    if dx == 0 && dy == 0 {
        assert((dx * dx + dy * dy) * (dx * dx + dy * dy) == 0) by (nonlinear_arith)
            requires
                dx == 0,
                dy == 0,
        ;
        vstd::arithmetic::div_mod::lemma_div_of0(2 * (sigma_s * sigma_s));
    }
}

/// The kernel entry at position `i` of the insertion order: `dx` runs in the
/// outer loop and `dy` in the inner one, each over `[-r, r)`.
pub open spec fn kernel_entry_spec(r: int, sigma_s: int, i: int) -> KernelEntry {
    let dx = i / (2 * r) - r;
    let dy = i % (2 * r) - r;
    KernelEntry {
        dx: dx as i64,
        dy: dy as i64,
        weight: spatial_weight_spec(dx, dy, sigma_s) as u64,
    }
}

/// The whole kernel: `(2r)^2` entries in insertion order.
pub open spec fn kernel_spec(r: int, sigma_s: int) -> Seq<KernelEntry> {
    Seq::new((4 * (r * r)) as nat, |i: int| kernel_entry_spec(r, sigma_s, i))
}

/// The kernel contains the zero offset, at position `r * 2r + r`, and its
/// weight is exactly `ONE`.
pub proof fn lemma_kernel_center(r: int, sigma_s: int)
    requires
        1 <= r,
        1 <= sigma_s,
    ensures
        ({
            let ic = r * (2 * r) + r;
            &&& 0 <= ic < kernel_spec(r, sigma_s).len()
            &&& kernel_spec(r, sigma_s)[ic].dx == 0
            &&& kernel_spec(r, sigma_s)[ic].dy == 0
            &&& kernel_spec(r, sigma_s)[ic].weight == ONE
        }),
{
    let ic = r * (2 * r) + r;
    assert(0 <= ic < 4 * (r * r)) by (nonlinear_arith)
        requires
            ic == r * (2 * r) + r,
            1 <= r,
    ;
    vstd::arithmetic::div_mod::lemma_fundamental_div_mod_converse(ic, 2 * r, r, r);
    lemma_spatial_weight_bounds(0, 0, sigma_s);
}

/// Every kernel entry carries a weight in `[0, ONE]`.
pub proof fn lemma_kernel_spec_weights(r: int, sigma_s: int)
    requires
        1 <= r,
        1 <= sigma_s,
    ensures
        forall|i: int|
            0 <= i < kernel_spec(r, sigma_s).len() ==> (#[trigger] kernel_spec(r, sigma_s)[i]).weight
                <= ONE,
{
    assert forall|i: int|
        0 <= i < kernel_spec(r, sigma_s).len() implies (#[trigger] kernel_spec(
        r,
        sigma_s,
    )[i]).weight <= ONE by {
        lemma_spatial_weight_bounds(i / (2 * r) - r, i % (2 * r) - r, sigma_s);
    }
}

/// Evaluates the spatial weight of one window offset.
fn spatial_weight(dx: i64, dy: i64, sigma_s: u64) -> (w: u64)
    requires
        -RADIUS_MAX <= dx <= RADIUS_MAX,
        -RADIUS_MAX <= dy <= RADIUS_MAX,
        1 <= sigma_s <= SIGMA_MAX,
    ensures
        w as int == spatial_weight_spec(dx as int, dy as int, sigma_s as int),
        w <= ONE,
        dx == 0 && dy == 0 ==> w == ONE,
{
    proof {
        lemma_sq_bound(dx as int, RADIUS_MAX as int);
        lemma_sq_bound(dy as int, RADIUS_MAX as int);
    }
    let s2 = dx * dx + dy * dy;
    proof {
        lemma_sq_bound(s2 as int, 2097152);
        lemma_sq_bound(sigma_s as int, SIGMA_MAX as int);
        assert(1 <= sigma_s * sigma_s) by (nonlinear_arith)
            requires
                1 <= sigma_s,
        ;
        lemma_spatial_t_nonneg(dx as int, dy as int, sigma_s as int);
    }
    let d2 = (s2 * s2) as u64;
    let num: u128 = (d2 as u128) * (ONE_CUBED as u128);
    let denom: u128 = 2 * ((sigma_s as u128) * (sigma_s as u128));
    let t = num / denom;
    let tc: u64 = if t >= EXP_ARG_MAX as u128 {
        EXP_ARG_MAX
    } else {
        t as u64
    };
    let w = exp_neg(tc);
    proof {
        let ts = spatial_t_spec(dx as int, dy as int, sigma_s as int);
        if t >= EXP_ARG_MAX {
            assert(exp_neg_spec(ts) == 0);
            assert(exp_neg_spec(tc as int) == 0);
        }
        if dx == 0 && dy == 0 {
            vstd::arithmetic::div_mod::lemma_div_of0(denom as int);
        }
    }
    w
}

/// Builds the spatial kernel for half-extent `r` and falloff `sigma_s`:
/// one entry per offset of the square window `[-r, r) x [-r, r)`, in
/// insertion order (`dx` outer, `dy` inner), each carrying the weight
/// `e^(-(dx^2+dy^2)^2 / (2 sigma_s^2))` in Q16.16. The result has exactly
/// `(2r)^2` entries, every weight lies in `[0, ONE]`, and the entry for the
/// zero offset has weight exactly `ONE`.
pub fn build_kernel(r: i64, sigma_s: u64) -> (kernel: Vec<KernelEntry>)
    requires
        1 <= r <= RADIUS_MAX,
        1 <= sigma_s <= SIGMA_MAX,
    ensures
        kernel@ == kernel_spec(r as int, sigma_s as int),
        kernel@.len() == 4 * (r * r),
        forall|i: int|
            0 <= i < kernel@.len() ==> {
                let e = #[trigger] kernel@[i];
                &&& -r <= e.dx < r
                &&& -r <= e.dy < r
                &&& e.weight <= ONE
                &&& e.weight as int == spatial_weight_spec(e.dx as int, e.dy as int, sigma_s as int)
                &&& (e.dx == 0 && e.dy == 0 ==> e.weight == ONE)
            },
{
    let two_r = 2 * r;
    let mut kernel: Vec<KernelEntry> = Vec::new();
    let mut a: i64 = 0;
    while a < two_r
        invariant
            0 <= a <= two_r,
            two_r == 2 * r,
            1 <= r <= RADIUS_MAX,
            1 <= sigma_s <= SIGMA_MAX,
            kernel@.len() == a * two_r,
            forall|i: int|
                0 <= i < kernel@.len() ==> #[trigger] kernel@[i] == kernel_entry_spec(
                    r as int,
                    sigma_s as int,
                    i,
                ),
            forall|i: int|
                0 <= i < kernel@.len() ==> {
                    let e = #[trigger] kernel@[i];
                    &&& -r <= e.dx < r
                    &&& -r <= e.dy < r
                    &&& e.weight <= ONE
                    &&& e.weight as int == spatial_weight_spec(
                        e.dx as int,
                        e.dy as int,
                        sigma_s as int,
                    )
                    &&& (e.dx == 0 && e.dy == 0 ==> e.weight == ONE)
                },
        decreases two_r - a,
    {
        let mut b: i64 = 0;
        while b < two_r
            invariant
                0 <= b <= two_r,
                0 <= a < two_r,
                two_r == 2 * r,
                1 <= r <= RADIUS_MAX,
                1 <= sigma_s <= SIGMA_MAX,
                kernel@.len() == a * two_r + b,
                forall|i: int|
                    0 <= i < kernel@.len() ==> #[trigger] kernel@[i] == kernel_entry_spec(
                        r as int,
                        sigma_s as int,
                        i,
                    ),
                forall|i: int|
                    0 <= i < kernel@.len() ==> {
                        let e = #[trigger] kernel@[i];
                        &&& -r <= e.dx < r
                        &&& -r <= e.dy < r
                        &&& e.weight <= ONE
                        &&& e.weight as int == spatial_weight_spec(
                            e.dx as int,
                            e.dy as int,
                            sigma_s as int,
                        )
                        &&& (e.dx == 0 && e.dy == 0 ==> e.weight == ONE)
                    },
            decreases two_r - b,
        {
            proof {
                assert(0 <= a * two_r && a * two_r + two_r <= two_r * two_r) by (nonlinear_arith)
                    requires
                        0 <= a < two_r,
                ;
            }
            let dx = a - r;
            let dy = b - r;
            let w = spatial_weight(dx, dy, sigma_s);
            kernel.push(KernelEntry { dx, dy, weight: w });
            proof {
                let idx = a * two_r + b;
                vstd::arithmetic::div_mod::lemma_fundamental_div_mod_converse(
                    idx,
                    2 * (r as int),
                    a as int,
                    b as int,
                );
                lemma_spatial_weight_bounds(dx as int, dy as int, sigma_s as int);
                assert(kernel@[idx] == kernel_entry_spec(r as int, sigma_s as int, idx));
            }
            b = b + 1;
        }
        proof {
            assert((a + 1) * two_r == a * two_r + two_r) by (nonlinear_arith);
        }
        a = a + 1;
    }
    proof {
        assert(two_r * two_r == 4 * ((r as int) * (r as int))) by (nonlinear_arith)
            requires
                two_r == 2 * r,
        ;
        assert(kernel@ =~= kernel_spec(r as int, sigma_s as int));
    }
    kernel
}

} // verus!
