//! The filter engine: for every output pixel, a normalized weighted average
//! of the samples of its window, the weight of each neighbor being the
//! product of its precomputed spatial weight and its range weight under the
//! selected variant. Out-of-bounds neighbors are clamped to the image edge.

use vstd::prelude::*;

use crate::fixed::ONE;
use crate::fixed::ONE_CUBED;
use crate::fixed::lemma_mul_le;
use crate::fixed::lemma_mul_q_bounds;
use crate::fixed::lemma_sq_bound;
use crate::fixed::mul_q;
use crate::fixed::mul_q_spec;
use crate::kernel::KernelEntry;
use crate::kernel::RADIUS_MAX;
use crate::kernel::SIGMA_MAX;
use crate::kernel::build_kernel;
use crate::kernel::kernel_spec;
use crate::kernel::lemma_kernel_center;
use crate::kernel::lemma_kernel_spec_weights;
use crate::range::Variant;
use crate::range::lemma_range_weight_bounds;
use crate::range::lemma_range_weight_identity;
use crate::range::range_weight;
use crate::range::range_weight_spec;
use crate::samples::Image;
use crate::samples::Rgb;
use crate::samples::clamp_coord;
use crate::samples::clamp_spec;
use crate::samples::get_color_triplet;
use crate::samples::lemma_flat_index_in_bounds;
use crate::samples::lemma_sample_wf;

verus! {

/// A filter parameter outside its accepted range.
#[derive(Clone, Copy, Debug, PartialEq, Eq, Structural)]
pub enum ParamError {
    /// The window half-extent is not in `[1, RADIUS_MAX]`.
    WindowRadius,
    /// The spatial falloff is not in `[1, SIGMA_MAX]`.
    SpatialFalloff,
    /// The range falloff is not in `[1, SIGMA_MAX]`.
    RangeFalloff,
}

/// Filter parameters: window half-extent `r` and the two falloffs in Q16.16.
/// A falloff of zero would divide by zero and a non-positive `r` would leave
/// the window empty, so both are excluded up front.
#[derive(Clone, Copy, Debug, PartialEq, Eq, Structural)]
pub struct Params {
    pub r: i64,
    pub sigma_s: u64,
    pub sigma_r: u64,
}

impl Params {
    pub open spec fn wf(&self) -> bool {
        &&& 1 <= self.r <= RADIUS_MAX
        &&& 1 <= self.sigma_s <= SIGMA_MAX
        &&& 1 <= self.sigma_r <= SIGMA_MAX
    }

    /// Validates the parameters eagerly, reporting the first one out of
    /// range, in the order `r`, `sigma_s`, `sigma_r`.
    pub fn new(r: i64, sigma_s: u64, sigma_r: u64) -> (result: Result<Params, ParamError>)
        ensures
            result is Ok <==> (1 <= r <= RADIUS_MAX && 1 <= sigma_s <= SIGMA_MAX && 1 <= sigma_r
                <= SIGMA_MAX),
            match result {
                Ok(p) => p.r == r && p.sigma_s == sigma_s && p.sigma_r == sigma_r && p.wf(),
                Err(e) => {
                    &&& (e == ParamError::WindowRadius <==> !(1 <= r <= RADIUS_MAX))
                    &&& (e == ParamError::SpatialFalloff <==> (1 <= r <= RADIUS_MAX && !(1
                        <= sigma_s <= SIGMA_MAX)))
                    &&& (e == ParamError::RangeFalloff <==> (1 <= r <= RADIUS_MAX && 1 <= sigma_s
                        <= SIGMA_MAX && !(1 <= sigma_r <= SIGMA_MAX)))
                },
            },
    {
        if r < 1 || r > RADIUS_MAX {
            Err(ParamError::WindowRadius)
        } else if sigma_s < 1 || sigma_s > SIGMA_MAX {
            Err(ParamError::SpatialFalloff)
        } else if sigma_r < 1 || sigma_r > SIGMA_MAX {
            Err(ParamError::RangeFalloff)
        } else {
            Ok(Params { r, sigma_s, sigma_r })
        }
    }
}

/// `1 / (2 sigma_r^2)` in Q16.16, for a Q16.16 `sigma_r`.
pub open spec fn inv_2r2_spec(sigma_r: int) -> int {
    (ONE_CUBED as int) / (2 * (sigma_r * sigma_r))
}

/// The neighbor sample of pixel `(x, y)` under kernel entry `e`, with
/// edge-replicate clamping of the offset coordinate.
pub open spec fn neighbor_spec(img: Image, x: int, y: int, e: KernelEntry) -> Rgb {
    img.sample_spec(
        clamp_spec(x + e.dx, img.width - 1),
        clamp_spec(y + e.dy, img.height - 1),
    )
}

/// The combined weight of kernel entry `e` at pixel `(x, y)`: range weight
/// times spatial weight, in Q16.16.
pub open spec fn combined_weight_spec(
    variant: Variant,
    img: Image,
    x: int,
    y: int,
    e: KernelEntry,
    inv_2r2: int,
) -> int {
    mul_q_spec(
        range_weight_spec(variant, img.sample_spec(x, y), neighbor_spec(img, x, y, e), inv_2r2),
        e.weight as int,
    )
}

/// Sum of the combined weights of the first `n` kernel entries.
pub open spec fn weight_sum_spec(
    variant: Variant,
    img: Image,
    ker: Seq<KernelEntry>,
    x: int,
    y: int,
    inv_2r2: int,
    n: nat,
) -> int
    decreases n,
{
    if n == 0 {
        0
    } else {
        weight_sum_spec(variant, img, ker, x, y, inv_2r2, (n - 1) as nat) + combined_weight_spec(
            variant,
            img,
            x,
            y,
            ker[n - 1],
            inv_2r2,
        )
    }
}

/// Weighted sum of channel `c` of the neighbors under the first `n` kernel
/// entries.
pub open spec fn channel_sum_spec(
    variant: Variant,
    img: Image,
    ker: Seq<KernelEntry>,
    x: int,
    y: int,
    inv_2r2: int,
    n: nat,
    c: int,
) -> int
    decreases n,
{
    if n == 0 {
        0
    } else {
        channel_sum_spec(variant, img, ker, x, y, inv_2r2, (n - 1) as nat, c)
            + combined_weight_spec(variant, img, x, y, ker[n - 1], inv_2r2) * neighbor_spec(
            img,
            x,
            y,
            ker[n - 1],
        ).channel(c)
    }
}

/// The filtered value of channel `c` at pixel `(x, y)`: the weighted channel
/// sum over the whole kernel, normalized by the weight sum.
pub open spec fn out_channel_spec(
    variant: Variant,
    img: Image,
    params: Params,
    x: int,
    y: int,
    c: int,
) -> int {
    let ker = kernel_spec(params.r as int, params.sigma_s as int);
    let inv = inv_2r2_spec(params.sigma_r as int);
    channel_sum_spec(variant, img, ker, x, y, inv, ker.len(), c) / weight_sum_spec(
        variant,
        img,
        ker,
        x,
        y,
        inv,
        ker.len(),
    )
}

/// The whole filtered sample array, pixel by pixel, in the input's layout.
pub open spec fn filter_spec(variant: Variant, img: Image, params: Params) -> Seq<u64> {
    Seq::new(
        img.data@.len(),
        |i: int|
            out_channel_spec(
                variant,
                img,
                params,
                (i / 3) % (img.width as int),
                (i / 3) / (img.width as int),
                i % 3,
            ) as u64,
    )
}

/// One combined weight is a Q16.16 value in `[0, ONE]`.
proof fn lemma_combined_weight_bounds(
    variant: Variant,
    img: Image,
    x: int,
    y: int,
    e: KernelEntry,
    inv_2r2: int,
)
    requires
        img.wf(),
        0 <= x < img.width,
        0 <= y < img.height,
        e.weight <= ONE,
        0 <= inv_2r2,
    ensures
        0 <= combined_weight_spec(variant, img, x, y, e, inv_2r2) <= ONE,
{
    let p = img.sample_spec(x, y);
    let q = neighbor_spec(img, x, y, e);
    lemma_range_weight_bounds(variant, p, q, inv_2r2);
    lemma_mul_q_bounds(range_weight_spec(variant, p, q, inv_2r2), e.weight as int);
}

/// The partial sums stay bounded: the weight sum by `n * ONE`, and each
/// channel sum by the weight sum times the largest sample value.
proof fn lemma_sums_bounds(
    variant: Variant,
    img: Image,
    ker: Seq<KernelEntry>,
    x: int,
    y: int,
    inv_2r2: int,
    n: nat,
    c: int,
)
    requires
        img.wf(),
        0 <= x < img.width,
        0 <= y < img.height,
        0 <= inv_2r2,
        forall|i: int| 0 <= i < ker.len() ==> (#[trigger] ker[i]).weight <= ONE,
        n <= ker.len(),
        0 <= c < 3,
    ensures
        0 <= weight_sum_spec(variant, img, ker, x, y, inv_2r2, n) <= n * (ONE as int),
        0 <= channel_sum_spec(variant, img, ker, x, y, inv_2r2, n, c) <= weight_sum_spec(
            variant,
            img,
            ker,
            x,
            y,
            inv_2r2,
            n,
        ) * (ONE as int),
    decreases n,
{
    if n > 0 {
        lemma_sums_bounds(variant, img, ker, x, y, inv_2r2, (n - 1) as nat, c);
        let e = ker[n - 1];
        lemma_combined_weight_bounds(variant, img, x, y, e, inv_2r2);
        let cw = combined_weight_spec(variant, img, x, y, e, inv_2r2);
        let q = neighbor_spec(img, x, y, e);
        lemma_sample_wf(
            img,
            clamp_spec(x + e.dx, img.width - 1),
            clamp_spec(y + e.dy, img.height - 1),
        );
        lemma_mul_le(cw, q.channel(c), ONE as int);
        vstd::arithmetic::mul::lemma_mul_nonnegative(cw, q.channel(c));
    }
}

/// From the center entry on, the weight sum is at least `ONE`: the zero
/// offset contributes spatial weight `ONE` times range weight `ONE`.
proof fn lemma_weight_sum_center(
    variant: Variant,
    img: Image,
    r: int,
    sigma_s: int,
    x: int,
    y: int,
    inv_2r2: int,
    n: nat,
)
    requires
        img.wf(),
        0 <= x < img.width,
        0 <= y < img.height,
        1 <= r,
        1 <= sigma_s,
        0 <= inv_2r2,
        r * (2 * r) + r < n <= kernel_spec(r, sigma_s).len(),
    ensures
        weight_sum_spec(variant, img, kernel_spec(r, sigma_s), x, y, inv_2r2, n) >= ONE,
    decreases n,
{
    let ker = kernel_spec(r, sigma_s);
    let ic = r * (2 * r) + r;
    lemma_kernel_spec_weights(r, sigma_s);
    if n - 1 == ic {
        lemma_kernel_center(r, sigma_s);
        let e = ker[ic];
        let p = img.sample_spec(x, y);
        assert(clamp_spec(x + e.dx, img.width - 1) == x);
        assert(clamp_spec(y + e.dy, img.height - 1) == y);
        assert(neighbor_spec(img, x, y, e) == p);
        lemma_range_weight_identity(variant, p, inv_2r2);
        assert(combined_weight_spec(variant, img, x, y, e, inv_2r2) == mul_q_spec(
            ONE as int,
            ONE as int,
        ));
        lemma_sums_bounds(variant, img, ker, x, y, inv_2r2, (n - 1) as nat, 0);
    } else {
        lemma_weight_sum_center(variant, img, r, sigma_s, x, y, inv_2r2, (n - 1) as nat);
        lemma_combined_weight_bounds(variant, img, x, y, ker[n - 1], inv_2r2);
    }
}

/// Every filtered channel value is a Q16.16 value in `[0, ONE]`: the output
/// is a weighted average of samples in `[0, ONE]`.
pub proof fn lemma_out_channel_bounds(
    variant: Variant,
    img: Image,
    params: Params,
    x: int,
    y: int,
    c: int,
)
    requires
        img.wf(),
        params.wf(),
        0 <= x < img.width,
        0 <= y < img.height,
        0 <= c < 3,
    ensures
        0 <= out_channel_spec(variant, img, params, x, y, c) <= ONE,
{
    let r = params.r as int;
    let sigma_s = params.sigma_s as int;
    let inv = inv_2r2_spec(params.sigma_r as int);
    let ker = kernel_spec(r, sigma_s);
    lemma_inv_2r2_bounds(params.sigma_r as int);
    lemma_kernel_spec_weights(r, sigma_s);
    lemma_sums_bounds(variant, img, ker, x, y, inv, ker.len(), c);
    assert(r * (2 * r) + r < 4 * (r * r)) by (nonlinear_arith)
        requires
            1 <= r,
    ;
    lemma_weight_sum_center(variant, img, r, sigma_s, x, y, inv, ker.len());
    let sums = channel_sum_spec(variant, img, ker, x, y, inv, ker.len(), c);
    let wsum = weight_sum_spec(variant, img, ker, x, y, inv, ker.len());
    vstd::arithmetic::div_mod::lemma_div_pos_is_pos(sums, wsum);
    vstd::arithmetic::div_mod::lemma_div_is_ordered(sums, wsum * (ONE as int), wsum);
    vstd::arithmetic::div_mod::lemma_div_by_multiple(ONE as int, wsum);
    assert(wsum * (ONE as int) == (ONE as int) * wsum);
}

/// The Q16.16 reciprocal `1 / (2 sigma_r^2)` is non-negative and at most
/// `ONE_CUBED / 2`.
pub proof fn lemma_inv_2r2_bounds(sigma_r: int)
    requires
        1 <= sigma_r <= SIGMA_MAX,
    ensures
        0 <= inv_2r2_spec(sigma_r) <= ONE_CUBED / 2,
{
    assert(1 <= sigma_r * sigma_r) by (nonlinear_arith)
        requires
            1 <= sigma_r,
    ;
    vstd::arithmetic::div_mod::lemma_div_pos_is_pos(ONE_CUBED as int, 2 * (sigma_r * sigma_r));
    vstd::arithmetic::div_mod::lemma_div_is_ordered_by_denominator(
        ONE_CUBED as int,
        2,
        2 * (sigma_r * sigma_r),
    );
}

/// A constant-color image: any two values of the same channel are equal.
pub open spec fn constant_image(img: Image) -> bool {
    forall|i: int, j: int|
        0 <= i < img.data@.len() && 0 <= j < img.data@.len() && i % 3 == j % 3
            ==> img.data@[i] == img.data@[j]
}

/// In a constant image, any two pixels carry the same sample.
proof fn lemma_constant_samples_equal(img: Image, x1: int, y1: int, x2: int, y2: int)
    requires
        img.wf(),
        constant_image(img),
        0 <= x1 < img.width,
        0 <= y1 < img.height,
        0 <= x2 < img.width,
        0 <= y2 < img.height,
    ensures
        img.sample_spec(x1, y1) == img.sample_spec(x2, y2),
{
    let w = img.width as int;
    let h = img.height as int;
    lemma_flat_index_in_bounds(x1, y1, w, h);
    lemma_flat_index_in_bounds(x2, y2, w, h);
    let p1 = y1 * w + x1;
    let p2 = y2 * w + x2;
    vstd::arithmetic::div_mod::lemma_fundamental_div_mod_converse(3 * p1, 3, p1, 0);
    vstd::arithmetic::div_mod::lemma_fundamental_div_mod_converse(3 * p1 + 1, 3, p1, 1);
    vstd::arithmetic::div_mod::lemma_fundamental_div_mod_converse(3 * p1 + 2, 3, p1, 2);
    vstd::arithmetic::div_mod::lemma_fundamental_div_mod_converse(3 * p2, 3, p2, 0);
    vstd::arithmetic::div_mod::lemma_fundamental_div_mod_converse(3 * p2 + 1, 3, p2, 1);
    vstd::arithmetic::div_mod::lemma_fundamental_div_mod_converse(3 * p2 + 2, 3, p2, 2);
    assert(img.data@[3 * p1] == img.data@[3 * p2]);
    assert(img.data@[3 * p1 + 1] == img.data@[3 * p2 + 1]);
    assert(img.data@[3 * p1 + 2] == img.data@[3 * p2 + 2]);
}

/// When every neighbor sampled by the first `n` kernel entries equals the
/// center sample, the channel sum collapses to the weight sum times that
/// sample's channel.
proof fn lemma_uniform_sums(
    variant: Variant,
    img: Image,
    ker: Seq<KernelEntry>,
    x: int,
    y: int,
    inv_2r2: int,
    n: nat,
    c: int,
)
    requires
        img.wf(),
        0 <= x < img.width,
        0 <= y < img.height,
        0 <= inv_2r2,
        n <= ker.len(),
        0 <= c < 3,
        forall|i: int|
            0 <= i < ker.len() ==> neighbor_spec(img, x, y, #[trigger] ker[i]) == img.sample_spec(
                x,
                y,
            ),
    ensures
        channel_sum_spec(variant, img, ker, x, y, inv_2r2, n, c) == weight_sum_spec(
            variant,
            img,
            ker,
            x,
            y,
            inv_2r2,
            n,
        ) * img.sample_spec(x, y).channel(c),
    decreases n,
{
    let p = img.sample_spec(x, y);
    if n == 0 {
        assert(0 * p.channel(c) == 0) by (nonlinear_arith);
    } else {
        lemma_uniform_sums(variant, img, ker, x, y, inv_2r2, (n - 1) as nat, c);
        let w1 = weight_sum_spec(variant, img, ker, x, y, inv_2r2, (n - 1) as nat);
        let cw = combined_weight_spec(variant, img, x, y, ker[n - 1], inv_2r2);
        vstd::arithmetic::mul::lemma_mul_is_distributive_add_other_way(p.channel(c), w1, cw);
    }
}

/// When every neighbor a pixel's window samples equals the pixel itself, the
/// filtered channel is the pixel's channel, exactly.
proof fn lemma_uniform_pixel(
    variant: Variant,
    img: Image,
    params: Params,
    x: int,
    y: int,
    c: int,
)
    requires
        img.wf(),
        params.wf(),
        0 <= x < img.width,
        0 <= y < img.height,
        0 <= c < 3,
        forall|i: int|
            0 <= i < kernel_spec(params.r as int, params.sigma_s as int).len() ==> neighbor_spec(
                img,
                x,
                y,
                #[trigger] kernel_spec(params.r as int, params.sigma_s as int)[i],
            ) == img.sample_spec(x, y),
    ensures
        out_channel_spec(variant, img, params, x, y, c) == img.sample_spec(x, y).channel(c),
{
    let r = params.r as int;
    let ss = params.sigma_s as int;
    let ker = kernel_spec(r, ss);
    let inv = inv_2r2_spec(params.sigma_r as int);
    lemma_inv_2r2_bounds(params.sigma_r as int);
    lemma_kernel_spec_weights(r, ss);
    lemma_uniform_sums(variant, img, ker, x, y, inv, ker.len(), c);
    assert(r * (2 * r) + r < 4 * (r * r)) by (nonlinear_arith)
        requires
            1 <= r,
    ;
    lemma_weight_sum_center(variant, img, r, ss, x, y, inv, ker.len());
    let wsum = weight_sum_spec(variant, img, ker, x, y, inv, ker.len());
    let pc = img.sample_spec(x, y).channel(c);
    vstd::arithmetic::mul::lemma_mul_is_commutative(wsum, pc);
    vstd::arithmetic::div_mod::lemma_div_by_multiple(pc, wsum);
}

/// Decomposes a flat sample index into its pixel coordinates and channel.
proof fn lemma_index_decompose(img: Image, i: int)
    requires
        img.wf(),
        0 <= i < img.data@.len(),
    ensures
        1 <= img.width,
        1 <= img.height,
        0 <= i % 3 < 3,
        0 <= (i / 3) % (img.width as int) < img.width,
        0 <= (i / 3) / (img.width as int) < img.height,
        i == 3 * (((i / 3) / (img.width as int)) * (img.width as int) + (i / 3) % (
        img.width as int)) + i % 3,
{
    let w = img.width as int;
    let h = img.height as int;
    if w == 0 || h == 0 {
        assert(h * w == 0) by (nonlinear_arith)
            requires
                w == 0 || h == 0,
        ;
    }
    let pix = i / 3;
    let c = i % 3;
    vstd::arithmetic::div_mod::lemma_fundamental_div_mod(i, 3);
    vstd::arithmetic::div_mod::lemma_fundamental_div_mod_converse(3 * (h * w) - 1, 3, h * w - 1, 2);
    vstd::arithmetic::div_mod::lemma_div_is_ordered(i, 3 * (h * w) - 1, 3);
    vstd::arithmetic::div_mod::lemma_div_pos_is_pos(i, 3);
    let x = pix % w;
    let y = pix / w;
    vstd::arithmetic::div_mod::lemma_fundamental_div_mod(pix, w);
    vstd::arithmetic::div_mod::lemma_mod_division_less_than_divisor(pix, w);
    assert(w * (h - 1) + (w - 1) == h * w - 1) by (nonlinear_arith);
    vstd::arithmetic::div_mod::lemma_fundamental_div_mod_converse(h * w - 1, w, h - 1, w - 1);
    vstd::arithmetic::div_mod::lemma_div_is_ordered(pix, h * w - 1, w);
    vstd::arithmetic::div_mod::lemma_div_pos_is_pos(pix, w);
    vstd::arithmetic::mul::lemma_mul_is_commutative(w, y);
}

/// Filtering a constant-color image, with either variant, reproduces the
/// input exactly: every neighbor contributes the same color, so the
/// normalized weighted average is that color.
pub proof fn lemma_constant_image_fixed_point(variant: Variant, img: Image, params: Params)
    requires
        img.wf(),
        params.wf(),
        constant_image(img),
    ensures
        filter_spec(variant, img, params) == img.data@,
{
    let w = img.width as int;
    let h = img.height as int;
    let ker = kernel_spec(params.r as int, params.sigma_s as int);
    assert forall|i: int| 0 <= i < img.data@.len() implies filter_spec(variant, img, params)[i]
        == img.data@[i] by {
        lemma_index_decompose(img, i);
        let x = (i / 3) % w;
        let y = (i / 3) / w;
        let c = i % 3;
        assert forall|i2: int| 0 <= i2 < ker.len() implies neighbor_spec(
            img,
            x,
            y,
            #[trigger] ker[i2],
        ) == img.sample_spec(x, y) by {
            let e = ker[i2];
            lemma_constant_samples_equal(
                img,
                clamp_spec(x + e.dx, w - 1),
                clamp_spec(y + e.dy, h - 1),
                x,
                y,
            );
        }
        lemma_uniform_pixel(variant, img, params, x, y, c);
        lemma_flat_index_in_bounds(x, y, w, h);
        lemma_out_channel_bounds(variant, img, params, x, y, c);
    }
    assert(filter_spec(variant, img, params) =~= img.data@);
}

/// Filtering a 1x1 image, with either variant, returns the input unchanged:
/// every neighbor offset clamps back to the single pixel.
pub proof fn lemma_single_pixel_identity(variant: Variant, img: Image, params: Params)
    requires
        img.wf(),
        params.wf(),
        img.height == 1,
        img.width == 1,
    ensures
        filter_spec(variant, img, params) == img.data@,
{
    let ker = kernel_spec(params.r as int, params.sigma_s as int);
    assert forall|i: int| 0 <= i < img.data@.len() implies filter_spec(variant, img, params)[i]
        == img.data@[i] by {
        lemma_index_decompose(img, i);
        let x = (i / 3) % 1int;
        let y = (i / 3) / 1int;
        let c = i % 3;
        assert forall|i2: int| 0 <= i2 < ker.len() implies neighbor_spec(
            img,
            x,
            y,
            #[trigger] ker[i2],
        ) == img.sample_spec(x, y) by {
            let e = ker[i2];
            assert(clamp_spec(x + e.dx, 0) == 0);
            assert(clamp_spec(y + e.dy, 0) == 0);
        }
        lemma_uniform_pixel(variant, img, params, x, y, c);
        lemma_flat_index_in_bounds(x, y, 1, 1);
        lemma_out_channel_bounds(variant, img, params, x, y, c);
    }
    assert(filter_spec(variant, img, params) =~= img.data@);
}

/// Runs the bilateral filter once over a sample array with the selected
/// range-weight variant. The output has the shape of the input, every output
/// channel value lies in `[0, ONE]`, and each pixel is exactly the
/// normalized weighted average `filter_spec` describes.
#[verifier::loop_isolation(false)]
pub fn filter_image(img: &Image, params: &Params, variant: Variant) -> (out: Image)
    requires
        img.wf(),
        params.wf(),
    ensures
        out.wf(),
        out.height == img.height,
        out.width == img.width,
        out.data@ == filter_spec(variant, *img, *params),
{
    let r = params.r;
    let kernel = build_kernel(r, params.sigma_s);
    proof {
        lemma_sq_bound(params.sigma_r as int, SIGMA_MAX as int);
        assert(1 <= params.sigma_r * params.sigma_r) by (nonlinear_arith)
            requires
                1 <= params.sigma_r,
        ;
        lemma_sq_bound(r as int, RADIUS_MAX as int);
        lemma_inv_2r2_bounds(params.sigma_r as int);
    }
    let inv = ONE_CUBED / (2 * (params.sigma_r * params.sigma_r));
    let klen = kernel.len();
    let h = img.height;
    let w = img.width;
    let mut data: Vec<u64> = Vec::new();
    let mut y: usize = 0;
    while y < h
        invariant
            y <= h,
            data@.len() == 3 * (y * w),
            forall|i: int|
                0 <= i < data@.len() ==> #[trigger] data@[i] == filter_spec(
                    variant,
                    *img,
                    *params,
                )[i] && data@[i] <= ONE,
        decreases h - y,
    {
        let mut x: usize = 0;
        while x < w
            invariant
                x <= w,
                y < h,
                data@.len() == 3 * (y * w + x),
                forall|i: int|
                    0 <= i < data@.len() ==> #[trigger] data@[i] == filter_spec(
                        variant,
                        *img,
                        *params,
                    )[i] && data@[i] <= ONE,
            decreases w - x,
        {
            let p = get_color_triplet(img, x, y);
            let mut w_sum: u64 = 0;
            let mut s0: u64 = 0;
            let mut s1: u64 = 0;
            let mut s2: u64 = 0;
            let mut k: usize = 0;
            while k < klen
                invariant
                    k <= klen,
                    w_sum == weight_sum_spec(
                        variant,
                        *img,
                        kernel@,
                        x as int,
                        y as int,
                        inv as int,
                        k as nat,
                    ),
                    s0 == channel_sum_spec(
                        variant,
                        *img,
                        kernel@,
                        x as int,
                        y as int,
                        inv as int,
                        k as nat,
                        0,
                    ),
                    s1 == channel_sum_spec(
                        variant,
                        *img,
                        kernel@,
                        x as int,
                        y as int,
                        inv as int,
                        k as nat,
                        1,
                    ),
                    s2 == channel_sum_spec(
                        variant,
                        *img,
                        kernel@,
                        x as int,
                        y as int,
                        inv as int,
                        k as nat,
                        2,
                    ),
                    w_sum <= k * (ONE as int),
                    s0 <= w_sum * (ONE as int),
                    s1 <= w_sum * (ONE as int),
                    s2 <= w_sum * (ONE as int),
                decreases klen - k,
            {
                let e = kernel[k];
                let qx = clamp_coord(x as i64 + e.dx, (w - 1) as i64);
                let qy = clamp_coord(y as i64 + e.dy, (h - 1) as i64);
                let q = get_color_triplet(img, qx as usize, qy as usize);
                let rw = range_weight(variant, p, q, inv);
                let cw = mul_q(rw, e.weight);
                proof {
                    assert(q == neighbor_spec(*img, x as int, y as int, kernel@[k as int]));
                    assert(cw as int == combined_weight_spec(
                        variant,
                        *img,
                        x as int,
                        y as int,
                        kernel@[k as int],
                        inv as int,
                    ));
                    lemma_mul_le(cw as int, q.r as int, ONE as int);
                    lemma_mul_le(cw as int, q.g as int, ONE as int);
                    lemma_mul_le(cw as int, q.b as int, ONE as int);
                }
                w_sum = w_sum + cw;
                s0 = s0 + cw * q.r;
                s1 = s1 + cw * q.g;
                s2 = s2 + cw * q.b;
                k = k + 1;
            }
            proof {
                assert((r as int) * (2 * (r as int)) + (r as int) < klen) by (nonlinear_arith)
                    requires
                        1 <= r,
                        klen == 4 * ((r as int) * (r as int)),
                ;
                lemma_weight_sum_center(
                    variant,
                    *img,
                    r as int,
                    params.sigma_s as int,
                    x as int,
                    y as int,
                    inv as int,
                    klen as nat,
                );
                lemma_out_channel_bounds(variant, *img, *params, x as int, y as int, 0);
                lemma_out_channel_bounds(variant, *img, *params, x as int, y as int, 1);
                lemma_out_channel_bounds(variant, *img, *params, x as int, y as int, 2);
            }
            let o0 = s0 / w_sum;
            let o1 = s1 / w_sum;
            let o2 = s2 / w_sum;
            proof {
                let pix = (y as int) * (w as int) + (x as int);
                lemma_flat_index_in_bounds(x as int, y as int, w as int, h as int);
                vstd::arithmetic::div_mod::lemma_fundamental_div_mod_converse(
                    pix,
                    w as int,
                    y as int,
                    x as int,
                );
                vstd::arithmetic::div_mod::lemma_fundamental_div_mod_converse(3 * pix, 3, pix, 0);
                vstd::arithmetic::div_mod::lemma_fundamental_div_mod_converse(
                    3 * pix + 1,
                    3,
                    pix,
                    1,
                );
                vstd::arithmetic::div_mod::lemma_fundamental_div_mod_converse(
                    3 * pix + 2,
                    3,
                    pix,
                    2,
                );
                assert(o0 as int == out_channel_spec(variant, *img, *params, x as int, y as int, 0));
                assert(o1 as int == out_channel_spec(variant, *img, *params, x as int, y as int, 1));
                assert(o2 as int == out_channel_spec(variant, *img, *params, x as int, y as int, 2));
            }
            data.push(o0);
            data.push(o1);
            data.push(o2);
            x = x + 1;
        }
        proof {
            assert((y + 1) * w == y * w + w) by (nonlinear_arith);
        }
        y = y + 1;
    }
    proof {
        assert(data@ =~= filter_spec(variant, *img, *params));
    }
    Image { height: h, width: w, data }
}

/// Filters with the plain Euclidean color metric.
pub fn bilateral_filter_euclidean(img: &Image, params: &Params) -> (out: Image)
    requires
        img.wf(),
        params.wf(),
    ensures
        out.wf(),
        out.height == img.height,
        out.width == img.width,
        out.data@ == filter_spec(Variant::Euclidean, *img, *params),
{
    filter_image(img, params, Variant::Euclidean)
}

/// Filters with the anisotropic, channel-correlation-aware color metric.
pub fn bilateral_filter_riemannian(img: &Image, params: &Params) -> (out: Image)
    requires
        img.wf(),
        params.wf(),
    ensures
        out.wf(),
        out.height == img.height,
        out.width == img.width,
        out.data@ == filter_spec(Variant::Riemannian, *img, *params),
{
    filter_image(img, params, Variant::Riemannian)
}

} // verus!
