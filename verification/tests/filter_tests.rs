use bilateral::filter::ParamError;
use bilateral::filter::Params;
use bilateral::filter::bilateral_filter_euclidean;
use bilateral::filter::bilateral_filter_riemannian;
use bilateral::filter::filter_image;
use bilateral::range::Variant;
use bilateral::range::range_weight;
use bilateral::samples::Image;
use bilateral::samples::Rgb;

fn params(r: i64, sigma_s: u64, sigma_r: u64) -> Params {
    Params::new(r, sigma_s, sigma_r).unwrap()
}

#[test]
fn params_are_validated_eagerly() {
    assert_eq!(Params::new(0, 65536, 65536), Err(ParamError::WindowRadius));
    assert_eq!(Params::new(-3, 65536, 65536), Err(ParamError::WindowRadius));
    assert_eq!(Params::new(1025, 65536, 65536), Err(ParamError::WindowRadius));
    assert_eq!(Params::new(5, 0, 65536), Err(ParamError::SpatialFalloff));
    assert_eq!(Params::new(5, 65536, 0), Err(ParamError::RangeFalloff));
    let p = params(5, 3 * 65536, 65536);
    assert_eq!((p.r, p.sigma_s, p.sigma_r), (5, 3 * 65536, 65536));
}

#[test]
fn shape_is_preserved() {
    let data: Vec<u64> = (0..36u64).map(|i| (i * 1801) % 65537).collect();
    let img = Image { height: 4, width: 3, data };
    for variant in [Variant::Euclidean, Variant::Riemannian] {
        let out = filter_image(&img, &params(2, 2 * 65536, 32768), variant);
        assert_eq!(out.height, 4);
        assert_eq!(out.width, 3);
        assert_eq!(out.data.len(), 36);
    }
}

#[test]
fn output_stays_in_unit_range() {
    let data: Vec<u64> = (0..27u64).map(|i| if i % 2 == 0 { 65536 } else { 0 }).collect();
    let img = Image { height: 3, width: 3, data };
    for variant in [Variant::Euclidean, Variant::Riemannian] {
        let out = filter_image(&img, &params(1, 65536, 65536), variant);
        for v in &out.data {
            assert!(*v <= 65536);
        }
    }
}

#[test]
fn constant_image_is_reproduced_exactly() {
    // All pixels the same color; channels differ from one another.
    let mut data: Vec<u64> = Vec::new();
    for _ in 0..9 {
        data.push(19661);  // ~0.3
        data.push(32768);  // 0.5
        data.push(58982);  // ~0.9
    }
    let img = Image { height: 3, width: 3, data: data.clone() };
    for variant in [Variant::Euclidean, Variant::Riemannian] {
        let out = filter_image(&img, &params(2, 3 * 65536, 6554), variant);
        assert_eq!(out.data, data);
    }
}

#[test]
fn single_pixel_image_is_unchanged() {
    let data = vec![12345u64, 54321, 1];
    let img = Image { height: 1, width: 1, data: data.clone() };
    for variant in [Variant::Euclidean, Variant::Riemannian] {
        let out = filter_image(&img, &params(5, 3 * 65536, 65536), variant);
        assert_eq!(out.height, 1);
        assert_eq!(out.width, 1);
        assert_eq!(out.data, data);
    }
}

#[test]
fn riemannian_equals_scaled_euclidean_without_cross_term() {
    // Only one channel differs, so the cross term vanishes and the
    // anisotropic exponent is A * norm_sq with A = 18000/13. Choosing the
    // reciprocal falloffs so that the factor 18000/13 transfers exactly
    // between the two calls, the two variants produce identical weights.
    let p = Rgb { r: 30300, g: 40000, b: 30000 };
    let q = Rgb { r: 30000, g: 40000, b: 30000 };
    let inv_riemannian = 13u64 * (1 << 20);
    let inv_euclidean = 18000u64 * (1 << 20);
    let wr = range_weight(Variant::Riemannian, p, q, inv_riemannian);
    let we = range_weight(Variant::Euclidean, p, q, inv_euclidean);
    assert_eq!(wr, we);
    assert!(wr > 0);
}

#[test]
fn identical_samples_have_unit_range_weight() {
    let p = Rgb { r: 4660, g: 22136, b: 39612 };
    for variant in [Variant::Euclidean, Variant::Riemannian] {
        assert_eq!(range_weight(variant, p, p, 1 << 40), 65536);
    }
}

#[test]
fn bright_pixel_on_dark_background_is_blurred_but_preserved() {
    // 4x4 image: one bright pixel (0.7) at (1,1) on a 0.5 background,
    // r = 1, sigma_s = 1.0, sigma_r = 0.1.
    let bright = 45875u64;
    let dark = 32768u64;
    let mut data = vec![dark; 48];
    let bright_base = (4 + 1) * 3;
    for c in 0..3 {
        data[bright_base + c] = bright;
    }
    let img = Image { height: 4, width: 4, data };
    let p = params(1, 65536, 6554);

    let out = bilateral_filter_euclidean(&img, &p);
    // The pixel far from the bright spot sits in a constant neighborhood.
    let far_base = (3 * 4 + 3) * 3;
    for c in 0..3 {
        let at_bright = out.data[bright_base + c];
        let at_far = out.data[far_base + c];
        assert_eq!(at_far, dark);
        // Blurred toward the background, but still brighter than it.
        assert!(at_bright < bright);
        assert!(at_bright < 65536);
        assert!(at_bright > at_far);
    }

    let out = bilateral_filter_riemannian(&img, &p);
    for c in 0..3 {
        let at_bright = out.data[bright_base + c];
        let at_far = out.data[far_base + c];
        assert_eq!(at_far, dark);
        assert!(at_bright < 65536);
        assert!(at_bright > at_far);
    }
}

#[test]
fn variant_wrappers_match_the_engine() {
    let data: Vec<u64> = (0..12u64).map(|i| i * 5000).collect();
    let img = Image { height: 2, width: 2, data };
    let p = params(1, 65536, 65536);
    assert_eq!(bilateral_filter_euclidean(&img, &p).data, filter_image(&img, &p, Variant::Euclidean).data);
    assert_eq!(bilateral_filter_riemannian(&img, &p).data, filter_image(&img, &p, Variant::Riemannian).data);
}
