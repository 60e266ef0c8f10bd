use bilateral::fixed::ONE;
use bilateral::fixed::exp_neg;
use bilateral::fixed::mul_q;
use bilateral::kernel::build_kernel;

#[test]
fn exp_neg_at_zero_is_one() {
    assert_eq!(exp_neg(0), 65536);
}

#[test]
fn exp_neg_at_one_matches_table_constant() {
    // Integral argument 1.0: one multiplication by e^-1 in Q16.16.
    assert_eq!(exp_neg(65536), 24109);
}

#[test]
fn exp_neg_at_half() {
    // 0.5 in Q16.16 through the degree-5 series; e^-0.5 is about 0.60653,
    // i.e. about 39750 in Q16.16.
    assert_eq!(exp_neg(32768), 39748);
}

#[test]
fn exp_neg_saturates() {
    assert_eq!(exp_neg(32 * 65536), 0);
    assert_eq!(exp_neg(u64::MAX), 0);
}

#[test]
fn exp_neg_is_antitone_on_samples() {
    let mut prev = exp_neg(0);
    for i in 1..200u64 {
        let cur = exp_neg(i * 3000);
        assert!(cur <= prev);
        prev = cur;
    }
}

#[test]
fn mul_q_rounds_down() {
    assert_eq!(mul_q(65536, 65536), 65536);
    assert_eq!(mul_q(32768, 32768), 16384);
    assert_eq!(mul_q(1, 1), 0);
}

#[test]
fn kernel_size_is_two_r_squared() {
    // (2r)^2 entries for r > 0.
    for r in 1..6i64 {
        let kernel = build_kernel(r, 3 * 65536);
        assert_eq!(kernel.len(), (2 * r as usize).pow(2));
    }
}

#[test]
fn kernel_center_weight_is_exactly_one() {
    let kernel = build_kernel(3, 2 * 65536);
    let mut found = false;
    for e in &kernel {
        assert!(e.weight <= ONE);
        if e.dx == 0 && e.dy == 0 {
            assert_eq!(e.weight, 65536);
            found = true;
        }
    }
    assert!(found);
}

#[test]
fn kernel_window_is_asymmetric() {
    // Offsets run over [-r, r): the +r row and column are absent.
    let r = 2i64;
    let kernel = build_kernel(r, 65536);
    for e in &kernel {
        assert!(-r <= e.dx && e.dx < r);
        assert!(-r <= e.dy && e.dy < r);
    }
}

#[test]
fn kernel_insertion_order_is_dx_outer_dy_inner() {
    let r = 2i64;
    let kernel = build_kernel(r, 65536);
    for (i, e) in kernel.iter().enumerate() {
        assert_eq!(e.dx, (i as i64) / (2 * r) - r);
        assert_eq!(e.dy, (i as i64) % (2 * r) - r);
    }
}

#[test]
fn kernel_weight_for_unit_offset() {
    // r = 1, sigma_s = 1.0: offset (0,-1) has d2 = 1, t = 0.5, weight
    // e^-0.5; offset (-1,-1) has d2 = 4, t = 2.0, weight e^-2.
    let kernel = build_kernel(1, 65536);
    assert_eq!(kernel.len(), 4);
    assert_eq!((kernel[0].dx, kernel[0].dy), (-1, -1));
    assert_eq!(kernel[0].weight, exp_neg(2 * 65536));
    assert_eq!((kernel[1].dx, kernel[1].dy), (-1, 0));
    assert_eq!(kernel[1].weight, exp_neg(32768));
    assert_eq!((kernel[2].dx, kernel[2].dy), (0, -1));
    assert_eq!(kernel[2].weight, exp_neg(32768));
    assert_eq!((kernel[3].dx, kernel[3].dy), (0, 0));
    assert_eq!(kernel[3].weight, 65536);
}
