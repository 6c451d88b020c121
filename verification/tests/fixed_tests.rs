use evosim::fixed::{clamp_fp, fp_add, fp_mul, fp_sub, isqrt, relu, wrap_unit, CLIP};

#[test]
fn multiplication_is_scaled_and_truncated() {
    // 1.0 * 1.0 == 1.0, 0.5 * 0.5 == 0.25.
    assert_eq!(fp_mul(65536, 65536), 65536);
    assert_eq!(fp_mul(32768, 32768), 16384);
    // Truncation is toward zero on both signs.
    assert_eq!(fp_mul(1, 1), 0);
    assert_eq!(fp_mul(-1, 1), 0);
    // 3.0 * -0.5 == -1.5.
    assert_eq!(fp_mul(196608, -32768), -98304);
}

#[test]
fn arithmetic_saturates_at_clip() {
    assert_eq!(fp_add(CLIP, 1), CLIP);
    assert_eq!(fp_add(-CLIP, -1), -CLIP);
    assert_eq!(fp_sub(-CLIP, CLIP), -CLIP);
    assert_eq!(fp_mul(CLIP, CLIP), CLIP);
}

#[test]
fn relu_clips_negatives_only() {
    assert_eq!(relu(-5), 0);
    assert_eq!(relu(0), 0);
    assert_eq!(relu(5), 5);
}

#[test]
fn clamp_limits_both_sides() {
    assert_eq!(clamp_fp(10, 0, 5), 5);
    assert_eq!(clamp_fp(-10, 0, 5), 0);
    assert_eq!(clamp_fp(3, 0, 5), 3);
}

#[test]
fn integer_square_root_is_floored() {
    assert_eq!(isqrt(0), 0);
    assert_eq!(isqrt(1), 1);
    assert_eq!(isqrt(2), 1);
    assert_eq!(isqrt(4), 2);
    assert_eq!(isqrt(2147483648), 46340);
}

#[test]
fn wrap_unit_is_euclidean() {
    assert_eq!(wrap_unit(0), 0);
    assert_eq!(wrap_unit(65535), 65535);
    assert_eq!(wrap_unit(65536), 0);
    assert_eq!(wrap_unit(-1), 65535);
    assert_eq!(wrap_unit(-65536), 0);
}
