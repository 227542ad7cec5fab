use animate::fixed::{
    clamp, div_fixed, fraction, lerp, lerp_angle, mul_fixed, saturate_i128, wrap_angle, HALF, ONE,
    PI, TWO_PI,
};
use animate::geometry::{lerp_vec2, Vec2};

#[test]
fn constants_are_consistent() {
    assert_eq!(HALF * 2, ONE);
    assert_eq!(PI * 2, TWO_PI);
    assert_eq!(PI, 3_141_593);
}

#[test]
fn lerp_halfway_between_zero_and_hundred() {
    assert_eq!(lerp(0, 100 * ONE, HALF), 50 * ONE);
}

#[test]
fn lerp_is_exact_at_both_ends() {
    for &(a, b) in &[(0, 7), (-3_500_000, 9_000_001), (i64::MIN, i64::MAX), (i64::MAX, i64::MIN)] {
        assert_eq!(lerp(a, b, 0), a);
        assert_eq!(lerp(a, b, ONE), b);
    }
}

#[test]
fn lerp_downwards_and_rounding_towards_zero() {
    assert_eq!(lerp(10 * ONE, 0, 250_000), 7_500_000);
    assert_eq!(lerp(0, 1, HALF), 0);
    assert_eq!(lerp(0, -1, HALF), 0);
    assert_eq!(lerp(0, 3, HALF), 1);
    assert_eq!(lerp(0, -3, HALF), -1);
}

#[test]
fn lerp_extrapolates_and_saturates() {
    assert_eq!(lerp(0, 10 * ONE, 2 * ONE), 20 * ONE);
    assert_eq!(lerp(0, 10 * ONE, -ONE), -10 * ONE);
    assert_eq!(lerp(0, i64::MAX, 2 * ONE), i64::MAX);
    assert_eq!(lerp(0, i64::MIN, 2 * ONE), i64::MIN);
    assert_eq!(lerp(i64::MIN, i64::MAX, i64::MAX), i64::MAX);
}

#[test]
fn lerp_stays_between_its_ends() {
    let (a, b) = (-2_345_678, 8_765_432);
    let mut t = 0;
    while t <= ONE {
        let v = lerp(a, b, t);
        assert!(a <= v && v <= b);
        let w = lerp(b, a, t);
        assert!(a <= w && w <= b);
        t += 12_345;
    }
}

#[test]
fn mul_fixed_values() {
    assert_eq!(mul_fixed(1_500_000, 2_000_000), 3_000_000);
    assert_eq!(mul_fixed(-1_500_000, 1_500_000), -2_250_000);
    assert_eq!(mul_fixed(1, 1), 0);
    assert_eq!(mul_fixed(-1, 1), 0);
    assert_eq!(mul_fixed(ONE, 123_456_789), 123_456_789);
    assert_eq!(mul_fixed(i64::MAX, i64::MAX), i64::MAX);
    assert_eq!(mul_fixed(i64::MIN, i64::MAX), i64::MIN);
    assert_eq!(mul_fixed(i64::MIN, i64::MIN), i64::MAX);
}

#[test]
fn div_fixed_values() {
    assert_eq!(div_fixed(ONE, 3 * ONE), 333_333);
    assert_eq!(div_fixed(-ONE, 3 * ONE), -333_333);
    assert_eq!(div_fixed(ONE, -3 * ONE), -333_333);
    assert_eq!(div_fixed(-ONE, -3 * ONE), 333_333);
    assert_eq!(div_fixed(7 * ONE, ONE), 7 * ONE);
    assert_eq!(div_fixed(i64::MAX, 1), i64::MAX);
    assert_eq!(div_fixed(i64::MIN, 1), i64::MIN);
    assert_eq!(div_fixed(0, -5), 0);
}

#[test]
fn saturate_and_clamp() {
    assert_eq!(saturate_i128(i64::MAX as i128 + 1), i64::MAX);
    assert_eq!(saturate_i128(i64::MIN as i128 - 1), i64::MIN);
    assert_eq!(saturate_i128(-42), -42);
    assert_eq!(clamp(5, 0, ONE), 5);
    assert_eq!(clamp(-5, 0, ONE), 0);
    assert_eq!(clamp(ONE + 5, 0, ONE), ONE);
}

#[test]
fn wrap_angle_lands_in_the_half_open_interval() {
    assert_eq!(wrap_angle(0), 0);
    assert_eq!(wrap_angle(PI as i128), PI);
    assert_eq!(wrap_angle(-(PI as i128)), PI);
    assert_eq!(wrap_angle(PI as i128 + 1), -PI + 1);
    assert_eq!(wrap_angle(-(PI as i128) - 1), PI - 1);
    assert_eq!(wrap_angle(7 * (TWO_PI as i128) + 5), 5);
    assert_eq!(wrap_angle(-7 * (TWO_PI as i128) - 5), -5);
    let mut d: i128 = -40_000_000;
    while d < 40_000_000 {
        let w = wrap_angle(d);
        assert!(-PI < w && w <= PI);
        assert_eq!((d - w as i128).rem_euclid(TWO_PI as i128), 0);
        d += 777_777;
    }
}

#[test]
fn rotation_takes_the_shortest_arc() {
    // 350 degrees to 10 degrees: through 0 (a full turn), not through 180.
    let ten_degrees = 174_533;
    let from = TWO_PI - ten_degrees;
    let to = ten_degrees;
    let mid = lerp_angle(from, to, HALF);
    assert_eq!(mid, TWO_PI);
    assert_eq!(wrap_angle(mid as i128), 0);
    assert_ne!(mid, PI);
    assert_eq!(lerp_angle(from, to, 0), from);
    assert_eq!(lerp_angle(from, to, ONE), TWO_PI + ten_degrees);
}

#[test]
fn rotation_the_other_way_round() {
    let ten_degrees = 174_533;
    let mid = lerp_angle(ten_degrees, TWO_PI - ten_degrees, HALF);
    assert_eq!(mid, 0);
    assert_eq!(lerp_angle(0, PI, HALF), PI / 2);
    assert_eq!(lerp_angle(0, -PI, HALF), PI / 2);
    assert_eq!(lerp_angle(0, PI + 2, HALF), (-PI + 2) / 2);
}

#[test]
fn rotation_saturates_at_the_ends_of_the_range() {
    assert_eq!(lerp_angle(i64::MAX, i64::MAX - 3, 5 * ONE), i64::MAX - 15);
    assert_eq!(lerp_angle(i64::MAX, i64::MAX - 3, -5 * ONE), i64::MAX);
    assert_eq!(lerp_angle(i64::MIN, i64::MIN + 3, -5 * ONE), i64::MIN);
}

#[test]
fn fraction_of_an_interval() {
    assert_eq!(fraction(5, 10), HALF);
    assert_eq!(fraction(1, 3), 333_333);
    assert_eq!(fraction(2, 3), 666_666);
    assert_eq!(fraction(0, 7), 0);
    assert_eq!(fraction(7, 7), ONE);
    assert_eq!(fraction(u32::MAX - 1, u32::MAX), 999_999);
    assert_eq!(fraction(u32::MAX, 1), u32::MAX as i64 * ONE);
}

#[test]
fn lerp_vec2_is_per_axis() {
    let a = Vec2 { x: 0, y: 10 * ONE };
    let b = Vec2 { x: 100 * ONE, y: -10 * ONE };
    assert_eq!(lerp_vec2(a, b, 250_000), Vec2 { x: 25 * ONE, y: 5 * ONE });
    assert_eq!(lerp_vec2(a, b, 0), a);
    assert_eq!(lerp_vec2(a, b, ONE), b);
}
