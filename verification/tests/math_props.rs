use based::color::{background, Color, SKY_B, SKY_G, SKY_R};
use based::math::{isqrt, muldiv_trunc};
use based::vec3::Vec3;
use based::SCALE;

#[test]
fn isqrt_small_values() {
    assert_eq!(isqrt(0), 0);
    assert_eq!(isqrt(1), 1);
    assert_eq!(isqrt(3), 1);
    assert_eq!(isqrt(4), 2);
    assert_eq!(isqrt(999_999), 999);
    assert_eq!(isqrt(1_000_000), 1000);
    assert_eq!(isqrt(1_000_000_000_000), 1_000_000);
}

#[test]
fn isqrt_large_value() {
    let n: i128 = 250_000_000_000_000_000_000_000;
    assert_eq!(isqrt(n), 500_000_000_000);
}

#[test]
fn muldiv_truncates_toward_zero() {
    assert_eq!(muldiv_trunc(7, 3, 2), 10);
    assert_eq!(muldiv_trunc(-7, 3, 2), -10);
    assert_eq!(muldiv_trunc(7, -3, 2), -10);
    assert_eq!(muldiv_trunc(-7, -3, 2), 10);
    assert_eq!(muldiv_trunc(1, 1, 2), 0);
    assert_eq!(muldiv_trunc(-1, 1, 2), 0);
}

#[test]
fn attenuate_scales_channels() {
    let half = Color::new(SCALE / 2, SCALE / 2, SCALE / 2);
    let white = Color::new(SCALE, SCALE, SCALE);
    let a = half.attenuate(&white);
    assert_eq!(a, Color::new(SCALE / 2, SCALE / 2, SCALE / 2));
    let q = half.attenuate(&half);
    assert_eq!(q, Color::new(SCALE / 4, SCALE / 4, SCALE / 4));
    let b = Color::new(0, 0, 0).attenuate(&white);
    assert_eq!(b, Color::new(0, 0, 0));
}

#[test]
fn add_and_average() {
    let a = Color::new(3, 5, 7);
    let b = Color::new(6, 4, 2);
    let s = a.add(&b);
    assert_eq!(s, Color::new(9, 9, 9));
    assert_eq!(s.div_by(2), Color::new(4, 4, 4));
}

#[test]
fn background_straight_down_is_white() {
    let c = background(&Vec3::new(0, -SCALE, 0));
    assert_eq!(c, Color::new(SCALE, SCALE, SCALE));
}

#[test]
fn background_straight_up_is_sky() {
    let c = background(&Vec3::new(0, SCALE, 0));
    assert_eq!(c, Color::new(SKY_R, SKY_G, SKY_B));
}

#[test]
fn background_horizontal_is_midpoint() {
    // t = SCALE / 2 exactly: each channel halfway between white and sky.
    let c = background(&Vec3::new(SCALE, 0, 0));
    assert_eq!(c, Color::new(750_000, 850_000, SCALE));
}

#[test]
fn background_scales_with_direction_length() {
    // The gradient depends on the normalized direction, so doubling the
    // vector must not change the color.
    let c1 = background(&Vec3::new(123_456, 654_321, -222_222));
    let c2 = background(&Vec3::new(246_912, 1_308_642, -444_444));
    assert_eq!(c1, c2);
}
