use actor_game::actor::fixed::Fixed;
use actor_game::actor::math::Math;
use actor_game::actor::vector2::Vector2;

#[test]
fn degrees_to_radians() {
    assert_eq!(Math::to_rad(Fixed::from_int(180)).raw(), 3_141_592);
    assert_eq!(Math::to_rad(Fixed::from_int(90)).raw(), 1_570_796);
    assert_eq!(Math::to_rad(Fixed::from_int(-360)).raw(), -6_283_184);
    assert_eq!(Math::to_rad(Fixed::zero()).raw(), 0);
    assert_eq!(Math::to_rad(Fixed::from_int(1)).raw(), 17_453);
}

#[test]
fn radians_to_degrees() {
    assert_eq!(Math::to_deg(Fixed::pi()).raw(), 180_000_000);
    assert_eq!(Math::to_deg(Fixed::half_pi()).raw(), 90_000_000);
    assert_eq!(Math::to_deg(Fixed::zero()).raw(), 0);
    assert_eq!(Math::to_deg(Fixed::from_int(1)).raw(), 57_295_791);
}

#[test]
fn normalize_angle_wraps_into_half_a_turn() {
    let cases: [(i64, i64); 9] = [
        (0, 0),
        (3_141_592, 3_141_592),
        (-3_141_592, 3_141_592),
        (3_141_593, -3_141_591),
        (-3_141_591, -3_141_591),
        (6_283_184, 0),
        (7_283_184, 1_000_000),
        (-7_283_184, -1_000_000),
        (6_283_184 * 1000 + 5, 5),
    ];
    for (angle, wrapped) in cases {
        assert_eq!(Math::normalize_angle(Fixed::from_raw(angle)).raw(), wrapped);
    }
}

#[test]
fn normalize_angle_keeps_sine_and_cosine() {
    for angle in [-50_000_000i64, -4_000_000, 3_500_000, 10_000_000, 999_999_999] {
        let wrapped = Math::normalize_angle(Fixed::from_raw(angle));
        assert!(wrapped.raw() > -3_141_592 && wrapped.raw() <= 3_141_592);
        assert_eq!(wrapped.sin(), Fixed::from_raw(angle).sin());
        assert_eq!(wrapped.cos(), Fixed::from_raw(angle).cos());
    }
}

#[test]
fn lerp_walks_from_a_to_b() {
    let a = Fixed::from_int(10);
    let b = Fixed::from_int(20);
    assert_eq!(Math::lerp(a, b, Fixed::zero()), a);
    assert_eq!(Math::lerp(a, b, Fixed::one()), b);
    assert_eq!(Math::lerp(a, b, Fixed::from_raw(250_000)).raw(), 12_500_000);
    assert_eq!(Math::lerp(b, a, Fixed::from_raw(250_000)).raw(), 17_500_000);
    assert_eq!(Math::lerp(a, b, Fixed::from_int(2)).raw(), 30_000_000);
}

#[test]
fn clamp_holds_a_value_between_bounds() {
    let min = Fixed::from_int(-1);
    let max = Fixed::from_int(1);
    assert_eq!(Math::clamp(Fixed::from_raw(500_000), min, max).raw(), 500_000);
    assert_eq!(Math::clamp(Fixed::from_int(-5), min, max), min);
    assert_eq!(Math::clamp(Fixed::from_int(5), min, max), max);
    assert_eq!(Math::clamp(min, min, max), min);
    assert_eq!(Math::clamp(max, min, max), max);
}

fn v(x: i64, y: i64) -> Vector2 {
    Vector2::new(Fixed::from_raw(x), Fixed::from_raw(y))
}

#[test]
fn angle_between_vectors() {
    assert_eq!(Math::angle_between(v(1_000_000, 0), v(0, 1_000_000)).raw(), 1_570_796);
    assert_eq!(Math::angle_between(v(0, 1_000_000), v(1_000_000, 0)).raw(), 1_570_796);
    assert_eq!(Math::angle_between(v(5, 5), v(7, 7)).raw(), 0);
    assert_eq!(Math::angle_between(v(1, 0), v(-1, 0)).raw(), 3_141_592);
    assert_eq!(Math::angle_between(v(1, 1), v(-1, 1)).raw(), 1_570_796);
    assert_eq!(Math::angle_between(v(-1, -1), v(-1, 1)).raw(), 4_712_388);
    assert_eq!(Math::angle_between(v(0, 0), v(0, 1)).raw(), 1_570_796);
    assert_eq!(Math::angle_between(v(0, 0), v(0, 0)).raw(), 0);
}
