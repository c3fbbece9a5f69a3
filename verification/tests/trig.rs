use actor_game::actor::fixed::Fixed;
use actor_game::actor::trig::{HALF_PI_RAW, PI_RAW, TAU_RAW};

#[test]
fn turn_constants_are_consistent() {
    assert_eq!(Fixed::pi().raw(), 3_141_592);
    assert_eq!(Fixed::half_pi().raw(), 1_570_796);
    assert_eq!(Fixed::tau().raw(), 6_283_184);
    assert_eq!(PI_RAW, 2 * HALF_PI_RAW);
    assert_eq!(TAU_RAW, 4 * HALF_PI_RAW);
}

#[test]
fn sine_and_cosine_at_the_quarter_turns() {
    let cases: [(i64, i64, i64); 5] = [
        (0, 0, 1_000_000),
        (HALF_PI_RAW, 1_000_000, 0),
        (PI_RAW, 0, -1_000_000),
        (PI_RAW + HALF_PI_RAW, -1_000_000, 0),
        (TAU_RAW, 0, 1_000_000),
    ];
    for (angle, sin, cos) in cases {
        assert_eq!(Fixed::from_raw(angle).sin().raw(), sin);
        assert_eq!(Fixed::from_raw(angle).cos().raw(), cos);
    }
}

#[test]
fn sine_and_cosine_at_known_angles() {
    assert_eq!(Fixed::from_raw(523_599).sin().raw(), 500_000);
    assert_eq!(Fixed::from_raw(1_047_198).cos().raw(), 499_999);
    assert_eq!(Fixed::from_raw(785_398).sin().raw(), 707_107);
    assert_eq!(Fixed::from_raw(785_398).cos().raw(), 707_107);
    assert_eq!(Fixed::from_raw(-785_398).sin().raw(), -707_107);
    assert_eq!(Fixed::from_raw(-785_398).cos().raw(), 707_107);
    assert_eq!(Fixed::from_int(1).sin().raw(), 841_471);
    assert_eq!(Fixed::from_int(1).cos().raw(), 540_302);
}

#[test]
fn sine_and_cosine_track_the_real_functions_within_one_turn() {
    let mut angle: i64 = -PI_RAW;
    while angle <= PI_RAW {
        let radians = angle as f64 / 1e6;
        let sin = Fixed::from_raw(angle).sin().raw() as f64;
        let cos = Fixed::from_raw(angle).cos().raw() as f64;
        assert!((sin - radians.sin() * 1e6).abs() <= 3.0, "sin at {}", angle);
        assert!((cos - radians.cos() * 1e6).abs() <= 3.0, "cos at {}", angle);
        angle += 997;
    }
}

#[test]
fn sine_and_cosine_stay_within_one() {
    let angles: [i64; 7] = [
        i64::MIN,
        -1_000_000_000_000_000_000,
        -123_456_789_012,
        0,
        987_654_321,
        1_000_000_000_000_000_000,
        i64::MAX,
    ];
    for angle in angles {
        let sin = Fixed::from_raw(angle).sin().raw();
        let cos = Fixed::from_raw(angle).cos().raw();
        assert!((-1_000_000..=1_000_000).contains(&sin));
        assert!((-1_000_000..=1_000_000).contains(&cos));
    }
}

#[test]
fn sine_and_cosine_repeat_every_turn() {
    let angles: [i64; 4] = [0, 314_159, -2_000_000, 5_555_555];
    for angle in angles {
        for turns in [-3i64, -1, 1, 2, 1000] {
            let shifted = Fixed::from_raw(angle + turns * TAU_RAW);
            assert_eq!(shifted.sin(), Fixed::from_raw(angle).sin());
            assert_eq!(shifted.cos(), Fixed::from_raw(angle).cos());
        }
    }
}

#[test]
fn arctangent_is_exact_along_the_axes() {
    let zero = Fixed::zero();
    for d in [1i64, 1_000_000, 1_000_000_000_000_000_000] {
        let d = Fixed::from_raw(d);
        assert_eq!(zero.atan2(d).raw(), 0);
        assert_eq!(d.atan2(zero).raw(), HALF_PI_RAW);
        assert_eq!(zero.atan2(d.neg()).raw(), PI_RAW);
        assert_eq!(d.neg().atan2(zero).raw(), -HALF_PI_RAW);
    }
    assert_eq!(zero.atan2(zero).raw(), 0);
}

#[test]
fn arctangent_at_known_directions() {
    let at = |y: i64, x: i64| Fixed::from_raw(y).atan2(Fixed::from_raw(x)).raw();
    assert_eq!(at(1, 1), 785_398);
    assert_eq!(at(-1, -1), -2_356_194);
    assert_eq!(at(1, -1), 2_356_194);
    assert_eq!(at(-1, 1), -785_398);
    assert_eq!(at(3, 4), 643_501);
    assert_eq!(at(1_000_000_000_000_000_000, 1_000_000_000_000_000_000), 785_398);
    assert_eq!(at(-1_000_000_000_000_000_000, 1), -1_570_796);
}

#[test]
fn arctangent_tracks_the_real_function() {
    let mut y: i64 = -2_000_000;
    while y <= 2_000_000 {
        let mut x: i64 = -2_000_000;
        while x <= 2_000_000 {
            if x != 0 || y != 0 {
                let angle = Fixed::from_raw(y).atan2(Fixed::from_raw(x)).raw() as f64;
                let real = (y as f64).atan2(x as f64) * 1e6;
                assert!((angle - real).abs() <= 2.0, "angle of ({}, {})", x, y);
            }
            x += 39_989;
        }
        y += 40_009;
    }
}

#[test]
fn arctangent_undoes_sine_and_cosine() {
    let mut angle: i64 = -PI_RAW + 1;
    while angle <= PI_RAW {
        let a = Fixed::from_raw(angle);
        let back = a.sin().atan2(a.cos()).raw();
        assert!((back - angle).abs() <= 3, "angle {} came back as {}", angle, back);
        angle += 9_973;
    }
}

#[test]
fn sine_and_cosine_are_the_sides_of_a_unit_triangle() {
    let mut angle: i64 = -2 * TAU_RAW;
    while angle <= 2 * TAU_RAW {
        let a = Fixed::from_raw(angle);
        let sin = a.sin().raw() as i128;
        let cos = a.cos().raw() as i128;
        let off = sin * sin + cos * cos - 1_000_000_000_000;
        assert!(off.abs() <= 1_000_000, "angle {} is off by {}", angle, off);
        angle += 331;
    }
    for angle in [785_398i64, 785_397, 785_399, 2_356_194, -785_398, i64::MAX, i64::MIN] {
        let a = Fixed::from_raw(angle);
        let sin = a.sin().raw() as i128;
        let cos = a.cos().raw() as i128;
        assert!((sin * sin + cos * cos - 1_000_000_000_000).abs() <= 1_000_000);
    }
}
