use vstd::prelude::*;
use crate::actor::fixed::{Fixed, LIMIT, SCALE};
use crate::actor::vector2::{int_sqrt, isqrt, lemma_int_sqrt};

verus! {

/// A half turn in raw micro-radians.
pub const PI_RAW: i64 = 3_141_592;

/// A quarter turn in raw micro-radians.
pub const HALF_PI_RAW: i64 = 1_570_796;

/// A full turn in raw micro-radians: exactly four quarter turns.
pub const TAU_RAW: i64 = 6_283_184;

/// The scale on which the sine series is summed.
pub const PRECISION: i128 = 1_000_000_000_000;

/// An eighth of a turn in raw micro-radians.
pub const QUARTER_PI_RAW: i64 = 785_398;

/// The sine of an angle `t` of the first quadrant, raw to raw, by its
/// series: the Taylor polynomial of degree 13, summed by Horner's rule on
/// the scale `PRECISION`, rounded to the nearest raw value and capped at
/// one.
#[verifier::opaque]
pub open spec fn sine_series(t: int) -> int {
    let z = t * t;
    let u6 = PRECISION - z / 156;
    let u5 = PRECISION - (z * u6) / (110 * PRECISION);
    let u4 = PRECISION - (z * u5) / (72 * PRECISION);
    let u3 = PRECISION - (z * u4) / (42 * PRECISION);
    let u2 = PRECISION - (z * u3) / (20 * PRECISION);
    let u1 = PRECISION - (z * u2) / (6 * PRECISION);
    let v = (t * u1 + PRECISION / 2) / (PRECISION as int);
    if v > SCALE {
        SCALE as int
    } else {
        v
    }
}

/// The square root of `q`, rounded to the nearest integer.
pub open spec fn rounded_sqrt(q: int) -> int {
    (int_sqrt(4 * q) + 1) / 2
}

/// The sine of an angle `t` of the first quadrant, `0 <= t <= HALF_PI_RAW`,
/// raw to raw. Up to an eighth of a turn it is the series. Beyond, it is
/// what the series gives for the cosine, turned into the sine by the
/// theorem of Pythagoras: so sine and cosine of one angle are always the
/// two sides of a right triangle with hypotenuse one.
#[verifier::opaque]
pub open spec fn sine_first_quadrant(t: int) -> int {
    if t <= QUARTER_PI_RAW {
        sine_series(t)
    } else {
        rounded_sqrt(SCALE * SCALE - sine_series(HALF_PI_RAW - t) * sine_series(HALF_PI_RAW - t))
    }
}

/// The sine of the raw angle `a`, raw: the angle is reduced to one turn and
/// its quadrant mirrored onto the first.
#[verifier::opaque]
pub open spec fn sine(a: int) -> int {
    let r = a % (TAU_RAW as int);
    let q = r / (HALF_PI_RAW as int);
    let t = r % (HALF_PI_RAW as int);
    if q == 0 {
        sine_first_quadrant(t)
    } else if q == 1 {
        sine_first_quadrant(HALF_PI_RAW - t)
    } else if q == 2 {
        -sine_first_quadrant(t)
    } else {
        -sine_first_quadrant(HALF_PI_RAW - t)
    }
}

/// The cosine of the raw angle `a`, raw: the sine a quarter turn ahead.
pub open spec fn cosine(a: int) -> int {
    sine(a + HALF_PI_RAW)
}

/// A Horner step stays between zero and the scale.
proof fn lemma_series_step(z: int, u: int, k: int)
    requires
        0 <= z <= HALF_PI_RAW * HALF_PI_RAW,
        0 <= u <= PRECISION,
        6 <= k <= 156,
    ensures
        0 <= z * u <= HALF_PI_RAW * HALF_PI_RAW * PRECISION,
        0 <= PRECISION - (z * u) / (k * PRECISION) <= PRECISION,
{
    let zmax = HALF_PI_RAW * HALF_PI_RAW;
    assert(0 <= z * u <= zmax * PRECISION) by (nonlinear_arith)
        requires
            0 <= z <= zmax,
            0 <= u <= PRECISION,
    ;
    let d = k * PRECISION;
    let p = z * u;
    assert(0 <= p / d <= PRECISION) by (nonlinear_arith)
        requires
            0 <= p <= 2_467_400_073_616 * 1_000_000_000_000,
            d >= 6 * 1_000_000_000_000,
            PRECISION == 1_000_000_000_000,
    ;
}

/// The series lies between zero and one.
pub proof fn lemma_sine_series_range(t: int)
    requires
        0 <= t <= HALF_PI_RAW,
    ensures
        0 <= sine_series(t) <= SCALE,
{
    reveal(sine_series);
    let z = t * t;
    assert(0 <= z <= HALF_PI_RAW * HALF_PI_RAW) by (nonlinear_arith)
        requires
            0 <= t <= HALF_PI_RAW,
            z == t * t,
    ;
    let u6 = PRECISION - z / 156;
    let u5 = PRECISION - (z * u6) / (110 * PRECISION);
    let u4 = PRECISION - (z * u5) / (72 * PRECISION);
    let u3 = PRECISION - (z * u4) / (42 * PRECISION);
    let u2 = PRECISION - (z * u3) / (20 * PRECISION);
    let u1 = PRECISION - (z * u2) / (6 * PRECISION);
    lemma_series_step(z, u6, 110);
    lemma_series_step(z, u5, 72);
    lemma_series_step(z, u4, 42);
    lemma_series_step(z, u3, 20);
    lemma_series_step(z, u2, 6);
    assert(0 <= t * u1) by (nonlinear_arith)
        requires
            0 <= t,
            0 <= u1,
    ;
}

/// The rounded square root differs from the true one by at most a half:
/// its square differs from `q` by at most itself.
pub proof fn lemma_rounded_sqrt(q: int)
    requires
        0 <= q,
    ensures
        0 <= rounded_sqrt(q),
        rounded_sqrt(q) * rounded_sqrt(q) - rounded_sqrt(q) <= q,
        q <= rounded_sqrt(q) * rounded_sqrt(q) + rounded_sqrt(q),
        q <= SCALE * SCALE ==> rounded_sqrt(q) <= SCALE,
        q == SCALE * SCALE ==> rounded_sqrt(q) == SCALE,
{
    lemma_int_sqrt(4 * q);
    let m = int_sqrt(4 * q);
    let c = (m + 1) / 2;
    if m == 2 * c {
        assert(c * c <= q && q <= c * c + c) by (nonlinear_arith)
            requires
                m == 2 * c,
                m * m <= 4 * q,
                4 * q < (m + 1) * (m + 1),
        ;
    } else {
        assert(m == 2 * c - 1);
        assert(c * c - c <= q && q <= c * c) by (nonlinear_arith)
            requires
                m == 2 * c - 1,
                m * m <= 4 * q,
                4 * q < (m + 1) * (m + 1),
        ;
        assert(0 <= c * c + c) by (nonlinear_arith)
            requires
                0 <= c,
        ;
    }
    if q <= SCALE * SCALE {
        assert(c <= SCALE) by (nonlinear_arith)
            requires
                0 <= c,
                c * c - c <= q,
                q <= SCALE * SCALE,
                SCALE == 1_000_000,
        ;
    }
    if q == SCALE * SCALE {
        assert(c >= SCALE) by (nonlinear_arith)
            requires
                0 <= c,
                q <= c * c + c,
                q == SCALE * SCALE,
                SCALE == 1_000_000,
        ;
    }
}

/// The first-quadrant sine lies between zero and one.
pub proof fn lemma_sine_first_quadrant_range(t: int)
    requires
        0 <= t <= HALF_PI_RAW,
    ensures
        0 <= sine_first_quadrant(t) <= SCALE,
{
    reveal(sine_first_quadrant);
    if t <= QUARTER_PI_RAW {
        lemma_sine_series_range(t);
    } else {
        lemma_sine_series_range(HALF_PI_RAW - t);
        let p = sine_series(HALF_PI_RAW - t);
        assert(0 <= p * p <= SCALE * SCALE) by (nonlinear_arith)
            requires
                0 <= p <= SCALE,
        ;
        lemma_rounded_sqrt(SCALE * SCALE - p * p);
    }
}

/// At an eighth of a turn the series gives the square root of a half.
proof fn lemma_sine_series_at_eighth()
    ensures
        sine_series(QUARTER_PI_RAW as int) == 707_107,
{
    reveal(sine_series);
    let t = 785_398int;
    let z = t * t;
    assert(z == 616_850_018_404) by (nonlinear_arith)
        requires
            t == 785_398,
            z == t * t,
    ;
    let u6 = PRECISION - z / 156;
    assert(u6 == 996_045_833_216);
    assert((z * u6) / (110 * PRECISION) == 5_585_553_550) by (nonlinear_arith)
        requires
            z == 616_850_018_404,
            u6 == 996_045_833_216,
            PRECISION == 1_000_000_000_000,
    ;
    let u5 = PRECISION - (z * u6) / (110 * PRECISION);
    assert(u5 == 994_414_446_450);
    assert((z * u5) / (72 * PRECISION) == 8_519_507_911) by (nonlinear_arith)
        requires
            z == 616_850_018_404,
            u5 == 994_414_446_450,
            PRECISION == 1_000_000_000_000,
    ;
    let u4 = PRECISION - (z * u5) / (72 * PRECISION);
    assert(u4 == 991_480_492_089);
    assert((z * u4) / (42 * PRECISION) == 14_561_779_995) by (nonlinear_arith)
        requires
            z == 616_850_018_404,
            u4 == 991_480_492_089,
            PRECISION == 1_000_000_000_000,
    ;
    let u3 = PRECISION - (z * u4) / (42 * PRECISION);
    assert(u3 == 985_438_220_005);
    assert((z * u3) / (20 * PRECISION) == 30_393_379_207) by (nonlinear_arith)
        requires
            z == 616_850_018_404,
            u3 == 985_438_220_005,
            PRECISION == 1_000_000_000_000,
    ;
    let u2 = PRECISION - (z * u3) / (20 * PRECISION);
    assert(u2 == 969_606_620_793);
    assert((z * u2) / (6 * PRECISION) == 99_683_643_646) by (nonlinear_arith)
        requires
            z == 616_850_018_404,
            u2 == 969_606_620_793,
            PRECISION == 1_000_000_000_000,
    ;
    let u1 = PRECISION - (z * u2) / (6 * PRECISION);
    assert(u1 == 900_316_356_354);
    assert(t * u1 == 707_106_665_647_718_892) by (nonlinear_arith)
        requires
            t == 785_398,
            u1 == 900_316_356_354,
    ;
}

/// Sine and cosine of an angle of the first quadrant are the sides of a
/// right triangle with hypotenuse one: their squares sum to one, to within
/// one part in a million.
proof fn lemma_first_quadrant_pair(t: int)
    requires
        0 <= t <= HALF_PI_RAW,
    ensures
        ({
            let s = sine_first_quadrant(t);
            let c = sine_first_quadrant(HALF_PI_RAW - t);
            SCALE * SCALE - SCALE <= s * s + c * c <= SCALE * SCALE + SCALE
        }),
{
    reveal(sine_first_quadrant);
    let s = sine_first_quadrant(t);
    let c = sine_first_quadrant(HALF_PI_RAW - t);
    if t == QUARTER_PI_RAW {
        lemma_sine_series_at_eighth();
        assert(s == 707_107 && c == 707_107);
        assert(s * s + c * c == 1_000_000_618_898) by (nonlinear_arith)
            requires
                s == 707_107,
                c == 707_107,
        ;
    } else {
        let small = if t < QUARTER_PI_RAW { t } else { HALF_PI_RAW - t };
        lemma_sine_series_range(small);
        let p = sine_series(small);
        assert(0 <= p * p <= SCALE * SCALE) by (nonlinear_arith)
            requires
                0 <= p <= SCALE,
        ;
        let q = SCALE * SCALE - p * p;
        lemma_rounded_sqrt(q);
        let r = rounded_sqrt(q);
        assert(r <= SCALE);
        if t < QUARTER_PI_RAW {
            assert(s == p && c == r);
        } else {
            assert(c == p && s == r);
        }
    }
}

/// Sine and cosine of every angle are the sides of a right triangle with
/// hypotenuse one: their squares sum to one, to within one part in a
/// million.
pub proof fn lemma_sine_cosine_unit(a: int)
    ensures
        SCALE * SCALE - SCALE <= sine(a) * sine(a) + cosine(a) * cosine(a) <= SCALE * SCALE
            + SCALE,
{
    reveal(sine);
    let r = a % (TAU_RAW as int);
    let q = r / (HALF_PI_RAW as int);
    let t = r % (HALF_PI_RAW as int);
    let r2 = (a + HALF_PI_RAW) % (TAU_RAW as int);
    let q2 = r2 / (HALF_PI_RAW as int);
    let t2 = r2 % (HALF_PI_RAW as int);
    assert(t2 == t);
    assert(q2 == if q == 3 { 0 } else { q + 1 });
    lemma_first_quadrant_pair(t);
    lemma_first_quadrant_pair(HALF_PI_RAW - t);
    let x = sine_first_quadrant(t);
    let y = sine_first_quadrant(HALF_PI_RAW - t);
    assert((-x) * (-x) == x * x) by (nonlinear_arith);
    assert((-y) * (-y) == y * y) by (nonlinear_arith);
    assert(HALF_PI_RAW - (HALF_PI_RAW - t) == t);
}

/// The sine of every angle lies between minus one and one.
pub proof fn lemma_sine_range(a: int)
    ensures
        -SCALE <= sine(a) <= SCALE,
        -SCALE <= cosine(a) <= SCALE,
{
    reveal(sine);
    let r = a % (TAU_RAW as int);
    let t = r % (HALF_PI_RAW as int);
    lemma_sine_first_quadrant_range(t);
    lemma_sine_first_quadrant_range(HALF_PI_RAW - t);
    let r2 = (a + HALF_PI_RAW) % (TAU_RAW as int);
    let t2 = r2 % (HALF_PI_RAW as int);
    lemma_sine_first_quadrant_range(t2);
    lemma_sine_first_quadrant_range(HALF_PI_RAW - t2);
}

/// Sine and cosine repeat with every full turn.
pub proof fn lemma_sine_periodic(a: int, turns: int)
    ensures
        sine(a + turns * TAU_RAW) == sine(a),
        cosine(a + turns * TAU_RAW) == cosine(a),
{
    reveal(sine);
    vstd::arithmetic::div_mod::lemma_mod_multiples_vanish(turns, a, TAU_RAW as int);
    vstd::arithmetic::div_mod::lemma_mod_multiples_vanish(turns, a + HALF_PI_RAW, TAU_RAW as int);
    assert(a + turns * TAU_RAW + HALF_PI_RAW == TAU_RAW * turns + (a + HALF_PI_RAW)) by (nonlinear_arith);
    assert(a + turns * TAU_RAW == TAU_RAW * turns + a) by (nonlinear_arith);
}

/// At angle zero the sine is zero and the cosine is one.
pub proof fn lemma_sine_at_zero()
    ensures
        sine(0) == 0,
        cosine(0) == SCALE,
{
    reveal(sine);
    reveal(sine_first_quadrant);
    reveal(sine_series);
    assert(sine_series(0) == 0);
    lemma_rounded_sqrt(SCALE * SCALE);
}

/// Sine of a first-quadrant angle.
fn first_quadrant(t: i128) -> (v: i128)
    requires
        0 <= t <= HALF_PI_RAW,
    ensures
        v == sine_first_quadrant(t as int),
        0 <= v <= SCALE,
{
    proof {
        reveal(sine_first_quadrant);
        lemma_sine_first_quadrant_range(t as int);
    }
    if t <= QUARTER_PI_RAW as i128 {
        series(t)
    } else {
        let p: i128 = series(HALF_PI_RAW as i128 - t);
        proof {
            assert(0 <= p * p <= SCALE * SCALE) by (nonlinear_arith)
                requires
                    0 <= p <= SCALE,
            ;
        }
        let q: i128 = (SCALE as i128) * (SCALE as i128) - p * p;
        let m: u128 = isqrt((4 * q) as u128);
        ((m + 1) / 2) as i128
    }
}

/// The series of the sine.
fn series(t: i128) -> (v: i128)
    requires
        0 <= t <= HALF_PI_RAW,
    ensures
        v == sine_series(t as int),
        0 <= v <= SCALE,
{
    proof {
        reveal(sine_series);
        lemma_sine_series_range(t as int);
        assert(0 <= t * t <= HALF_PI_RAW * HALF_PI_RAW) by (nonlinear_arith)
            requires
                0 <= t <= HALF_PI_RAW,
        ;
    }
    let z: i128 = t * t;
    let u6: i128 = PRECISION - z / 156;
    proof {
        lemma_series_step(z as int, u6 as int, 110);
    }
    let u5: i128 = PRECISION - (z * u6) / (110 * PRECISION);
    proof {
        lemma_series_step(z as int, u5 as int, 72);
    }
    let u4: i128 = PRECISION - (z * u5) / (72 * PRECISION);
    proof {
        lemma_series_step(z as int, u4 as int, 42);
    }
    let u3: i128 = PRECISION - (z * u4) / (42 * PRECISION);
    proof {
        lemma_series_step(z as int, u3 as int, 20);
    }
    let u2: i128 = PRECISION - (z * u3) / (20 * PRECISION);
    proof {
        lemma_series_step(z as int, u2 as int, 6);
    }
    let u1: i128 = PRECISION - (z * u2) / (6 * PRECISION);
    proof {
        assert(0 <= t * u1 <= HALF_PI_RAW * PRECISION) by (nonlinear_arith)
            requires
                0 <= t <= HALF_PI_RAW,
                0 <= u1 <= PRECISION,
        ;
    }
    let v: i128 = (t * u1 + PRECISION / 2) / PRECISION;
    if v > SCALE as i128 {
        SCALE as i128
    } else {
        v
    }
}

/// Sine of any raw angle that two limits bound.
fn sine_of(a: i128) -> (r: i64)
    requires
        -2 * LIMIT <= a <= 2 * LIMIT,
    ensures
        r == sine(a as int),
        -SCALE <= r <= SCALE,
{
    proof {
        reveal(sine);
    }
    let m: i128 = a % (TAU_RAW as i128);
    let r: i128 = if m < 0 {
        m + TAU_RAW as i128
    } else {
        m
    };
    assert(r == (a as int) % (TAU_RAW as int));
    let q: i128 = r / (HALF_PI_RAW as i128);
    let t: i128 = r % (HALF_PI_RAW as i128);
    if q == 0 {
        first_quadrant(t) as i64
    } else if q == 1 {
        first_quadrant(HALF_PI_RAW as i128 - t) as i64
    } else if q == 2 {
        (-first_quadrant(t)) as i64
    } else {
        (-first_quadrant(HALF_PI_RAW as i128 - t)) as i64
    }
}

/// The arctangent of a ratio between zero and one, both on the scale
/// `PRECISION`: the polynomial of degree 17 of Abramowitz and Stegun
/// (4.4.49), summed by Horner's rule.
#[verifier::opaque]
pub open spec fn arctangent_of_ratio(t: int) -> int {
    let z = (t * t) / (PRECISION as int);
    let u8 = 2_866_225_700int;
    let u7 = 16_165_736_700 - (z * u8) / (PRECISION as int);
    let u6 = 42_909_613_800 - (z * u7) / (PRECISION as int);
    let u5 = 75_289_640_000 - (z * u6) / (PRECISION as int);
    let u4 = 106_562_639_300 - (z * u5) / (PRECISION as int);
    let u3 = 142_088_994_400 - (z * u4) / (PRECISION as int);
    let u2 = 199_935_508_500 - (z * u3) / (PRECISION as int);
    let u1 = 333_331_452_800 - (z * u2) / (PRECISION as int);
    let u0 = PRECISION - (z * u1) / (PRECISION as int);
    (t * u0) / (PRECISION as int)
}

/// The raw angle, within the first quadrant, of the direction that reaches
/// `a` along the first axis and `b` along the second, both non-negative and
/// not both zero: the arctangent of the smaller by the larger, rounded to
/// the nearest raw value, taken from the nearer axis.
pub open spec fn first_quadrant_angle(a: int, b: int) -> int {
    if b <= a {
        (arctangent_of_ratio((b * PRECISION) / a) + 500_000) / 1_000_000
    } else {
        HALF_PI_RAW - (arctangent_of_ratio((a * PRECISION) / b) + 500_000) / 1_000_000
    }
}

/// The raw angle of the direction `(x, y)`, between minus a half turn and a
/// half turn; zero for the zero vector.
#[verifier::opaque]
pub open spec fn arctangent(y: int, x: int) -> int {
    if x == 0 && y == 0 {
        0
    } else {
        let a = if x >= 0 { x } else { -x };
        let b = if y >= 0 { y } else { -y };
        let phi = first_quadrant_angle(a, b);
        if x >= 0 {
            if y >= 0 {
                phi
            } else {
                -phi
            }
        } else if y >= 0 {
            PI_RAW - phi
        } else {
            phi - PI_RAW
        }
    }
}

/// A Horner step of the arctangent stays between zero and its coefficient.
proof fn lemma_arctangent_step(z: int, u: int, below: int, c: int)
    requires
        0 <= z <= PRECISION,
        0 <= u <= below <= c <= PRECISION,
    ensures
        0 <= z * u <= PRECISION * PRECISION,
        0 <= c - (z * u) / (PRECISION as int) <= c,
{
    assert(0 <= z * u <= PRECISION * u) by (nonlinear_arith)
        requires
            0 <= z <= PRECISION,
            0 <= u,
    ;
    assert(PRECISION * u <= PRECISION * PRECISION) by (nonlinear_arith)
        requires
            0 <= u <= PRECISION,
    ;
    assert(PRECISION * u == u * 1_000_000_000_000);
    assert((z * u) / 1_000_000_000_000 <= u);
}

/// The arctangent of a ratio lies between zero and the ratio.
proof fn lemma_arctangent_of_ratio_range(t: int)
    requires
        0 <= t <= PRECISION,
    ensures
        0 <= arctangent_of_ratio(t) <= t,
{
    reveal(arctangent_of_ratio);
    assert(0 <= t * t <= PRECISION * PRECISION) by (nonlinear_arith)
        requires
            0 <= t <= PRECISION,
    ;
    let z = (t * t) / (PRECISION as int);
    let u8 = 2_866_225_700int;
    let u7 = 16_165_736_700 - (z * u8) / (PRECISION as int);
    let u6 = 42_909_613_800 - (z * u7) / (PRECISION as int);
    let u5 = 75_289_640_000 - (z * u6) / (PRECISION as int);
    let u4 = 106_562_639_300 - (z * u5) / (PRECISION as int);
    let u3 = 142_088_994_400 - (z * u4) / (PRECISION as int);
    let u2 = 199_935_508_500 - (z * u3) / (PRECISION as int);
    let u1 = 333_331_452_800 - (z * u2) / (PRECISION as int);
    let u0 = PRECISION - (z * u1) / (PRECISION as int);
    lemma_arctangent_step(z, u8, 2_866_225_700, 16_165_736_700);
    lemma_arctangent_step(z, u7, 16_165_736_700, 42_909_613_800);
    lemma_arctangent_step(z, u6, 42_909_613_800, 75_289_640_000);
    lemma_arctangent_step(z, u5, 75_289_640_000, 106_562_639_300);
    lemma_arctangent_step(z, u4, 106_562_639_300, 142_088_994_400);
    lemma_arctangent_step(z, u3, 142_088_994_400, 199_935_508_500);
    lemma_arctangent_step(z, u2, 199_935_508_500, 333_331_452_800);
    lemma_arctangent_step(z, u1, 333_331_452_800, PRECISION as int);
    assert(0 <= t * u0 <= t * PRECISION) by (nonlinear_arith)
        requires
            0 <= t,
            0 <= u0 <= PRECISION,
    ;
    assert(t * PRECISION == t * 1_000_000_000_000);
}

/// The angle within the first quadrant lies between zero and a quarter
/// turn.
proof fn lemma_first_quadrant_angle_range(a: int, b: int)
    requires
        0 <= a,
        0 <= b,
        a > 0 || b > 0,
    ensures
        0 <= first_quadrant_angle(a, b) <= HALF_PI_RAW,
        b <= a ==> 0 <= (b * PRECISION) / a <= PRECISION,
        b > a ==> 0 <= (a * PRECISION) / b <= PRECISION,
{
    if b <= a {
        assert(0 <= (b * PRECISION) / a <= PRECISION) by (nonlinear_arith)
            requires
                0 <= b <= a,
                0 < a,
                PRECISION == 1_000_000_000_000,
        ;
        lemma_arctangent_of_ratio_range((b * PRECISION) / a);
    } else {
        assert(0 <= (a * PRECISION) / b <= PRECISION) by (nonlinear_arith)
            requires
                0 <= a < b,
                PRECISION == 1_000_000_000_000,
        ;
        lemma_arctangent_of_ratio_range((a * PRECISION) / b);
    }
}

/// The angle of every direction lies within half a turn of zero.
pub proof fn lemma_arctangent_range(y: int, x: int)
    ensures
        -PI_RAW <= arctangent(y, x) <= PI_RAW,
{
    reveal(arctangent);
    if x != 0 || y != 0 {
        let a = if x >= 0 { x } else { -x };
        let b = if y >= 0 { y } else { -y };
        lemma_first_quadrant_angle_range(a, b);
    }
}

/// Along the axes the angle is exact: zero ahead, a quarter turn to either
/// side, a half turn behind.
pub proof fn lemma_arctangent_on_axes(d: int)
    requires
        d > 0,
    ensures
        arctangent(0, d) == 0,
        arctangent(d, 0) == HALF_PI_RAW,
        arctangent(0, -d) == PI_RAW,
        arctangent(-d, 0) == -HALF_PI_RAW,
        arctangent(0, 0) == 0,
{
    reveal(arctangent);
    reveal(arctangent_of_ratio);
    assert((0 * PRECISION) / d == 0) by (nonlinear_arith)
        requires
            d > 0,
    ;
    assert(arctangent_of_ratio(0) == 0);
}

/// Arctangent of a ratio between zero and one.
fn arctangent_unit(t: i128) -> (r: i128)
    requires
        0 <= t <= PRECISION,
    ensures
        r == arctangent_of_ratio(t as int),
        0 <= r <= t,
{
    proof {
        reveal(arctangent_of_ratio);
        lemma_arctangent_of_ratio_range(t as int);
        assert(0 <= t * t <= PRECISION * PRECISION) by (nonlinear_arith)
            requires
                0 <= t <= PRECISION,
        ;
    }
    let z: i128 = (t * t) / PRECISION;
    let u8: i128 = 2_866_225_700;
    proof {
        lemma_arctangent_step(z as int, u8 as int, 2_866_225_700, 16_165_736_700);
    }
    let u7: i128 = 16_165_736_700 - (z * u8) / PRECISION;
    proof {
        lemma_arctangent_step(z as int, u7 as int, 16_165_736_700, 42_909_613_800);
    }
    let u6: i128 = 42_909_613_800 - (z * u7) / PRECISION;
    proof {
        lemma_arctangent_step(z as int, u6 as int, 42_909_613_800, 75_289_640_000);
    }
    let u5: i128 = 75_289_640_000 - (z * u6) / PRECISION;
    proof {
        lemma_arctangent_step(z as int, u5 as int, 75_289_640_000, 106_562_639_300);
    }
    let u4: i128 = 106_562_639_300 - (z * u5) / PRECISION;
    proof {
        lemma_arctangent_step(z as int, u4 as int, 106_562_639_300, 142_088_994_400);
    }
    let u3: i128 = 142_088_994_400 - (z * u4) / PRECISION;
    proof {
        lemma_arctangent_step(z as int, u3 as int, 142_088_994_400, 199_935_508_500);
    }
    let u2: i128 = 199_935_508_500 - (z * u3) / PRECISION;
    proof {
        lemma_arctangent_step(z as int, u2 as int, 199_935_508_500, 333_331_452_800);
    }
    let u1: i128 = 333_331_452_800 - (z * u2) / PRECISION;
    proof {
        lemma_arctangent_step(z as int, u1 as int, 333_331_452_800, PRECISION as int);
    }
    let u0: i128 = PRECISION - (z * u1) / PRECISION;
    proof {
        assert(0 <= t * u0 <= PRECISION * PRECISION) by (nonlinear_arith)
            requires
                0 <= t <= PRECISION,
                0 <= u0 <= PRECISION,
        ;
    }
    (t * u0) / PRECISION
}

/// The angle within the first quadrant.
fn first_quadrant_arctangent(a: i128, b: i128) -> (phi: i64)
    requires
        0 <= a <= LIMIT,
        0 <= b <= LIMIT,
        a > 0 || b > 0,
    ensures
        phi == first_quadrant_angle(a as int, b as int),
        0 <= phi <= HALF_PI_RAW,
{
    proof {
        lemma_first_quadrant_angle_range(a as int, b as int);
    }
    if b <= a {
        let t: i128 = (b * PRECISION) / a;
        ((arctangent_unit(t) + 500_000) / 1_000_000) as i64
    } else {
        let t: i128 = (a * PRECISION) / b;
        HALF_PI_RAW - ((arctangent_unit(t) + 500_000) / 1_000_000) as i64
    }
}

impl Fixed {
    /// A half turn, in radians.
    pub fn pi() -> (r: Fixed)
        ensures
            r == Fixed::of(PI_RAW as int),
            r@ == PI_RAW,
    {
        Fixed::from_raw(PI_RAW)
    }

    /// A quarter turn, in radians.
    pub fn half_pi() -> (r: Fixed)
        ensures
            r == Fixed::of(HALF_PI_RAW as int),
            r@ == HALF_PI_RAW,
    {
        Fixed::from_raw(HALF_PI_RAW)
    }

    /// A full turn, in radians.
    pub fn tau() -> (r: Fixed)
        ensures
            r == Fixed::of(TAU_RAW as int),
            r@ == TAU_RAW,
    {
        Fixed::from_raw(TAU_RAW)
    }

    /// The sine of this angle.
    pub open spec fn sin_spec(self) -> Fixed {
        Fixed::of(sine(self@))
    }

    /// The cosine of this angle.
    pub open spec fn cos_spec(self) -> Fixed {
        Fixed::of(cosine(self@))
    }

    /// The angle of the direction that reaches `x` along the first axis
    /// and this number along the second.
    pub open spec fn atan2_spec(self, x: Fixed) -> Fixed {
        Fixed::of(arctangent(self@, x@))
    }

    /// The angle, in radians, of the direction that reaches `x` along the
    /// first axis and this number along the second; zero where both are
    /// zero.
    pub fn atan2(self, x: Fixed) -> (r: Fixed)
        ensures
            r == self.atan2_spec(x),
            r@ == arctangent(self@, x@),
            -PI_RAW <= r@ <= PI_RAW,
    {
        proof {
            reveal(arctangent);
            lemma_arctangent_range(self@, x@);
        }
        let across = x.raw();
        let up = self.raw();
        if across == 0 && up == 0 {
            return Fixed::zero();
        }
        let a: i128 = if across >= 0 {
            across as i128
        } else {
            -(across as i128)
        };
        let b: i128 = if up >= 0 {
            up as i128
        } else {
            -(up as i128)
        };
        let phi = first_quadrant_arctangent(a, b);
        if across >= 0 {
            if up >= 0 {
                Fixed::from_raw(phi)
            } else {
                Fixed::from_raw(-phi)
            }
        } else if up >= 0 {
            Fixed::from_raw(PI_RAW - phi)
        } else {
            Fixed::from_raw(phi - PI_RAW)
        }
    }

    /// The sine of this angle, in radians.
    pub fn sin(self) -> (r: Fixed)
        ensures
            r == self.sin_spec(),
            r@ == sine(self@),
            -SCALE <= r@ <= SCALE,
    {
        Fixed::from_raw(sine_of(self.raw() as i128))
    }

    /// The cosine of this angle, in radians.
    pub fn cos(self) -> (r: Fixed)
        ensures
            r == self.cos_spec(),
            r@ == cosine(self@),
            -SCALE <= r@ <= SCALE,
    {
        Fixed::from_raw(sine_of(self.raw() as i128 + HALF_PI_RAW as i128))
    }
}

} // verus!
