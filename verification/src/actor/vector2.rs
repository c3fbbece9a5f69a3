use vstd::prelude::*;
use crate::actor::fixed::{Fixed, LIMIT, SCALE, clamp, lemma_product_bound, sat_div};
use crate::actor::trig::{cosine, lemma_sine_cosine_unit, lemma_sine_range, sine};

verus! {

/// Whether `r` is the integer square root of `n`: the largest integer whose
/// square is at most `n`.
pub open spec fn is_sqrt(n: int, r: int) -> bool {
    0 <= r && r * r <= n < (r + 1) * (r + 1)
}

/// The integer square root of a non-negative `n`.
pub closed spec fn int_sqrt(n: int) -> int {
    choose|r: int| is_sqrt(n, r)
}

/// A number has at most one integer square root.
pub proof fn lemma_sqrt_unique(n: int, r: int, s: int)
    requires
        is_sqrt(n, r),
        is_sqrt(n, s),
    ensures
        r == s,
{
    if r < s {
        assert((r + 1) * (r + 1) <= s * s) by (nonlinear_arith)
            requires
                0 <= r,
                r + 1 <= s,
        ;
    }
    if s < r {
        assert((s + 1) * (s + 1) <= r * r) by (nonlinear_arith)
            requires
                0 <= s,
                s + 1 <= r,
        ;
    }
}

/// Every non-negative number has an integer square root, and `int_sqrt` is it.
pub proof fn lemma_int_sqrt(n: int)
    requires
        0 <= n,
    ensures
        is_sqrt(n, int_sqrt(n)),
    decreases n,
{
    if n == 0 {
        assert(is_sqrt(0, 0));
    } else {
        lemma_int_sqrt(n - 1);
        let r = int_sqrt(n - 1);
        if (r + 1) * (r + 1) <= n {
            assert((r + 1) * (r + 1) == n);
            assert(n < (r + 2) * (r + 2)) by (nonlinear_arith)
                requires
                    0 <= r,
                    (r + 1) * (r + 1) == n,
            ;
            assert(is_sqrt(n, r + 1));
        } else {
            assert(is_sqrt(n, r));
        }
    }
}

/// What `int_sqrt` is: any root found is the root.
pub proof fn lemma_int_sqrt_is(n: int, r: int)
    requires
        is_sqrt(n, r),
    ensures
        int_sqrt(n) == r,
{
    assert(0 <= r * r) by (nonlinear_arith);
    lemma_int_sqrt(n);
    lemma_sqrt_unique(n, r, int_sqrt(n));
}

/// Integer square root by bisection.
pub(crate) fn isqrt(n: u128) -> (r: u128)
    requires
        n <= 2 * (LIMIT * LIMIT),
    ensures
        r == int_sqrt(n as int),
        is_sqrt(n as int, r as int),
        r <= 2 * LIMIT,
{
    let mut lo: u128 = 0;
    let mut hi: u128 = 2 * (LIMIT as u128);
    assert(hi * hi > n) by (nonlinear_arith)
        requires
            hi == 2 * LIMIT,
            n <= 2 * (LIMIT * LIMIT),
    ;
    assert(lo * lo <= n);
    while hi - lo > 1
        invariant
            lo < hi <= 2 * LIMIT,
            lo * lo <= n < hi * hi,
        decreases hi - lo,
    {
        let mid: u128 = lo + (hi - lo) / 2;
        assert(mid * mid <= 4 * (LIMIT * LIMIT)) by (nonlinear_arith)
            requires
                0 <= mid <= 2 * LIMIT,
        ;
        if mid * mid <= n {
            lo = mid;
        } else {
            hi = mid;
        }
    }
    proof {
        lemma_int_sqrt_is(n as int, lo as int);
    }
    lo
}

/// One coordinate of a normalized vector: the raw coordinate `x` divided by
/// the raw length `n`. Its magnitude is at most one, and its square falls
/// short of the exact square by less than two parts in `n`.
proof fn lemma_unit_coordinate(x: int, n: int)
    requires
        1 <= n,
        -n <= x <= n,
    ensures
        -SCALE <= sat_div(x, n) <= SCALE,
        x >= 0 ==> sat_div(x, n) >= 0,
        x <= 0 ==> sat_div(x, n) <= 0,
        sat_div(x, n) * sat_div(x, n) * (n * n) <= (SCALE * SCALE) * (x * x),
        sat_div(x, n) * sat_div(x, n) * (n * n) >= (SCALE * SCALE) * (x * x) - 2 * SCALE * n * n,
{
    let m = if x >= 0 { x } else { -x };
    let p = m * SCALE;
    let a = p / n;
    assert(0 <= p <= n * SCALE) by (nonlinear_arith)
        requires
            0 <= m <= n,
            p == m * SCALE,
    ;
    assert(a * n <= p < a * n + n && 0 <= a) by (nonlinear_arith)
        requires
            0 <= p,
            1 <= n,
            a == p / n,
    ;
    assert(a <= SCALE) by (nonlinear_arith)
        requires
            a * n <= p,
            p <= n * SCALE,
            1 <= n,
            0 <= a,
    ;
    let u = sat_div(x, n);
    assert(u == a || u == -a) by {
        if x >= 0 {
            assert(x * SCALE == p);
        } else {
            assert(-(x * SCALE) == p) by (nonlinear_arith)
                requires
                    p == (-x) * SCALE,
            ;
        }
    }
    assert(u * u == a * a) by (nonlinear_arith)
        requires
            u == a || u == -a,
    ;
    assert(x * x == m * m) by (nonlinear_arith)
        requires
            m == x || m == -x,
    ;
    assert(p * p == (SCALE * SCALE) * (m * m)) by (nonlinear_arith)
        requires
            p == m * SCALE,
    ;
    assert(a * a * (n * n) == (a * n) * (a * n)) by (nonlinear_arith);
    assert((a * n) * (a * n) <= p * p) by (nonlinear_arith)
        requires
            0 <= a * n <= p,
    ;
    assert((a * n) * (a * n) >= p * p - 2 * p * n) by (nonlinear_arith)
        requires
            0 <= a * n,
            p < a * n + n,
            0 <= p,
            1 <= n,
    ;
    assert(2 * p * n <= 2 * SCALE * n * n) by (nonlinear_arith)
        requires
            0 <= p <= n * SCALE,
            1 <= n,
    ;
}

/// Raw length below which a vector is enlarged before it is normalized:
/// a tenth of a unit.
pub const SHORT: i64 = 100_000;

/// The factor by which a short vector is enlarged before it is normalized.
/// Enlarging is exact and keeps the direction.
pub const ENLARGE: i64 = 1_000_000;

/// The unit vector along the raw direction `(x, y)`: each coordinate
/// divided by the integer square root of the sum of the squares.
pub open spec fn unit_of(x: int, y: int) -> Vector2 {
    let n = int_sqrt(x * x + y * y);
    Vector2 { x: Fixed::of(sat_div(x, n)), y: Fixed::of(sat_div(y, n)) }
}

/// A coordinate is no larger than the length.
proof fn lemma_coordinate_below_length(x: int, y: int)
    ensures
        0 <= int_sqrt(x * x + y * y),
        -int_sqrt(x * x + y * y) <= x <= int_sqrt(x * x + y * y),
        -int_sqrt(x * x + y * y) <= y <= int_sqrt(x * x + y * y),
        (x != 0 || y != 0) ==> 1 <= int_sqrt(x * x + y * y),
{
    assert(0 <= x * x && 0 <= y * y) by (nonlinear_arith);
    let n = int_sqrt(x * x + y * y);
    lemma_int_sqrt(x * x + y * y);
    assert(-n <= x <= n) by (nonlinear_arith)
        requires
            x * x + y * y < (n + 1) * (n + 1),
            0 <= y * y,
            0 <= n,
    ;
    assert(-n <= y <= n) by (nonlinear_arith)
        requires
            x * x + y * y < (n + 1) * (n + 1),
            0 <= x * x,
            0 <= n,
    ;
}

/// The unit vector along a direction of raw length `SHORT` or more has
/// length one to within ten raw units.
proof fn lemma_unit_of_has_unit_length(x: int, y: int)
    requires
        SHORT <= int_sqrt(x * x + y * y),
    ensures
        SCALE - 10 <= unit_of(x, y).length_spec()@ <= SCALE + 10,
        x >= 0 ==> unit_of(x, y).x@ >= 0,
        x <= 0 ==> unit_of(x, y).x@ <= 0,
        y >= 0 ==> unit_of(x, y).y@ >= 0,
        y <= 0 ==> unit_of(x, y).y@ <= 0,
{
    broadcast use Fixed::lemma_of;

    assert(0 <= x * x && 0 <= y * y) by (nonlinear_arith);
    let n = int_sqrt(x * x + y * y);
    lemma_int_sqrt(x * x + y * y);
    lemma_coordinate_below_length(x, y);
    lemma_unit_coordinate(x, n);
    lemma_unit_coordinate(y, n);
    let a = sat_div(x, n);
    let b = sat_div(y, n);
    let unit = unit_of(x, y);
    assert(unit.x@ == a && unit.y@ == b);
    let q = a * a + b * b;
    assert(0 <= a * a && 0 <= b * b) by (nonlinear_arith);
    lemma_int_sqrt(q);
    let len = int_sqrt(q);
    let s2 = SCALE * SCALE;
    // Above: the squares sum to less than the square of (n + 1) / n.
    assert(q * (n * n) <= s2 * (x * x + y * y)) by (nonlinear_arith)
        requires
            q == a * a + b * b,
            a * a * (n * n) <= s2 * (x * x),
            b * b * (n * n) <= s2 * (y * y),
    ;
    assert(s2 * (x * x + y * y) < s2 * ((n + 1) * (n + 1))) by (nonlinear_arith)
        requires
            x * x + y * y < (n + 1) * (n + 1),
            s2 == 1_000_000_000_000,
    ;
    assert(len <= SCALE + 10) by (nonlinear_arith)
        requires
            0 <= len,
            len * len <= q,
            q * (n * n) < s2 * ((n + 1) * (n + 1)),
            s2 == SCALE * SCALE,
            SCALE == 1_000_000,
            100_000 <= n,
    {
        if len >= SCALE + 11 {
            assert(len * n >= (SCALE + 11) * n);
            assert((len * n) * (len * n) >= ((SCALE + 11) * n) * ((SCALE + 11) * n));
            assert((SCALE + 11) * n >= SCALE * (n + 1));
            assert(((SCALE + 11) * n) * ((SCALE + 11) * n) >= (SCALE * (n + 1)) * (SCALE * (n + 1)));
            assert((len * n) * (len * n) == (len * len) * (n * n));
            assert((len * len) * (n * n) <= q * (n * n));
            assert((SCALE * (n + 1)) * (SCALE * (n + 1)) == s2 * ((n + 1) * (n + 1)));
        }
    }
    // Below: the squares sum to more than the square of one less ten raw
    // units.
    assert(q * (n * n) >= s2 * (x * x + y * y) - 4 * SCALE * n * n) by (nonlinear_arith)
        requires
            q == a * a + b * b,
            a * a * (n * n) >= s2 * (x * x) - 2 * SCALE * n * n,
            b * b * (n * n) >= s2 * (y * y) - 2 * SCALE * n * n,
    ;
    assert(s2 * (x * x + y * y) >= s2 * (n * n)) by (nonlinear_arith)
        requires
            n * n <= x * x + y * y,
            s2 == 1_000_000_000_000,
    ;
    assert(q >= s2 - 4 * SCALE) by (nonlinear_arith)
        requires
            q * (n * n) >= s2 * (n * n) - 4 * SCALE * n * n,
            1 <= n,
    {
        assert(s2 * (n * n) - 4 * SCALE * n * n == (s2 - 4 * SCALE) * (n * n));
        assert(n * n >= 1);
    }
    assert(len >= SCALE - 10) by (nonlinear_arith)
        requires
            0 <= len,
            q < (len + 1) * (len + 1),
            q >= s2 - 4 * SCALE,
            s2 == SCALE * SCALE,
            SCALE == 1_000_000,
    {
        if len <= SCALE - 11 {
            assert((len + 1) * (len + 1) <= (SCALE - 10) * (SCALE - 10));
        }
    }
    assert(unit.length_spec()@ == len);
}

/// A normalized vector has length one, to within a hundred-thousandth:
/// whatever vector other than the zero vector is normalized, the length of
/// the result differs from one by at most ten raw units, and no coordinate
/// has changed its sign.
pub proof fn lemma_normalized_has_unit_length(v: Vector2)
    requires
        v.x@ != 0 || v.y@ != 0,
    ensures
        SCALE - 10 <= v.normalized_spec().length_spec()@ <= SCALE + 10,
        v.x@ >= 0 ==> v.normalized_spec().x@ >= 0,
        v.x@ <= 0 ==> v.normalized_spec().x@ <= 0,
        v.y@ >= 0 ==> v.normalized_spec().y@ >= 0,
        v.y@ <= 0 ==> v.normalized_spec().y@ <= 0,
{
    let x = v.x@;
    let y = v.y@;
    lemma_coordinate_below_length(x, y);
    let n = int_sqrt(x * x + y * y);
    if n < SHORT {
        lemma_enlarged_is_long(x, y);
        lemma_unit_of_has_unit_length(x * ENLARGE, y * ENLARGE);
    } else {
        lemma_unit_of_has_unit_length(x, y);
    }
}

/// A vector other than the zero vector, enlarged, is `SHORT` long or more.
proof fn lemma_enlarged_is_long(x: int, y: int)
    requires
        x != 0 || y != 0,
    ensures
        SHORT <= int_sqrt((x * ENLARGE) * (x * ENLARGE) + (y * ENLARGE) * (y * ENLARGE)),
        (x * ENLARGE) * (x * ENLARGE) + (y * ENLARGE) * (y * ENLARGE) == (ENLARGE * ENLARGE) * (x * x
            + y * y),
{
    let q = (x * ENLARGE) * (x * ENLARGE) + (y * ENLARGE) * (y * ENLARGE);
    assert(q == (ENLARGE * ENLARGE) * (x * x + y * y)) by (nonlinear_arith)
        requires
            q == (x * ENLARGE) * (x * ENLARGE) + (y * ENLARGE) * (y * ENLARGE),
    ;
    assert(x * x + y * y >= 1) by (nonlinear_arith)
        requires
            x != 0 || y != 0,
    ;
    assert(q >= 1_000_000_000_000) by (nonlinear_arith)
        requires
            q == (ENLARGE * ENLARGE) * (x * x + y * y),
            x * x + y * y >= 1,
            ENLARGE == 1_000_000,
    ;
    lemma_int_sqrt(q);
    let m = int_sqrt(q);
    assert(m >= SHORT) by (nonlinear_arith)
        requires
            0 <= m,
            q < (m + 1) * (m + 1),
            q >= 1_000_000_000_000,
            SHORT == 100_000,
    ;
}

/// The heading at every angle is a unit vector: its length is one, to
/// within one raw unit.
pub proof fn lemma_heading_is_unit(angle: Fixed)
    ensures
        SCALE - 1 <= Vector2::heading(angle).length_spec()@ <= SCALE,
{
    broadcast use Fixed::lemma_of;

    let c = cosine(angle@);
    let s = sine(angle@);
    lemma_sine_range(angle@);
    lemma_sine_cosine_unit(angle@);
    let q = c * c + s * s;
    assert(q == s * s + c * c);
    lemma_int_sqrt(q);
    let len = int_sqrt(q);
    assert(len <= SCALE) by (nonlinear_arith)
        requires
            0 <= len,
            len * len <= q,
            q <= SCALE * SCALE + SCALE,
            SCALE == 1_000_000,
    ;
    assert(len >= SCALE - 1) by (nonlinear_arith)
        requires
            0 <= len,
            q < (len + 1) * (len + 1),
            q >= SCALE * SCALE - SCALE,
            SCALE == 1_000_000,
    ;
}

/// Normalizing the zero vector leaves it as it is.
pub proof fn lemma_normalized_zero()
    ensures
        Vector2::zero_spec().normalized_spec() == Vector2::zero_spec(),
{
    broadcast use Fixed::lemma_of;

    lemma_int_sqrt_is(0, 0);
}

/// A point or direction in the plane.
#[derive(Clone, Copy, Debug, PartialEq, Eq, Structural)]
pub struct Vector2 {
    pub x: Fixed,
    pub y: Fixed,
}

impl Vector2 {
    /// Validity of a ghost value; every executable value is valid.
    pub open spec fn wf(self) -> bool {
        self.x.wf() && self.y.wf()
    }

    pub fn new(x: Fixed, y: Fixed) -> (v: Vector2)
        ensures
            v == (Vector2 { x, y }),
    {
        Vector2 { x, y }
    }

    /// The origin.
    pub open spec fn zero_spec() -> Vector2 {
        Vector2 { x: Fixed::of(0), y: Fixed::of(0) }
    }

    pub fn zero() -> (v: Vector2)
        ensures
            v == Vector2::zero_spec(),
            v.x@ == 0,
            v.y@ == 0,
    {
        Vector2 { x: Fixed::zero(), y: Fixed::zero() }
    }

    /// The vector (1, 1).
    pub open spec fn one_spec() -> Vector2 {
        Vector2 { x: Fixed::of(1_000_000), y: Fixed::of(1_000_000) }
    }

    pub fn one() -> (v: Vector2)
        ensures
            v == Vector2::one_spec(),
            v.x@ == 1_000_000,
            v.y@ == 1_000_000,
    {
        Vector2 { x: Fixed::one(), y: Fixed::one() }
    }

    /// The unit vector at angle `rotation`.
    pub open spec fn heading(rotation: Fixed) -> Vector2 {
        Vector2 { x: rotation.cos_spec(), y: rotation.sin_spec() }
    }

    /// The unit vector at `angle`, in radians.
    pub fn from_angle(angle: Fixed) -> (v: Vector2)
        ensures
            v == Vector2::heading(angle),
    {
        Vector2 { x: angle.cos(), y: angle.sin() }
    }

    /// The Euclidean length: the integer square root of the sum of the raw
    /// squares, saturating.
    pub open spec fn length_spec(self) -> Fixed {
        Fixed::of(int_sqrt(self.x@ * self.x@ + self.y@ * self.y@))
    }

    pub fn length(&self) -> (r: Fixed)
        ensures
            r == self.length_spec(),
            r@ == clamp(int_sqrt(self.x@ * self.x@ + self.y@ * self.y@)),
            r@ >= 0,
    {
        let x: i128 = self.x.raw() as i128;
        let y: i128 = self.y.raw() as i128;
        proof {
            lemma_product_bound(x as int, x as int);
            lemma_product_bound(y as int, y as int);
            assert(0 <= x * x) by (nonlinear_arith);
            assert(0 <= y * y) by (nonlinear_arith);
        }
        let n: u128 = (x * x + y * y) as u128;
        let r: u128 = isqrt(n);
        proof {
            Fixed::lemma_of_clamp(r as int);
        }
        if r > LIMIT as u128 {
            Fixed::from_raw(LIMIT)
        } else {
            Fixed::from_raw(r as i64)
        }
    }

    /// The sum of two vectors.
    pub open spec fn plus(self, other: Vector2) -> Vector2 {
        Vector2 { x: self.x.plus(other.x), y: self.y.plus(other.y) }
    }

    /// The difference of two vectors.
    pub open spec fn minus(self, other: Vector2) -> Vector2 {
        Vector2 { x: self.x.minus(other.x), y: self.y.minus(other.y) }
    }

    /// The vector with both coordinates multiplied by `scalar`.
    pub open spec fn scaled(self, scalar: Fixed) -> Vector2 {
        Vector2 { x: self.x.times(scalar), y: self.y.times(scalar) }
    }

    /// The vector with both coordinates divided by `scalar`.
    pub open spec fn divided(self, scalar: Fixed) -> Vector2 {
        Vector2 { x: self.x.over(scalar), y: self.y.over(scalar) }
    }

    /// The squared length, in fixed-point arithmetic.
    pub open spec fn length_squared_spec(self) -> Fixed {
        self.x.times(self.x).plus(self.y.times(self.y))
    }

    pub fn length_squared(&self) -> (r: Fixed)
        ensures
            r == self.length_squared_spec(),
    {
        self.x * self.x + self.y * self.y
    }

    /// The vector scaled to length one: each coordinate divided by the
    /// length. The zero vector stays as it is. A vector shorter than
    /// `SHORT` is enlarged first, so that the division is as exact for it
    /// as for a long one.
    pub open spec fn normalized_spec(self) -> Vector2 {
        let n = int_sqrt(self.x@ * self.x@ + self.y@ * self.y@);
        if n == 0 {
            self
        } else if n < SHORT {
            unit_of(self.x@ * ENLARGE, self.y@ * ENLARGE)
        } else {
            unit_of(self.x@, self.y@)
        }
    }

    /// One coordinate of a unit vector.
    fn unit_coordinate(x: i128, n: i128) -> (r: Fixed)
        requires
            1 <= n <= 2 * LIMIT,
            -n <= x <= n,
        ensures
            r == Fixed::of(sat_div(x as int, n as int)),
    {
        proof {
            lemma_unit_coordinate(x as int, n as int);
            assert(-(2 * LIMIT * SCALE) <= x * SCALE <= 2 * LIMIT * SCALE) by (nonlinear_arith)
                requires
                    -2 * LIMIT <= x <= 2 * LIMIT,
            ;
        }
        let q: i128 = (x * (SCALE as i128)) / n;
        Fixed::from_raw(q as i64)
    }

    pub fn normalize(&mut self)
        ensures
            *final(self) == old(self).normalized_spec(),
    {
        let x: i128 = self.x.raw() as i128;
        let y: i128 = self.y.raw() as i128;
        proof {
            lemma_product_bound(x as int, x as int);
            lemma_product_bound(y as int, y as int);
            lemma_coordinate_below_length(x as int, y as int);
            assert(0 <= x * x && 0 <= y * y) by (nonlinear_arith);
            if x == 0 && y == 0 {
                lemma_int_sqrt_is(0, 0);
            }
        }
        let n: u128 = isqrt((x * x + y * y) as u128);
        if n == 0 {
        } else if n < SHORT as u128 {
            proof {
                assert(-100_000_000_000 <= x * ENLARGE <= 100_000_000_000) by (nonlinear_arith)
                    requires
                        -100_000 <= x <= 100_000,
                        ENLARGE == 1_000_000,
                ;
                assert(-100_000_000_000 <= y * ENLARGE <= 100_000_000_000) by (nonlinear_arith)
                    requires
                        -100_000 <= y <= 100_000,
                        ENLARGE == 1_000_000,
                ;
            }
            let sx: i128 = x * (ENLARGE as i128);
            let sy: i128 = y * (ENLARGE as i128);
            proof {
                lemma_product_bound(sx as int, sx as int);
                lemma_product_bound(sy as int, sy as int);
                assert(0 <= sx * sx && 0 <= sy * sy) by (nonlinear_arith);
                lemma_coordinate_below_length(sx as int, sy as int);
                lemma_enlarged_is_long(x as int, y as int);
            }
            let m: u128 = isqrt((sx * sx + sy * sy) as u128);
            self.x = Vector2::unit_coordinate(sx, m as i128);
            self.y = Vector2::unit_coordinate(sy, m as i128);
        } else {
            self.x = Vector2::unit_coordinate(x, n as i128);
            self.y = Vector2::unit_coordinate(y, n as i128);
        }
    }

    pub fn normalized(&self) -> (v: Vector2)
        ensures
            v == self.normalized_spec(),
    {
        let mut vec = *self;
        vec.normalize();
        vec
    }

    /// The inner product, in fixed-point arithmetic.
    pub open spec fn dot_spec(self, other: Vector2) -> Fixed {
        self.x.times(other.x).plus(self.y.times(other.y))
    }

    pub fn dot(&self, other: &Vector2) -> (r: Fixed)
        ensures
            r == self.dot_spec(*other),
    {
        self.x * other.x + self.y * other.y
    }

    pub fn add_assign(&mut self, other: Vector2)
        ensures
            *final(self) == old(self).plus(other),
    {
        self.x = self.x + other.x;
        self.y = self.y + other.y;
    }

    pub fn sub_assign(&mut self, other: Vector2)
        ensures
            *final(self) == old(self).minus(other),
    {
        self.x = self.x - other.x;
        self.y = self.y - other.y;
    }

    pub fn mul_assign(&mut self, scalar: Fixed)
        ensures
            *final(self) == old(self).scaled(scalar),
    {
        self.x = self.x * scalar;
        self.y = self.y * scalar;
    }

    pub fn div_assign(&mut self, scalar: Fixed)
        ensures
            *final(self) == old(self).divided(scalar),
    {
        self.x = self.x / scalar;
        self.y = self.y / scalar;
    }
}

impl core::ops::Add for Vector2 {
    type Output = Vector2;

    fn add(self, other: Vector2) -> (r: Vector2)
    {
        Vector2 { x: self.x + other.x, y: self.y + other.y }
    }
}

impl vstd::std_specs::ops::AddSpecImpl for Vector2 {
    open spec fn obeys_add_spec() -> bool {
        true
    }

    open spec fn add_req(self, other: Vector2) -> bool {
        true
    }

    open spec fn add_spec(self, other: Vector2) -> Vector2 {
        self.plus(other)
    }
}

impl core::ops::Sub for Vector2 {
    type Output = Vector2;

    fn sub(self, other: Vector2) -> (r: Vector2)
    {
        Vector2 { x: self.x - other.x, y: self.y - other.y }
    }
}

impl vstd::std_specs::ops::SubSpecImpl for Vector2 {
    open spec fn obeys_sub_spec() -> bool {
        true
    }

    open spec fn sub_req(self, other: Vector2) -> bool {
        true
    }

    open spec fn sub_spec(self, other: Vector2) -> Vector2 {
        self.minus(other)
    }
}

impl core::ops::Mul<Fixed> for Vector2 {
    type Output = Vector2;

    fn mul(self, scalar: Fixed) -> (r: Vector2)
    {
        Vector2 { x: self.x * scalar, y: self.y * scalar }
    }
}

impl vstd::std_specs::ops::MulSpecImpl<Fixed> for Vector2 {
    open spec fn obeys_mul_spec() -> bool {
        true
    }

    open spec fn mul_req(self, scalar: Fixed) -> bool {
        true
    }

    open spec fn mul_spec(self, scalar: Fixed) -> Vector2 {
        self.scaled(scalar)
    }
}

impl core::ops::Div<Fixed> for Vector2 {
    type Output = Vector2;

    fn div(self, scalar: Fixed) -> (r: Vector2)
    {
        Vector2 { x: self.x / scalar, y: self.y / scalar }
    }
}

impl vstd::std_specs::ops::DivSpecImpl<Fixed> for Vector2 {
    open spec fn obeys_div_spec() -> bool {
        true
    }

    open spec fn div_req(self, scalar: Fixed) -> bool {
        true
    }

    open spec fn div_spec(self, scalar: Fixed) -> Vector2 {
        self.divided(scalar)
    }
}

} // verus!
