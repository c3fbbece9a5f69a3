use vstd::prelude::*;

verus! {

/// Raw units in one whole unit: a `Fixed` carries six decimal places.
pub const SCALE: i64 = 1_000_000;

/// Largest magnitude of a raw value: a `Fixed` spans ±10^12 whole units.
pub const LIMIT: i64 = 1_000_000_000_000_000_000;

/// Whether `v` is the raw value of some `Fixed`.
pub open spec fn in_range(v: int) -> bool {
    -LIMIT <= v <= LIMIT
}

/// The raw value nearest to `v` that a `Fixed` can hold.
pub open spec fn clamp(v: int) -> int {
    if v < -LIMIT {
        -(LIMIT as int)
    } else if v > LIMIT {
        LIMIT as int
    } else {
        v
    }
}

/// The quotient of `n` by a positive `d`, rounded toward zero.
pub open spec fn quot(n: int, d: int) -> int
    recommends
        d > 0,
{
    if n >= 0 {
        n / d
    } else {
        -((-n) / d)
    }
}

/// The raw product of two fixed-point numbers, rounded toward zero.
pub open spec fn product(a: int, b: int) -> int {
    quot(a * b, SCALE as int)
}

/// Raw sum, saturating at the limits.
pub open spec fn sat_add(a: int, b: int) -> int {
    clamp(a + b)
}

/// Raw difference, saturating at the limits.
pub open spec fn sat_sub(a: int, b: int) -> int {
    clamp(a - b)
}

/// Raw product of two fixed-point numbers, rounded toward zero and saturating.
pub open spec fn sat_mul(a: int, b: int) -> int {
    clamp(product(a, b))
}

/// Raw quotient of two fixed-point numbers, rounded toward zero and
/// saturating. Dividing by zero saturates in the direction of the dividend;
/// zero by zero is zero.
pub open spec fn sat_div(a: int, b: int) -> int {
    if b > 0 {
        clamp(quot(a * SCALE, b))
    } else if b < 0 {
        clamp(quot(-(a * SCALE), -b))
    } else if a > 0 {
        LIMIT as int
    } else if a < 0 {
        -(LIMIT as int)
    } else {
        0
    }
}

/// A signed decimal fixed-point number with six fractional digits.
///
/// Its view is the raw value: the number times `SCALE`. Arithmetic rounds
/// toward zero and saturates at ±`LIMIT`.
#[derive(Clone, Copy, Debug, PartialEq, Eq, Structural)]
pub struct Fixed {
    raw: i64,
}

impl View for Fixed {
    type V = int;

    closed spec fn view(&self) -> int {
        self.raw as int
    }
}

impl Fixed {
    #[verifier::type_invariant]
    closed spec fn bounded(self) -> bool {
        -LIMIT <= self.raw <= LIMIT
    }

    /// Validity of a ghost value; every executable value is valid.
    pub open spec fn wf(self) -> bool {
        in_range(self@)
    }

    /// The number whose raw value is `clamp(v)`.
    pub closed spec fn of(v: int) -> Fixed {
        Fixed { raw: clamp(v) as i64 }
    }

    /// `of` yields a valid number with the clamped raw value.
    pub broadcast proof fn lemma_of(v: int)
        ensures
            (#[trigger] Fixed::of(v))@ == clamp(v),
            Fixed::of(v).wf(),
    {
    }

    /// `of` sees its argument only through `clamp`.
    pub proof fn lemma_of_clamp(v: int)
        ensures
            Fixed::of(clamp(v)) == Fixed::of(v),
    {
    }

    /// Two numbers with the same raw value are the same number.
    pub proof fn lemma_same(a: Fixed, b: Fixed)
        requires
            a@ == b@,
        ensures
            a == b,
    {
    }

    /// The number with raw value `raw`, clamped into the limits.
    pub fn from_raw(raw: i64) -> (r: Fixed)
        ensures
            r == Fixed::of(raw as int),
            r@ == clamp(raw as int),
    {
        if raw < -LIMIT {
            Fixed { raw: -LIMIT }
        } else if raw > LIMIT {
            Fixed { raw: LIMIT }
        } else {
            Fixed { raw }
        }
    }

    /// The whole number `n`.
    pub fn from_int(n: i32) -> (r: Fixed)
        ensures
            r == Fixed::of(n * SCALE),
            r@ == n * SCALE,
    {
        Fixed { raw: (n as i64) * SCALE }
    }

    /// The raw value.
    pub fn raw(self) -> (r: i64)
        ensures
            r == self@,
            in_range(r as int),
    {
        proof {
            use_type_invariant(&self);
        }
        self.raw
    }

    pub fn zero() -> (r: Fixed)
        ensures
            r == Fixed::of(0),
            r@ == 0,
    {
        Fixed { raw: 0 }
    }

    pub fn one() -> (r: Fixed)
        ensures
            r == Fixed::of(SCALE as int),
            r@ == SCALE,
    {
        Fixed { raw: SCALE }
    }

    /// Clamp a wide intermediate result into a number.
    fn saturate(v: i128) -> (r: Fixed)
        ensures
            r == Fixed::of(v as int),
            r@ == clamp(v as int),
    {
        if v < -(LIMIT as i128) {
            Fixed { raw: -LIMIT }
        } else if v > LIMIT as i128 {
            Fixed { raw: LIMIT }
        } else {
            Fixed { raw: v as i64 }
        }
    }

    /// The sum, saturating.
    pub open spec fn plus(self, rhs: Fixed) -> Fixed {
        Fixed::of(sat_add(self@, rhs@))
    }

    /// The difference, saturating.
    pub open spec fn minus(self, rhs: Fixed) -> Fixed {
        Fixed::of(sat_sub(self@, rhs@))
    }

    /// The product, rounded toward zero and saturating.
    pub open spec fn times(self, rhs: Fixed) -> Fixed {
        Fixed::of(sat_mul(self@, rhs@))
    }

    /// The quotient, rounded toward zero and saturating.
    pub open spec fn over(self, rhs: Fixed) -> Fixed {
        Fixed::of(sat_div(self@, rhs@))
    }

    /// The number of opposite sign.
    pub open spec fn neg_spec(self) -> Fixed {
        Fixed::of(-self@)
    }

    pub fn neg(self) -> (r: Fixed)
        ensures
            r == self.neg_spec(),
            r@ == -self@,
    {
        proof {
            use_type_invariant(&self);
        }
        Fixed { raw: -self.raw }
    }

    /// The magnitude.
    pub open spec fn abs_spec(self) -> Fixed {
        if self@ < 0 {
            self.neg_spec()
        } else {
            self
        }
    }

    pub fn abs(self) -> (r: Fixed)
        ensures
            r == self.abs_spec(),
            r@ == if self@ < 0 {
                -self@
            } else {
                self@
            },
    {
        if self.raw < 0 {
            self.neg()
        } else {
            self
        }
    }

    pub fn lt(self, rhs: Fixed) -> (b: bool)
        ensures
            b == (self@ < rhs@),
    {
        self.raw < rhs.raw
    }

    pub fn le(self, rhs: Fixed) -> (b: bool)
        ensures
            b == (self@ <= rhs@),
    {
        self.raw <= rhs.raw
    }

    pub fn gt(self, rhs: Fixed) -> (b: bool)
        ensures
            b == (self@ > rhs@),
    {
        self.raw > rhs.raw
    }

    pub fn ge(self, rhs: Fixed) -> (b: bool)
        ensures
            b == (self@ >= rhs@),
    {
        self.raw >= rhs.raw
    }
}

impl core::ops::Add for Fixed {
    type Output = Fixed;

    fn add(self, rhs: Fixed) -> (r: Fixed)
        ensures
            r@ == sat_add(self@, rhs@),
    {
        proof {
            use_type_invariant(&self);
            use_type_invariant(&rhs);
        }
        Fixed::saturate(self.raw as i128 + rhs.raw as i128)
    }
}

impl vstd::std_specs::ops::AddSpecImpl for Fixed {
    open spec fn obeys_add_spec() -> bool {
        true
    }

    open spec fn add_req(self, rhs: Fixed) -> bool {
        true
    }

    open spec fn add_spec(self, rhs: Fixed) -> Fixed {
        self.plus(rhs)
    }
}

impl core::ops::Sub for Fixed {
    type Output = Fixed;

    fn sub(self, rhs: Fixed) -> (r: Fixed)
        ensures
            r@ == sat_sub(self@, rhs@),
    {
        proof {
            use_type_invariant(&self);
            use_type_invariant(&rhs);
        }
        Fixed::saturate(self.raw as i128 - rhs.raw as i128)
    }
}

impl vstd::std_specs::ops::SubSpecImpl for Fixed {
    open spec fn obeys_sub_spec() -> bool {
        true
    }

    open spec fn sub_req(self, rhs: Fixed) -> bool {
        true
    }

    open spec fn sub_spec(self, rhs: Fixed) -> Fixed {
        self.minus(rhs)
    }
}

impl core::ops::Mul for Fixed {
    type Output = Fixed;

    fn mul(self, rhs: Fixed) -> (r: Fixed)
        ensures
            r@ == sat_mul(self@, rhs@),
    {
        proof {
            use_type_invariant(&self);
            use_type_invariant(&rhs);
            lemma_product_bound(self.raw as int, rhs.raw as int);
        }
        let p: i128 = (self.raw as i128) * (rhs.raw as i128);
        Fixed::saturate(p / (SCALE as i128))
    }
}

impl vstd::std_specs::ops::MulSpecImpl for Fixed {
    open spec fn obeys_mul_spec() -> bool {
        true
    }

    open spec fn mul_req(self, rhs: Fixed) -> bool {
        true
    }

    open spec fn mul_spec(self, rhs: Fixed) -> Fixed {
        self.times(rhs)
    }
}

impl core::ops::Div for Fixed {
    type Output = Fixed;

    fn div(self, rhs: Fixed) -> (r: Fixed)
        ensures
            r@ == sat_div(self@, rhs@),
    {
        proof {
            use_type_invariant(&self);
            use_type_invariant(&rhs);
        }
        let n: i128 = (self.raw as i128) * (SCALE as i128);
        if rhs.raw > 0 {
            Fixed::saturate(n / (rhs.raw as i128))
        } else if rhs.raw < 0 {
            Fixed::saturate((-n) / (-(rhs.raw as i128)))
        } else if self.raw > 0 {
            Fixed { raw: LIMIT }
        } else if self.raw < 0 {
            Fixed { raw: -LIMIT }
        } else {
            Fixed { raw: 0 }
        }
    }
}

impl vstd::std_specs::ops::DivSpecImpl for Fixed {
    open spec fn obeys_div_spec() -> bool {
        true
    }

    open spec fn div_req(self, rhs: Fixed) -> bool {
        true
    }

    open spec fn div_spec(self, rhs: Fixed) -> Fixed {
        self.over(rhs)
    }
}

/// The product of two raw values fits the wide intermediate type.
pub proof fn lemma_product_bound(a: int, b: int)
    requires
        in_range(a),
        in_range(b),
    ensures
        -(LIMIT * LIMIT) <= a * b <= LIMIT * LIMIT,
        LIMIT * LIMIT == 1_000_000_000_000_000_000_000_000_000_000_000_000int,
{
    assert(-(LIMIT * LIMIT) <= a * b <= LIMIT * LIMIT) by (nonlinear_arith)
        requires
            -LIMIT <= a <= LIMIT,
            -LIMIT <= b <= LIMIT,
    ;
}

/// The product of a number by one of magnitude at most one is no larger
/// than the number.
pub proof fn lemma_product_by_fraction(c: int, s: int)
    requires
        -SCALE <= c <= SCALE,
        in_range(s),
    ensures
        in_range(product(c, s)),
{
    assert(-(SCALE * LIMIT) <= c * s <= SCALE * LIMIT) by (nonlinear_arith)
        requires
            -SCALE <= c <= SCALE,
            -LIMIT <= s <= LIMIT,
    ;
}

/// The raw time that has passed over the first `n` of `frames`.
pub open spec fn elapsed(frames: Seq<Fixed>, n: nat) -> int
    decreases n,
{
    if n == 0 {
        0
    } else {
        elapsed(frames, (n - 1) as nat) + frames[n - 1]@
    }
}

/// Time only moves forward: over frames of non-negative length, the time
/// elapsed does not decrease.
pub proof fn lemma_elapsed_grows(frames: Seq<Fixed>, m: nat, n: nat)
    requires
        m <= n <= frames.len(),
        forall|i: int| 0 <= i < frames.len() ==> frames[i]@ >= 0,
    ensures
        0 <= elapsed(frames, m) <= elapsed(frames, n),
    decreases n,
{
    if m < n {
        lemma_elapsed_grows(frames, m, (n - 1) as nat);
    } else if n > 0 {
        lemma_elapsed_grows(frames, (m - 1) as nat, (n - 1) as nat);
    }
}

} // verus!
