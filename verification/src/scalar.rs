//! Decimal fixed-point numbers with thirteen fractional digits.
//!
//! Every operation is total: results that leave the range of `i64` saturate
//! at its ends, quotients and products round toward zero.

use crate::intsqrt::{floor_sqrt, lemma_floor_sqrt, lemma_square_order, sqrt_floor};
use vstd::prelude::*;

verus! {

/// Number of raw units in one whole.
pub const UNIT: i64 = 10_000_000_000_000;

/// The square of `UNIT`: one, in raw units squared.
pub const UNIT_SQUARED: u128 = 100_000_000_000_000_000_000_000_000;

/// The square of `v`, in raw units, rounded down.
pub open spec fn square(v: int) -> int {
    (v * v) / (UNIT as int)
}

/// A decimal fixed-point number: `raw` counts the thirteenth decimal
/// place, so that the numbers reach from about -922337 to 922337.
#[derive(Clone, Copy, Debug, PartialEq, Eq, Structural)]
pub struct Scalar {
    pub raw: i64,
}

/// The nearest value inside the representable range.
pub open spec fn clamp(v: int) -> int {
    if v < i64::MIN as int {
        i64::MIN as int
    } else if v > i64::MAX as int {
        i64::MAX as int
    } else {
        v
    }
}

/// The distance of `v` from zero.
pub open spec fn magnitude(v: int) -> int {
    if v < 0 {
        -v
    } else {
        v
    }
}

/// The quotient of `n` by `d`, rounded toward zero. A zero divisor gives the
/// end of the range on the side of `n`.
#[verifier::opaque]
pub open spec fn quotient(n: int, d: int) -> int {
    if d == 0 {
        if n > 0 {
            i64::MAX as int
        } else if n < 0 {
            i64::MIN as int
        } else {
            0
        }
    } else if (n < 0) != (d < 0) {
        -(magnitude(n) / magnitude(d))
    } else {
        magnitude(n) / magnitude(d)
    }
}

pub(crate) fn magnitude_of(v: i128) -> (m: u128)
    requires
        v > i128::MIN,
    ensures
        m == magnitude(v as int),
{
    if v < 0 {
        (-v) as u128
    } else {
        v as u128
    }
}

pub(crate) fn saturate(negative: bool, m: u128) -> (r: i64)
    ensures
        r == clamp(
            if negative {
                -(m as int)
            } else {
                m as int
            },
        ),
{
    if negative {
        if m >= 0x8000_0000_0000_0000 {
            i64::MIN
        } else {
            -(m as i64)
        }
    } else {
        if m > 0x7fff_ffff_ffff_ffff {
            i64::MAX
        } else {
            m as i64
        }
    }
}

pub(crate) fn divide(n: i128, d: i128) -> (r: i64)
    requires
        n > i128::MIN,
        d > i128::MIN,
    ensures
        r == clamp(quotient(n as int, d as int)),
{
    reveal(quotient);
    if d == 0 {
        if n > 0 {
            i64::MAX
        } else if n < 0 {
            i64::MIN
        } else {
            0
        }
    } else {
        let q = magnitude_of(n) / magnitude_of(d);
        saturate((n < 0) != (d < 0), q)
    }
}

/// The quotient of `n` by a positive `d`, rounded toward zero, not cut off.
pub(crate) fn wide_divide(n: i128, d: i128) -> (r: i128)
    requires
        n > i128::MIN,
        d > 0,
    ensures
        r == quotient(n as int, d as int),
{
    reveal(quotient);
    let q = magnitude_of(n) / magnitude_of(d);
    if n < 0 {
        -(q as i128)
    } else {
        q as i128
    }
}

/// The product of two numbers, rounded toward zero and not cut off.
pub(crate) fn wide_times(a: i64, b: i64) -> (r: i128)
    ensures
        r == quotient(a * b, UNIT as int),
        -0x8_0000_0000_0000_0000_0000 <= r <= 0x8_0000_0000_0000_0000_0000,
{
    proof {
        lemma_product_bound(a as int, b as int);
        reveal(quotient);
    }
    let wide: i128 = a as i128 * b as i128;
    let r = wide_divide(wide, UNIT as i128);
    assert(magnitude(wide as int) / (UNIT as int) <= 0x8_0000_0000_0000_0000_0000
        && magnitude(wide as int) / (UNIT as int) >= 0) by (nonlinear_arith)
        requires
            0 <= magnitude(wide as int) <= 0x4000_0000_0000_0000_0000_0000_0000_0000,
            UNIT == 10_000_000_000_000,
    ;
    r
}

/// The product of two 64-bit numbers fits in 128 bits with room to spare.
pub proof fn lemma_product_bound(a: int, b: int)
    requires
        i64::MIN <= a <= i64::MAX,
        i64::MIN <= b <= i64::MAX,
    ensures
        -0x4000_0000_0000_0000_0000_0000_0000_0000 <= a * b
            <= 0x4000_0000_0000_0000_0000_0000_0000_0000,
{
    assert(-0x4000_0000_0000_0000_0000_0000_0000_0000 <= a * b
        <= 0x4000_0000_0000_0000_0000_0000_0000_0000) by (nonlinear_arith)
        requires
            -0x8000_0000_0000_0000 <= a <= 0x8000_0000_0000_0000,
            -0x8000_0000_0000_0000 <= b <= 0x8000_0000_0000_0000,
    ;
}

impl Default for Scalar {
    /// Zero.
    fn default() -> (r: Scalar)
        ensures
            r == Scalar::zero_spec(),
    {
        Scalar { raw: 0 }
    }
}

impl vstd::std_specs::ops::AddSpecImpl for Scalar {
    open spec fn obeys_add_spec() -> bool {
        true
    }

    open spec fn add_req(self, rhs: Scalar) -> bool {
        true
    }

    open spec fn add_spec(self, rhs: Scalar) -> Scalar {
        self.plus(rhs)
    }
}

impl core::ops::Add for Scalar {
    type Output = Scalar;

    fn add(self, rhs: Scalar) -> (r: Scalar)
        ensures
            r == self.plus(rhs),
    {
        let wide: i128 = self.raw as i128 + rhs.raw as i128;
        Scalar { raw: saturate(wide < 0, magnitude_of(wide)) }
    }
}

impl vstd::std_specs::ops::SubSpecImpl for Scalar {
    open spec fn obeys_sub_spec() -> bool {
        true
    }

    open spec fn sub_req(self, rhs: Scalar) -> bool {
        true
    }

    open spec fn sub_spec(self, rhs: Scalar) -> Scalar {
        self.minus(rhs)
    }
}

impl core::ops::Sub for Scalar {
    type Output = Scalar;

    fn sub(self, rhs: Scalar) -> (r: Scalar)
        ensures
            r == self.minus(rhs),
    {
        let wide: i128 = self.raw as i128 - rhs.raw as i128;
        Scalar { raw: saturate(wide < 0, magnitude_of(wide)) }
    }
}

impl vstd::std_specs::ops::NegSpecImpl for Scalar {
    open spec fn obeys_neg_spec() -> bool {
        true
    }

    open spec fn neg_req(self) -> bool {
        true
    }

    open spec fn neg_spec(self) -> Scalar {
        self.negated()
    }
}

impl core::ops::Neg for Scalar {
    type Output = Scalar;

    fn neg(self) -> (r: Scalar)
        ensures
            r == self.negated(),
    {
        let wide: i128 = -(self.raw as i128);
        Scalar { raw: saturate(wide < 0, magnitude_of(wide)) }
    }
}

impl vstd::std_specs::ops::MulSpecImpl for Scalar {
    open spec fn obeys_mul_spec() -> bool {
        true
    }

    open spec fn mul_req(self, rhs: Scalar) -> bool {
        true
    }

    open spec fn mul_spec(self, rhs: Scalar) -> Scalar {
        self.times(rhs)
    }
}

impl core::ops::Mul for Scalar {
    type Output = Scalar;

    fn mul(self, rhs: Scalar) -> (r: Scalar)
        ensures
            r == self.times(rhs),
    {
        proof {
            lemma_product_bound(self.raw as int, rhs.raw as int);
        }
        let wide: i128 = self.raw as i128 * rhs.raw as i128;
        Scalar { raw: divide(wide, UNIT as i128) }
    }
}

impl vstd::std_specs::ops::DivSpecImpl for Scalar {
    open spec fn obeys_div_spec() -> bool {
        true
    }

    open spec fn div_req(self, rhs: Scalar) -> bool {
        true
    }

    open spec fn div_spec(self, rhs: Scalar) -> Scalar {
        self.over(rhs)
    }
}

impl core::ops::Div for Scalar {
    type Output = Scalar;

    fn div(self, rhs: Scalar) -> (r: Scalar)
        ensures
            r == self.over(rhs),
    {
        proof {
            lemma_product_bound(self.raw as int, UNIT as int);
        }
        let wide: i128 = self.raw as i128 * UNIT as i128;
        Scalar { raw: divide(wide, rhs.raw as i128) }
    }
}

impl Scalar {
    /// The sum, saturated.
    pub open spec fn plus(self, rhs: Scalar) -> Scalar {
        Scalar { raw: clamp(self.raw + rhs.raw) as i64 }
    }

    /// The difference, saturated.
    pub open spec fn minus(self, rhs: Scalar) -> Scalar {
        Scalar { raw: clamp(self.raw - rhs.raw) as i64 }
    }

    /// The opposite number, saturated.
    pub open spec fn negated(self) -> Scalar {
        Scalar { raw: clamp(-self.raw) as i64 }
    }

    /// The product, rounded toward zero and saturated.
    pub open spec fn times(self, rhs: Scalar) -> Scalar {
        Scalar { raw: clamp(quotient(self.raw * rhs.raw, UNIT as int)) as i64 }
    }

    /// The quotient, rounded toward zero and saturated. Division by zero
    /// gives the end of the range on the side of the dividend.
    pub open spec fn over(self, rhs: Scalar) -> Scalar {
        Scalar { raw: clamp(quotient(self.raw * UNIT, rhs.raw as int)) as i64 }
    }

    /// The number zero.
    pub open spec fn zero_spec() -> Scalar {
        Scalar { raw: 0 }
    }

    /// The number one.
    pub open spec fn one_spec() -> Scalar {
        Scalar { raw: UNIT }
    }

    /// Zero.
    pub fn zero() -> (r: Scalar)
        ensures
            r == Self::zero_spec(),
    {
        Scalar { raw: 0 }
    }

    /// One.
    pub fn one() -> (r: Scalar)
        ensures
            r == Self::one_spec(),
    {
        Scalar { raw: UNIT }
    }

    /// The whole number `n`, saturated.
    pub open spec fn from_int_spec(n: int) -> Scalar {
        Scalar { raw: clamp(n * UNIT) as i64 }
    }

    /// The whole number `n`.
    pub fn from_int(n: i64) -> (r: Scalar)
        ensures
            r == Self::from_int_spec(n as int),
    {
        proof {
            lemma_product_bound(n as int, UNIT as int);
        }
        let wide: i128 = n as i128 * UNIT as i128;
        Scalar { raw: saturate(wide < 0, magnitude_of(wide)) }
    }

    /// The fraction `n / d`, rounded toward zero and saturated.
    pub open spec fn ratio_spec(n: int, d: int) -> Scalar {
        Scalar { raw: clamp(quotient(n * UNIT, d)) as i64 }
    }

    /// The fraction `n / d`.
    pub fn ratio(n: i64, d: i64) -> (r: Scalar)
        ensures
            r == Self::ratio_spec(n as int, d as int),
    {
        proof {
            lemma_product_bound(n as int, UNIT as int);
        }
        let wide: i128 = n as i128 * UNIT as i128;
        Scalar { raw: divide(wide, d as i128) }
    }

    /// The square root, rounded down; zero for a number that is not positive.
    pub open spec fn sqrt_spec(self) -> Scalar {
        if self.raw <= 0 {
            Scalar { raw: 0 }
        } else {
            Scalar { raw: floor_sqrt((self.raw * UNIT) as nat) as i64 }
        }
    }

    /// The square root.
    pub fn sqrt(self) -> (r: Scalar)
        ensures
            r == self.sqrt_spec(),
    {
        if self.raw <= 0 {
            Scalar { raw: 0 }
        } else {
            proof {
                lemma_product_bound(self.raw as int, UNIT as int);
            }
            let wide: u128 = self.raw as u128 * UNIT as u128;
            let root = sqrt_floor(wide);
            proof {
                lemma_sqrt_in_range(self.raw as int);
            }
            Scalar { raw: root as i64 }
        }
    }

    /// The distance from zero, saturated.
    pub open spec fn abs_spec(self) -> Scalar {
        Scalar { raw: clamp(magnitude(self.raw as int)) as i64 }
    }

    /// The distance from zero.
    pub fn abs(self) -> (r: Scalar)
        ensures
            r == self.abs_spec(),
    {
        Scalar { raw: saturate(false, magnitude_of(self.raw as i128)) }
    }

    /// The larger of two numbers.
    pub open spec fn max_spec(self, rhs: Scalar) -> Scalar {
        if self.raw < rhs.raw {
            rhs
        } else {
            self
        }
    }

    /// The larger of two numbers.
    pub fn max(self, rhs: Scalar) -> (r: Scalar)
        ensures
            r == self.max_spec(rhs),
    {
        if self.raw < rhs.raw {
            rhs
        } else {
            self
        }
    }

    /// The smaller of two numbers.
    pub open spec fn min_spec(self, rhs: Scalar) -> Scalar {
        if rhs.raw < self.raw {
            rhs
        } else {
            self
        }
    }

    /// The smaller of two numbers.
    pub fn min(self, rhs: Scalar) -> (r: Scalar)
        ensures
            r == self.min_spec(rhs),
    {
        if rhs.raw < self.raw {
            rhs
        } else {
            self
        }
    }

    /// The power with a natural exponent, by repeated squaring: each
    /// product rounds as multiplication does.
    pub open spec fn pow_spec(self, n: nat) -> Scalar
        decreases n,
    {
        if n == 0 {
            Self::one_spec()
        } else if n % 2 == 0 {
            let half = self.pow_spec(n / 2);
            half.times(half)
        } else {
            self.pow_spec((n - 1) as nat).times(self)
        }
    }

    /// The power with a natural exponent.
    pub fn pow(self, n: u32) -> (r: Scalar)
        ensures
            r == self.pow_spec(n as nat),
        decreases n,
    {
        if n == 0 {
            Scalar::one()
        } else if n % 2 == 0 {
            let half = self.pow(n / 2);
            half * half
        } else {
            self.pow(n - 1) * self
        }
    }

    /// The power with an integer exponent; a negative exponent gives the
    /// reciprocal of the positive power.
    pub open spec fn powi_spec(self, i: int) -> Scalar {
        if i >= 0 {
            self.pow_spec(i as nat)
        } else {
            Self::one_spec().over(self.pow_spec((-i) as nat))
        }
    }

    /// The power with an integer exponent.
    pub fn powi(self, i: i32) -> (r: Scalar)
        ensures
            r == self.powi_spec(i as int),
    {
        if i >= 0 {
            self.pow(i as u32)
        } else {
            let n: u32 = (-(i as i64)) as u32;
            Scalar::one() / self.pow(n)
        }
    }
}

/// The square root of a positive number times `UNIT` fits in 64 bits.
pub proof fn lemma_sqrt_in_range(raw: int)
    requires
        0 < raw <= i64::MAX,
    ensures
        floor_sqrt((raw * UNIT) as nat) <= i64::MAX,
{
    let n = (raw * UNIT) as nat;
    assert(0 < raw * UNIT < 0x4000_0000_0000_0000_0000_0000_0000_0000) by (nonlinear_arith)
        requires
            0 < raw <= 0x7fff_ffff_ffff_ffff,
            UNIT == 10_000_000_000_000,
    ;
    lemma_floor_sqrt(n);
    let r = floor_sqrt(n);
    if r > i64::MAX {
        let top: nat = 0x7fff_ffff_ffff_ffff;
        lemma_square_order(top as int, r as int);
        assert((top + 1) * (top + 1) == 0x4000_0000_0000_0000_0000_0000_0000_0000)
            by (nonlinear_arith)
            requires
                top == 0x7fff_ffff_ffff_ffff,
        ;
    }
}

} // verus!
