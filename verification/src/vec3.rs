//! Three-component vectors over fixed-point scalars.

use crate::intsqrt::{floor_sqrt, sqrt_floor};
use crate::scalar::{
    clamp, divide, lemma_product_bound, quotient, saturate, wide_times, Scalar, UNIT,
};
use core::ops::Neg;
use vstd::prelude::*;

verus! {

/// The sums of the squares of the raw components that part the vectors by
/// their length: in those under the first, each component is under `2^20`
/// raw units; under the second, under `2^40`; under the third, under `2^60`.
pub const TINY: u128 = 0x100_0000_0000;

pub const SHORT: u128 = 0x1_0000_0000_0000_0000_0000;

pub const MIDDLE: u128 = 0x100_0000_0000_0000_0000_0000_0000_0000;

/// The factors by which a vector is stretched before its length is taken:
/// the shorter the vector, the more it is stretched.
pub const STRETCH_TINY: u64 = 0x1000_0000_0000;

pub const STRETCH_SHORT: u64 = 0x100_0000;

pub const STRETCH_MIDDLE: u64 = 0x10;

/// A stretched component times `UNIT` fits in 128 bits, and the stretched
/// vector is long.
pub proof fn lemma_stretched_fits(raw: int, s: int)
    requires
        0 <= raw * raw <= s,
    ensures
        ({
            let k = Vec3::<Scalar>::stretch(s);
            &&& 0 < s ==> 0x100_0000_0000_0000_0000_0000 <= s * (k * k)
            &&& s * (k * k) <= u128::MAX || s > u128::MAX
            &&& s <= u128::MAX ==> -0x1_0000_0000_0000_0000 < raw * k < 0x1_0000_0000_0000_0000
            &&& s <= u128::MAX ==> -0x2000_0000_0000_0000_0000_0000_0000_0000 <= raw * k * UNIT
                <= 0x2000_0000_0000_0000_0000_0000_0000_0000
        }),
{
    let k = Vec3::<Scalar>::stretch(s);
    let kk = k * k;
    assert(kk == k * k);
    if s < TINY {
        assert(kk == 0x100_0000_0000_0000_0000_0000) by (nonlinear_arith)
            requires
                kk == k * k,
                k == 0x1000_0000_0000,
        ;
        assert(s * kk <= u128::MAX && (s > 0 ==> s * kk >= kk)) by (nonlinear_arith)
            requires
                0 <= s < 0x100_0000_0000,
                kk == 0x100_0000_0000_0000_0000_0000,
        ;
    } else if s < SHORT {
        assert(kk == 0x1_0000_0000_0000) by (nonlinear_arith)
            requires
                kk == k * k,
                k == 0x100_0000,
        ;
        assert(s * kk <= u128::MAX && s * kk >= 0x100_0000_0000_0000_0000_0000)
            by (nonlinear_arith)
            requires
                0x100_0000_0000 <= s < 0x1_0000_0000_0000_0000_0000,
                kk == 0x1_0000_0000_0000,
        ;
    } else if s < MIDDLE {
        assert(kk == 0x100) by (nonlinear_arith)
            requires
                kk == k * k,
                k == 0x10,
        ;
        assert(s * kk <= u128::MAX && s * kk >= 0x100_0000_0000_0000_0000_0000)
            by (nonlinear_arith)
            requires
                0x1_0000_0000_0000_0000_0000 <= s < 0x100_0000_0000_0000_0000_0000_0000_0000,
                kk == 0x100,
        ;
    } else {
        assert(kk == 1 && s * kk == s) by (nonlinear_arith)
            requires
                kk == k * k,
                k == 1,
        ;
    }
    if s <= u128::MAX {
        let c = raw * k;
        assert(c * c == raw * raw * kk) by (nonlinear_arith)
            requires
                c == raw * k,
                kk == k * k,
        ;
        assert(c * c <= s * kk) by (nonlinear_arith)
            requires
                c * c == raw * raw * kk,
                raw * raw <= s,
                kk >= 0,
        ;
        assert(-0x1_0000_0000_0000_0000 < c < 0x1_0000_0000_0000_0000) by (nonlinear_arith)
            requires
                c * c <= 0xffff_ffff_ffff_ffff_ffff_ffff_ffff_ffff,
        ;
        assert(-0x2000_0000_0000_0000_0000_0000_0000_0000 <= c * UNIT
            <= 0x2000_0000_0000_0000_0000_0000_0000_0000) by (nonlinear_arith)
            requires
                -0x1_0000_0000_0000_0000 < c < 0x1_0000_0000_0000_0000,
                UNIT == 10_000_000_000_000,
        ;
    }
}

/// A vector, a point or a colour, by its three components.
#[derive(Debug, PartialEq, Eq)]
pub struct Vec3<T> {
    pub x: T,
    pub y: T,
    pub z: T,
}

impl<T> Vec3<T> {
    /// The vector with the given components.
    pub fn new(x: T, y: T, z: T) -> (r: Vec3<T>)
        ensures
            r.x == x,
            r.y == y,
            r.z == z,
    {
        Vec3 { x, y, z }
    }
}

impl Clone for Vec3<Scalar> {
    /// A copy.
    fn clone(&self) -> (r: Vec3<Scalar>)
        ensures
            r == *self,
    {
        Vec3 { x: self.x, y: self.y, z: self.z }
    }
}

impl Copy for Vec3<Scalar> {}

impl Default for Vec3<Scalar> {
    /// The zero vector.
    fn default() -> (r: Vec3<Scalar>)
        ensures
            r == Vec3::<Scalar>::zero_spec(),
    {
        Vec3 { x: Scalar { raw: 0 }, y: Scalar { raw: 0 }, z: Scalar { raw: 0 } }
    }
}

impl vstd::std_specs::ops::NegSpecImpl for Vec3<Scalar> {
    open spec fn obeys_neg_spec() -> bool {
        true
    }

    open spec fn neg_req(self) -> bool {
        true
    }

    open spec fn neg_spec(self) -> Vec3<Scalar> {
        self.negated()
    }
}

impl core::ops::Neg for Vec3<Scalar> {
    type Output = Vec3<Scalar>;

    fn neg(self) -> (r: Vec3<Scalar>)
        ensures
            r == self.negated(),
    {
        Vec3 { x: self.x.neg(), y: self.y.neg(), z: self.z.neg() }
    }
}

impl vstd::std_specs::ops::AddSpecImpl for Vec3<Scalar> {
    open spec fn obeys_add_spec() -> bool {
        true
    }

    open spec fn add_req(self, rhs: Vec3<Scalar>) -> bool {
        true
    }

    open spec fn add_spec(self, rhs: Vec3<Scalar>) -> Vec3<Scalar> {
        self.plus(rhs)
    }
}

impl core::ops::Add for Vec3<Scalar> {
    type Output = Vec3<Scalar>;

    fn add(self, rhs: Vec3<Scalar>) -> (r: Vec3<Scalar>)
        ensures
            r == self.plus(rhs),
    {
        Vec3 { x: self.x + rhs.x, y: self.y + rhs.y, z: self.z + rhs.z }
    }
}

impl vstd::std_specs::ops::SubSpecImpl for Vec3<Scalar> {
    open spec fn obeys_sub_spec() -> bool {
        true
    }

    open spec fn sub_req(self, rhs: Vec3<Scalar>) -> bool {
        true
    }

    open spec fn sub_spec(self, rhs: Vec3<Scalar>) -> Vec3<Scalar> {
        self.minus(rhs)
    }
}

impl core::ops::Sub for Vec3<Scalar> {
    type Output = Vec3<Scalar>;

    fn sub(self, rhs: Vec3<Scalar>) -> (r: Vec3<Scalar>)
        ensures
            r == self.minus(rhs),
    {
        Vec3 { x: self.x - rhs.x, y: self.y - rhs.y, z: self.z - rhs.z }
    }
}

impl vstd::std_specs::ops::MulSpecImpl<Scalar> for Vec3<Scalar> {
    open spec fn obeys_mul_spec() -> bool {
        true
    }

    open spec fn mul_req(self, rhs: Scalar) -> bool {
        true
    }

    open spec fn mul_spec(self, rhs: Scalar) -> Vec3<Scalar> {
        self.scaled(rhs)
    }
}

impl core::ops::Mul<Scalar> for Vec3<Scalar> {
    type Output = Vec3<Scalar>;

    fn mul(self, rhs: Scalar) -> (r: Vec3<Scalar>)
        ensures
            r == self.scaled(rhs),
    {
        Vec3 { x: self.x * rhs, y: self.y * rhs, z: self.z * rhs }
    }
}

impl vstd::std_specs::ops::MulSpecImpl<Vec3<Scalar>> for Vec3<Scalar> {
    open spec fn obeys_mul_spec() -> bool {
        true
    }

    open spec fn mul_req(self, rhs: Vec3<Scalar>) -> bool {
        true
    }

    open spec fn mul_spec(self, rhs: Vec3<Scalar>) -> Vec3<Scalar> {
        self.times(rhs)
    }
}

impl core::ops::Mul<Vec3<Scalar>> for Vec3<Scalar> {
    type Output = Vec3<Scalar>;

    fn mul(self, rhs: Vec3<Scalar>) -> (r: Vec3<Scalar>)
        ensures
            r == self.times(rhs),
    {
        Vec3 { x: self.x * rhs.x, y: self.y * rhs.y, z: self.z * rhs.z }
    }
}

impl Vec3<Scalar> {
    /// The vector whose components are all zero.
    pub open spec fn zero_spec() -> Vec3<Scalar> {
        Vec3 { x: Scalar { raw: 0 }, y: Scalar { raw: 0 }, z: Scalar { raw: 0 } }
    }

    /// The opposite vector.
    pub open spec fn negated(self) -> Vec3<Scalar> {
        Vec3 { x: self.x.negated(), y: self.y.negated(), z: self.z.negated() }
    }

    /// The sum, component by component.
    pub open spec fn plus(self, rhs: Vec3<Scalar>) -> Vec3<Scalar> {
        Vec3 { x: self.x.plus(rhs.x), y: self.y.plus(rhs.y), z: self.z.plus(rhs.z) }
    }

    /// The difference, component by component.
    pub open spec fn minus(self, rhs: Vec3<Scalar>) -> Vec3<Scalar> {
        Vec3 { x: self.x.minus(rhs.x), y: self.y.minus(rhs.y), z: self.z.minus(rhs.z) }
    }

    /// The vector scaled by a number.
    pub open spec fn scaled(self, k: Scalar) -> Vec3<Scalar> {
        Vec3 { x: self.x.times(k), y: self.y.times(k), z: self.z.times(k) }
    }

    /// The product, component by component.
    pub open spec fn times(self, rhs: Vec3<Scalar>) -> Vec3<Scalar> {
        Vec3 { x: self.x.times(rhs.x), y: self.y.times(rhs.y), z: self.z.times(rhs.z) }
    }

    /// The sum of the squares of the raw components, exactly.
    pub open spec fn sum_squares(self) -> int {
        self.x.raw * self.x.raw + self.y.raw * self.y.raw + self.z.raw * self.z.raw
    }

    /// The squared length, rounded down and saturated.
    pub open spec fn len_sqr_spec(self) -> Scalar {
        Scalar { raw: clamp(self.sum_squares() / (UNIT as int)) as i64 }
    }

    /// The length, rounded down and saturated.
    pub open spec fn len_spec(self) -> Scalar {
        Scalar { raw: clamp(floor_sqrt(self.sum_squares() as nat) as int) as i64 }
    }

    /// The factor by which a vector is stretched before its length is
    /// taken, from the sum of the squares of its raw components: a short
    /// vector is stretched, so that its length is known to more digits than
    /// a number holds.
    pub open spec fn stretch(sum_squares: int) -> int {
        if sum_squares < TINY {
            STRETCH_TINY as int
        } else if sum_squares < SHORT {
            STRETCH_SHORT as int
        } else if sum_squares < MIDDLE {
            STRETCH_MIDDLE as int
        } else {
            1
        }
    }

    /// The length of the stretched vector in raw units, rounded down.
    pub open spec fn stretched_len(self) -> int {
        let k = Self::stretch(self.sum_squares());
        floor_sqrt((self.sum_squares() * (k * k)) as nat) as int
    }

    /// The vector divided by its length; the zero vector stays as it is.
    /// Each component of the stretched vector is divided by the length of
    /// the stretched vector.
    pub open spec fn normalize_spec(self) -> Vec3<Scalar> {
        if self.sum_squares() == 0 {
            self
        } else {
            let k = Self::stretch(self.sum_squares());
            let len = self.stretched_len();
            Vec3 {
                x: Scalar { raw: clamp(quotient(self.x.raw * k * UNIT, len)) as i64 },
                y: Scalar { raw: clamp(quotient(self.y.raw * k * UNIT, len)) as i64 },
                z: Scalar { raw: clamp(quotient(self.z.raw * k * UNIT, len)) as i64 },
            }
        }
    }

    /// The scalar product.
    pub open spec fn dot_spec(self, rhs: Vec3<Scalar>) -> Scalar {
        self.x.times(rhs.x).plus(self.y.times(rhs.y)).plus(self.z.times(rhs.z))
    }

    /// The vector product.
    pub open spec fn cross_spec(self, rhs: Vec3<Scalar>) -> Vec3<Scalar> {
        Vec3 {
            x: self.y.times(rhs.z).minus(self.z.times(rhs.y)),
            y: self.z.times(rhs.x).minus(self.x.times(rhs.z)),
            z: self.x.times(rhs.y).minus(self.y.times(rhs.x)),
        }
    }

    /// The distances of the components from zero.
    pub open spec fn abs_spec(self) -> Vec3<Scalar> {
        Vec3 { x: self.x.abs_spec(), y: self.y.abs_spec(), z: self.z.abs_spec() }
    }

    /// The powers of the components.
    pub open spec fn powi_spec(self, i: int) -> Vec3<Scalar> {
        Vec3 { x: self.x.powi_spec(i), y: self.y.powi_spec(i), z: self.z.powi_spec(i) }
    }

    /// The sum of the squares of the raw components.
    pub fn squares(&self) -> (s: u128)
        ensures
            s == self.sum_squares(),
    {
        proof {
            lemma_product_bound(self.x.raw as int, self.x.raw as int);
            lemma_product_bound(self.y.raw as int, self.y.raw as int);
            lemma_product_bound(self.z.raw as int, self.z.raw as int);
            assert(self.x.raw * self.x.raw >= 0) by (nonlinear_arith);
            assert(self.y.raw * self.y.raw >= 0) by (nonlinear_arith);
            assert(self.z.raw * self.z.raw >= 0) by (nonlinear_arith);
        }
        let xx: u128 = (self.x.raw as i128 * self.x.raw as i128) as u128;
        let yy: u128 = (self.y.raw as i128 * self.y.raw as i128) as u128;
        let zz: u128 = (self.z.raw as i128 * self.z.raw as i128) as u128;
        xx + yy + zz
    }

    /// The squared length.
    pub fn len_sqr(&self) -> (r: Scalar)
        ensures
            r == self.len_sqr_spec(),
    {
        let s = self.squares();
        Scalar { raw: saturate(false, s / (UNIT as u128)) }
    }

    /// The length.
    pub fn len(&self) -> (r: Scalar)
        ensures
            r == self.len_spec(),
    {
        let s = self.squares();
        Scalar { raw: saturate(false, sqrt_floor(s) as u128) }
    }

    /// Divides the vector by its length, in place, and hands it back.
    pub fn normalize(&mut self) -> (r: &Self)
        ensures
            *final(self) == old(self).normalize_spec(),
            *r == *final(self),
    {
        let s = self.squares();
        if s > 0 {
            let k: i128 = if s < TINY {
                STRETCH_TINY as i128
            } else if s < SHORT {
                STRETCH_SHORT as i128
            } else if s < MIDDLE {
                STRETCH_MIDDLE as i128
            } else {
                1
            };
            proof {
                assert(self.x.raw * self.x.raw >= 0 && self.y.raw * self.y.raw >= 0 && self.z.raw
                    * self.z.raw >= 0) by (nonlinear_arith);
                lemma_stretched_fits(self.x.raw as int, s as int);
                lemma_stretched_fits(self.y.raw as int, s as int);
                lemma_stretched_fits(self.z.raw as int, s as int);
            }
            let square: u128 = if s < TINY {
                0x100_0000_0000_0000_0000_0000
            } else if s < SHORT {
                0x1_0000_0000_0000
            } else if s < MIDDLE {
                0x100
            } else {
                1
            };
            assert(square == k * k) by (nonlinear_arith)
                requires
                    (k == 0x1000_0000_0000 && square == 0x100_0000_0000_0000_0000_0000) || (k
                        == 0x100_0000 && square == 0x1_0000_0000_0000) || (k == 0x10 && square
                        == 0x100) || (k == 1 && square == 1),
            ;
            let len = sqrt_floor(s * square) as i128;
            self.x = Scalar { raw: divide(self.x.raw as i128 * k * UNIT as i128, len) };
            self.y = Scalar { raw: divide(self.y.raw as i128 * k * UNIT as i128, len) };
            self.z = Scalar { raw: divide(self.z.raw as i128 * k * UNIT as i128, len) };
        }
        self
    }

    /// The scalar product.
    pub fn dot(&self, rhs: &Self) -> (r: Scalar)
        ensures
            r == self.dot_spec(*rhs),
    {
        self.x * rhs.x + self.y * rhs.y + self.z * rhs.z
    }

    /// The vector product.
    pub fn cross(&self, rhs: Self) -> (r: Vec3<Scalar>)
        ensures
            r == self.cross_spec(rhs),
    {
        Vec3::new(
            self.y * rhs.z - self.z * rhs.y,
            self.z * rhs.x - self.x * rhs.z,
            self.x * rhs.y - self.y * rhs.x,
        )
    }

    /// The distances of the components from zero.
    pub fn abs(&self) -> (r: Self)
        ensures
            r == self.abs_spec(),
    {
        Vec3::new(self.x.abs(), self.y.abs(), self.z.abs())
    }

    /// The components raised to the power `i`.
    pub fn powi(&self, i: i32) -> (r: Self)
        ensures
            r == self.powi_spec(i as int),
    {
        Vec3::new(self.x.powi(i), self.y.powi(i), self.z.powi(i))
    }
}

/// The discriminant of the equation `x t^2 + y t + z = 0`, whose
/// coefficients are the components of `eq`, in raw units: the square of `y`
/// less four times the product of `x` and `z`, each product rounded toward
/// zero and nothing cut off.
pub open spec fn discriminant_spec(eq: Vec3<Scalar>) -> int {
    quotient(eq.y.raw * eq.y.raw, UNIT as int) - 4 * quotient(eq.x.raw * eq.z.raw, UNIT as int)
}

/// A discriminant from which the root is taken in one step.
pub const PLAIN_ROOT: i128 = 0x10_0000_0000_0000_0000_0000;

/// The square root of a discriminant that is not negative, in raw units,
/// rounded down. Of a discriminant over `PLAIN_ROOT` it is four times the
/// root of a sixteenth, which is under the root by less than eight raw
/// units.
pub open spec fn root_spec(del: int) -> int {
    if del < PLAIN_ROOT {
        floor_sqrt((del * UNIT) as nat) as int
    } else {
        4 * (floor_sqrt(((del / 16) * UNIT) as nat) as int)
    }
}

/// The two roots of the equation, the one with the subtracted square root
/// first; none where the discriminant is negative. Only the roots
/// themselves are saturated. Where the first coefficient is zero, each root
/// is the end of the range on the side of what it divides.
pub open spec fn solve_quadratic_spec(eq: Vec3<Scalar>) -> Option<(Scalar, Scalar)> {
    let del = discriminant_spec(eq);
    if del < 0 {
        None
    } else {
        let root = root_spec(del);
        Some(
            (
                Scalar { raw: clamp(quotient((-eq.y.raw - root) * UNIT, 2 * eq.x.raw)) as i64 },
                Scalar { raw: clamp(quotient((-eq.y.raw + root) * UNIT, 2 * eq.x.raw)) as i64 },
            ),
        )
    }
}

/// Solves `x t^2 + y t + z = 0` for `t`, the coefficients being the
/// components of `eq`.
pub fn solve_quadratic(eq: &Vec3<Scalar>) -> (r: Option<(Scalar, Scalar)>)
    ensures
        r == solve_quadratic_spec(*eq),
{
    let del: i128 = wide_times(eq.y.raw, eq.y.raw) - 4 * wide_times(eq.x.raw, eq.z.raw);
    if del < 0 {
        return None;
    }
    let root: i128 = if del < PLAIN_ROOT {
        assert(del * UNIT <= u128::MAX) by (nonlinear_arith)
            requires
                0 <= del < 0x10_0000_0000_0000_0000_0000,
                UNIT == 10_000_000_000_000,
        ;
        sqrt_floor((del as u128) * (UNIT as u128)) as i128
    } else {
        let part: u128 = (del / 16) as u128;
        assert(part * UNIT <= u128::MAX) by (nonlinear_arith)
            requires
                0 <= part <= 0x4_0000_0000_0000_0000_0000,
                UNIT == 10_000_000_000_000,
        ;
        4 * (sqrt_floor(part * (UNIT as u128)) as i128)
    };
    let low: i128 = -(eq.y.raw as i128) - root;
    let high: i128 = -(eq.y.raw as i128) + root;
    assert(-0x1000_0000_0000_0000_0000_0000_0000_0000 <= low * UNIT
        <= 0x1000_0000_0000_0000_0000_0000_0000_0000 && -0x1000_0000_0000_0000_0000_0000_0000_0000
        <= high * UNIT <= 0x1000_0000_0000_0000_0000_0000_0000_0000) by (nonlinear_arith)
        requires
            -0x8_0000_0000_0000_0000 <= low <= 0x8_0000_0000_0000_0000,
            -0x8_0000_0000_0000_0000 <= high <= 0x8_0000_0000_0000_0000,
            UNIT == 10_000_000_000_000,
    ;
    let twice: i128 = 2 * (eq.x.raw as i128);
    let x0 = divide(low * (UNIT as i128), twice);
    let x1 = divide(high * (UNIT as i128), twice);
    Some((Scalar { raw: x0 }, Scalar { raw: x1 }))
}

/// The point at share `t` of the way from `a` to `b`.
pub open spec fn between(a: Scalar, b: Scalar, t: Scalar) -> Scalar {
    a.plus(b.minus(a).times(t))
}

/// `t` remapped so that it leaves zero and reaches one without a kink:
/// `t^3 (6 t^2 - 15 t + 10)`.
pub open spec fn smoothstep_spec(t: Scalar) -> Scalar {
    t.times(t).times(t).times(
        Scalar::from_int_spec(6).times(t).times(t).minus(Scalar::from_int_spec(15).times(t)).plus(
            Scalar::from_int_spec(10),
        ),
    )
}

/// Remaps a share so that it leaves zero and reaches one without a kink.
pub fn smoothstep(t: Scalar) -> (r: Scalar)
    ensures
        r == smoothstep_spec(t),
{
    t * t * t * (Scalar::from_int(6) * t * t - Scalar::from_int(15) * t + Scalar::from_int(10))
}

/// Values between which one can interpolate.
pub trait Lerp: Sized {
    /// The value at share `t` of the way from `self` to `dst`.
    spec fn lerp_spec(&self, dst: Self, t: Scalar) -> Self;

    fn lerp(&self, dst: Self, t: Scalar) -> (r: Self)
        ensures
            r == self.lerp_spec(dst, t),
    ;

    /// Interpolates with the share remapped by `smoothstep`.
    fn slerp(&self, dst: Self, t: Scalar) -> (r: Self)
        ensures
            r == self.lerp_spec(dst, smoothstep_spec(t)),
    ;
}

impl Lerp for Scalar {
    open spec fn lerp_spec(&self, dst: Scalar, t: Scalar) -> Scalar {
        between(*self, dst, t)
    }

    fn lerp(&self, dst: Scalar, t: Scalar) -> (r: Scalar) {
        *self + (dst - *self) * t
    }

    fn slerp(&self, dst: Scalar, t: Scalar) -> (r: Scalar) {
        *self + (dst - *self) * smoothstep(t)
    }
}

impl Lerp for Vec3<Scalar> {
    open spec fn lerp_spec(&self, dst: Vec3<Scalar>, t: Scalar) -> Vec3<Scalar> {
        Vec3 {
            x: between(self.x, dst.x, t),
            y: between(self.y, dst.y, t),
            z: between(self.z, dst.z, t),
        }
    }

    fn lerp(&self, dst: Vec3<Scalar>, t: Scalar) -> (r: Vec3<Scalar>) {
        Vec3::new(
            self.x + (dst.x - self.x) * t,
            self.y + (dst.y - self.y) * t,
            self.z + (dst.z - self.z) * t,
        )
    }

    fn slerp(&self, dst: Vec3<Scalar>, t: Scalar) -> (r: Vec3<Scalar>) {
        let s = smoothstep(t);
        Vec3::new(
            self.x + (dst.x - self.x) * s,
            self.y + (dst.y - self.y) * s,
            self.z + (dst.z - self.z) * s,
        )
    }
}

} // verus!
