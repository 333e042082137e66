//! Spheres.

use crate::intsqrt::{floor_sqrt, sqrt_floor};
use crate::scalar::{magnitude_of, quotient, square, wide_divide, Scalar, UNIT};
use crate::vec3::Vec3;
use crate::wide::lemma_rounded;
use vstd::prelude::*;

verus! {

/// The greatest difference of two numbers.
pub const SPAN: u128 = 0xffff_ffff_ffff_ffff;

/// The square of a raw value, rounded down.
fn wide_square(v: i128) -> (r: u128)
    requires
        -SPAN <= v <= SPAN,
    ensures
        r == square(v as int),
        r * UNIT <= u128::MAX,
        -(i64::MAX as int) - 1 <= v <= i64::MAX ==> r * UNIT
            <= 0x4000_0000_0000_0000_0000_0000_0000_0000,
{
    let m = magnitude_of(v);
    assert(m * m <= u128::MAX && m * m == v * v) by (nonlinear_arith)
        requires
            m <= 0xffff_ffff_ffff_ffff,
            m == v || m == -v,
    ;
    assert(m <= 0x8000_0000_0000_0000 ==> m * m <= 0x4000_0000_0000_0000_0000_0000_0000_0000)
        by (nonlinear_arith);
    let wide: u128 = m * m;
    assert((wide / (UNIT as u128)) * UNIT <= wide) by (nonlinear_arith)
        requires
            UNIT == 10_000_000_000_000,
    ;
    wide / (UNIT as u128)
}

/// One product of the scalar product of the way to the centre with the
/// direction.
fn wide_product(l: i128, d: i64) -> (r: i128)
    requires
        -SPAN <= l <= SPAN,
    ensures
        r == quotient(l * d, UNIT as int),
        -0x2000_0000_0000_0000_0000_0000_0000 <= r <= 0x2000_0000_0000_0000_0000_0000_0000,
{
    assert(-0x7fff_ffff_ffff_ffff_8000_0000_0000_0000 <= l * d
        <= 0x7fff_ffff_ffff_ffff_8000_0000_0000_0000) by (nonlinear_arith)
        requires
            -0xffff_ffff_ffff_ffff <= l <= 0xffff_ffff_ffff_ffff,
            -0x8000_0000_0000_0000 <= d <= 0x8000_0000_0000_0000,
    ;
    let r = wide_divide(l * (d as i128), UNIT as i128);
    proof {
        lemma_rounded(l * d);
    }
    r
}

/// A sphere by its centre and radius. `radius2` caches the squared radius as
/// far as a number holds it; where a ray meets the sphere is worked out from
/// the radius itself.
#[derive(Clone, Copy, Debug, PartialEq, Eq)]
pub struct Sphere {
    pub center: Vec3<Scalar>,
    pub radius: Scalar,
    pub radius2: Scalar,
}

impl Sphere {
    /// The cached square agrees with the radius.
    pub open spec fn wf(&self) -> bool {
        self.radius2 == self.radius.times(self.radius)
    }

    /// The sphere with the given centre and radius, and the radius squared.
    pub open spec fn new_spec(center: Vec3<Scalar>, radius: Scalar) -> Sphere {
        Sphere { center, radius, radius2: radius.times(radius) }
    }

    /// The sphere with the given centre and radius.
    pub fn new(center: Vec3<Scalar>, radius: Scalar) -> (r: Sphere)
        ensures
            r == Self::new_spec(center, radius),
            r.wf(),
    {
        Sphere { center, radius, radius2: radius * radius }
    }

    /// The way from `origin` to the centre, in raw units. It is not a
    /// vector of numbers: where the two lie far apart, it is longer than a
    /// number.
    pub open spec fn way(&self, origin: Vec3<Scalar>) -> (int, int, int) {
        (
            self.center.x.raw - origin.x.raw,
            self.center.y.raw - origin.y.raw,
            self.center.z.raw - origin.z.raw,
        )
    }

    /// The parameter of the point of the ray nearest the centre, in raw
    /// units: the scalar product of the way to the centre and the direction,
    /// each product rounded toward zero and nothing cut off.
    pub open spec fn nearest_parameter(
        &self,
        origin: Vec3<Scalar>,
        direction: Vec3<Scalar>,
    ) -> int {
        let (x, y, z) = self.way(origin);
        quotient(x * direction.x.raw, UNIT as int) + quotient(y * direction.y.raw, UNIT as int)
            + quotient(z * direction.z.raw, UNIT as int)
    }

    /// The squared radius, in raw units.
    pub open spec fn reach(&self) -> int {
        square(self.radius.raw as int)
    }

    /// The squared distance between the centre and the line of the ray, in
    /// raw units: the squared length of the way to the centre, less the
    /// square of the parameter of the point nearest the centre. Nothing is
    /// cut off between the squares and their difference.
    pub open spec fn offset_sqr(&self, origin: Vec3<Scalar>, direction: Vec3<Scalar>) -> int {
        let (x, y, z) = self.way(origin);
        square(x) + square(y) + square(z) - square(self.nearest_parameter(origin, direction))
    }

    /// Half the chord that the sphere cuts from the line of the ray, in raw
    /// units, rounded down.
    pub open spec fn half_chord(&self, origin: Vec3<Scalar>, direction: Vec3<Scalar>) -> int {
        let under = self.reach() - self.offset_sqr(origin, direction);
        floor_sqrt((under * UNIT) as nat) as int
    }

    /// The parameter at which the ray enters the sphere where that lies
    /// ahead of the origin, else the parameter at which it leaves the
    /// sphere; in raw units.
    pub open spec fn crossing(&self, origin: Vec3<Scalar>, direction: Vec3<Scalar>) -> int {
        let tca = self.nearest_parameter(origin, direction);
        let thc = self.half_chord(origin, direction);
        if tca - thc >= 0 {
            tca - thc
        } else {
            tca + thc
        }
    }
}

impl Sphere {
    /// For a direction of unit length: no hit where the line passes farther
    /// from the centre than the radius, and none behind the origin; else the
    /// nearer crossing that lies ahead of the origin. The offset and the
    /// crossings are worked out in whole
    /// raw units without a limit. There is no hit where the point nearest
    /// the centre or the crossing lies past the range of numbers: a hit is
    /// always a point that the ray reaches within that range.
    pub open spec fn intersect_spec(&self, origin: Vec3<Scalar>, direction: Vec3<Scalar>) -> Option<
        Scalar,
    > {
        let tca = self.nearest_parameter(origin, direction);
        let t = self.crossing(origin, direction);
        if i64::MIN <= tca <= i64::MAX && self.offset_sqr(origin, direction) <= self.reach() && 0
            <= t <= i64::MAX {
            Some(Scalar { raw: t as i64 })
        } else {
            None
        }
    }

    /// The unit vector from the centre to the hit point.
    pub open spec fn normal_at_spec(&self, hit: Vec3<Scalar>, direction: Vec3<Scalar>) -> Vec3<
        Scalar,
    > {
        hit.minus(self.center).normalize_spec()
    }

    /// The centre.
    pub open spec fn position_spec(&self) -> Vec3<Scalar> {
        self.center
    }

    /// Where the ray meets the sphere.
    pub fn intersect(&self, origin: Vec3<Scalar>, direction: Vec3<Scalar>) -> (r: Option<Scalar>)
        ensures
            r == self.intersect_spec(origin, direction),
    {
        let x: i128 = self.center.x.raw as i128 - origin.x.raw as i128;
        let y: i128 = self.center.y.raw as i128 - origin.y.raw as i128;
        let z: i128 = self.center.z.raw as i128 - origin.z.raw as i128;
        let tca: i128 = wide_product(x, direction.x.raw) + wide_product(y, direction.y.raw)
            + wide_product(z, direction.z.raw);
        if tca < i64::MIN as i128 || tca > i64::MAX as i128 {
            return None;
        }
        let squares: u128 = wide_square(x) + wide_square(y) + wide_square(z);
        let back: u128 = wide_square(tca);
        let reach: u128 = wide_square(self.radius.raw as i128);
        if squares > back && squares - back > reach {
            return None;
        }
        // the room under the root: the reach less the offset
        let under: u128 = reach + back - squares;
        assert(under * UNIT <= u128::MAX) by (nonlinear_arith)
            requires
                under <= reach + back,
                reach * UNIT <= 0x4000_0000_0000_0000_0000_0000_0000_0000,
                back * UNIT <= 0x4000_0000_0000_0000_0000_0000_0000_0000,
                UNIT == 10_000_000_000_000,
        ;
        let thc: i128 = sqrt_floor(under * (UNIT as u128)) as i128;
        let t: i128 = if tca - thc >= 0 {
            tca - thc
        } else {
            tca + thc
        };
        if 0 <= t && t <= i64::MAX as i128 {
            Some(Scalar { raw: t as i64 })
        } else {
            None
        }
    }

    /// The normal of the surface at `hit`.
    pub fn normal_at(&self, hit: Vec3<Scalar>, direction: Vec3<Scalar>) -> (r: Vec3<Scalar>)
        ensures
            r == self.normal_at_spec(hit, direction),
    {
        let mut res = hit - self.center;
        res.normalize();
        res
    }

    /// The centre.
    pub fn position(&self) -> (r: Vec3<Scalar>)
        ensures
            r == self.position_spec(),
    {
        self.center
    }
}

} // verus!
