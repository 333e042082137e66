//! Triangles.

use crate::scalar::{Scalar, UNIT};
use crate::vec3::Vec3;
use crate::wide::{
    apart, apart_of, cross3, cross_of, dot3, dot_of, ratio, ratio_of, raws, raws_of,
};
use core::ops::Neg;
use vstd::prelude::*;

verus! {

/// Raw value of the tolerance under which a ray counts as parallel to a
/// triangle, and a hit as lying at the origin: a hundred-millionth.
pub const EPSILON: i64 = 100_000;

/// A triangle by its corners; `u` and `v` are the edges that leave `p0`,
/// `normal` the unit normal of the face.
#[derive(Clone, Copy, Debug, PartialEq, Eq)]
pub struct Triangle {
    pub p0: Vec3<Scalar>,
    pub p1: Vec3<Scalar>,
    pub p2: Vec3<Scalar>,
    pub u: Vec3<Scalar>,
    pub v: Vec3<Scalar>,
    pub normal: Vec3<Scalar>,
}

impl Triangle {
    /// The triangle with the given corners, its edges and its normal.
    pub open spec fn new_spec(p0: Vec3<Scalar>, p1: Vec3<Scalar>, p2: Vec3<Scalar>) -> Triangle {
        let u = p1.minus(p0);
        let v = p2.minus(p0);
        Triangle { p0, p1, p2, u, v, normal: u.cross_spec(v).negated().normalize_spec() }
    }

    /// The edges and the normal agree with the corners.
    pub open spec fn wf(&self) -> bool {
        *self == Self::new_spec(self.p0, self.p1, self.p2)
    }

    /// The triangle with the given corners.
    pub fn new(p0: Vec3<Scalar>, p1: Vec3<Scalar>, p2: Vec3<Scalar>) -> (r: Triangle)
        ensures
            r == Self::new_spec(p0, p1, p2),
            r.wf(),
    {
        let u = p1 - p0;
        let v = p2 - p0;
        let mut normal = u.cross(v).neg();
        normal.normalize();
        Triangle { p0, p1, p2, u, v, normal }
    }

    /// The determinant of the ray's direction and the two edges, in raw
    /// units, where the products on the way to it fit. It is zero where the
    /// ray runs in the plane of the triangle or beside it.
    pub open spec fn determinant(&self, direction: Vec3<Scalar>) -> Option<int> {
        match cross3(raws(direction), raws(self.v)) {
            Some(h) => dot3(raws(self.u), h),
            None => None,
        }
    }

    /// The ray is parallel to the plane of the triangle, within the
    /// tolerance.
    pub open spec fn is_parallel(&self, direction: Vec3<Scalar>) -> bool {
        self.determinant(direction) matches Some(a) && -EPSILON < a < EPSILON
    }

    /// The three values that are divided by the determinant: for the first
    /// and the second barycentric coordinate of the point where the ray meets
    /// the plane, and for the ray parameter of that point.
    pub open spec fn numerators(&self, origin: Vec3<Scalar>, direction: Vec3<Scalar>) -> Option<
        (int, int, int),
    > {
        let s = apart(origin, self.p0);
        match (cross3(raws(direction), raws(self.v)), cross3(s, raws(self.u))) {
            (Some(h), Some(q)) => match (
                dot3(s, h),
                dot3(raws(direction), q),
                dot3(raws(self.v), q),
            ) {
                (Some(first), Some(second), Some(third)) => Some((first, second, third)),
                _ => None,
            },
            _ => None,
        }
    }

    /// The barycentric coordinates of the point where the ray meets the
    /// plane, and the ray parameter of that point, in raw units: the
    /// numerators, each divided by the determinant. There are none where
    /// the ray is parallel to the plane, and none where a product on the
    /// way does not fit in 128 bits.
    pub open spec fn meeting(&self, origin: Vec3<Scalar>, direction: Vec3<Scalar>) -> Option<
        (int, int, int),
    > {
        match (self.determinant(direction), self.numerators(origin, direction)) {
            (Some(a), Some((first, second, third))) => match (
                ratio(first, a),
                ratio(second, a),
                ratio(third, a),
            ) {
                (Some(w), Some(z), Some(t)) => if -EPSILON < a < EPSILON {
                    None
                } else {
                    Some((w, z, t))
                },
                _ => None,
            },
            _ => None,
        }
    }

    /// The point with the barycentric coordinates `w` and `z` lies in the
    /// triangle.
    pub open spec fn inside(w: int, z: int) -> bool {
        &&& 0 <= w <= UNIT
        &&& 0 <= z
        &&& w + z <= UNIT
    }
}

impl Triangle {
    /// A hit where the ray is not parallel to the plane, meets it inside the
    /// triangle, and does so ahead of the origin by more than the tolerance
    /// and within the range of numbers.
    pub open spec fn intersect_spec(&self, origin: Vec3<Scalar>, direction: Vec3<Scalar>) -> Option<
        Scalar,
    > {
        match self.meeting(origin, direction) {
            Some((w, z, t)) => if Self::inside(w, z) && EPSILON < t <= i64::MAX {
                Some(Scalar { raw: t as i64 })
            } else {
                None
            },
            None => None,
        }
    }

    /// The face normal, turned against the ray.
    pub open spec fn normal_at_spec(&self, hit: Vec3<Scalar>, direction: Vec3<Scalar>) -> Vec3<
        Scalar,
    > {
        if self.normal.dot_spec(direction).raw > 0 {
            self.normal.negated()
        } else {
            self.normal
        }
    }

    /// The first corner.
    pub open spec fn position_spec(&self) -> Vec3<Scalar> {
        self.p0
    }

    /// Where the ray meets the triangle.
    pub fn intersect(&self, origin: Vec3<Scalar>, direction: Vec3<Scalar>) -> (r: Option<Scalar>)
        ensures
            r == self.intersect_spec(origin, direction),
    {
        let d = raws_of(direction);
        let u = raws_of(self.u);
        let v = raws_of(self.v);
        let s = apart_of(origin, self.p0);
        let h = match cross_of(d, v) {
            Some(h) => h,
            None => {
                return None;
            },
        };
        let a = match dot_of(u, h) {
            Some(a) => a,
            None => {
                return None;
            },
        };
        if a > -(EPSILON as i128) && a < EPSILON as i128 {
            return None;
        }
        let q = match cross_of(s, u) {
            Some(q) => q,
            None => {
                return None;
            },
        };
        let (first, second, third) = match (dot_of(s, h), dot_of(d, q), dot_of(v, q)) {
            (Some(first), Some(second), Some(third)) => (first, second, third),
            _ => {
                return None;
            },
        };
        match (ratio_of(first, a), ratio_of(second, a), ratio_of(third, a)) {
            (Some(w), Some(z), Some(t)) => {
                let inside = 0 <= w && w <= UNIT as i128 && 0 <= z && z <= UNIT as i128 - w;
                if inside && t > EPSILON as i128 && t <= i64::MAX as i128 {
                    Some(Scalar { raw: t as i64 })
                } else {
                    None
                }
            },
            _ => None,
        }
    }

    /// The face normal, turned against the ray.
    pub fn normal_at(&self, hit: Vec3<Scalar>, direction: Vec3<Scalar>) -> (r: Vec3<Scalar>)
        ensures
            r == self.normal_at_spec(hit, direction),
    {
        if self.normal.dot(&direction).raw > 0 {
            self.normal.neg()
        } else {
            self.normal
        }
    }

    /// The first corner.
    pub fn position(&self) -> (r: Vec3<Scalar>)
        ensures
            r == self.position_spec(),
    {
        self.p0
    }
}

} // verus!
