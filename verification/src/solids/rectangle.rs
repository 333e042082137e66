//! Rectangles, as two triangles that share a diagonal.

use crate::scalar::Scalar;
use crate::solids::triangle::Triangle;
use crate::vec3::Vec3;
use vstd::prelude::*;

verus! {

/// A rectangle by its corners. `t0` and `t1` are its two halves: they share
/// the diagonal from `p1` to `p2`.
#[derive(Clone, Copy, Debug, PartialEq, Eq)]
pub struct Rectangle {
    pub p0: Vec3<Scalar>,
    pub p1: Vec3<Scalar>,
    pub p2: Vec3<Scalar>,
    pub p3: Vec3<Scalar>,
    pub t0: Triangle,
    pub t1: Triangle,
}

impl Rectangle {
    /// The rectangle with the given corners and its two halves.
    pub open spec fn new_spec(
        p0: Vec3<Scalar>,
        p1: Vec3<Scalar>,
        p2: Vec3<Scalar>,
        p3: Vec3<Scalar>,
    ) -> Rectangle {
        Rectangle {
            p0,
            p1,
            p2,
            p3,
            t0: Triangle::new_spec(p0, p1, p2),
            t1: Triangle::new_spec(p3, p1, p2),
        }
    }

    /// The halves agree with the corners.
    pub open spec fn wf(&self) -> bool {
        *self == Self::new_spec(self.p0, self.p1, self.p2, self.p3)
    }

    /// The rectangle with the given corners.
    pub fn new(p0: Vec3<Scalar>, p1: Vec3<Scalar>, p2: Vec3<Scalar>, p3: Vec3<Scalar>) -> (r:
        Rectangle)
        ensures
            r == Self::new_spec(p0, p1, p2, p3),
            r.wf(),
    {
        let t0 = Triangle::new(p0, p1, p2);
        let t1 = Triangle::new(p3, p1, p2);
        Rectangle { p0, p1, p2, p3, t0, t1 }
    }
}

impl Rectangle {
    /// The hit on the first half where there is one, else that on the second.
    pub open spec fn intersect_spec(&self, origin: Vec3<Scalar>, direction: Vec3<Scalar>) -> Option<
        Scalar,
    > {
        match self.t0.intersect_spec(origin, direction) {
            Some(t) => Some(t),
            None => self.t1.intersect_spec(origin, direction),
        }
    }

    /// The normal of the first half, turned against the ray.
    pub open spec fn normal_at_spec(&self, hit: Vec3<Scalar>, direction: Vec3<Scalar>) -> Vec3<
        Scalar,
    > {
        self.t0.normal_at_spec(hit, direction)
    }

    /// The first corner.
    pub open spec fn position_spec(&self) -> Vec3<Scalar> {
        self.p0
    }

    /// Where the ray meets the rectangle.
    pub fn intersect(&self, origin: Vec3<Scalar>, direction: Vec3<Scalar>) -> (r: Option<Scalar>)
        ensures
            r == self.intersect_spec(origin, direction),
    {
        match self.t0.intersect(origin, direction) {
            Some(t) => Some(t),
            None => self.t1.intersect(origin, direction),
        }
    }

    /// The normal of the first half, turned against the ray.
    pub fn normal_at(&self, hit: Vec3<Scalar>, direction: Vec3<Scalar>) -> (r: Vec3<Scalar>)
        ensures
            r == self.normal_at_spec(hit, direction),
    {
        self.t0.normal_at(hit, direction)
    }

    /// The first corner.
    pub fn position(&self) -> (r: Vec3<Scalar>)
        ensures
            r == self.position_spec(),
    {
        self.p0
    }
}

} // verus!
