//! The shapes a scene is made of, and the objects that carry them.

pub mod rectangle;
pub mod sphere;
pub mod triangle;

use crate::scalar::Scalar;
use crate::solids::rectangle::Rectangle;
use crate::solids::sphere::Sphere;
use crate::solids::triangle::Triangle;
use crate::vec3::Vec3;
use vstd::prelude::*;

verus! {

/// The shapes that exist. Each answers three questions: where a ray meets
/// it, what the normal of its surface is there, and which point stands for it
/// where it acts as a light.
#[derive(Clone, Copy, Debug, PartialEq, Eq)]
pub enum Solid {
    Sphere(Sphere),
    Triangle(Triangle),
    Rectangle(Rectangle),
}

impl Solid {
    /// The ray parameter of the nearest point ahead of `origin` where the
    /// ray meets the shape, if it meets it.
    pub open spec fn intersect_spec(&self, origin: Vec3<Scalar>, direction: Vec3<Scalar>) -> Option<
        Scalar,
    > {
        match *self {
            Solid::Sphere(s) => s.intersect_spec(origin, direction),
            Solid::Triangle(t) => t.intersect_spec(origin, direction),
            Solid::Rectangle(r) => r.intersect_spec(origin, direction),
        }
    }

    /// The unit normal of the surface at `hit`, for a ray that arrives along
    /// `direction`.
    pub open spec fn normal_at_spec(&self, hit: Vec3<Scalar>, direction: Vec3<Scalar>) -> Vec3<
        Scalar,
    > {
        match *self {
            Solid::Sphere(s) => s.normal_at_spec(hit, direction),
            Solid::Triangle(t) => t.normal_at_spec(hit, direction),
            Solid::Rectangle(r) => r.normal_at_spec(hit, direction),
        }
    }

    /// The point that stands for the shape where it acts as a light.
    pub open spec fn position_spec(&self) -> Vec3<Scalar> {
        match *self {
            Solid::Sphere(s) => s.position_spec(),
            Solid::Triangle(t) => t.position_spec(),
            Solid::Rectangle(r) => r.position_spec(),
        }
    }

    /// Where the ray meets the shape.
    pub fn intersect(&self, origin: Vec3<Scalar>, direction: Vec3<Scalar>) -> (r: Option<Scalar>)
        ensures
            r == self.intersect_spec(origin, direction),
    {
        match self {
            Solid::Sphere(s) => s.intersect(origin, direction),
            Solid::Triangle(t) => t.intersect(origin, direction),
            Solid::Rectangle(r) => r.intersect(origin, direction),
        }
    }

    /// The normal of the surface at `hit`.
    pub fn normal_at(&self, hit: Vec3<Scalar>, direction: Vec3<Scalar>) -> (r: Vec3<Scalar>)
        ensures
            r == self.normal_at_spec(hit, direction),
    {
        match self {
            Solid::Sphere(s) => s.normal_at(hit, direction),
            Solid::Triangle(t) => t.normal_at(hit, direction),
            Solid::Rectangle(r) => r.normal_at(hit, direction),
        }
    }

    /// The point that stands for the shape.
    pub fn position(&self) -> (r: Vec3<Scalar>)
        ensures
            r == self.position_spec(),
    {
        match self {
            Solid::Sphere(s) => s.position(),
            Solid::Triangle(t) => t.position(),
            Solid::Rectangle(r) => r.position(),
        }
    }
}

/// A shape with its material. An object whose emission has a positive first
/// channel lights the scene from `pos`.
#[derive(Clone, Copy, Debug, PartialEq, Eq)]
pub struct Object {
    pub pos: Vec3<Scalar>,
    pub emission_color: Vec3<Scalar>,
    pub surface_color: Vec3<Scalar>,
    pub transparency: Scalar,
    pub reflection: Scalar,
    pub solid: Solid,
}

impl Object {
    /// The cached position is the shape's own.
    pub open spec fn wf(&self) -> bool {
        self.pos == self.solid.position_spec()
    }

    /// The object emits light.
    pub open spec fn is_light(&self) -> bool {
        self.emission_color.x.raw > 0
    }

    /// The object with the given material and shape, placed where the shape
    /// is.
    pub open spec fn new_spec(
        surface_color: Vec3<Scalar>,
        emission_color: Vec3<Scalar>,
        reflection: Scalar,
        transparency: Scalar,
        solid: Solid,
    ) -> Object {
        Object {
            pos: solid.position_spec(),
            emission_color,
            surface_color,
            transparency,
            reflection,
            solid,
        }
    }

    /// Puts a material on a shape.
    pub fn new(
        surface_color: Vec3<Scalar>,
        emission_color: Vec3<Scalar>,
        reflection: Scalar,
        transparency: Scalar,
        solid: Solid,
    ) -> (r: Object)
        ensures
            r == Self::new_spec(surface_color, emission_color, reflection, transparency, solid),
            r.wf(),
    {
        Object {
            pos: solid.position(),
            emission_color,
            surface_color,
            transparency,
            reflection,
            solid,
        }
    }
}

} // verus!
